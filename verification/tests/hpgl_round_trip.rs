use flatcam::gcode::{emit_job, Dialect, JobMotions, JobWords, Units};
use flatcam::hpgl::{parse, Move};

fn words() -> JobWords {
    JobWords {
        units: Units::Mm,
        tool_diameter: "0.1000".to_string(),
        cut_z: "-0.0500".to_string(),
        travel_z: "2.0000".to_string(),
        feed_xy: "120".to_string(),
        feed_z: "60".to_string(),
        spindle: "1000".to_string(),
        fan_power: "255".to_string(),
    }
}

fn pts(v: &[(i64, i64)]) -> Vec<(String, String)> {
    v.iter().map(|&(x, y)| (x.to_string(), y.to_string())).collect()
}

/// The strokes of a read document as the coordinate texts of their moves.
fn strokes(text: &str) -> Vec<Vec<(String, String)>> {
    let doc = parse(text).expect("reads");
    doc.polylines
        .iter()
        .map(|pl| {
            pl.iter()
                .map(|&i| match &doc.moves[i] {
                    Move::Absolute { x, y } => (x.iter().collect(), y.iter().collect()),
                    Move::Relative { .. } => panic!("relative move"),
                })
                .collect()
        })
        .collect()
}

#[test]
fn hpgl_mill_program_reads_back_per_pass() {
    let a = [(0, 0), (400, 0), (400, -120)];
    let b = [(-40, 80), (120, 160)];
    let job = JobMotions::Mill { paths: vec![pts(&a), pts(&[(7, 7)]), pts(&b)] };
    let depths = vec!["-0.1000".to_string(), "-0.2000".to_string()];
    let g = emit_job(Dialect::Hpgl, &words(), &job, &depths);
    let got = strokes(&g);
    assert_eq!(got, vec![pts(&a), pts(&a), pts(&b), pts(&b)]);
}

#[test]
fn hpgl_mill_program_exact_text() {
    let job = JobMotions::Mill { paths: vec![pts(&[(0, 0), (400, 0)])] };
    let g = emit_job(Dialect::Hpgl, &words(), &job, &vec!["-0.0500".to_string()]);
    assert_eq!(g, "IN;\nSP1;\nPU;\nPU;\nPA0,0;\nPD;\nPA400,0;\nPU;\nPU;\nPA0,0;\nSP0;\n");
    assert_eq!(strokes(&g), vec![pts(&[(0, 0), (400, 0)])]);
}
