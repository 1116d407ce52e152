use flatcam::gcode::{emit_job, Dialect, JobMotions, JobWords, Units};
use flatcam::gcode_reader::{gcode_words, read_gcode};

fn words(units: Units) -> JobWords {
    JobWords {
        units,
        tool_diameter: "0.1000".to_string(),
        cut_z: "-0.0500".to_string(),
        travel_z: "2.0000".to_string(),
        feed_xy: "120".to_string(),
        feed_z: "60".to_string(),
        spindle: "1000".to_string(),
        fan_power: "255".to_string(),
    }
}

fn pts(v: &[(f64, f64)]) -> Vec<(String, String)> {
    v.iter().map(|&(x, y)| (format!("{:.4}", x), format!("{:.4}", y))).collect()
}

fn read_back(text: &str) -> (Units, Vec<Vec<(f64, f64)>>) {
    let words = gcode_words(text);
    let lines: Vec<Vec<(char, u64)>> = words
        .iter()
        .map(|l| {
            l.iter()
                .map(|(c, v)| (*c, v.iter().collect::<String>().parse::<f64>().unwrap().to_bits()))
                .collect()
        })
        .collect();
    let r = read_gcode(&lines);
    let paths = r
        .paths
        .iter()
        .map(|p| p.iter().map(|&(x, y)| (f64::from_bits(x), f64::from_bits(y))).collect())
        .collect();
    (r.units, paths)
}

#[test]
fn grbl_mill_program_reads_back_per_pass() {
    let a = [(0.0, 0.0), (10.0, 0.0), (10.0, 5.5)];
    let b = [(-1.25, 2.0), (3.0, -4.0)];
    let job = JobMotions::Mill { paths: vec![pts(&a), pts(&[(7.0, 7.0)]), pts(&b)] };
    let depths = vec!["-0.1000".to_string(), "-0.2000".to_string()];
    let g = emit_job(Dialect::Grbl, &words(Units::Inch), &job, &depths);
    let (units, paths) = read_back(&g);
    assert_eq!(units, Units::Inch);
    let a: Vec<(f64, f64)> = a.to_vec();
    let b: Vec<(f64, f64)> = b.to_vec();
    assert_eq!(paths, vec![a.clone(), a, b.clone(), b]);
}

#[test]
fn grbl_mill_program_without_depths_reads_no_path() {
    let job = JobMotions::Mill { paths: vec![pts(&[(0.0, 0.0), (1.0, 1.0)])] };
    let g = emit_job(Dialect::Grbl, &words(Units::Mm), &job, &vec![]);
    let (units, paths) = read_back(&g);
    assert_eq!(units, Units::Mm);
    assert!(paths.is_empty());
}
