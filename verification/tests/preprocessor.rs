use flatcam::gcode::{emit_job, emit_job_with, Dialect, Grbl, JobMotions, JobWords, Marlin, Preprocessor, Units};

fn words() -> JobWords {
    JobWords {
        units: Units::Mm,
        tool_diameter: "0.1000".to_string(),
        cut_z: "-0.0500".to_string(),
        travel_z: "2.0000".to_string(),
        feed_xy: "120".to_string(),
        feed_z: "60".to_string(),
        spindle: "1000".to_string(),
        fan_power: "255".to_string(),
    }
}

fn mill_job() -> JobMotions {
    JobMotions::Mill {
        paths: vec![vec![
            ("0.0000".to_string(), "0.0000".to_string()),
            ("5.0000".to_string(), "5.0000".to_string()),
        ]],
    }
}

#[test]
fn builtin_dialect_through_the_trait_writes_the_same_program() {
    let depths = vec!["-0.0500".to_string()];
    for d in [Dialect::Grbl, Dialect::Marlin, Dialect::Hpgl] {
        assert_eq!(emit_job_with(&d, &words(), &mill_job(), &depths), emit_job(d, &words(), &mill_job(), &depths));
    }
    assert_eq!(Preprocessor::name(&Dialect::Grbl), "GRBL");
}

#[test]
fn grbl_and_marlin_structs_drive_the_emitter() {
    let depths = vec!["-0.0500".to_string()];
    let g = emit_job_with(&Grbl, &words(), &mill_job(), &depths);
    assert_eq!(g, emit_job(Dialect::Grbl, &words(), &mill_job(), &depths));
    assert!(g.contains("G01 X5.0000 Y5.0000 F120\n"));
    let m = emit_job_with(&Marlin, &words(), &mill_job(), &depths);
    assert_eq!(m, emit_job(Dialect::Marlin, &words(), &mill_job(), &depths));
    assert!(m.contains("G1 X5.0000 Y5.0000 F120\n"));
    assert_eq!(Preprocessor::name(&Grbl), "GRBL");
    assert_eq!(Preprocessor::name(&Marlin), "Marlin");
}
