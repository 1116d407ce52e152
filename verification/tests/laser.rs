use flatcam::gcode::Units;
use flatcam::laser::laser_gcode;

/// Points rendered as the emitter prints them: four decimals, and the `S`
/// value of each point as its factor times the maximum spindle value,
/// rounded.
fn render(path: &[(f64, f64, f32)], smax: f64) -> Vec<(String, String, String)> {
    path.iter()
        .map(|&(x, y, f)| {
            (format!("{:.4}", x), format!("{:.4}", y), format!("{:.0}", ((f as f64) * smax).round()))
        })
        .collect()
}

#[test]
fn gcode_dynamic_mode_contains_m4_and_units() {
    let paths = vec![render(&[(0.0, 0.0, 0.5), (1.0, 0.0, 0.5), (1.0, 1.0, 1.0)], 1000.0)];
    let gc = laser_gcode(&paths, Units::Mm, "120", true);
    assert!(gc.contains("G21"), "expected mm units:\n{}", gc);
    assert!(gc.contains("M4"), "expected dynamic laser mode:\n{}", gc);
    assert!(!gc.contains("M3"), "should not contain constant mode:\n{}", gc);
    assert!(gc.contains('S'), "expected at least one S value:\n{}", gc);
    assert!(gc.contains("M5"), "expected laser-off:\n{}", gc);
    assert!(gc.contains("M2"), "expected program end:\n{}", gc);
}

#[test]
fn gcode_constant_mode_uses_m3() {
    let paths = vec![render(&[(0.0, 0.0, 0.5), (1.0, 0.0, 0.5)], 1000.0)];
    let gc = laser_gcode(&paths, Units::Mm, "120", false);
    assert!(gc.contains("M3"), "expected constant laser mode:\n{}", gc);
    assert!(gc.contains("G21"), "expected mm units:\n{}", gc);
    assert!(gc.contains('S'), "expected at least one S value:\n{}", gc);
    assert!(gc.contains("M5"), "expected laser-off:\n{}", gc);
}

#[test]
fn gcode_skips_short_paths_for_motion() {
    let paths = vec![render(&[(0.0, 0.0, 1.0)], 1000.0)];
    let gc = laser_gcode(&paths, Units::Mm, "120", true);
    assert!(!gc.contains("G1"), "single-point path should emit no cuts:\n{}", gc);
}

#[test]
fn laser_program_exact_text() {
    let paths = vec![
        render(&[(0.0, 0.0, 1.0), (2.5, 0.0, 0.25), (2.5, 1.0, 1.0)], 800.0),
        render(&[(9.0, 9.0, 1.0)], 800.0),
        render(&[(-1.0, 2.0, 1.0), (3.0, 4.0, 0.5)], 800.0),
    ];
    let gc = laser_gcode(&paths, Units::Inch, "300", false);
    assert_eq!(
        gc,
        "G90\nG20\nM5\n\
         G0 X0.0000 Y0.0000\nM3\nG1 X2.5000 Y0.0000 S200 F300\nG1 X2.5000 Y1.0000 S800 F300\nM5\n\
         G0 X-1.0000 Y2.0000\nM3\nG1 X3.0000 Y4.0000 S400 F300\nM5\n\
         M5\nM2\n"
    );
}

#[test]
fn laser_program_without_paths() {
    let gc = laser_gcode(&vec![], Units::Mm, "120", true);
    assert_eq!(gc, "G90\nG21\nM5\nM5\nM2\n");
}
