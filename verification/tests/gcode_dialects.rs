use flatcam::gcode::{
    by_name, by_name_eleks, by_name_extra, by_name_laser2, by_name_more, by_name_parity, by_name_paste,
    by_name_paste2, emit_job, Berta, CheckPoints, DefaultLaser, Dialect, Emc2, GenericDefault, Grbl,
    GrblDynamicLaser, GrblLaser, GrblLaserAirAssist, GrblLaserEleksDrd, GrblLaserZ, Hpgl, Isel, IselIcp,
    JobMotions, JobWords, LineXyz, LinuxCnc, Mach3, MarlinLaserFan, MarlinLaserSpindle, MarlinLaserZ,
    Nccad9, Paste1, PasteGrbl, PasteMarlin, Repetier, RolandMdx540, Smoothie, SolderPaste, TinyG,
    ToolchangeManual, ToolchangeProbe, Units,
};

/// The words of the default job (mm, tool 0.1, cut -0.05, travel 2, feeds
/// 120/60, spindle 1000), rendered as the emitter prints them.
fn words() -> JobWords {
    JobWords {
        units: Units::Mm,
        tool_diameter: "0.1000".to_string(),
        cut_z: "-0.0500".to_string(),
        travel_z: "2.0000".to_string(),
        feed_xy: "120".to_string(),
        feed_z: "60".to_string(),
        spindle: "1000".to_string(),
        fan_power: "255".to_string(),
    }
}

/// A coordinate as the dialect prints it: plotter units for HPGL, four
/// decimals otherwise.
fn coord(d: Dialect, v: f64) -> String {
    if d == Dialect::Hpgl {
        format!("{}", (v * 40.0).round() as i64)
    } else {
        format!("{:.4}", v)
    }
}

/// Render a small mill job's motions through a dialect into a String.
fn render(d: Dialect) -> String {
    let w = words();
    let mut g = String::new();
    d.header(&mut g, &w);
    d.rapid_z(&mut g, &w.travel_z);
    d.rapid_xy(&mut g, &coord(d, 0.0), &coord(d, 0.0));
    d.plunge(&mut g, &w.cut_z, &w);
    d.linear(&mut g, &coord(d, 10.0), &coord(d, 0.0), &w);
    d.linear(&mut g, &coord(d, 10.0), &coord(d, 10.0), &w);
    d.rapid_z(&mut g, &w.travel_z);
    d.footer(&mut g, &w);
    g
}

/// A paste job: one linear move only.
fn render_paste(d: Dialect) -> String {
    let w = words();
    let mut g = String::new();
    d.header(&mut g, &w);
    d.rapid_z(&mut g, &w.travel_z);
    d.rapid_xy(&mut g, &coord(d, 0.0), &coord(d, 0.0));
    d.plunge(&mut g, &w.cut_z, &w);
    d.linear(&mut g, &coord(d, 10.0), &coord(d, 0.0), &w);
    d.rapid_z(&mut g, &w.travel_z);
    d.footer(&mut g, &w);
    g
}

fn header_string(d: Dialect) -> String {
    let mut g = String::new();
    d.header(&mut g, &words());
    g
}

fn footer_string(d: Dialect) -> String {
    let mut g = String::new();
    d.footer(&mut g, &words());
    g
}

/// A drill-style job: two marks.
fn render_drill(d: Dialect) -> String {
    let w = words();
    let mut g = String::new();
    d.header(&mut g, &w);
    for &(x, y) in &[(1.0, 1.0), (2.0, 3.0)] {
        d.rapid_z(&mut g, &w.travel_z);
        d.rapid_xy(&mut g, &coord(d, x), &coord(d, y));
        d.plunge(&mut g, &w.cut_z, &w);
        d.rapid_z(&mut g, &w.travel_z);
    }
    d.footer(&mut g, &w);
    g
}

fn pts(v: &[(f64, f64)]) -> Vec<(String, String)> {
    v.iter().map(|&(x, y)| (format!("{:.4}", x), format!("{:.4}", y))).collect()
}

// ----- generic job emission -----

#[test]
fn grbl_mill_gcode_has_structure() {
    let job = JobMotions::Mill { paths: vec![pts(&[(0.0, 0.0), (10.0, 0.0), (10.0, 10.0)])] };
    let g = emit_job(Grbl.dialect(), &words(), &job, &vec!["-0.0500".to_string()]);
    assert!(g.contains("G21"));
    assert!(g.contains("M03 S1000"));
    assert!(g.contains("G01 X10.0000 Y0.0000"));
    assert!(g.contains("M30"));
}

#[test]
fn grbl_drill_gcode() {
    let mut w = words();
    w.cut_z = "-1.5000".to_string();
    let job = JobMotions::Drill { points: pts(&[(1.0, 1.0), (2.0, 2.0)]) };
    let g = emit_job(Dialect::Grbl, &w, &job, &vec![w.cut_z.clone()]);
    let plunges = g.matches("G01 Z-1.5000").count();
    assert_eq!(plunges, 2, "one plunge per drill");
}

// ----- dialects -----

#[test]
fn grbl_laser_turns_on_and_off_without_z() {
    let g = render(GrblLaser.dialect());
    assert!(g.contains("M03 S"), "laser must turn on at power");
    assert!(g.contains("M05"), "laser must turn off");
    for line in g.lines() {
        if line.starts_with("G01") {
            assert!(!line.contains('Z'), "laser cut line must not contain Z: {line}");
        }
    }
}

#[test]
fn generic_default_emits_mm_units() {
    let g = render(GenericDefault.dialect());
    assert!(g.contains("G21"), "Mm job must emit G21");
    assert!(g.contains("M06 T1"), "default emits a toolchange");
}

#[test]
fn by_name_resolves_laser() {
    let pp = by_name("laser").expect("laser must resolve");
    assert_eq!(pp.name(), GrblLaser.name());
}

#[test]
fn by_name_unknown_is_none() {
    assert!(by_name("nope").is_none());
}

#[test]
fn all_emit_mm_units() {
    for pp in [
        by_name_extra("isel").unwrap(),
        by_name_extra("repetier").unwrap(),
        by_name_extra("berta").unwrap(),
        by_name_extra("linuxcnc").unwrap(),
        by_name_extra("mach3").unwrap(),
        by_name_extra("toolchange_probe").unwrap(),
    ] {
        let g = render(pp);
        assert!(g.contains("G21"), "{} must emit G21 for mm", pp.name());
    }
}

#[test]
fn program_end_words_match_docs() {
    assert!(render(Isel.dialect()).contains("M30"));
    assert!(render(Mach3.dialect()).contains("M30"));
    assert!(render(ToolchangeProbe.dialect()).contains("M30"));
    assert!(render(Repetier.dialect()).contains("\nM2\n"));
    assert!(render(Berta.dialect()).contains("\nM2\n"));
    assert!(render(LinuxCnc.dialect()).contains("\nM2\n"));
}

#[test]
fn toolchange_probe_emits_probe_sequence() {
    let g = render(ToolchangeProbe.dialect());
    assert!(g.contains("G38.2"), "probe preprocessor must emit G38.2");
    assert!(g.contains("(TOOLCHANGE"), "probe must comment the toolchange");
}

#[test]
fn by_name_extra_resolves_and_rejects() {
    assert!(by_name_extra("mach3").is_some());
    assert_eq!(by_name_extra("mach3").unwrap().name(), Mach3.name());
    assert!(by_name_extra("nope").is_none());
}

#[test]
fn smoothie_emits_mm_units() {
    assert!(render(Smoothie.dialect()).contains("G21"), "Mm job must emit G21");
}

#[test]
fn tinyg_emits_mm_units() {
    assert!(render(TinyG.dialect()).contains("G21"), "Mm job must emit G21");
}

#[test]
fn emc2_emits_mm_units() {
    assert!(render(Emc2.dialect()).contains("G21"), "Mm job must emit G21");
}

#[test]
fn dynamic_laser_emits_mm_units() {
    assert!(render(GrblDynamicLaser.dialect()).contains("G21"), "Mm job must emit G21");
}

#[test]
fn dynamic_laser_uses_m4_and_m5_without_z() {
    let g = render(GrblDynamicLaser.dialect());
    assert!(g.contains("M04 S"), "dynamic laser arms with M4 on plunge");
    assert!(g.contains("M05"), "dynamic laser disarms with M5 on travel");
    for line in g.lines() {
        if line.starts_with("G01") {
            assert!(!line.contains('Z'), "laser cut line must not contain Z: {line}");
        }
    }
}

#[test]
fn by_name_more_resolves_tinyg() {
    let pp = by_name_more("tinyg").expect("tinyg must resolve");
    assert_eq!(pp.name(), TinyG.name());
}

#[test]
fn by_name_more_resolves_grbl_m4() {
    let pp = by_name_more("grbl_m4").expect("grbl_m4 must resolve");
    assert_eq!(pp.name(), GrblDynamicLaser.name());
}

#[test]
fn by_name_more_unknown_is_none() {
    assert!(by_name_more("nope").is_none());
}

#[test]
fn solder_paste_header_emits_mm_units() {
    assert!(header_string(SolderPaste.dialect()).contains("G21"), "Mm job must emit G21");
}

#[test]
fn toolchange_manual_header_emits_mm_units() {
    let g = header_string(ToolchangeManual.dialect());
    assert!(g.contains("G21"), "Mm job must emit G21");
    assert!(g.contains("M6"), "manual toolchange must emit M6");
    assert!(g.contains("M0"), "manual toolchange must pause with M0");
}

#[test]
fn solder_paste_plunge_dispenses_on() {
    let w = words();
    let mut g = String::new();
    SolderPaste.dialect().plunge(&mut g, &w.cut_z, &w);
    assert!(g.contains("M3 S"), "plunge must turn the dispenser ON");
}

#[test]
fn solder_paste_rapid_z_dispenses_off() {
    let mut g = String::new();
    SolderPaste.dialect().rapid_z(&mut g, "2.0000");
    assert!(g.contains("M5"), "rapid_z must turn the dispenser OFF");
}

#[test]
fn by_name_paste_resolves() {
    assert!(by_name_paste("paste").is_some(), "paste must resolve");
    assert!(by_name_paste("solderpaste").is_some());
    assert!(by_name_paste("manual").is_some());
    assert!(by_name_paste("toolchange_manual").is_some());
}

#[test]
fn by_name_paste_unknown_is_none() {
    assert!(by_name_paste("nope").is_none());
}

#[test]
fn paste1_dispenses_on_plunge_off_lift_mach3_end() {
    let g = render_paste(Paste1.dialect());
    assert!(g.contains("G21"));
    assert!(g.contains("M03 S"), "plunge must turn the dispenser ON");
    assert!(g.contains("M05"), "lift must turn the dispenser OFF");
    assert!(g.contains("M30"), "Paste_1 (MACH3-like) program-end is M30");
}

#[test]
fn paste_grbl_uses_m02_end() {
    let g = render_paste(PasteGrbl.dialect());
    assert!(g.contains("M03 S"), "plunge must turn the dispenser ON");
    assert!(g.contains("M05"), "lift must turn the dispenser OFF");
    assert!(g.contains("\nM02\n"), "Paste_GRBL program-end is M02");
}

#[test]
fn paste_marlin_uses_marlin_words_and_m2_end() {
    let g = render_paste(PasteMarlin.dialect());
    assert!(g.contains("; FlatCAM-RS Paste_Marlin"), "must use ; comments");
    assert!(g.contains("M3 S"), "plunge must turn the dispenser ON with M3");
    assert!(g.contains("M5"), "lift must turn the dispenser OFF with M5");
    assert!(g.contains("G1 X"), "Marlin uses G1 motion words");
    assert!(g.contains("\nM2\n"), "Paste_Marlin program-end is M2");
}

#[test]
fn by_name_paste2_resolves_all_keys() {
    assert!(by_name_paste2("paste_1").is_some());
    assert!(by_name_paste2("paste_grbl").is_some());
    assert!(by_name_paste2("paste_marlin").is_some());
    assert!(by_name_paste2("Paste_GRBL").is_some());
}

#[test]
fn by_name_paste2_unknown_is_none() {
    assert!(by_name_paste2("nope").is_none());
}

#[test]
fn each_header_emits_mm_units() {
    assert!(header_string(GrblLaserAirAssist.dialect()).contains("G21"));
    assert!(header_string(MarlinLaserFan.dialect()).contains("G21"));
    assert!(header_string(MarlinLaserSpindle.dialect()).contains("G21"));
}

#[test]
fn grbl_laser_air_header_has_m8_footer_has_m9() {
    assert!(header_string(GrblLaserAirAssist.dialect()).contains("M8"), "air-assist header must turn air ON with M8");
    assert!(footer_string(GrblLaserAirAssist.dialect()).contains("M9"), "air-assist footer must turn air OFF with M9");
}

#[test]
fn marlin_laser_fan_plunge_has_m106() {
    let w = words();
    let mut g = String::new();
    MarlinLaserFan.dialect().plunge(&mut g, &w.cut_z, &w);
    assert!(g.contains("M106"), "fan-pin plunge must turn the laser ON with M106");
    assert!(g.contains("M106 S255"));
}

#[test]
fn by_name_laser2_resolves() {
    assert!(by_name_laser2("laser_air").is_some());
    assert!(by_name_laser2("grbl_laser_air").is_some());
    assert!(by_name_laser2("marlin_laser_fan").is_some());
    assert!(by_name_laser2("marlin_laser_spindle").is_some());
}

#[test]
fn by_name_laser2_unknown_is_none() {
    assert!(by_name_laser2("nope").is_none());
}

#[test]
fn resolves_via_top_level_by_name() {
    let pp = by_name("grbl_laser_eleks_drd").expect("canonical key must resolve");
    assert_eq!(pp.name(), GrblLaserEleksDrd.name());
}

#[test]
fn resolves_aliases_case_insensitively() {
    assert!(by_name("eleks_drd").is_some());
    assert!(by_name("grbl_laser_eleks").is_some());
    assert!(by_name("GRBL_Laser_Eleks_DRD").is_some());
    assert!(by_name_eleks("ELEKS_DRD").is_some());
}

#[test]
fn by_name_eleks_unknown_is_none() {
    assert!(by_name_eleks("nope").is_none());
}

#[test]
fn header_emits_units_and_idle_laser() {
    let g = render_drill(GrblLaserEleksDrd.dialect());
    assert!(g.contains("G21"), "Mm job must emit G21");
    assert!(g.contains("G90"), "must emit absolute positioning");
    assert!(g.contains("M03 S0"), "laser must idle at zero power (M3 S0)");
}

#[test]
fn plunge_emits_g2_arc() {
    let g = render_drill(GrblLaserEleksDrd.dialect());
    assert!(g.contains("G02"), "each mark must etch a G2 centring ring instead of a hole");
    assert!(g.contains("M03 S"), "beam ON for the ring");
    assert!(g.contains("M05"), "beam OFF after the ring");
}

#[test]
fn is_xy_only_no_z_cutting_move() {
    let g = render_drill(GrblLaserEleksDrd.dialect());
    for line in g.lines() {
        if line.starts_with('G') {
            assert!(!line.contains('Z'), "eleks_drd must be XY-only (no Z motion): {line}");
        }
    }
}

#[test]
fn isel_icp_uses_semicolon_comments() {
    let g = render(IselIcp.dialect());
    assert!(g.contains("; FlatCAM-RS ISEL_ICP_CNC"), "must use ; comments");
    assert!(!g.contains("("), "ISEL_ICP must not use parenthesised comments");
    assert!(g.contains("G21"));
    assert!(g.contains("M30"));
}

#[test]
fn line_xyz_emits_single_combined_line() {
    let g = render(LineXyz.dialect());
    let cut = g.lines().find(|l| l.starts_with("G01 X10.0000 Y0.0000")).expect("a combined cut line must exist");
    assert!(cut.contains('X') && cut.contains('Y') && cut.contains('Z'), "cut line must combine X, Y and Z: {cut}");
    assert!(cut.contains("Z-0.0500"), "cut Z must be the cut depth: {cut}");
}

#[test]
fn grbl_laser_z_retains_z_and_toggles_beam() {
    let g = render(GrblLaserZ.dialect());
    assert!(g.contains("M03 S"), "beam must turn ON");
    assert!(g.contains("M05"), "beam must turn OFF");
    assert!(g.contains("G00 Z"), "GRBL_laser_z must retain rapid Z moves");
    assert!(g.contains("G01 Z"), "GRBL_laser_z must retain the plunge Z move");
}

#[test]
fn marlin_laser_z_retains_z_and_toggles_beam() {
    let g = render(MarlinLaserZ.dialect());
    assert!(g.contains("M3 S"), "beam must turn ON with M3");
    assert!(g.contains("M5"), "beam must turn OFF with M5");
    assert!(g.contains("G0 Z"), "Marlin_laser_z must retain rapid Z moves");
    assert!(g.contains("G1 Z"), "Marlin_laser_z must retain the plunge Z move");
    assert!(g.contains("\nM2\n"), "Marlin program-end is M2");
}

#[test]
fn default_laser_is_xy_only_with_m3_m5() {
    let g = render(DefaultLaser.dialect());
    assert!(g.contains("M03 S"), "beam ON with M3");
    assert!(g.contains("M05"), "beam OFF with M5");
    assert!(g.contains("M30"), "MACH3 program-end is M30");
    assert!(!g.contains('Z'), "default_laser must be XY-only (no Z)");
}

#[test]
fn nccad9_is_standard_router() {
    let g = render(Nccad9.dialect());
    assert!(g.contains("G21"));
    assert!(g.contains("M03 S"));
    assert!(g.contains("M30"));
}

#[test]
fn roland_mdx_540_frames_with_roland_commands() {
    let g = render(RolandMdx540.dialect());
    assert!(g.contains(";;^IN;!MC1;"), "MDX-540 init command");
    assert!(g.contains("!MC0;"), "MDX-540 motor-off command");
    assert!(g.contains("!RC"), "MDX-540 spindle/RC command");
}

#[test]
fn check_points_pauses_and_does_not_cut() {
    let g = render(CheckPoints.dialect());
    assert!(g.contains("M0"), "check_points must pause with M0");
    assert!(!g.contains("M03"), "check_points must not start a spindle");
    assert!(!g.contains("G01"), "check_points must not emit cutting moves");
}

#[test]
fn hpgl_emits_plotter_language_scaled_to_units() {
    let g = render(Hpgl.dialect());
    assert!(g.contains("IN;"), "HPGL init");
    assert!(g.contains("SP1;"), "HPGL pen select");
    assert!(g.contains("PU;"), "HPGL pen up");
    assert!(g.contains("PD;"), "HPGL pen down");
    assert!(!g.contains("G00") && !g.contains("G01"), "HPGL must not emit G-code");
    assert!(g.contains("PA400,0;"), "10 mm must scale to 400 plotter units: {g}");
}

#[test]
fn by_name_parity_resolves_all_keys() {
    for key in [
        "isel_icp_cnc",
        "line_xyz",
        "grbl_laser_z",
        "marlin_laser_z",
        "default_laser",
        "nccad9",
        "roland_mdx_540",
        "check_points",
        "hpgl",
    ] {
        assert!(by_name_parity(key).is_some(), "{key} must resolve");
    }
}

#[test]
fn by_name_parity_is_case_insensitive() {
    assert!(by_name_parity("HPGL").is_some());
    assert!(by_name_parity("Line_XYZ").is_some());
    assert!(by_name_parity("GRBL_Laser_Z").is_some());
}

#[test]
fn by_name_parity_unknown_is_none() {
    assert!(by_name_parity("nope").is_none());
}

#[test]
fn units_words_follow_units() {
    assert_eq!(flatcam::gcode::units_word(Units::Mm), "G21");
    assert_eq!(flatcam::gcode::units_word(Units::Inch), "G20");
    let mut w = words();
    w.units = Units::Inch;
    let mut g = String::new();
    Grbl.dialect().header(&mut g, &w);
    assert!(g.contains("\nG20\n"));
}

#[test]
fn multi_pass_milling_repeats_each_path_per_depth() {
    let job = JobMotions::Mill { paths: vec![pts(&[(0.0, 0.0), (1.0, 0.0)])] };
    let depths = vec!["-0.1000".to_string(), "-0.2000".to_string()];
    let g = emit_job(Dialect::Grbl, &words(), &job, &depths);
    assert_eq!(g.matches("G01 Z-0.1000 F60").count(), 1);
    assert_eq!(g.matches("G01 Z-0.2000 F60").count(), 1);
    assert_eq!(g.matches("G01 X1.0000 Y0.0000 F120").count(), 2);
}

#[test]
fn lookup_ignores_ascii_case() {
    for (a, b) in [("MaRLiN", "marlin"), ("GRBL_LASER", "grbl_laser"), ("Mach3", "MACH3"), ("NoPe", "nope")] {
        assert_eq!(by_name(a), by_name(b), "{a} vs {b}");
    }
    assert_eq!(by_name("MaRLiN"), Some(Dialect::Marlin));
    assert_eq!(by_name("NoPe"), None);
}
