use flatcam::gerber::{parse, tokenize, split_coords, ApertureKind, GerberCmd, GerberError, GerberOp, PathSeg, Units};
use flatcam::numeric::Decimal;

fn val(d: &Decimal) -> f64 {
    d.to_literal().parse::<f64>().unwrap()
}

fn chars(s: &str) -> Vec<char> {
    s.chars().collect()
}

const SIMPLE: &str = "\
%FSLAX24Y24*%
%MOMM*%
%ADD10C,1.0*%
D10*
X0Y0D03*
X50000Y0D03*
M02*
";

#[test]
fn parses_two_flashes() {
    let g = parse(SIMPLE).unwrap();
    assert_eq!(g.units, Units::Mm);
    assert_eq!(g.apertures.len(), 1);
    let flashes: Vec<(f64, f64)> = g
        .ops
        .iter()
        .filter_map(|op| match op {
            GerberOp::Flash { x, y, aperture: Some(ap), .. } => {
                assert_eq!(ap.kind, ApertureKind::Circle);
                Some((val(x), val(y)))
            }
            _ => None,
        })
        .collect();
    assert_eq!(flashes, vec![(0.0, 0.0), (5.0, 0.0)]);
}

#[test]
fn parses_trace() {
    let src = "\
%FSLAX24Y24*%
%MOMM*%
%ADD10C,1.0*%
D10*
X0Y0D02*
X100000Y0D01*
M02*
";
    let g = parse(src).unwrap();
    let traces: Vec<&GerberOp> = g.ops.iter().filter(|op| matches!(op, GerberOp::Trace { .. })).collect();
    assert_eq!(traces.len(), 1);
    match traces[0] {
        GerberOp::Trace { aperture: Some(ap), path, dark } => {
            assert!(*dark);
            assert_eq!(ap.mods, vec![chars("1.0")]);
            assert_eq!((val(&path.start_x), val(&path.start_y)), (0.0, 0.0));
            assert_eq!(path.segments.len(), 1);
            match &path.segments[0] {
                PathSeg::Line { x, y } => assert_eq!((val(x), val(y)), (10.0, 0.0)),
                _ => panic!("expected a line"),
            }
        }
        _ => panic!("expected a trace with its aperture"),
    }
}

#[test]
fn rectangle_aperture_flash() {
    let src = "\
%FSLAX24Y24*%
%MOMM*%
%ADD10R,2.0X3.0*%
D10*
X0Y0D03*
M02*
";
    let g = parse(src).unwrap();
    let (code, ap) = &g.apertures[0];
    assert_eq!(*code, 10);
    assert_eq!(ap.kind, ApertureKind::Rectangle);
    assert_eq!(ap.mods, vec![chars("2.0"), chars("3.0")]);
    assert!(matches!(g.ops[0], GerberOp::Flash { .. }));
}

#[test]
fn region_fill() {
    let src = "\
%FSLAX24Y24*%
%MOMM*%
G36*
X0Y0D02*
X100000Y0D01*
X100000Y100000D01*
X0Y100000D01*
X0Y0D01*
G37*
M02*
";
    let g = parse(src).unwrap();
    match &g.ops[0] {
        GerberOp::Region { path, dark } => {
            assert!(*dark);
            assert_eq!(path.segments.len(), 4);
        }
        _ => panic!("expected a region"),
    }
    assert!(matches!(g.ops[1], GerberOp::Merge));
    assert_eq!(g.ops.len(), 2);
}

#[test]
fn coordinates_before_format_are_refused() {
    let r = parse("X100Y100D03*\n");
    assert_eq!(r.err(), Some(GerberError::NoFormat));
    assert_eq!(
        GerberError::NoFormat.message(),
        "no format specification (FS) found before coordinate data"
    );
}

#[test]
fn tokenize_splits_blocks_and_words() {
    let cmds = tokenize(&chars("%FSLAX24Y24*MOMM*%\nD10*\nX1 Y2D03*"));
    assert_eq!(cmds.len(), 3);
    match &cmds[0] {
        GerberCmd::Extended(parts) => assert_eq!(parts, &vec![chars("FSLAX24Y24"), chars("MOMM")]),
        _ => panic!(),
    }
    match &cmds[2] {
        GerberCmd::Word(w) => assert_eq!(w, &chars("X1Y2D03")),
        _ => panic!(),
    }
}

#[test]
fn split_coords_reads_each_word() {
    let w = split_coords(&chars("X-150Y+20I5J6D01"));
    assert_eq!(w.x, Some(chars("-150")));
    assert_eq!(w.y, Some(chars("+20")));
    assert_eq!(w.i, Some(chars("5")));
    assert_eq!(w.j, Some(chars("6")));
    assert_eq!(w.d, Some(1));
    assert_eq!(split_coords(&chars("D-1")).d, None);
}

#[test]
fn trailing_zero_format_aligns_integer_digits() {
    let g = parse("%FSTAX24Y24*%\nX15Y-2D03*\n").unwrap();
    match &g.ops[0] {
        GerberOp::Flash { x, y, aperture: None, .. } => {
            assert_eq!(val(x), 15.0);
            assert_eq!(val(y), -20.0);
        }
        _ => panic!(),
    }
}

#[test]
fn clear_polarity_and_macro_flash() {
    let src = "%FSLAX24Y24*%\n%AMBOX*21,1,$1,$2,0,0,0*%\n%ADD11BOX,1X2*%\n%LPC*%\nD11*\nX0Y0D03*\n";
    let g = parse(src).unwrap();
    assert!(matches!(g.ops[0], GerberOp::Merge));
    match &g.ops[1] {
        GerberOp::Flash { aperture: Some(ap), macro_def: Some(m), dark, .. } => {
            assert!(!*dark);
            assert_eq!(ap.kind, ApertureKind::Macro);
            assert_eq!(m.statements(), &vec!["21,1,$1,$2,0,0,0".to_string()]);
        }
        _ => panic!(),
    }
}

#[test]
fn arc_draw_records_centre_offsets() {
    let g = parse("%FSLAX24Y24*%\n%ADD10C,0.1*%\nD10*\nX0Y0D02*\nG03X10000Y10000I10000J0D01*\n").unwrap();
    match &g.ops[0] {
        GerberOp::Trace { path, .. } => match &path.segments[0] {
            PathSeg::Arc { i, j, clockwise, multi_quadrant, .. } => {
                assert_eq!((val(i), val(j)), (1.0, 0.0));
                assert!(!*clockwise);
                assert!(*multi_quadrant);
            }
            _ => panic!(),
        },
        _ => panic!(),
    }
}

#[test]
fn ad_statements_checked_before_reading() {
    assert!(flatcam::gerber::ad_statements_ok("%FSLAX24Y24*%\n%ADD10C,0.1*%\nD10*\nM02*\n"));
    assert!(flatcam::gerber::ad_statements_ok("G04 no apertures*\nM02*\n"));
    assert!(!flatcam::gerber::ad_statements_ok("%AD*%\n"));
    assert!(!flatcam::gerber::ad_statements_ok("%FSLAX24Y24*AD*%"));
}

#[test]
fn unread_ad_statements_do_not_block_reading() {
    // Inside a macro body, an AD statement is kept unread.
    let in_macro = "%AMFOO*AD*%X0Y0D03*";
    assert!(flatcam::gerber::ad_statements_ok(in_macro));
    assert_eq!(parse(in_macro).err(), Some(GerberError::NoFormat));
    // After the first refused word nothing more is read.
    let after_error = "X0Y0D03*%AD*%";
    assert!(flatcam::gerber::ad_statements_ok(after_error));
    assert_eq!(parse(after_error).err(), Some(GerberError::NoFormat));
    assert_eq!(parse("X0Y0D03*").err(), Some(GerberError::NoFormat));
    // A reached AD statement that is too short is still caught.
    assert!(!flatcam::gerber::ad_statements_ok("%FSLAX24Y24*%%AD*%X0Y0D03*"));
}
