use flatcam::gerber::{parse, GerberOp, PathSeg};
use flatcam::gerber_writer::{write_gerber, PolygonRings, RingPoint};
use flatcam::numeric::Decimal;

fn pt(x: f64, y: f64) -> RingPoint {
    RingPoint {
        x_bits: x.to_bits(),
        y_bits: y.to_bits(),
        x: (x * 10_000.0).round() as i64,
        y: (y * 10_000.0).round() as i64,
    }
}

/// A closed rectangular ring centred on `(cx, cy)`.
fn rect(cx: f64, cy: f64, w: f64, h: f64) -> Vec<RingPoint> {
    let (x0, y0, x1, y1) = (cx - w / 2.0, cy - h / 2.0, cx + w / 2.0, cy + h / 2.0);
    vec![pt(x0, y0), pt(x0, y1), pt(x1, y1), pt(x1, y0), pt(x0, y0)]
}

fn val(d: &Decimal) -> f64 {
    d.to_literal().parse::<f64>().unwrap()
}

#[test]
fn header_and_region_present() {
    let mp = vec![PolygonRings { exterior: rect(5.0, 5.0, 10.0, 10.0), interiors: vec![] }];
    let s = write_gerber(&mp, true);
    assert!(s.contains("%FSLAX34Y34*%"), "missing format spec:\n{s}");
    assert!(s.contains("G36"), "missing region open:\n{s}");
    assert!(s.contains("G37"), "missing region close");
    assert!(s.contains("%MOMM*%"), "missing metric units");
    assert!(s.contains("M02*"), "missing end of file");
    assert!(s.contains("%ADD10C,0.00100*%"), "missing aperture def");
}

#[test]
fn imperial_unit_token() {
    let mp = vec![PolygonRings { exterior: rect(0.0, 0.0, 1.0, 1.0), interiors: vec![] }];
    let s = write_gerber(&mp, false);
    assert!(s.contains("%MOIN*%"), "missing inch units:\n{s}");
}

#[test]
fn gerber_writer_exact_text_closing_vertex_dropped() {
    let mp = vec![PolygonRings { exterior: rect(5.0, 5.0, 10.0, 10.0), interiors: vec![] }];
    let s = write_gerber(&mp, true);
    assert_eq!(
        s,
        "%FSLAX34Y34*%\n%MOMM*%\n%ADD10C,0.00100*%\nD10*\nG36*\nX0Y0D02*\nX0Y100000D01*\nX100000Y100000D01*\nX100000Y0D01*\nG37*\nM02*\n"
    );
}

#[test]
fn gerber_writer_holes_are_clear_regions() {
    let mp = vec![PolygonRings {
        exterior: rect(0.0, 0.0, 10.0, 10.0),
        interiors: vec![rect(0.0, 0.0, 2.0, 2.0)],
    }];
    let s = write_gerber(&mp, true);
    assert_eq!(
        s,
        "%FSLAX34Y34*%\n%MOMM*%\n%ADD10C,0.00100*%\nD10*\n\
G36*\nX-50000Y-50000D02*\nX-50000Y50000D01*\nX50000Y50000D01*\nX50000Y-50000D01*\nG37*\n\
%LPC*%\nG36*\nX-10000Y-10000D02*\nX-10000Y10000D01*\nX10000Y10000D01*\nX10000Y-10000D01*\nG37*\n%LPD*%\n\
M02*\n"
    );
}

#[test]
fn gerber_writer_degenerate_rings_skipped() {
    // Two distinct vertices plus the closing one: fewer than three remain.
    let ring = vec![pt(0.0, 0.0), pt(1.0, 0.0), pt(0.0, 0.0)];
    let mp = vec![PolygonRings { exterior: ring, interiors: vec![vec![]] }];
    let s = write_gerber(&mp, false);
    assert_eq!(s, "%FSLAX34Y34*%\n%MOIN*%\n%ADD10C,0.00100*%\nD10*\n%LPC*%\n%LPD*%\nM02*\n");
}

#[test]
fn gerber_writer_equality_is_float_equality() {
    // -0.0 == 0.0: the closing vertex is dropped.
    let ring = vec![pt(0.0, 0.0), pt(1.0, 0.0), pt(1.0, 1.0), pt(-0.0, 0.0)];
    let s = write_gerber(&vec![PolygonRings { exterior: ring, interiors: vec![] }], true);
    assert_eq!(s.matches("D01*").count(), 2);
    // NaN never equals itself: the last vertex stays.
    let n = f64::NAN;
    let ring = vec![
        RingPoint { x_bits: n.to_bits(), y_bits: 0, x: 0, y: 0 },
        pt(1.0, 0.0),
        pt(1.0, 1.0),
        RingPoint { x_bits: n.to_bits(), y_bits: 0, x: 0, y: 0 },
    ];
    let s = write_gerber(&vec![PolygonRings { exterior: ring, interiors: vec![] }], true);
    assert_eq!(s.matches("D01*").count(), 3);
}

#[test]
fn gerber_writer_output_reads_back_as_region() {
    let mp = vec![PolygonRings { exterior: rect(5.0, 5.0, 10.0, 10.0), interiors: vec![] }];
    let s = write_gerber(&mp, true);
    let g = parse(&s).unwrap();
    let regions: Vec<&GerberOp> = g.ops.iter().filter(|o| matches!(o, GerberOp::Region { .. })).collect();
    assert_eq!(regions.len(), 1);
    match regions[0] {
        GerberOp::Region { path, dark } => {
            assert!(*dark);
            assert_eq!(val(&path.start_x), 0.0);
            assert_eq!(val(&path.start_y), 0.0);
            assert_eq!(path.segments.len(), 3);
            match &path.segments[1] {
                PathSeg::Line { x, y } => {
                    assert_eq!(val(x), 10.0);
                    assert_eq!(val(y), 10.0);
                }
                _ => panic!("expected a line"),
            }
        }
        _ => unreachable!(),
    }
}

#[test]
fn gerber_writer_holes_read_back_as_clear_regions_between_merges() {
    let mp = vec![PolygonRings {
        exterior: rect(0.0, 0.0, 10.0, 10.0),
        interiors: vec![rect(0.0, 0.0, 2.0, 2.0)],
    }];
    let s = write_gerber(&mp, false);
    let g = parse(&s).unwrap();
    assert_eq!(g.units, flatcam::gerber::Units::Inch);
    assert_eq!(g.apertures.len(), 1);
    assert_eq!(g.apertures[0].0, 10);
    let kinds: Vec<&str> = g
        .ops
        .iter()
        .map(|o| match o {
            GerberOp::Region { dark: true, .. } => "dark",
            GerberOp::Region { dark: false, .. } => "clear",
            GerberOp::Merge => "merge",
            _ => "other",
        })
        .collect();
    assert_eq!(kinds, vec!["dark", "merge", "clear", "merge", "merge"]);
    match &g.ops[2] {
        GerberOp::Region { path, .. } => {
            assert_eq!(val(&path.start_x), -1.0);
            assert_eq!(val(&path.start_y), -1.0);
            assert_eq!(path.segments.len(), 3);
        }
        _ => unreachable!(),
    }
}
