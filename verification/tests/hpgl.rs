use flatcam::hpgl::{parse, HpglDoc, HpglError, Move};

fn num(v: &[char]) -> f64 {
    v.iter().collect::<String>().parse::<f64>().unwrap()
}

/// Positions of the moves, evaluated in order.
fn positions(doc: &HpglDoc) -> Vec<(f64, f64)> {
    let mut out: Vec<(f64, f64)> = Vec::new();
    for m in &doc.moves {
        let p = match m {
            Move::Absolute { x, y } => (num(x), num(y)),
            Move::Relative { base, dx, dy } => {
                let b = out[*base];
                (b.0 + num(dx), b.1 + num(dy))
            }
        };
        out.push(p);
    }
    out
}

fn pts(doc: &HpglDoc, k: usize) -> Vec<(f64, f64)> {
    let pos = positions(doc);
    doc.polylines[k].iter().map(|&i| pos[i]).collect()
}

#[test]
fn basic_pen_down_stroke() {
    let doc = parse("IN;SP1;PU100,100;PD200,100,200,200;PU;").unwrap();
    assert_eq!(doc.polylines.len(), 1);
    assert_eq!(pts(&doc, 0), vec![(100.0, 100.0), (200.0, 100.0), (200.0, 200.0)]);
}

#[test]
fn empty_input_yields_no_polylines() {
    let doc = parse("").unwrap();
    assert_eq!(doc.polylines.len(), 0);
}

#[test]
fn whitespace_only_yields_no_polylines() {
    let doc = parse("   \n  \t ").unwrap();
    assert_eq!(doc.polylines.len(), 0);
}

#[test]
fn two_separate_strokes() {
    let doc = parse("IN;PU0,0;PD10,0,10,10;PU50,50;PD60,50,60,60;PU;").unwrap();
    assert_eq!(doc.polylines.len(), 2);
    assert_eq!(pts(&doc, 0), vec![(0.0, 0.0), (10.0, 0.0), (10.0, 10.0)]);
    assert_eq!(pts(&doc, 1), vec![(50.0, 50.0), (60.0, 50.0), (60.0, 60.0)]);
}

#[test]
fn relative_mode_accumulates() {
    let doc = parse("IN;PU100,100;PR;PD10,0,0,10;PU;").unwrap();
    assert_eq!(doc.polylines.len(), 1);
    assert_eq!(pts(&doc, 0), vec![(100.0, 100.0), (110.0, 100.0), (110.0, 110.0)]);
}

#[test]
fn pa_with_inline_coordinates_pen_down() {
    let doc = parse("IN;PD;PA0,0,5,5,10,0;PU;").unwrap();
    assert_eq!(doc.polylines.len(), 1);
    assert_eq!(pts(&doc, 0), vec![(0.0, 0.0), (5.0, 5.0), (10.0, 0.0)]);
}

#[test]
fn single_point_stroke_is_dropped() {
    let doc = parse("IN;PD100,100;PU;").unwrap();
    assert_eq!(doc.polylines.len(), 0);
}

#[test]
fn negative_and_fractional_coords() {
    let doc = parse("IN;PU-5.5,-2.25;PD-1.0,3.5;PU;").unwrap();
    assert_eq!(doc.polylines.len(), 1);
    assert_eq!(pts(&doc, 0), vec![(-5.5, -2.25), (-1.0, 3.5)]);
}

#[test]
fn odd_coordinate_count_errors() {
    let err = parse("IN;PD0,0,5;PU;").unwrap_err();
    assert!(matches!(err, HpglError::OddCoordinateCount(_)));
    assert_eq!(err.message(), "odd number of coordinates in command 'PD0,0,5'");
}

#[test]
fn invalid_coordinate_errors() {
    let err = parse("IN;PDfoo,0;").unwrap_err();
    assert!(matches!(err, HpglError::InvalidCoordinate(_)));
    assert_eq!(err, HpglError::InvalidCoordinate("foo".to_string()));
    assert_eq!(err.message(), "invalid coordinate 'foo'");
}

#[test]
fn unknown_commands_ignored() {
    let doc = parse("IN;LT2;WU0.3;PU0,0;PD10,10;XYZ;PU;").unwrap();
    assert_eq!(doc.polylines.len(), 1);
    assert_eq!(pts(&doc, 0), vec![(0.0, 0.0), (10.0, 10.0)]);
}

#[test]
fn newlines_between_commands() {
    let doc = parse("IN;\nPU0,0;\nPD10,0,\n10,10;\nPU;\n").unwrap();
    assert_eq!(doc.polylines.len(), 1);
    assert_eq!(pts(&doc, 0), vec![(0.0, 0.0), (10.0, 0.0), (10.0, 10.0)]);
}

#[test]
fn relative_moves_chain_to_their_predecessor() {
    let doc = parse("in;pu1,2;pr;pd1,1,1,1;").unwrap();
    match &doc.moves[2] {
        Move::Relative { base, .. } => assert_eq!(*base, 1),
        _ => panic!("expected a relative move"),
    }
    assert_eq!(pts(&doc, 0), vec![(1.0, 2.0), (2.0, 3.0), (3.0, 4.0)]);
}
