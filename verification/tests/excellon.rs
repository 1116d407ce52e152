use flatcam::excellon::{extract_coord, parse, DiaConversion, Excellon, ExcellonError, Units};
use flatcam::numeric::Decimal;

fn val(d: &Decimal) -> f64 {
    d.to_literal().parse::<f64>().unwrap()
}

fn drill(e: &Excellon, tool: i32, k: usize) -> (f64, f64) {
    let t = e.tool(tool).unwrap();
    (val(&t.drills[k].0), val(&t.drills[k].1))
}

#[test]
fn parses_metric_drills() {
    let src = "\
M48
METRIC,TZ
T1C0.8
T2C1.2
%
T1
X10.0Y10.0
X20.0Y10.0
T2
X30.0Y30.0
M30
";
    let e = parse(src).unwrap();
    assert_eq!(e.units, Units::Mm);
    assert_eq!(e.tools.len(), 2);
    assert_eq!(val(&e.tool(1).unwrap().diameter.value), 0.8);
    assert_eq!(e.tool(1).unwrap().drills.len(), 2);
    assert_eq!(e.tool(2).unwrap().drills.len(), 1);
    assert_eq!(e.drill_count(), 3);
}

#[test]
fn decode_leading_zeros_no_period() {
    // INCH, leading-zero (LZ): format 2:4. "012345" -> 1.2345
    let src = "\
M48
INCH,LZ
T1C0.5
%
T1
X012345Y012345
M30
";
    let e = parse(src).unwrap();
    let (x, _y) = drill(&e, 1, 0);
    assert!((x - 1.2345).abs() < 1e-6, "x decoded {x}");
}

#[test]
fn decode_trailing_zeros() {
    // METRIC, TZ, format 3:3. "123000" -> 123.000
    let src = "\
M48
METRIC,TZ,000.000
T1C1.0
%
T1
X123000Y045000
M30
";
    let e = parse(src).unwrap();
    let (x, y) = drill(&e, 1, 0);
    assert!((x - 123.0).abs() < 1e-6, "x {x}");
    assert!((y - 45.0).abs() < 1e-6, "y {y}");
}

#[test]
fn g85_slot() {
    let src = "\
M48
METRIC,LZ
T1C1.0
%
T1
X10.0Y10.0G85X20.0Y10.0
M30
";
    let e = parse(src).unwrap();
    let t = e.tool(1).unwrap();
    assert_eq!(t.slots.len(), 1);
    let (a, b) = &t.slots[0];
    assert_eq!((val(&a.0), val(&a.1)), (10.0, 10.0));
    assert_eq!((val(&b.0), val(&b.1)), (20.0, 10.0));
    assert_eq!(val(&t.diameter.value), 1.0);
}

#[test]
fn drill_geometry_area() {
    let src = "\
M48
METRIC,LZ
T1C2.0
%
T1
X0.0Y0.0
M30
";
    let e = parse(src).unwrap();
    let t = e.tool(1).unwrap();
    assert_eq!(val(&t.diameter.value), 2.0);
    assert_eq!(t.drills.len(), 1);
    assert_eq!(drill(&e, 1, 0), (0.0, 0.0));
}

#[test]
fn blank_file_is_refused() {
    assert_eq!(parse("  \n\t\n").err(), Some(ExcellonError::Empty));
    assert_eq!(ExcellonError::Empty.message(), "empty drill file");
}

#[test]
fn units_inferred_from_small_diameters() {
    // no units line: two tools of at most 0.1 against one larger -> inch
    let e = parse("T1C0.1\nT2C0.05\nT3C1.5\n").unwrap();
    assert_eq!(e.units, Units::Inch);
    // a diameter a hair above the f64 value of 0.1 still rounds to it
    let e = parse("T1C0.1000000000000000124\nT2C3.0\nT3C0.01\n").unwrap();
    assert_eq!(e.units, Units::Inch);
    // just past the rounding midpoint it no longer does
    let e = parse("T1C0.1000000000000000125\nT2C3.0\nT3C0.01\n").unwrap();
    assert_eq!(e.units, Units::Mm);
    // M71 states millimetres whatever the diameters
    let e = parse("M71\nT1C0.01\n").unwrap();
    assert_eq!(e.units, Units::Mm);
}

#[test]
fn routed_slots_follow_g00_g01() {
    let src = "METRIC\nT1C1.0\nT1\nG00X0.0Y0.0\nG01X5.0Y0.0\nG01X5.0Y5.0\nM30\n";
    let e = parse(src).unwrap();
    let t = e.tool(1).unwrap();
    assert_eq!(t.slots.len(), 2);
    assert_eq!((val(&t.slots[1].0 .0), val(&t.slots[1].1 .1)), (5.0, 5.0));
    assert_eq!(t.diameter.conversion, DiaConversion::Same);
}

#[test]
fn extract_coord_takes_the_value_run() {
    assert_eq!(extract_coord("X-1.5Y2", 'X').as_deref(), Some("-1.5"));
    assert_eq!(extract_coord("X-1.5Y2", 'Y').as_deref(), Some("2"));
    assert_eq!(extract_coord("XY2", 'X'), None);
    assert_eq!(extract_coord("T1", 'C'), None);
}

#[test]
fn decimal_literal_text() {
    let e = parse("METRIC,LZ\nT1C0.5\nT1\nX-1.25Y3\n").unwrap();
    let t = e.tool(1).unwrap();
    assert_eq!(t.drills[0].0.to_literal(), "-125e-2");
}
