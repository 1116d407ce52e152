use flatcam::drill_writer::{write_excellon, ToolText};
use flatcam::excellon::{parse, Excellon, Units};
use flatcam::numeric::Decimal;

fn val(d: &Decimal) -> f64 {
    d.to_literal().parse::<f64>().unwrap()
}

fn fmt3(d: &Decimal) -> String {
    format!("{:.3}", val(d))
}

/// The table of a read drill file, its numbers rendered with three decimals.
fn as_text(e: &Excellon) -> Vec<(i32, ToolText)> {
    e.tools
        .iter()
        .map(|(n, t)| {
            (
                *n,
                ToolText {
                    diameter: fmt3(&t.diameter.value),
                    drills: t.drills.iter().map(|(x, y)| (fmt3(x), fmt3(y))).collect(),
                    slots: t
                        .slots
                        .iter()
                        .map(|((sx, sy), (ex, ey))| ((fmt3(sx), fmt3(sy)), (fmt3(ex), fmt3(ey))))
                        .collect(),
                },
            )
        })
        .collect()
}

fn write(e: &Excellon) -> String {
    write_excellon(e.units, &as_text(e))
}

#[test]
fn round_trips_drills_and_diameter() {
    let src = "\
M48
METRIC,TZ
T1C0.800
T2C1.200
%
T1
X10.0Y10.0
X20.0Y10.0
T2
X30.0Y30.0
M30
";
    let first_read = parse(src).unwrap();
    let text = write(&first_read);
    let reparsed = parse(&text).unwrap();

    assert_eq!(reparsed.drill_count(), first_read.drill_count());
    assert_eq!(reparsed.tools.len(), first_read.tools.len());
    assert_eq!(reparsed.tool(1).unwrap().drills.len(), 2);
    assert_eq!(reparsed.tool(2).unwrap().drills.len(), 1);

    assert!((val(&reparsed.tool(1).unwrap().diameter.value) - 0.8).abs() < 1e-6);
    assert!((val(&reparsed.tool(2).unwrap().diameter.value) - 1.2).abs() < 1e-6);

    assert_eq!(reparsed.units, first_read.units);
}

#[test]
fn drill_coordinates_preserved() {
    let src = "\
M48
METRIC,LZ
T1C1.000
%
T1
X12.345Y67.890
M30
";
    let e = parse(src).unwrap();
    let text = write(&e);
    let re = parse(&text).unwrap();
    let t = re.tool(1).unwrap();
    let (x, y) = (val(&t.drills[0].0), val(&t.drills[0].1));
    assert!((x - 12.345).abs() < 1e-6, "x {x}");
    assert!((y - 67.890).abs() < 1e-6, "y {y}");
}

#[test]
fn slots_round_trip_via_g85() {
    let src = "\
M48
METRIC,LZ
T1C1.000
%
T1
X10.0Y10.0G85X20.0Y10.0
M30
";
    let e = parse(src).unwrap();
    let text = write(&e);
    assert!(text.contains("G85"), "expected G85 in output: {text}");
    let re = parse(&text).unwrap();
    let t = re.tool(1).unwrap();
    assert_eq!(t.slots.len(), 1);
    let ((sx, sy), (ex, ey)) = &t.slots[0];
    assert!((val(sx) - 10.0).abs() < 1e-6);
    assert!((val(sy) - 10.0).abs() < 1e-6);
    assert!((val(ex) - 20.0).abs() < 1e-6);
    assert!((val(ey) - 10.0).abs() < 1e-6);
}

#[test]
fn header_declares_inch_units() {
    let src = "\
M48
INCH,LZ
T1C0.040
%
T1
X1.0Y1.0
M30
";
    let e = parse(src).unwrap();
    let text = write(&e);
    assert!(text.starts_with("M48\n"), "{text}");
    assert!(text.contains("INCH,LZ"), "{text}");
    assert!(text.trim_end().ends_with("M30"), "{text}");
}

#[test]
fn writer_exact_program_text() {
    let tools = vec![
        (
            3,
            ToolText {
                diameter: "0.800".to_string(),
                drills: vec![("1.000".to_string(), "-2.500".to_string())],
                slots: vec![(
                    ("0.000".to_string(), "0.000".to_string()),
                    ("5.000".to_string(), "0.000".to_string()),
                )],
            },
        ),
        (
            7,
            ToolText { diameter: "1.200".to_string(), drills: vec![], slots: vec![] },
        ),
    ];
    let text = write_excellon(Units::Mm, &tools);
    assert_eq!(
        text,
        "M48\nMETRIC,LZ\nT3C0.800\nT7C1.200\n%\nT3\nX1.000Y-2.500\nX0.000Y0.000G85X5.000Y0.000\nT7\nM30\n"
    );
    let re = parse(&text).unwrap();
    assert_eq!(re.units, Units::Mm);
    assert_eq!(re.tools.len(), 2);
    assert_eq!(re.tools[0].0, 3);
    assert_eq!(re.tools[1].0, 7);
    let t3 = re.tool(3).unwrap();
    assert_eq!(t3.drills.len(), 1);
    assert_eq!(val(&t3.drills[0].1), -2.5);
    assert_eq!(t3.slots.len(), 1);
    assert_eq!(val(&t3.slots[0].1 .0), 5.0);
    assert!(re.tool(7).unwrap().drills.is_empty());
}

#[test]
fn writer_empty_table_inch() {
    let text = write_excellon(Units::Inch, &vec![]);
    assert_eq!(text, "M48\nINCH,LZ\n%\nM30\n");
    let re = parse(&text).unwrap();
    assert_eq!(re.units, Units::Inch);
    assert!(re.tools.is_empty());
}
