use flatcam::excellon::{DiaConversion, Diameter, Excellon, ExcellonError, Units};
use flatcam::numeric::Decimal;
use flatcam::pcbwizard::{conversion, parse_diameter, parse_inf, parse_pcbwizard, DiaUnit, Format};

fn val(d: &Decimal) -> f64 {
    d.to_literal().parse::<f64>().unwrap()
}

fn dia(d: &Diameter) -> f64 {
    let v = val(&d.value);
    match d.conversion {
        DiaConversion::Same => v,
        DiaConversion::MmToInch => v / 25.4,
        DiaConversion::InchToMm => v * 25.4,
        DiaConversion::MilToInch => v / 1000.0,
        DiaConversion::MilToMm => v / 1000.0 * 25.4,
    }
}

fn drill(e: &Excellon, tool: i32, k: usize) -> (f64, f64) {
    let t = e.tool(tool).unwrap();
    (val(&t.drills[k].0), val(&t.drills[k].1))
}

#[test]
fn parses_mm_pair_with_explicit_format() {
    let inf = "\
; PcbWizard drill legend
Units, MM
Format, 3.3
T01 0.8mm
T02 1.2mm
";
    let drl = "\
%
T01
X010000Y010000
X020500Y010000
T02
X030000Y030000
M30
";
    let e = parse_pcbwizard(drl, inf).unwrap();
    assert_eq!(e.units, Units::Mm);
    assert_eq!(e.tools.len(), 2);
    assert!((dia(&e.tool(1).unwrap().diameter) - 0.8).abs() < 1e-9);
    assert!((dia(&e.tool(2).unwrap().diameter) - 1.2).abs() < 1e-9);
    assert_eq!(e.tool(1).unwrap().drills.len(), 2);
    assert_eq!(e.tool(2).unwrap().drills.len(), 1);
    assert_eq!(e.drill_count(), 3);
    let (x0, y0) = drill(&e, 1, 0);
    assert!((x0 - 10.0).abs() < 1e-6, "x0={x0}");
    assert!((y0 - 10.0).abs() < 1e-6, "y0={y0}");
    let (x1, _) = drill(&e, 1, 1);
    assert!((x1 - 20.5).abs() < 1e-6, "x1={x1}");
}

#[test]
fn explicit_decimal_coords_taken_literally() {
    let inf = "Units, MM\nFormat, 3.3\nT01 1.0mm\n";
    let drl = "T01\nX12.34Y5.67\nM30\n";
    let e = parse_pcbwizard(drl, inf).unwrap();
    let (x, y) = drill(&e, 1, 0);
    assert!((x - 12.34).abs() < 1e-6, "x={x}");
    assert!((y - 5.67).abs() < 1e-6, "y={y}");
}

#[test]
fn inch_with_mil_diameter_suffix() {
    let inf = "Units, INCH\nFormat, 2.4\nT01 32mil\n";
    let drl = "T01\nX012345Y000000\nM30\n";
    let e = parse_pcbwizard(drl, inf).unwrap();
    assert_eq!(e.units, Units::Inch);
    let d = &e.tool(1).unwrap().diameter;
    assert_eq!(d.conversion, DiaConversion::MilToInch);
    assert!((dia(d) - 0.032).abs() < 1e-9, "dia={}", dia(d));
    let (x, _) = drill(&e, 1, 0);
    assert!((x - 1.2345).abs() < 1e-6, "x={x}");
}

#[test]
fn comma_separated_legend_and_bare_diameter() {
    let inf = "Units,MM\nFormat,3.3\nT03,0.5\n";
    let drl = "T03\nX001000Y001000\nM30\n";
    let e = parse_pcbwizard(drl, inf).unwrap();
    assert!((dia(&e.tool(3).unwrap().diameter) - 0.5).abs() < 1e-9);
    let (x, _) = drill(&e, 3, 0);
    assert!((x - 1.0).abs() < 1e-6, "x={x}");
}

#[test]
fn default_format_when_unstated_mm() {
    let inf = "Units, MM\nT01 0.8mm\n";
    let drl = "T01\nX005000Y005000\nM30\n";
    let e = parse_pcbwizard(drl, inf).unwrap();
    let (x, _) = drill(&e, 1, 0);
    assert!((x - 5.0).abs() < 1e-6, "x={x}");
}

#[test]
fn unknown_tool_in_drl_errors() {
    let inf = "Units, MM\nFormat, 3.3\nT01 0.8mm\n";
    let drl = "T05\nX010000Y010000\nM30\n";
    let err = parse_pcbwizard(drl, inf).unwrap_err();
    assert!(matches!(err, ExcellonError::UnknownTool(_)), "got {err:?}");
    assert_eq!(err, ExcellonError::UnknownTool("T05".to_string()));
    assert_eq!(err.message(), "unknown tool T05");
}

#[test]
fn both_empty_errors() {
    assert!(matches!(parse_pcbwizard("", ""), Err(ExcellonError::Empty)));
    assert!(matches!(parse_pcbwizard("   \n", "\n  "), Err(ExcellonError::Empty)));
}

#[test]
fn empty_drl_yields_zero_drill_excellon() {
    let inf = "Units, MM\nFormat, 3.3\nT01 0.8mm\n";
    let e = parse_pcbwizard("", inf).unwrap();
    assert_eq!(e.tools.len(), 1);
    assert_eq!(e.drill_count(), 0);
}

#[test]
fn shape_matches_standard_parser_geometry() {
    let inf = "Units, MM\nFormat, 3.3\nT01 2.0mm\n";
    let drl = "T01\nX000000Y000000\nM30\n";
    let e = parse_pcbwizard(drl, inf).unwrap();
    let t = e.tool(1).unwrap();
    assert_eq!(dia(&t.diameter), 2.0);
    assert_eq!(drill(&e, 1, 0), (0.0, 0.0));
}

#[test]
fn legend_tool_code_out_of_range_is_refused() {
    let err = parse_pcbwizard("T1\n", "T99999999999 0.8mm\n").unwrap_err();
    assert_eq!(err, ExcellonError::Parse("bad tool code in .INF: T99999999999 0.8mm".to_string()));
}

#[test]
fn legend_defaults_and_conversions() {
    let (tools, f) = parse_inf("INCH\nT1 0.8mm\nT2\n").unwrap();
    assert_eq!(f.units, Units::Inch);
    assert_eq!(f.frac, Format::default_for_unit(Units::Inch));
    assert!(!f.format_seen);
    assert_eq!(tools.len(), 2);
    assert_eq!(tools[0].1.diameter.conversion, DiaConversion::MmToInch);
    assert_eq!(val(&tools[1].1.diameter.value), 0.0);
    assert_eq!(Format::default_for_unit(Units::Mm), 3);
    assert_eq!(conversion(Some(DiaUnit::Mil), Units::Mm), DiaConversion::MilToMm);
    assert_eq!(conversion(None, Units::Mm), DiaConversion::Same);
}

#[test]
fn diameter_suffixes() {
    let c: Vec<char> = " = 0.032IN".chars().collect();
    let (v, u) = parse_diameter(&c).unwrap();
    assert_eq!(val(&v), 0.032);
    assert_eq!(u, Some(DiaUnit::Inch));
    let c: Vec<char> = ",31.5mil".chars().collect();
    assert_eq!(parse_diameter(&c).unwrap().1, Some(DiaUnit::Mil));
    let c: Vec<char> = "  ".chars().collect();
    assert!(parse_diameter(&c).is_none());
    let c: Vec<char> = "x1".chars().collect();
    assert!(parse_diameter(&c).is_none());
}
