use flatcam::calib_csv::{finite_number, kerf_csv_text, parse_kerf_csv, parse_power_csv, KerfRow};

const EPS: f64 = 1e-6;

fn f(s: &str) -> f64 {
    s.parse::<f64>().unwrap()
}

/// Kerf measurements `(z, width_x, width_y)` read from a table text.
fn kerf(text: &str) -> Vec<(f64, f64, f64)> {
    parse_kerf_csv(text).iter().map(|k| (f(&k.z), f(&k.width_x), f(&k.width_y))).collect()
}

fn power(text: &str) -> Vec<(f64, f64)> {
    parse_power_csv(text).iter().map(|(p, d)| (f(p), f(d))).collect()
}

/// A kerf table with the numbers printed with six decimals.
fn kerf_to_csv(m: &[(f64, f64, f64)]) -> String {
    let rows: Vec<KerfRow> = m
        .iter()
        .map(|&(z, x, y)| KerfRow {
            z: format!("{:.6}", z),
            width_x: format!("{:.6}", x),
            width_y: format!("{:.6}", y),
        })
        .collect();
    kerf_csv_text(&rows)
}

fn chars(s: &str) -> Vec<char> {
    s.chars().collect()
}

#[test]
fn parse_kerf_mixed_separators_and_skips() {
    let text = "\
z,width_x,width_y
# focus ramp measured by hand
-0.5, 0.090, 0.110

0.0,0.060,0.100
0.5 0.085 0.120
this,is,garbage
1.0,0.130,0.150,extra_ignored
";
    let m = kerf(text);
    assert_eq!(m.len(), 4, "expected 4 good rows, got {}", m.len());

    assert!((m[0].0 - -0.5).abs() < EPS);
    assert!((m[0].1 - 0.090).abs() < EPS);
    assert!((m[0].2 - 0.110).abs() < EPS);

    assert!((m[1].0 - 0.0).abs() < EPS);
    assert!((m[1].1 - 0.060).abs() < EPS);
    assert!((m[1].2 - 0.100).abs() < EPS);

    assert!((m[2].0 - 0.5).abs() < EPS);
    assert!((m[2].1 - 0.085).abs() < EPS);
    assert!((m[2].2 - 0.120).abs() < EPS);

    assert!((m[3].0 - 1.0).abs() < EPS);
    assert!((m[3].1 - 0.130).abs() < EPS);
    assert!((m[3].2 - 0.150).abs() < EPS);
}

#[test]
fn crlf_parses_identically() {
    let lf = "z,width_x,width_y\n-0.5,0.09,0.11\n0.0,0.06,0.10\n0.5 0.085 0.12\n";
    let crlf = "z,width_x,width_y\r\n-0.5,0.09,0.11\r\n0.0,0.06,0.10\r\n0.5 0.085 0.12\r\n";
    let a = kerf(lf);
    let b = kerf(crlf);
    assert_eq!(a.len(), b.len());
    assert_eq!(a.len(), 3);
    for (x, y) in a.iter().zip(b.iter()) {
        assert!((x.0 - y.0).abs() < EPS);
        assert!((x.1 - y.1).abs() < EPS);
        assert!((x.2 - y.2).abs() < EPS);
    }
}

#[test]
fn parse_power_skips_header_and_bad_row() {
    let text = "\
power,depth
# diode power curve
10, 0.02
50,0.11
80 0.18
oops,bad
100,0.25,junk
";
    let p = power(text);
    assert_eq!(p.len(), 4, "expected 4 good rows, got {}", p.len());
    assert!((p[0].0 - 10.0).abs() < EPS && (p[0].1 - 0.02).abs() < EPS);
    assert!((p[1].0 - 50.0).abs() < EPS && (p[1].1 - 0.11).abs() < EPS);
    assert!((p[2].0 - 80.0).abs() < EPS && (p[2].1 - 0.18).abs() < EPS);
    assert!((p[3].0 - 100.0).abs() < EPS && (p[3].1 - 0.25).abs() < EPS);
}

#[test]
fn round_trip_recovers_measurements() {
    let m = vec![(-0.5, 0.090123, 0.110456), (0.0, 0.060000, 0.100000), (0.75, 0.123456, 0.150789)];
    let csv = kerf_to_csv(&m);
    assert!(csv.starts_with("z,width_x,width_y\n"));
    let back = kerf(&csv);
    assert_eq!(back.len(), m.len());
    for (o, r) in m.iter().zip(back.iter()) {
        assert!((o.0 - r.0).abs() < EPS, "z {} vs {}", o.0, r.0);
        assert!((o.1 - r.1).abs() < EPS);
        assert!((o.2 - r.2).abs() < EPS);
    }
}

#[test]
fn empty_and_all_comment_input_is_empty() {
    assert!(parse_kerf_csv("").is_empty());
    assert!(parse_power_csv("").is_empty());

    let comments = "# header\n\n   \n# another comment\n";
    assert!(parse_kerf_csv(comments).is_empty());
    assert!(parse_power_csv(comments).is_empty());

    assert!(parse_kerf_csv(&kerf_to_csv(&[])).is_empty());
}

#[test]
fn csv_fields_are_the_texts_read() {
    let rows = parse_kerf_csv("  1.5 ,  2 , -3e-1 , 7\n");
    assert_eq!(rows, vec![KerfRow { z: "1.5".to_string(), width_x: "2".to_string(), width_y: "-3e-1".to_string() }]);
    assert_eq!(kerf_csv_text(&rows), "z,width_x,width_y\n1.5,2,-3e-1\n");
}

#[test]
fn csv_non_finite_fields_reject_the_line() {
    assert!(parse_power_csv("inf,1\n").is_empty());
    assert!(parse_power_csv("1,NaN\n").is_empty());
    assert!(parse_power_csv("1e400,1\n").is_empty());
    assert_eq!(parse_power_csv("1e-400,1\n").len(), 1);
    // Too few comma fields: the whitespace split is tried.
    assert_eq!(parse_power_csv("1,x 2 3\n").len(), 0);
    assert_eq!(parse_power_csv("4 5,6\n").len(), 0);
    assert_eq!(parse_power_csv("4 5 6\n"), vec![("4".to_string(), "5".to_string())]);
}

#[test]
fn finite_number_matches_float_parsing() {
    let cases = [
        "0", "1", "-1", "+2.5", ".5", "5.", "1e308", "1.8e308", "-1.8e308", "1.7976931348623157e308",
        "1.7976931348623158e308", "1.7976931348623159e308", "inf", "-Infinity", "NaN", "1e-400",
        "0e99999999999999999999999999", "1e99999999999999999999999999", "1e-99999999999999999999999999",
        "abc", "", "1e", "--1", "1.2.3", "E5",
        "179769313486231580793728971405303415079934132710037826936173778980444968292764750946649017977587207096330286416692887910946555547851940402630657488671505820681908902000708383676273854845817711531764475730270069855571366959622842914819860834936475292719074168444365510704342711559699508093042880177904174497791",
        "179769313486231580793728971405303415079934132710037826936173778980444968292764750946649017977587207096330286416692887910946555547851940402630657488671505820681908902000708383676273854845817711531764475730270069855571366959622842914819860834936475292719074168444365510704342711559699508093042880177904174497792",
        "0.000179769313486231580793728971405303415079934132710037826936173778980444968292764750946649017977587207096330286416692887910946555547851940402630657488671505820681908902000708383676273854845817711531764475730270069855571366959622842914819860834936475292719074168444365510704342711559699508093042880177904174497792e312",
    ];
    for c in cases {
        let expected = matches!(c.parse::<f64>(), Ok(v) if v.is_finite());
        assert_eq!(finite_number(&chars(c)), expected, "{c}");
    }
}
