use flatcam::gcode::Units;
use flatcam::gcode_reader::{gcode_words, read_gcode};

type Polyline = Vec<(f64, f64)>;

/// Reads a program: words, then each number as an `f64` bit pattern.
fn parse_gcode(text: &str) -> (Units, Vec<Polyline>) {
    let words = gcode_words(text);
    let lines: Vec<Vec<(char, u64)>> = words
        .iter()
        .map(|l| {
            l.iter()
                .map(|(c, v)| (*c, v.iter().collect::<String>().parse::<f64>().unwrap().to_bits()))
                .collect()
        })
        .collect();
    let r = read_gcode(&lines);
    let paths = r
        .paths
        .iter()
        .map(|p| p.iter().map(|&(x, y)| (f64::from_bits(x), f64::from_bits(y))).collect())
        .collect();
    (r.units, paths)
}

#[test]
fn parses_grbl_like_program() {
    let src = "\
(generated)
G21
G0 Z2
G0 X0 Y0
G1 Z-0.5 F60
G1 X10 Y0 F120
G1 X10 Y10
G0 Z2
";
    let (units, paths) = parse_gcode(src);
    assert_eq!(units, Units::Mm);
    assert_eq!(paths.len(), 1, "exactly one milling path");
    assert_eq!(paths[0], vec![(0.0, 0.0), (10.0, 0.0), (10.0, 10.0)]);
}

#[test]
fn g20_selects_inch() {
    let (units, _) = parse_gcode("G20\nG0 Z1\n");
    assert_eq!(units, Units::Inch);
}

#[test]
fn empty_input_has_no_paths() {
    let (_, paths) = parse_gcode("");
    assert_eq!(paths.len(), 0);
}

#[test]
fn comments_and_markers_ignored() {
    let src = "\
%
; a comment
(another comment)
G21
G0 X0 Y0
G1 Z-1 F60
G1 X5 Y5
G1 Z1
";
    let (_, paths) = parse_gcode(src);
    assert_eq!(paths.len(), 1);
    assert_eq!(paths[0], vec![(0.0, 0.0), (5.0, 5.0)]);
}

#[test]
fn plunge_with_no_feed_move_discarded() {
    let src = "G21\nG0 X3 Y3\nG1 Z-0.5 F60\nG0 Z2\n";
    let (_, paths) = parse_gcode(src);
    assert_eq!(paths.len(), 0);
}

#[test]
fn plunge_point_seeds_path() {
    let src = "G21\nG1 Z-0.5 F60\nG1 X3 Y3\nG0 Z2\n";
    let (_, paths) = parse_gcode(src);
    assert_eq!(paths.len(), 1);
    assert_eq!(paths[0], vec![(0.0, 0.0), (3.0, 3.0)]);
}

#[test]
fn two_separate_paths() {
    let src = "\
G21
G0 X0 Y0
G1 Z-0.5 F60
G1 X1 Y0
G1 X1 Y1
G0 Z2
G0 X5 Y5
G1 Z-0.5 F60
G1 X6 Y5
G1 X6 Y6
G0 Z2
";
    let (_, paths) = parse_gcode(src);
    assert_eq!(paths.len(), 2);
    assert_eq!(paths[0], vec![(0.0, 0.0), (1.0, 0.0), (1.0, 1.0)]);
    assert_eq!(paths[1], vec![(5.0, 5.0), (6.0, 5.0), (6.0, 6.0)]);
}

#[test]
fn g_codes_round_like_f64() {
    // G1.4 rounds to 1 (feed), G0.5 to 1, G20.5 to 21 (mm), G-0.4 to 0.
    let (units, paths) = parse_gcode("G20.5\nG1.4 Z-1\nG1 X1\nG0.5 X2\nG0 Z1\n");
    assert_eq!(units, Units::Mm);
    assert_eq!(paths, vec![vec![(0.0, 0.0), (1.0, 0.0), (2.0, 0.0)]]);
    let (units, _) = parse_gcode("g19.6\n");
    assert_eq!(units, Units::Inch);
}

#[test]
fn words_keep_only_numbers() {
    let w = gcode_words("  g1 X1e1 Yabc Z-0.5 ;x\n(skip)\n\nM3\n");
    assert_eq!(w.len(), 2);
    assert_eq!(w[0].len(), 3);
    assert_eq!(w[0][0], ('G', vec!['1']));
    assert_eq!(w[0][1].0, 'X');
    assert_eq!(w[1], vec![('M', vec!['3'])]);
}

#[test]
fn negative_zero_is_not_a_plunge() {
    let (_, paths) = parse_gcode("G1 Z-0\nG1 X1\nG1 X2\nG0 Z1\n");
    assert_eq!(paths.len(), 0);
}

#[test]
fn inserted_blank_and_comment_lines_change_no_words() {
    let base = ["G21", "G00 X0 Y0", "G01 Z-1 F100", "G01 X5 Y5", "G00 Z2"];
    let reference = gcode_words(&base.join("\n"));
    for extra in ["", "   ", "(note)", " ; trailing note", "%"] {
        for k in 0..=base.len() {
            let mut lines: Vec<&str> = base.to_vec();
            lines.insert(k, extra);
            assert_eq!(gcode_words(&lines.join("\n")), reference, "line {extra:?} at {k}");
        }
    }
}
