use flatcam::gcode_editor::{strip_line_number, GCodeEditor};

#[test]
fn from_to_text_round_trip() {
    let src = "G21\nG90\nM3 S1000\nM5";
    let ed = GCodeEditor::from_text(src);
    assert_eq!(ed.lines.len(), 4);
    assert_eq!(ed.to_text(), src);
}

#[test]
fn from_text_strips_crlf() {
    let ed = GCodeEditor::from_text("G21\r\nG90\r\n");
    assert_eq!(ed.lines, vec!["G21", "G90", ""]);
    assert_eq!(ed.to_text(), "G21\nG90\n");
}

#[test]
fn insert_line_at_index_and_append() {
    let mut ed = GCodeEditor::from_text("a\nc");
    ed.insert_line(1, "b");
    assert_eq!(ed.lines, vec!["a", "b", "c"]);
    // Out-of-range index appends.
    ed.insert_line(99, "d");
    assert_eq!(ed.lines, vec!["a", "b", "c", "d"]);
}

#[test]
fn delete_line_returns_status() {
    let mut ed = GCodeEditor::from_text("a\nb\nc");
    assert!(ed.delete_line(1));
    assert_eq!(ed.lines, vec!["a", "c"]);
    assert!(!ed.delete_line(5));
    assert_eq!(ed.lines, vec!["a", "c"]);
}

#[test]
fn replace_line_returns_status() {
    let mut ed = GCodeEditor::from_text("a\nb\nc");
    assert!(ed.replace_line(1, "B"));
    assert_eq!(ed.lines, vec!["a", "B", "c"]);
    assert!(!ed.replace_line(9, "x"));
    assert_eq!(ed.lines, vec!["a", "B", "c"]);
}

#[test]
fn find_returns_correct_indices() {
    let ed = GCodeEditor::from_text("G0 X1\nG1 X2\nG0 X3\nM5");
    assert_eq!(ed.find("G0"), vec![0, 2]);
    assert_eq!(ed.find("X2"), vec![1]);
    assert_eq!(ed.find("ZZZ"), Vec::<usize>::new());
}

#[test]
fn renumber_adds_sequential_numbers() {
    let mut ed = GCodeEditor::from_text("G21\nG90\nM3");
    ed.renumber(10, 10);
    assert_eq!(ed.lines, vec!["N10 G21", "N20 G90", "N30 M3"]);
}

#[test]
fn renumber_skips_empty_and_comments_and_is_idempotent() {
    let mut ed = GCodeEditor::from_text("G21\n\n(comment)\n;semicolon\nG90");
    ed.renumber(10, 10);
    assert_eq!(
        ed.lines,
        vec!["N10 G21", "", "(comment)", ";semicolon", "N20 G90"]
    );
    // Running again must not stack line numbers.
    ed.renumber(10, 10);
    assert_eq!(
        ed.lines,
        vec!["N10 G21", "", "(comment)", ";semicolon", "N20 G90"]
    );
}

#[test]
fn strip_comments_removes_comment_lines() {
    let mut ed = GCodeEditor::from_text("(header)\nG21\n; setup\nG90\n  (indented)\nM5");
    ed.strip_comments();
    assert_eq!(ed.lines, vec!["G21", "G90", "M5"]);
}

#[test]
fn strip_line_number_helper() {
    assert_eq!(strip_line_number("N10 G21"), "G21");
    assert_eq!(strip_line_number("N100G90"), "G90");
    assert_eq!(strip_line_number("G21"), "G21");
    assert_eq!(strip_line_number("Nope"), "Nope");
}

// ----- further cases -----

#[test]
fn default_editor_is_empty() {
    let ed = GCodeEditor::default();
    assert!(ed.lines.is_empty());
    assert_eq!(ed.to_text(), "");
}

#[test]
fn empty_text_is_one_empty_line() {
    let ed = GCodeEditor::from_text("");
    assert_eq!(ed.lines, vec![""]);
}

#[test]
fn lone_carriage_return_inside_line_is_kept() {
    let src = "a\rb\nc";
    let ed = GCodeEditor::from_text(src);
    assert_eq!(ed.lines, vec!["a\rb", "c"]);
    assert_eq!(ed.to_text(), src);
}

#[test]
fn lines_round_trip_through_text() {
    let mut ed = GCodeEditor::default();
    ed.insert_line(0, "G21");
    ed.insert_line(1, "");
    ed.insert_line(2, "M5");
    let again = GCodeEditor::from_text(&ed.to_text());
    assert_eq!(again.lines, ed.lines);
}

#[test]
fn renumber_saturates() {
    let mut ed = GCodeEditor::from_text("A\nB\nC");
    ed.renumber(u32::MAX - 1, 5);
    assert_eq!(ed.lines, vec!["N4294967294 A", "N4294967295 B", "N4294967295 C"]);
}

#[test]
fn renumber_replaces_lowercase_line_number() {
    let mut ed = GCodeEditor::from_text("n5 G0\n  ( note");
    ed.renumber(1, 2);
    assert_eq!(ed.lines, vec!["N1 G0", "  ( note"]);
}

#[test]
fn find_with_empty_needle_matches_every_line() {
    let ed = GCodeEditor::from_text("a\n\nb");
    assert_eq!(ed.find(""), vec![0, 1, 2]);
}

#[test]
fn strip_comments_twice_is_once() {
    let mut ed = GCodeEditor::from_text("(a)\nG1\n;b\nG2");
    ed.strip_comments();
    let once = ed.lines.clone();
    ed.strip_comments();
    assert_eq!(ed.lines, once);
}

#[test]
fn insert_then_delete_restores() {
    let mut ed = GCodeEditor::from_text("a\nb");
    ed.insert_line(1, "x");
    assert!(ed.delete_line(1));
    assert_eq!(ed.lines, vec!["a", "b"]);
}

#[test]
fn trim_handles_unicode_whitespace() {
    let mut ed = GCodeEditor::from_text("\u{3000}(wide)\nG0");
    ed.strip_comments();
    assert_eq!(ed.lines, vec!["G0"]);
}
