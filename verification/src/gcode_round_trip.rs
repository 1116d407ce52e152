//! What the G-code reader makes of a GRBL milling program written by the
//! emitter: the units of the job, and one path per pass of every polyline
//! of at least two points, through exactly the points written.
//!
//! The reader works on the `f64` values of the numbers; here they are any
//! conversion of the number texts to bit patterns that reads the G-codes
//! `00`, `01`, `20`, `21` and `90` as those integers, the clearance height
//! as not below zero, and every pass depth as below zero.
use crate::drill_writer::{lines_text, lemma_lines_text_append, lemma_lines_text_push};
use crate::gcode::{
    footer_text, header_text, linear_text, linears_text, mill_text, pass_text, passes_text,
    plunge_text, rapid_xy_text, rapid_z_text, units_word_spec, Dialect, JobWordsView, PointText,
};
use crate::gcode_reader::{
    program_words, read_words, skipped_line, split_word_spec, ws_scan, ws_words, gcode_words_spec,
    read_line, read_lines, read_initial, read_spec, finish, ReadState, apply_g, apply_axes, g_action,
    f64_eq, f64_below_zero, GAction, Motion,
};
use crate::numeric::is_float_literal;
use crate::text::{is_ws, join_spec, split_spec, trim_end_spec, trim_spec, trim_start_spec};
use vstd::prelude::*;

verus! {

// ---------------------------------------------------------------------------
// The lines of a GRBL milling program
// ---------------------------------------------------------------------------

/// `G00 Z<z>`.
pub open spec fn g00_z(z: Seq<char>) -> Seq<char> {
    "G00 Z"@ + z
}

/// `G00 X<x> Y<y>`.
pub open spec fn g00_xy(x: Seq<char>, y: Seq<char>) -> Seq<char> {
    "G00 X"@ + x + " Y"@ + y
}

/// `G01 Z<z> F<feed>`.
pub open spec fn g01_z(z: Seq<char>, f: Seq<char>) -> Seq<char> {
    "G01 Z"@ + z + " F"@ + f
}

/// `G01 X<x> Y<y> F<feed>`.
pub open spec fn g01_xy(x: Seq<char>, y: Seq<char>, f: Seq<char>) -> Seq<char> {
    "G01 X"@ + x + " Y"@ + y + " F"@ + f
}

/// The program start.
pub open spec fn grbl_header_lines(w: JobWordsView) -> Seq<Seq<char>> {
    seq![
        "(FlatCAM-RS GRBL preprocessor)"@,
        "(tool dia: "@ + w.tool_diameter + ")"@,
        "G90"@,
        units_word_spec(w.units),
        "M03 S"@ + w.spindle,
        g00_z(w.travel_z),
    ]
}

/// The program end.
pub open spec fn grbl_footer_lines(w: JobWordsView) -> Seq<Seq<char>> {
    seq![g00_z(w.travel_z), "M05"@, "G00 X0.0000 Y0.0000"@, "M30"@]
}

/// The cuts to the points `pts`.
pub open spec fn cut_lines(pts: Seq<PointText>, w: JobWordsView) -> Seq<Seq<char>> {
    pts.map_values(|p: PointText| g01_xy(p.0, p.1, w.feed_xy))
}

/// One pass of `path` at depth `z`: lift, position, plunge, cut along.
pub open spec fn pass_lines(path: Seq<PointText>, z: Seq<char>, w: JobWordsView) -> Seq<Seq<char>> {
    seq![g00_z(w.travel_z), g00_xy(path[0].0, path[0].1), g01_z(z, w.feed_z)] + cut_lines(
        path.drop_first(),
        w,
    )
}

/// The passes of `path`, one per depth.
pub open spec fn passes_lines(path: Seq<PointText>, depths: Seq<Seq<char>>, w: JobWordsView) -> Seq<
    Seq<char>,
>
    decreases depths.len(),
{
    if depths.len() == 0 {
        Seq::<Seq<char>>::empty()
    } else {
        passes_lines(path, depths.drop_last(), w) + pass_lines(path, depths.last(), w)
    }
}

/// The milling of `paths`: for each path of at least two points, its
/// passes and a final lift.
pub open spec fn mill_lines(paths: Seq<Seq<PointText>>, depths: Seq<Seq<char>>, w: JobWordsView) -> Seq<
    Seq<char>,
>
    decreases paths.len(),
{
    if paths.len() == 0 {
        Seq::<Seq<char>>::empty()
    } else if paths.last().len() < 2 {
        mill_lines(paths.drop_last(), depths, w)
    } else {
        mill_lines(paths.drop_last(), depths, w) + passes_lines(paths.last(), depths, w) + seq![
            g00_z(w.travel_z),
        ]
    }
}

/// The whole milling program.
pub open spec fn grbl_program_lines(paths: Seq<Seq<PointText>>, depths: Seq<Seq<char>>, w: JobWordsView) -> Seq<
    Seq<char>,
> {
    grbl_header_lines(w) + mill_lines(paths, depths, w) + grbl_footer_lines(w)
}

/// Appending lines one after another.
pub proof fn lemma_base_lines(base: Seq<char>, a: Seq<Seq<char>>, b: Seq<Seq<char>>)
    ensures
        base + lines_text(a) + lines_text(b) == base + lines_text(a + b),
{
    lemma_lines_text_append(a, b);
    assert(base + lines_text(a) + lines_text(b) =~= base + (lines_text(a) + lines_text(b)));
}

pub proof fn lemma_header_text(base: Seq<char>, w: JobWordsView)
    ensures
        header_text(base, Dialect::Grbl, w) == base + lines_text(grbl_header_lines(w)),
{
    let h = grbl_header_lines(w);
    lemma_lines_text_push(Seq::<Seq<char>>::empty(), h[0]);
    lemma_lines_text_push(seq![h[0]], h[1]);
    lemma_lines_text_push(seq![h[0], h[1]], h[2]);
    lemma_lines_text_push(seq![h[0], h[1], h[2]], h[3]);
    lemma_lines_text_push(seq![h[0], h[1], h[2], h[3]], h[4]);
    lemma_lines_text_push(seq![h[0], h[1], h[2], h[3], h[4]], h[5]);
    assert(seq![h[0]].push(h[1]) =~= seq![h[0], h[1]]);
    assert(seq![h[0], h[1]].push(h[2]) =~= seq![h[0], h[1], h[2]]);
    assert(seq![h[0], h[1], h[2]].push(h[3]) =~= seq![h[0], h[1], h[2], h[3]]);
    assert(seq![h[0], h[1], h[2], h[3]].push(h[4]) =~= seq![h[0], h[1], h[2], h[3], h[4]]);
    assert(seq![h[0], h[1], h[2], h[3], h[4]].push(h[5]) =~= h);
    assert(header_text(base, Dialect::Grbl, w) =~= base + lines_text(h));
}

pub proof fn lemma_footer_text(base: Seq<char>, w: JobWordsView)
    ensures
        footer_text(base, Dialect::Grbl, w) == base + lines_text(grbl_footer_lines(w)),
{
    let h = grbl_footer_lines(w);
    lemma_lines_text_push(Seq::<Seq<char>>::empty(), h[0]);
    lemma_lines_text_push(seq![h[0]], h[1]);
    lemma_lines_text_push(seq![h[0], h[1]], h[2]);
    lemma_lines_text_push(seq![h[0], h[1], h[2]], h[3]);
    assert(seq![h[0]].push(h[1]) =~= seq![h[0], h[1]]);
    assert(seq![h[0], h[1]].push(h[2]) =~= seq![h[0], h[1], h[2]]);
    assert(seq![h[0], h[1], h[2]].push(h[3]) =~= h);
    assert(footer_text(base, Dialect::Grbl, w) =~= base + lines_text(h));
}

pub proof fn lemma_linears_text(base: Seq<char>, pts: Seq<PointText>, w: JobWordsView)
    ensures
        linears_text(base, Dialect::Grbl, pts, w) == base + lines_text(cut_lines(pts, w)),
    decreases pts.len(),
{
    if pts.len() == 0 {
        assert(cut_lines(pts, w) =~= Seq::<Seq<char>>::empty());
        assert(base + Seq::<char>::empty() =~= base);
    } else {
        lemma_linears_text(base, pts.drop_last(), w);
        let p = pts.last();
        let l = g01_xy(p.0, p.1, w.feed_xy);
        assert(cut_lines(pts, w) =~= cut_lines(pts.drop_last(), w).push(l));
        lemma_lines_text_push(cut_lines(pts.drop_last(), w), l);
        assert(linear_text(base + lines_text(cut_lines(pts.drop_last(), w)), Dialect::Grbl, p.0, p.1, w)
            =~= base + lines_text(cut_lines(pts, w)));
    }
}

pub proof fn lemma_pass_text(base: Seq<char>, path: Seq<PointText>, z: Seq<char>, w: JobWordsView)
    requires
        path.len() >= 1,
    ensures
        pass_text(base, Dialect::Grbl, path, z, w) == base + lines_text(pass_lines(path, z, w)),
{
    let a = seq![g00_z(w.travel_z), g00_xy(path[0].0, path[0].1), g01_z(z, w.feed_z)];
    lemma_lines_text_push(Seq::<Seq<char>>::empty(), a[0]);
    lemma_lines_text_push(seq![a[0]], a[1]);
    lemma_lines_text_push(seq![a[0], a[1]], a[2]);
    assert(seq![a[0]].push(a[1]) =~= seq![a[0], a[1]]);
    assert(seq![a[0], a[1]].push(a[2]) =~= a);
    let b0 = plunge_text(
        rapid_xy_text(rapid_z_text(base, Dialect::Grbl, w.travel_z), Dialect::Grbl, path[0].0, path[0].1),
        Dialect::Grbl,
        z,
        w,
    );
    assert(b0 =~= base + lines_text(a));
    lemma_linears_text(b0, path.drop_first(), w);
    lemma_base_lines(base, a, cut_lines(path.drop_first(), w));
}

pub proof fn lemma_passes_text(base: Seq<char>, path: Seq<PointText>, depths: Seq<Seq<char>>, w: JobWordsView)
    requires
        path.len() >= 1,
    ensures
        passes_text(base, Dialect::Grbl, path, depths, w) == base + lines_text(passes_lines(path, depths, w)),
    decreases depths.len(),
{
    if depths.len() == 0 {
        assert(base + Seq::<char>::empty() =~= base);
    } else {
        lemma_passes_text(base, path, depths.drop_last(), w);
        let a = passes_lines(path, depths.drop_last(), w);
        lemma_pass_text(base + lines_text(a), path, depths.last(), w);
        lemma_base_lines(base, a, pass_lines(path, depths.last(), w));
    }
}

pub proof fn lemma_mill_text(base: Seq<char>, paths: Seq<Seq<PointText>>, depths: Seq<Seq<char>>, w: JobWordsView)
    ensures
        mill_text(base, Dialect::Grbl, paths, depths, w) == base + lines_text(mill_lines(paths, depths, w)),
    decreases paths.len(),
{
    if paths.len() == 0 {
        assert(base + Seq::<char>::empty() =~= base);
    } else {
        lemma_mill_text(base, paths.drop_last(), depths, w);
        if paths.last().len() >= 2 {
            let a = mill_lines(paths.drop_last(), depths, w);
            let p = passes_lines(paths.last(), depths, w);
            lemma_passes_text(base + lines_text(a), paths.last(), depths, w);
            lemma_base_lines(base, a, p);
            lemma_lines_text_push(a + p, g00_z(w.travel_z));
            assert((a + p).push(g00_z(w.travel_z)) =~= a + p + seq![g00_z(w.travel_z)]);
            assert(base + lines_text(a + p) + g00_z(w.travel_z) + seq!['\n'] =~= base + lines_text(
                (a + p).push(g00_z(w.travel_z)),
            ));
            assert(rapid_z_text(base + lines_text(a + p), Dialect::Grbl, w.travel_z) =~= base + lines_text(
                a + p + seq![g00_z(w.travel_z)],
            ));
        }
    }
}

/// The program text is the program's lines.
pub proof fn lemma_program_text(paths: Seq<Seq<PointText>>, depths: Seq<Seq<char>>, w: JobWordsView)
    ensures
        footer_text(
            mill_text(header_text(Seq::<char>::empty(), Dialect::Grbl, w), Dialect::Grbl, paths, depths, w),
            Dialect::Grbl,
            w,
        ) == lines_text(grbl_program_lines(paths, depths, w)),
{
    let e = Seq::<char>::empty();
    lemma_header_text(e, w);
    let h = grbl_header_lines(w);
    let m = mill_lines(paths, depths, w);
    let f = grbl_footer_lines(w);
    assert(e + lines_text(h) =~= lines_text(h));
    lemma_mill_text(lines_text(h), paths, depths, w);
    lemma_lines_text_append(h, m);
    lemma_footer_text(lines_text(h + m), w);
    lemma_lines_text_append(h + m, f);
}

// ---------------------------------------------------------------------------
// Words of lines
// ---------------------------------------------------------------------------

/// A token: not empty, no whitespace.
pub open spec fn token(t: Seq<char>) -> bool {
    t.len() > 0 && forall|k: int| 0 <= k < t.len() ==> !is_ws(#[trigger] t[k])
}

pub proof fn lemma_ws_scan_plain_tail(s: Seq<char>, t: Seq<char>)
    requires
        forall|k: int| 0 <= k < t.len() ==> !is_ws(#[trigger] t[k]),
    ensures
        ws_scan(s + t) == (ws_scan(s).0, ws_scan(s).1 + t),
    decreases t.len(),
{
    if t.len() == 0 {
        assert(s + t =~= s);
        assert(ws_scan(s).1 + t =~= ws_scan(s).1);
    } else {
        lemma_ws_scan_plain_tail(s, t.drop_last());
        assert((s + t).drop_last() =~= s + t.drop_last());
        assert((s + t).last() == t.last());
        assert(!is_ws(t[t.len() - 1]));
        assert((ws_scan(s).1 + t.drop_last()).push(t.last()) =~= ws_scan(s).1 + t);
    }
}

/// Tokens joined with single spaces scan as all but the last, the last one
/// in progress.
pub proof fn lemma_ws_scan_join(ts: Seq<Seq<char>>)
    requires
        ts.len() >= 1,
        forall|i: int| 0 <= i < ts.len() ==> token(#[trigger] ts[i]),
    ensures
        ws_scan(join_spec(ts, ' ')) == (ts.drop_last(), ts.last()),
    decreases ts.len(),
{
    assert(token(ts[ts.len() - 1]));
    if ts.len() == 1 {
        lemma_ws_scan_plain_tail(Seq::<char>::empty(), ts[0]);
        assert(Seq::<char>::empty() + ts[0] =~= ts[0]);
        assert(ws_scan(Seq::<char>::empty()) == (Seq::<Seq<char>>::empty(), Seq::<char>::empty()));
        assert(ts.drop_last() =~= Seq::<Seq<char>>::empty());
        assert(Seq::<char>::empty() + ts[0] =~= ts[0]);
    } else {
        let a = ts.drop_last();
        assert forall|i: int| 0 <= i < a.len() implies token(#[trigger] a[i]) by {
            assert(a[i] == ts[i]);
        }
        lemma_ws_scan_join(a);
        let j = join_spec(a, ' ');
        assert(join_spec(ts, ' ') == j.push(' ') + ts.last());
        assert(j.push(' ').drop_last() =~= j);
        assert(is_ws(' '));
        assert(ws_scan(j.push(' ')) == (a.drop_last().push(a.last()), Seq::<char>::empty())) by {
            assert(token(a[a.len() - 1]));
        }
        assert(a.drop_last().push(a.last()) =~= a);
        lemma_ws_scan_plain_tail(j.push(' '), ts.last());
        assert(Seq::<char>::empty() + ts.last() =~= ts.last());
    }
}

pub proof fn lemma_ws_words_join(ts: Seq<Seq<char>>)
    requires
        ts.len() >= 1,
        forall|i: int| 0 <= i < ts.len() ==> token(#[trigger] ts[i]),
    ensures
        ws_words(join_spec(ts, ' ')) == ts,
{
    lemma_ws_scan_join(ts);
    assert(token(ts[ts.len() - 1]));
    assert(ts.drop_last().push(ts.last()) =~= ts);
}

/// A line whose first and last characters are not whitespace is its own
/// trim.
pub proof fn lemma_trim_ends(l: Seq<char>)
    requires
        l.len() > 0,
        !is_ws(l[0]),
        !is_ws(l[l.len() - 1]),
    ensures
        trim_spec(l) == l,
{
    assert(trim_start_spec(l) == l);
    assert(l.last() == l[l.len() - 1]);
    assert(trim_end_spec(l) == l);
}

/// The joined tokens: first and last characters, no newline.
pub proof fn lemma_join_shape(ts: Seq<Seq<char>>)
    requires
        ts.len() >= 1,
        forall|i: int| 0 <= i < ts.len() ==> token(#[trigger] ts[i]),
    ensures
        join_spec(ts, ' ').len() > 0,
        join_spec(ts, ' ')[0] == ts[0][0],
        join_spec(ts, ' ')[join_spec(ts, ' ').len() - 1] == ts.last()[ts.last().len() - 1],
        !join_spec(ts, ' ').contains('\n'),
        trim_spec(join_spec(ts, ' ')) == join_spec(ts, ' '),
    decreases ts.len(),
{
    let j = join_spec(ts, ' ');
    assert(token(ts[0]));
    assert(token(ts[ts.len() - 1]));
    if ts.len() == 1 {
        assert(j == ts[0]);
        if j.contains('\n') {
            let k = choose|k: int| 0 <= k < j.len() && j[k] == '\n';
            assert(!is_ws(ts[0][k]));
        }
    } else {
        let a = ts.drop_last();
        assert forall|i: int| 0 <= i < a.len() implies token(#[trigger] a[i]) by {
            assert(a[i] == ts[i]);
        }
        lemma_join_shape(a);
        let ja = join_spec(a, ' ');
        assert(j == ja.push(' ') + ts.last());
        assert(j[0] == ja[0]);
        assert(a[0] == ts[0]);
        if j.contains('\n') {
            let k = choose|k: int| 0 <= k < j.len() && j[k] == '\n';
            if k < ja.len() {
                assert(j[k] == ja[k]);
                assert(ja.contains('\n'));
            } else if k > ja.len() {
                assert(j[k] == ts.last()[k - ja.len() - 1]);
                assert(!is_ws(ts.last()[k - ja.len() - 1]));
            }
        }
    }
    assert(!is_ws(ts[0][0]));
    assert(!is_ws(ts.last()[ts.last().len() - 1]));
    lemma_trim_ends(j);
}

// ---------------------------------------------------------------------------
// Reading text lines with the numbers converted
// ---------------------------------------------------------------------------

/// The words of a line with their numbers converted by `bits`.
pub open spec fn bits_words(ws: Seq<(char, Seq<char>)>, bits: spec_fn(Seq<char>) -> u64) -> Seq<(char, u64)> {
    ws.map_values(|p: (char, Seq<char>)| (p.0, bits(p.1)))
}

pub open spec fn bits_lines(ls: Seq<Seq<(char, Seq<char>)>>, bits: spec_fn(Seq<char>) -> u64) -> Seq<
    Seq<(char, u64)>,
> {
    ls.map_values(|l: Seq<(char, Seq<char>)>| bits_words(l, bits))
}

/// The words of a text line (trimmed).
pub open spec fn line_words(l: Seq<char>) -> Seq<(char, Seq<char>)> {
    let p = ws_words(trim_spec(l));
    read_words(p, p.len() as int)
}

/// Reading one text line: nothing for a skipped line.
pub open spec fn read_text_line(st: ReadState, l: Seq<char>, bits: spec_fn(Seq<char>) -> u64) -> ReadState {
    if skipped_line(trim_spec(l)) {
        st
    } else {
        read_line(st, bits_words(line_words(l), bits))
    }
}

/// Reading text lines in order.
pub open spec fn fold_lines(st: ReadState, ls: Seq<Seq<char>>, bits: spec_fn(Seq<char>) -> u64) -> ReadState
    decreases ls.len(),
{
    if ls.len() == 0 {
        st
    } else {
        read_text_line(fold_lines(st, ls.drop_last(), bits), ls.last(), bits)
    }
}

pub proof fn lemma_fold_append(st: ReadState, a: Seq<Seq<char>>, b: Seq<Seq<char>>, bits: spec_fn(Seq<char>) -> u64)
    ensures
        fold_lines(st, a + b, bits) == fold_lines(fold_lines(st, a, bits), b, bits),
    decreases b.len(),
{
    if b.len() == 0 {
        assert(a + b =~= a);
    } else {
        lemma_fold_append(st, a, b.drop_last(), bits);
        assert((a + b).drop_last() =~= a + b.drop_last());
        assert((a + b).last() == b.last());
    }
}

pub proof fn lemma_program_words_prefix(a: Seq<Seq<char>>, b: Seq<Seq<char>>, n: int)
    requires
        0 <= n <= a.len(),
        n <= b.len(),
        forall|k: int| 0 <= k < n ==> a[k] == b[k],
    ensures
        program_words(a, n) == program_words(b, n),
    decreases n,
{
    if n > 0 {
        lemma_program_words_prefix(a, b, n - 1);
    }
}

pub proof fn lemma_read_lines_prefix(a: Seq<Seq<(char, u64)>>, b: Seq<Seq<(char, u64)>>, n: int)
    requires
        0 <= n <= a.len(),
        n <= b.len(),
        forall|k: int| 0 <= k < n ==> a[k] == b[k],
    ensures
        read_lines(a, n) == read_lines(b, n),
    decreases n,
{
    if n > 0 {
        lemma_read_lines_prefix(a, b, n - 1);
    }
}

/// Reading the words of text lines is reading the lines in order.
pub proof fn lemma_read_program_words(ls: Seq<Seq<char>>, bits: spec_fn(Seq<char>) -> u64)
    ensures
        ({
            let pw = bits_lines(program_words(ls, ls.len() as int), bits);
            read_lines(pw, pw.len() as int) == fold_lines(read_initial(), ls, bits)
        }),
    decreases ls.len(),
{
    if ls.len() > 0 {
        let a = ls.drop_last();
        let n = ls.len() as int;
        lemma_read_program_words(a, bits);
        lemma_program_words_prefix(ls, a, n - 1);
        let pa = program_words(a, n - 1);
        let ba = bits_lines(pa, bits);
        let l = trim_spec(ls[n - 1]);
        assert(ls.last() == ls[n - 1]);
        if skipped_line(l) {
            assert(program_words(ls, n) == pa);
        } else {
            let ws = line_words(ls[n - 1]);
            assert(program_words(ls, n) == pa.push(ws));
            let bw = bits_lines(pa.push(ws), bits);
            assert(bw =~= ba.push(bits_words(ws, bits)));
            lemma_read_lines_prefix(bw, ba, ba.len() as int);
        }
    }
}

/// A program's text read with its numbers converted by `bits`.
pub proof fn lemma_read_text(ls: Seq<Seq<char>>, bits: spec_fn(Seq<char>) -> u64)
    requires
        forall|k: int| 0 <= k < ls.len() ==> !(#[trigger] ls[k]).contains('\n'),
    ensures
        read_spec(bits_lines(gcode_words_spec(lines_text(ls)), bits)) == ({
            let f = finish(fold_lines(read_initial(), ls, bits));
            (f.units, f.paths)
        }),
{
    let e = Seq::<char>::empty();
    crate::drill_round_trip::lemma_split_lines_text(ls);
    let lp = ls.push(e);
    let n = ls.len() as int;
    crate::drill_round_trip::lemma_trim_no_ws(e);
    assert(lp[n] == e);
    assert(skipped_line(trim_spec(lp[n])));
    assert(program_words(lp, n + 1) == program_words(lp, n));
    lemma_program_words_prefix(lp, ls, n);
    lemma_read_program_words(ls, bits);
}

/// Inserting a skipped line into `lines` at position `k` leaves the words of
/// the first `n` original lines as they were.
proof fn lemma_program_words_insert_skipped(lines: Seq<Seq<char>>, k: int, c: Seq<char>, n: int)
    requires
        0 <= k <= n <= lines.len(),
        skipped_line(trim_spec(c)),
    ensures
        program_words(lines.insert(k, c), n + 1) == program_words(lines, n),
    decreases n - k,
{
    let l2 = lines.insert(k, c);
    lines.insert_ensures(k, c);
    if n == k {
        assert(l2[k] == c);
        assert(program_words(l2, k + 1) == program_words(l2, k));
        lemma_program_words_prefix(l2, lines, k);
    } else {
        lemma_program_words_insert_skipped(lines, k, c, n - 1);
        assert(l2[n] == lines[n - 1]);
    }
}

/// Blank and comment lines change nothing: a line that, once trimmed, is
/// empty or starts with `(`, `;` or `%`, inserted into a program text at any
/// line boundary, leaves the words of every line as they were, and so what
/// the reader makes of the program, whatever the conversion of the number
/// texts to `f64` bit patterns.
pub proof fn law_skipped_line_changes_nothing(
    text: Seq<char>,
    k: int,
    c: Seq<char>,
    bits: spec_fn(Seq<char>) -> u64,
)
    requires
        0 <= k <= split_spec(text, '\n').len(),
        !c.contains('\n'),
        skipped_line(trim_spec(c)),
    ensures
        gcode_words_spec(join_spec(split_spec(text, '\n').insert(k, c), '\n')) == gcode_words_spec(
            text,
        ),
        read_spec(bits_lines(gcode_words_spec(join_spec(split_spec(text, '\n').insert(k, c), '\n')), bits))
            == read_spec(bits_lines(gcode_words_spec(text), bits)),
{
    let ls = split_spec(text, '\n');
    let l2 = ls.insert(k, c);
    crate::text::lemma_split_nonempty(text, '\n');
    crate::text::lemma_split_pieces_free(text, '\n');
    ls.insert_ensures(k, c);
    assert forall|i: int| 0 <= i < l2.len() implies !(#[trigger] l2[i]).contains('\n') by {
        if i < k {
            assert(l2[i] == ls[i]);
        } else if i > k {
            assert(l2[i] == ls[i - 1]);
        }
    }
    crate::text::lemma_split_join(l2, '\n');
    lemma_program_words_insert_skipped(ls, k, c, ls.len() as int);
}

// ---------------------------------------------------------------------------
// The reader on one line's words
// ---------------------------------------------------------------------------

pub proof fn lemma_apply_g_prefix(st: ReadState, a: Seq<(char, u64)>, b: Seq<(char, u64)>, n: int)
    requires
        0 <= n <= a.len(),
        n <= b.len(),
        forall|k: int| 0 <= k < n ==> a[k] == b[k],
    ensures
        apply_g(st, a, n) == apply_g(st, b, n),
        apply_axes(st, a, n) == apply_axes(st, b, n),
    decreases n,
{
    if n > 0 {
        lemma_apply_g_prefix(st, a, b, n - 1);
    }
}

/// A word whose letter is none of `G`, `X`, `Y`, `Z` changes nothing.
pub proof fn lemma_read_line_ignores(st: ReadState, ws: Seq<(char, u64)>, c: char, v: u64)
    requires
        c != 'G' && c != 'X' && c != 'Y' && c != 'Z',
    ensures
        read_line(st, ws.push((c, v))) == read_line(st, ws),
{
    let n = ws.len() as int;
    let w2 = ws.push((c, v));
    lemma_apply_g_prefix(st, w2, ws, n);
    let s1 = apply_g(st, ws, n);
    lemma_apply_g_prefix(s1, w2, ws, n);
    assert(apply_g(st, w2, n + 1) == apply_g(st, w2, n));
    assert(apply_axes(s1, w2, n + 1) == apply_axes(s1, w2, n));
}

/// Words with none of the letters `G`, `X`, `Y`, `Z`.
pub proof fn lemma_read_line_plain(st: ReadState, ws: Seq<(char, u64)>)
    requires
        forall|k: int| 0 <= k < ws.len() ==> (#[trigger] ws[k]).0 != 'G' && ws[k].0 != 'X' && ws[k].0 != 'Y'
            && ws[k].0 != 'Z',
    ensures
        read_line(st, ws) == read_line(st, Seq::<(char, u64)>::empty()),
    decreases ws.len(),
{
    if ws.len() > 0 {
        let a = ws.drop_last();
        assert forall|k: int| 0 <= k < a.len() implies (#[trigger] a[k]).0 != 'G' && a[k].0 != 'X' && a[k].0
            != 'Y' && a[k].0 != 'Z' by {
            assert(a[k] == ws[k]);
        }
        lemma_read_line_plain(st, a);
        assert(a.push(ws.last()) =~= ws);
        assert(ws.last() == ws[ws.len() - 1]);
        lemma_read_line_ignores(st, a, ws.last().0, ws.last().1);
    }
}

/// A line without words, or only other words: a rapid out of the cut ends
/// the path.
pub proof fn lemma_read_line_empty(st: ReadState)
    requires
        f64_eq(st.z, st.z) || !st.cutting,
    ensures
        read_line(st, Seq::<(char, u64)>::empty()) == (if st.motion == Motion::Rapid && !st.cutting {
            finish(st)
        } else {
            st
        }),
{
}

/// `G<code>` alone.
pub proof fn lemma_read_g(st: ReadState, v: u64)
    requires
        f64_eq(st.z, st.z) || !st.cutting,
    ensures
        read_line(st, seq![('G', v)]) == ({
            let s1 = match g_action(v) {
                GAction::Rapid => ReadState { motion: Motion::Rapid, ..st },
                GAction::Feed => ReadState { motion: Motion::Feed, ..st },
                GAction::Inch => ReadState { units: crate::gcode::Units::Inch, ..st },
                GAction::Mm => ReadState { units: crate::gcode::Units::Mm, ..st },
                GAction::Nothing => st,
            };
            if s1.motion == Motion::Rapid && !s1.cutting {
                finish(s1)
            } else {
                s1
            }
        }),
{
    let ws = seq![('G', v)];
    assert(apply_g(st, ws, 0) == st);
    let s1 = apply_g(st, ws, 1);
    assert(apply_axes(s1, ws, 0) == (s1, false));
    assert(apply_axes(s1, ws, 1) == (s1, false));
}

/// `G<code> Z<z>`.
pub proof fn lemma_read_gz(st: ReadState, g: u64, z: u64)
    requires
        g_action(g) == GAction::Rapid || g_action(g) == GAction::Feed,
    ensures
        read_line(st, seq![('G', g), ('Z', z)]) == ({
            let s2 = ReadState {
                motion: if g_action(g) == GAction::Rapid { Motion::Rapid } else { Motion::Feed },
                z,
                ..st
            };
            let s3 = if !f64_eq(z, st.z) {
                let now = f64_below_zero(z);
                let s = if now && !s2.cutting {
                    ReadState { current: seq![(s2.x, s2.y)], ..s2 }
                } else if !now && s2.cutting {
                    finish(s2)
                } else {
                    s2
                };
                ReadState { cutting: now, ..s }
            } else {
                s2
            };
            match s3.motion {
                Motion::Rapid => if !s3.cutting {
                    finish(s3)
                } else {
                    s3
                },
                Motion::Feed => s3,
            }
        }),
{
    let ws = seq![('G', g), ('Z', z)];
    assert(apply_g(st, ws, 0) == st);
    let s1 = apply_g(st, ws, 2);
    assert(apply_g(st, ws, 2) == apply_g(st, ws, 1));
    assert(apply_axes(s1, ws, 0) == (s1, false));
    assert(apply_axes(s1, ws, 1) == (s1, false));
}

/// `G<code> X<x> Y<y>`.
pub proof fn lemma_read_gxy(st: ReadState, g: u64, x: u64, y: u64)
    requires
        g_action(g) == GAction::Rapid || g_action(g) == GAction::Feed,
        f64_eq(st.z, st.z) || !st.cutting,
    ensures
        read_line(st, seq![('G', g), ('X', x), ('Y', y)]) == ({
            let s2 = ReadState {
                motion: if g_action(g) == GAction::Rapid { Motion::Rapid } else { Motion::Feed },
                x,
                y,
                ..st
            };
            match s2.motion {
                Motion::Rapid => if !s2.cutting {
                    finish(s2)
                } else {
                    s2
                },
                Motion::Feed => if s2.cutting {
                    ReadState { current: s2.current.push((x, y)), ..s2 }
                } else {
                    s2
                },
            }
        }),
{
    let ws = seq![('G', g), ('X', x), ('Y', y)];
    assert(apply_g(st, ws, 0) == st);
    assert(apply_g(st, ws, 3) == apply_g(st, ws, 2));
    assert(apply_g(st, ws, 2) == apply_g(st, ws, 1));
    let s1 = apply_g(st, ws, 3);
    assert(apply_axes(s1, ws, 0) == (s1, false));
    assert(apply_axes(s1, ws, 1) == (s1, false));
    assert(apply_axes(s1, ws, 2) == (ReadState { x, ..s1 }, true));
    assert(apply_axes(s1, ws, 3) == (ReadState { x, y, ..s1 }, true));
    assert(s1.z == st.z);
}

// ---------------------------------------------------------------------------
// The words of each line written
// ---------------------------------------------------------------------------

/// A number text of the program: a floating-point literal without
/// whitespace.
pub open spec fn num_text(t: Seq<char>) -> bool {
    is_float_literal(t) && forall|k: int| 0 <= k < t.len() ==> !is_ws(#[trigger] t[k])
}

/// A text without whitespace.
pub open spec fn plain_text(t: Seq<char>) -> bool {
    forall|k: int| 0 <= k < t.len() ==> !is_ws(#[trigger] t[k])
}

/// A word: an upper-case letter and the text after it.
pub proof fn lemma_letter_word(c: char, v: Seq<char>)
    requires
        'A' <= c <= 'Z',
    ensures
        split_word_spec(seq![c] + v) == (if is_float_literal(v) {
            Some((c, v))
        } else {
            None::<(char, Seq<char>)>
        }),
        token(seq![c] + v) <== plain_text(v),
{
    let w = seq![c] + v;
    assert(w[0] == c);
    assert(w.skip(1) =~= v);
    assert(crate::text::ascii_upper(c) == c);
    if plain_text(v) {
        assert forall|k: int| 0 <= k < w.len() implies !is_ws(#[trigger] w[k]) by {
            if k > 0 {
                assert(w[k] == v[k - 1]);
            }
        }
    }
}

pub proof fn lemma_code_literal(a: char, b: char)
    requires
        '0' <= a <= '9',
        '0' <= b <= '9',
    ensures
        is_float_literal(seq![a, b]),
        plain_text(seq![a, b]),
{
    let t = seq![a, b];
    let l = crate::text::ascii_lower_spec(t);
    assert(l =~= t);
    crate::numeric::lemma_first_index(t, 'e');
    assert(crate::numeric::first_index(t, 'e') == 2);
    assert(t.take(2) =~= t);
    assert(t != "inf"@ && t != "infinity"@ && t != "nan"@) by {
        reveal_strlit("inf");
        reveal_strlit("infinity");
        reveal_strlit("nan");
    }
    assert(crate::numeric::float_mantissa(t)) by {
        assert(crate::text::is_ascii_digit(t[0]));
    }
}

/// The words of a line of tokens joined by spaces.
pub proof fn lemma_line_tokens(l: Seq<char>, ts: Seq<Seq<char>>)
    requires
        ts.len() >= 1,
        forall|i: int| 0 <= i < ts.len() ==> token(#[trigger] ts[i]),
        l == join_spec(ts, ' '),
        ts[0][0] != '(' && ts[0][0] != ';' && ts[0][0] != '%',
    ensures
        !skipped_line(trim_spec(l)),
        line_words(l) == read_words(ts, ts.len() as int),
        !l.contains('\n'),
{
    lemma_join_shape(ts);
    lemma_ws_words_join(ts);
}

/// Two, three and four tokens joined by spaces.
pub proof fn lemma_join_small(p: Seq<char>, q: Seq<char>, r: Seq<char>, u: Seq<char>)
    ensures
        join_spec(seq![p, q], ' ') == p.push(' ') + q,
        join_spec(seq![p, q, r], ' ') == p.push(' ') + q + seq![' '] + r,
        join_spec(seq![p, q, r, u], ' ') == p.push(' ') + q + seq![' '] + r + seq![' '] + u,
{
    let t2 = seq![p, q];
    let t3 = seq![p, q, r];
    let t4 = seq![p, q, r, u];
    assert(join_spec(seq![p], ' ') == p);
    assert(t2.drop_last() =~= seq![p]);
    assert(join_spec(t2, ' ') == p.push(' ') + q);
    assert(t3.drop_last() =~= t2);
    assert(join_spec(t3, ' ') == (p.push(' ') + q).push(' ') + r);
    assert((p.push(' ') + q).push(' ') + r =~= p.push(' ') + q + seq![' '] + r);
    assert(t4.drop_last() =~= t3);
    assert(join_spec(t4, ' ') == (p.push(' ') + q + seq![' '] + r).push(' ') + u);
    assert((p.push(' ') + q + seq![' '] + r).push(' ') + u =~= p.push(' ') + q + seq![' '] + r + seq![' '] + u);
}

/// The words of two, three and four tokens that all read.
pub proof fn lemma_read_words_small(ts: Seq<Seq<char>>)
    requires
        2 <= ts.len() <= 4,
        forall|i: int| 0 <= i < ts.len() ==> (#[trigger] split_word_spec(ts[i])) is Some,
    ensures
        read_words(ts, 2) == seq![split_word_spec(ts[0])->0, split_word_spec(ts[1])->0],
        ts.len() >= 3 ==> read_words(ts, 3) == read_words(ts, 2).push(split_word_spec(ts[2])->0),
        ts.len() >= 4 ==> read_words(ts, 4) == read_words(ts, 3).push(split_word_spec(ts[3])->0),
{
    assert(split_word_spec(ts[0]) is Some);
    assert(split_word_spec(ts[1]) is Some);
    assert(read_words(ts, 0) == Seq::<(char, Seq<char>)>::empty());
    assert(read_words(ts, 1) == seq![split_word_spec(ts[0])->0]);
    assert(read_words(ts, 2) =~= seq![split_word_spec(ts[0])->0, split_word_spec(ts[1])->0]);
    if ts.len() >= 3 {
        assert(split_word_spec(ts[2]) is Some);
    }
    if ts.len() >= 4 {
        assert(split_word_spec(ts[3]) is Some);
    }
}

/// The literals of the motion lines.
pub proof fn lemma_motion_literals()
    ensures
        "G00 Z"@ =~= seq!['G', '0', '0', ' ', 'Z'],
        "G00 X"@ =~= seq!['G', '0', '0', ' ', 'X'],
        "G01 Z"@ =~= seq!['G', '0', '1', ' ', 'Z'],
        "G01 X"@ =~= seq!['G', '0', '1', ' ', 'X'],
        " Y"@ =~= seq![' ', 'Y'],
        " F"@ =~= seq![' ', 'F'],
        "00"@ =~= seq!['0', '0'],
        "01"@ =~= seq!['0', '1'],
{
    reveal_strlit("G00 Z");
    reveal_strlit("G00 X");
    reveal_strlit("G01 Z");
    reveal_strlit("G01 X");
    reveal_strlit(" Y");
    reveal_strlit(" F");
    reveal_strlit("00");
    reveal_strlit("01");
}

/// A motion code word `G00` / `G01` reads as `G` and the code.
pub proof fn lemma_code_word(d: char)
    requires
        d == '0' || d == '1',
    ensures
        split_word_spec(seq!['G', '0', d]) == Some(('G', seq!['0', d])),
        token(seq!['G', '0', d]),
{
    lemma_letter_word('G', seq!['0', d]);
    lemma_code_literal('0', d);
    assert(seq!['G'] + seq!['0', d] =~= seq!['G', '0', d]);
}

/// `G00 Z<a>` reads as a rapid move in Z.
pub proof fn lemma_g00_z_line(st: ReadState, a: Seq<char>, bits: spec_fn(Seq<char>) -> u64)
    requires
        num_text(a),
    ensures
        !g00_z(a).contains('\n'),
        read_text_line(st, g00_z(a), bits) == read_line(st, seq![('G', bits("00"@)), ('Z', bits(a))]),
{
    lemma_motion_literals();
    let g = seq!['G', '0', '0'];
    let za = seq!['Z'] + a;
    lemma_code_word('0');
    lemma_letter_word('Z', a);
    let ts = seq![g, za];
    lemma_join_small(g, za, za, za);
    assert(g00_z(a) =~= join_spec(ts, ' '));
    assert(token(ts[0]) && token(ts[1]));
    lemma_line_tokens(g00_z(a), ts);
    lemma_read_words_small(ts);
    let w = seq![('G', "00"@), ('Z', a)];
    assert(read_words(ts, 2) =~= w);
    assert(bits_words(w, bits) =~= seq![('G', bits("00"@)), ('Z', bits(a))]);
}

/// `G00 X<a> Y<b>` reads as a rapid move in X and Y.
pub proof fn lemma_g00_xy_line(st: ReadState, a: Seq<char>, b: Seq<char>, bits: spec_fn(Seq<char>) -> u64)
    requires
        num_text(a),
        num_text(b),
    ensures
        !g00_xy(a, b).contains('\n'),
        read_text_line(st, g00_xy(a, b), bits) == read_line(
            st,
            seq![('G', bits("00"@)), ('X', bits(a)), ('Y', bits(b))],
        ),
{
    lemma_motion_literals();
    let g = seq!['G', '0', '0'];
    let xa = seq!['X'] + a;
    let yb = seq!['Y'] + b;
    lemma_code_word('0');
    lemma_letter_word('X', a);
    lemma_letter_word('Y', b);
    let ts = seq![g, xa, yb];
    lemma_join_small(g, xa, yb, yb);
    assert(g00_xy(a, b) =~= join_spec(ts, ' '));
    assert(token(ts[0]) && token(ts[1]) && token(ts[2]));
    lemma_line_tokens(g00_xy(a, b), ts);
    lemma_read_words_small(ts);
    let w = seq![('G', "00"@), ('X', a), ('Y', b)];
    assert(read_words(ts, 3) =~= w);
    assert(bits_words(w, bits) =~= seq![('G', bits("00"@)), ('X', bits(a)), ('Y', bits(b))]);
}

/// `G01 Z<a> F<f>` reads as a feed move in Z; the feed word changes nothing
/// that is read.
pub proof fn lemma_g01_z_line(st: ReadState, a: Seq<char>, f: Seq<char>, bits: spec_fn(Seq<char>) -> u64)
    requires
        num_text(a),
        plain_text(f),
    ensures
        !g01_z(a, f).contains('\n'),
        read_text_line(st, g01_z(a, f), bits) == read_line(st, seq![('G', bits("01"@)), ('Z', bits(a))]),
{
    lemma_motion_literals();
    let g = seq!['G', '0', '1'];
    let za = seq!['Z'] + a;
    let ff = seq!['F'] + f;
    lemma_code_word('1');
    lemma_letter_word('Z', a);
    lemma_letter_word('F', f);
    let ts = seq![g, za, ff];
    lemma_join_small(g, za, ff, ff);
    assert(g01_z(a, f) =~= join_spec(ts, ' '));
    assert(token(ts[0]) && token(ts[1]) && token(ts[2]));
    lemma_line_tokens(g01_z(a, f), ts);
    let w = seq![('G', "01"@), ('Z', a)];
    let bw = seq![('G', bits("01"@)), ('Z', bits(a))];
    assert(bits_words(w, bits) =~= bw);
    assert(read_words(ts, 0) == Seq::<(char, Seq<char>)>::empty());
    assert(read_words(ts, 1) =~= seq![('G', "01"@)]);
    assert(read_words(ts, 2) =~= w);
    if is_float_literal(f) {
        assert(read_words(ts, 3) == w.push(('F', f)));
        assert(bits_words(w.push(('F', f)), bits) =~= bw.push(('F', bits(f))));
        lemma_read_line_ignores(st, bw, 'F', bits(f));
    } else {
        assert(read_words(ts, 3) == w);
    }
}

/// `G01 X<a> Y<b> F<f>` reads as a feed move in X and Y.
pub proof fn lemma_g01_xy_line(
    st: ReadState,
    a: Seq<char>,
    b: Seq<char>,
    f: Seq<char>,
    bits: spec_fn(Seq<char>) -> u64,
)
    requires
        num_text(a),
        num_text(b),
        plain_text(f),
    ensures
        !g01_xy(a, b, f).contains('\n'),
        read_text_line(st, g01_xy(a, b, f), bits) == read_line(
            st,
            seq![('G', bits("01"@)), ('X', bits(a)), ('Y', bits(b))],
        ),
{
    lemma_motion_literals();
    let g = seq!['G', '0', '1'];
    let xa = seq!['X'] + a;
    let yb = seq!['Y'] + b;
    let ff = seq!['F'] + f;
    lemma_code_word('1');
    lemma_letter_word('X', a);
    lemma_letter_word('Y', b);
    lemma_letter_word('F', f);
    let ts = seq![g, xa, yb, ff];
    lemma_join_small(g, xa, yb, ff);
    assert(g01_xy(a, b, f) =~= join_spec(ts, ' '));
    assert(token(ts[0]) && token(ts[1]) && token(ts[2]) && token(ts[3]));
    lemma_line_tokens(g01_xy(a, b, f), ts);
    let w = seq![('G', "01"@), ('X', a), ('Y', b)];
    let bw = seq![('G', bits("01"@)), ('X', bits(a)), ('Y', bits(b))];
    assert(bits_words(w, bits) =~= bw);
    assert(read_words(ts, 0) == Seq::<(char, Seq<char>)>::empty());
    assert(read_words(ts, 1) =~= seq![('G', "01"@)]);
    assert(read_words(ts, 2) =~= seq![('G', "01"@), ('X', a)]);
    assert(read_words(ts, 3) =~= w);
    if is_float_literal(f) {
        assert(read_words(ts, 4) == w.push(('F', f)));
        assert(bits_words(w.push(('F', f)), bits) =~= bw.push(('F', bits(f))));
        lemma_read_line_ignores(st, bw, 'F', bits(f));
    } else {
        assert(read_words(ts, 4) == w);
    }
}

// ---------------------------------------------------------------------------
// Reading the program, line by line
// ---------------------------------------------------------------------------

/// No line holds a newline.
pub open spec fn no_newlines(ls: Seq<Seq<char>>) -> bool {
    forall|k: int| 0 <= k < ls.len() ==> !(#[trigger] ls[k]).contains('\n')
}

pub proof fn lemma_no_newlines_append(a: Seq<Seq<char>>, b: Seq<Seq<char>>)
    requires
        no_newlines(a),
        no_newlines(b),
    ensures
        no_newlines(a + b),
{
    assert forall|k: int| 0 <= k < (a + b).len() implies !(#[trigger] (a + b)[k]).contains('\n') by {
        if k < a.len() {
            assert((a + b)[k] == a[k]);
        } else {
            assert((a + b)[k] == b[k - a.len()]);
        }
    }
}

/// Reading one more line.
pub proof fn lemma_fold_push(st: ReadState, ls: Seq<Seq<char>>, l: Seq<char>, bits: spec_fn(Seq<char>) -> u64)
    ensures
        fold_lines(st, ls.push(l), bits) == read_text_line(fold_lines(st, ls, bits), l, bits),
{
    assert(ls.push(l).drop_last() =~= ls);
}

/// A comment line, from `(` to `)`, changes nothing.
pub proof fn lemma_comment_line(st: ReadState, l: Seq<char>, bits: spec_fn(Seq<char>) -> u64)
    requires
        l.len() >= 2,
        l[0] == '(',
        l[l.len() - 1] == ')',
    ensures
        read_text_line(st, l, bits) == st,
{
    assert(!is_ws('('));
    assert(!is_ws(')'));
    lemma_trim_ends(l);
}

/// The letters that move the machine or change its mode.
pub open spec fn motion_letter(c: char) -> bool {
    c == 'G' || c == 'X' || c == 'Y' || c == 'Z'
}

pub proof fn lemma_read_words_letters(ts: Seq<Seq<char>>, n: int)
    requires
        n <= ts.len(),
        forall|i: int|
            0 <= i < n ==> (#[trigger] ts[i]).len() > 0 && !motion_letter(crate::text::ascii_upper(ts[i][0])),
    ensures
        forall|k: int| 0 <= k < read_words(ts, n).len() ==> !motion_letter((#[trigger] read_words(ts, n)[k]).0),
    decreases n,
{
    if n > 0 {
        lemma_read_words_letters(ts, n - 1);
        assert(ts[n - 1].len() > 0);
        let prev = read_words(ts, n - 1);
        match split_word_spec(ts[n - 1]) {
            Some(w) => {
                assert(read_words(ts, n) == prev.push(w));
                assert(w.0 == crate::text::ascii_upper(ts[n - 1][0]));
                assert forall|k: int| 0 <= k < read_words(ts, n).len() implies !motion_letter(
                    (#[trigger] read_words(ts, n)[k]).0,
                ) by {
                    if k < prev.len() {
                        assert(read_words(ts, n)[k] == prev[k]);
                    }
                }
            },
            None => {
                assert(read_words(ts, n) == prev);
            },
        }
    }
}

/// A line of tokens none of whose letters moves the machine reads as an
/// empty line.
pub proof fn lemma_plain_line(st: ReadState, ts: Seq<Seq<char>>, bits: spec_fn(Seq<char>) -> u64)
    requires
        ts.len() >= 1,
        forall|i: int|
            0 <= i < ts.len() ==> token(#[trigger] ts[i]) && !motion_letter(crate::text::ascii_upper(ts[i][0])),
        ts[0][0] != '(' && ts[0][0] != ';' && ts[0][0] != '%',
    ensures
        !join_spec(ts, ' ').contains('\n'),
        read_text_line(st, join_spec(ts, ' '), bits) == read_line(st, Seq::<(char, u64)>::empty()),
{
    let l = join_spec(ts, ' ');
    lemma_line_tokens(l, ts);
    let n = ts.len() as int;
    assert forall|i: int| 0 <= i < n implies (#[trigger] ts[i]).len() > 0 && !motion_letter(
        crate::text::ascii_upper(ts[i][0]),
    ) by {
        assert(token(ts[i]));
    }
    lemma_read_words_letters(ts, n);
    let rw = read_words(ts, n);
    let bw = bits_words(rw, bits);
    assert forall|k: int| 0 <= k < bw.len() implies (#[trigger] bw[k]).0 != 'G' && bw[k].0 != 'X' && bw[k].0
        != 'Y' && bw[k].0 != 'Z' by {
        assert(bw[k].0 == rw[k].0);
        assert(!motion_letter(rw[k].0));
    }
    lemma_read_line_plain(st, bw);
}

/// `G` and two digits reads as one `G` word.
pub proof fn lemma_g_code_line(st: ReadState, d1: char, d2: char, bits: spec_fn(Seq<char>) -> u64)
    requires
        '0' <= d1 <= '9',
        '0' <= d2 <= '9',
    ensures
        !seq!['G', d1, d2].contains('\n'),
        read_text_line(st, seq!['G', d1, d2], bits) == read_line(st, seq![('G', bits(seq![d1, d2]))]),
{
    let l = seq!['G', d1, d2];
    lemma_code_literal(d1, d2);
    lemma_letter_word('G', seq![d1, d2]);
    assert(seq!['G'] + seq![d1, d2] =~= l);
    let ts = seq![l];
    assert(join_spec(ts, ' ') == l);
    assert(token(ts[0]));
    lemma_line_tokens(l, ts);
    assert(read_words(ts, 0) == Seq::<(char, Seq<char>)>::empty());
    assert(read_words(ts, 1) =~= seq![('G', seq![d1, d2])]);
    assert(bits_words(seq![('G', seq![d1, d2])], bits) =~= seq![('G', bits(seq![d1, d2]))]);
}

/// Units `u`, rapid mode, not cutting, no path in progress, at height `z`,
/// the paths `ps` kept.
pub open spec fn idle(st: ReadState, u: crate::gcode::Units, z: u64, ps: Seq<Seq<(u64, u64)>>) -> bool {
    &&& st.units == u
    &&& st.motion == Motion::Rapid
    &&& !st.cutting
    &&& st.current.len() == 0
    &&& st.z == z
    &&& st.paths == ps
}

/// Units `u`, feed mode, cutting at the height `z` below zero along `cur`,
/// the paths `ps` kept.
pub open spec fn cutting_at(
    st: ReadState,
    u: crate::gcode::Units,
    z: u64,
    ps: Seq<Seq<(u64, u64)>>,
    cur: Seq<(u64, u64)>,
) -> bool {
    &&& st.units == u
    &&& st.motion == Motion::Feed
    &&& st.cutting
    &&& st.current == cur
    &&& st.z == z
    &&& f64_below_zero(z)
    &&& st.paths == ps
}

/// Idle, or cutting below zero along a path of at least two points.
pub open spec fn ready(st: ReadState, u: crate::gcode::Units) -> bool {
    ||| idle(st, u, st.z, st.paths)
    ||| (cutting_at(st, u, st.z, st.paths, st.current) && st.current.len() >= 2)
}

/// The paths kept once `st` lifts the tool.
pub open spec fn lifted_paths(st: ReadState) -> Seq<Seq<(u64, u64)>> {
    if st.cutting {
        st.paths.push(st.current)
    } else {
        st.paths
    }
}

/// The G-codes read as their integer values.
pub open spec fn reads_codes(bits: spec_fn(Seq<char>) -> u64) -> bool {
    &&& g_action(bits("00"@)) == GAction::Rapid
    &&& g_action(bits("01"@)) == GAction::Feed
    &&& g_action(bits("90"@)) == GAction::Nothing
    &&& g_action(bits("20"@)) == GAction::Inch
    &&& g_action(bits("21"@)) == GAction::Mm
}

pub proof fn lemma_below_not_eq(a: u64, b: u64)
    requires
        f64_below_zero(a),
        !f64_below_zero(b),
    ensures
        !f64_eq(a, b),
        !f64_eq(b, a),
{
}

/// Lifting to the clearance height ends the cut in progress.
pub proof fn lemma_lift(st: ReadState, u: crate::gcode::Units, t: Seq<char>, bits: spec_fn(Seq<char>) -> u64)
    requires
        ready(st, u),
        num_text(t),
        reads_codes(bits),
        !f64_below_zero(bits(t)),
    ensures
        idle(read_text_line(st, g00_z(t), bits), u, bits(t), lifted_paths(st)),
        !g00_z(t).contains('\n'),
{
    lemma_g00_z_line(st, t, bits);
    lemma_read_gz(st, bits("00"@), bits(t));
    if st.cutting {
        lemma_below_not_eq(st.z, bits(t));
    }
}

/// A rapid move in X and Y while idle.
pub proof fn lemma_position(
    st: ReadState,
    u: crate::gcode::Units,
    z: u64,
    ps: Seq<Seq<(u64, u64)>>,
    a: Seq<char>,
    b: Seq<char>,
    bits: spec_fn(Seq<char>) -> u64,
)
    requires
        idle(st, u, z, ps),
        num_text(a),
        num_text(b),
        reads_codes(bits),
    ensures
        ({
            let r = read_text_line(st, g00_xy(a, b), bits);
            idle(r, u, z, ps) && r.x == bits(a) && r.y == bits(b)
        }),
        !g00_xy(a, b).contains('\n'),
{
    lemma_g00_xy_line(st, a, b, bits);
    lemma_read_gxy(st, bits("00"@), bits(a), bits(b));
}

/// A plunge below zero starts a path at the current point.
pub proof fn lemma_plunge(
    st: ReadState,
    u: crate::gcode::Units,
    tz: u64,
    ps: Seq<Seq<(u64, u64)>>,
    d: Seq<char>,
    f: Seq<char>,
    bits: spec_fn(Seq<char>) -> u64,
)
    requires
        idle(st, u, tz, ps),
        !f64_below_zero(tz),
        num_text(d),
        plain_text(f),
        f64_below_zero(bits(d)),
        reads_codes(bits),
    ensures
        cutting_at(read_text_line(st, g01_z(d, f), bits), u, bits(d), ps, seq![(st.x, st.y)]),
        !g01_z(d, f).contains('\n'),
{
    lemma_g01_z_line(st, d, f, bits);
    lemma_read_gz(st, bits("01"@), bits(d));
    lemma_below_not_eq(bits(d), tz);
}

/// A feed move in X and Y while cutting extends the path.
pub proof fn lemma_cut(
    st: ReadState,
    u: crate::gcode::Units,
    z: u64,
    ps: Seq<Seq<(u64, u64)>>,
    cur: Seq<(u64, u64)>,
    a: Seq<char>,
    b: Seq<char>,
    f: Seq<char>,
    bits: spec_fn(Seq<char>) -> u64,
)
    requires
        cutting_at(st, u, z, ps, cur),
        num_text(a),
        num_text(b),
        plain_text(f),
        reads_codes(bits),
    ensures
        cutting_at(read_text_line(st, g01_xy(a, b, f), bits), u, z, ps, cur.push((bits(a), bits(b)))),
        !g01_xy(a, b, f).contains('\n'),
{
    lemma_g01_xy_line(st, a, b, f, bits);
    lemma_read_gxy(st, bits("01"@), bits(a), bits(b));
}

/// The points as the reader holds them.
pub open spec fn bits_points(pts: Seq<PointText>, bits: spec_fn(Seq<char>) -> u64) -> Seq<(u64, u64)> {
    pts.map_values(|p: PointText| (bits(p.0), bits(p.1)))
}

/// Every coordinate is a number text.
pub open spec fn points_ok(pts: Seq<PointText>) -> bool {
    forall|i: int| 0 <= i < pts.len() ==> num_text((#[trigger] pts[i]).0) && num_text(pts[i].1)
}

/// Every depth is a number text below zero.
pub open spec fn depths_ok(depths: Seq<Seq<char>>, bits: spec_fn(Seq<char>) -> u64) -> bool {
    forall|i: int| 0 <= i < depths.len() ==> num_text(#[trigger] depths[i]) && f64_below_zero(bits(depths[i]))
}

/// `n` copies of the path `p`.
pub open spec fn copies(p: Seq<(u64, u64)>, n: nat) -> Seq<Seq<(u64, u64)>> {
    Seq::new(n, |i: int| p)
}

pub proof fn lemma_cut_lines_no_newlines(pts: Seq<PointText>, w: JobWordsView, bits: spec_fn(Seq<char>) -> u64)
    requires
        points_ok(pts),
        plain_text(w.feed_xy),
    ensures
        no_newlines(cut_lines(pts, w)),
{
    let cl = cut_lines(pts, w);
    assert forall|k: int| 0 <= k < cl.len() implies !(#[trigger] cl[k]).contains('\n') by {
        assert(num_text(pts[k].0));
        lemma_g01_xy_line(read_initial(), pts[k].0, pts[k].1, w.feed_xy, bits);
    }
}

/// Cutting along `pts` extends the path by their points.
pub proof fn lemma_cuts(
    st: ReadState,
    u: crate::gcode::Units,
    z: u64,
    ps: Seq<Seq<(u64, u64)>>,
    cur: Seq<(u64, u64)>,
    pts: Seq<PointText>,
    w: JobWordsView,
    bits: spec_fn(Seq<char>) -> u64,
)
    requires
        cutting_at(st, u, z, ps, cur),
        points_ok(pts),
        plain_text(w.feed_xy),
        reads_codes(bits),
    ensures
        cutting_at(fold_lines(st, cut_lines(pts, w), bits), u, z, ps, cur + bits_points(pts, bits)),
    decreases pts.len(),
{
    let cl = cut_lines(pts, w);
    if pts.len() == 0 {
        assert(cur + bits_points(pts, bits) =~= cur);
    } else {
        let p = pts.drop_last();
        let q = pts.last();
        assert(q == pts[pts.len() - 1]);
        assert(points_ok(p)) by {
            assert forall|i: int| 0 <= i < p.len() implies num_text((#[trigger] p[i]).0) && num_text(p[i].1) by {
                assert(p[i] == pts[i]);
            }
        }
        lemma_cuts(st, u, z, ps, cur, p, w, bits);
        assert(cl.drop_last() =~= cut_lines(p, w));
        assert(cl.last() == g01_xy(q.0, q.1, w.feed_xy));
        let s = fold_lines(st, cut_lines(p, w), bits);
        lemma_cut(s, u, z, ps, cur + bits_points(p, bits), q.0, q.1, w.feed_xy, bits);
        assert(cur + bits_points(pts, bits) =~= (cur + bits_points(p, bits)).push((bits(q.0), bits(q.1))));
    }
}

/// One pass: lift (ending the cut in progress), position, plunge, cut
/// along; the path in progress is then the whole of `path`.
pub proof fn lemma_pass(
    st: ReadState,
    u: crate::gcode::Units,
    path: Seq<PointText>,
    d: Seq<char>,
    w: JobWordsView,
    bits: spec_fn(Seq<char>) -> u64,
)
    requires
        ready(st, u),
        path.len() >= 2,
        points_ok(path),
        num_text(d),
        f64_below_zero(bits(d)),
        num_text(w.travel_z),
        plain_text(w.feed_xy),
        plain_text(w.feed_z),
        reads_codes(bits),
        !f64_below_zero(bits(w.travel_z)),
    ensures
        cutting_at(
            fold_lines(st, pass_lines(path, d, w), bits),
            u,
            bits(d),
            lifted_paths(st),
            bits_points(path, bits),
        ),
        no_newlines(pass_lines(path, d, w)),
{
    let tz = bits(w.travel_z);
    let ps = lifted_paths(st);
    let p0 = path[0];
    assert(num_text(p0.0) && num_text(p0.1));
    let l0 = g00_z(w.travel_z);
    let l1 = g00_xy(p0.0, p0.1);
    let l2 = g01_z(d, w.feed_z);
    let head = seq![l0, l1, l2];
    let rest = path.drop_first();
    assert(points_ok(rest)) by {
        assert forall|i: int| 0 <= i < rest.len() implies num_text((#[trigger] rest[i]).0) && num_text(
            rest[i].1,
        ) by {
            assert(rest[i] == path[i + 1]);
        }
    }
    let cl = cut_lines(rest, w);
    assert(pass_lines(path, d, w) == head + cl);
    lemma_fold_append(st, head, cl, bits);
    let e = Seq::<Seq<char>>::empty();
    lemma_fold_push(st, e, l0, bits);
    lemma_fold_push(st, e.push(l0), l1, bits);
    lemma_fold_push(st, e.push(l0).push(l1), l2, bits);
    assert(e.push(l0).push(l1).push(l2) =~= head);
    lemma_lift(st, u, w.travel_z, bits);
    let s1 = read_text_line(st, l0, bits);
    lemma_position(s1, u, tz, ps, p0.0, p0.1, bits);
    let s2 = read_text_line(s1, l1, bits);
    lemma_plunge(s2, u, tz, ps, d, w.feed_z, bits);
    let s3 = read_text_line(s2, l2, bits);
    assert(fold_lines(st, head, bits) == s3);
    let c0 = seq![(bits(p0.0), bits(p0.1))];
    lemma_cuts(s3, u, bits(d), ps, c0, rest, w, bits);
    assert(c0 + bits_points(rest, bits) =~= bits_points(path, bits));
    lemma_cut_lines_no_newlines(rest, w, bits);
    assert(no_newlines(head));
    lemma_no_newlines_append(head, cl);
}

/// The passes of `path`, one per depth: each one a path through all of its
/// points.
pub proof fn lemma_passes(
    st: ReadState,
    u: crate::gcode::Units,
    path: Seq<PointText>,
    depths: Seq<Seq<char>>,
    w: JobWordsView,
    bits: spec_fn(Seq<char>) -> u64,
)
    requires
        ready(st, u),
        path.len() >= 2,
        points_ok(path),
        depths_ok(depths, bits),
        num_text(w.travel_z),
        plain_text(w.feed_xy),
        plain_text(w.feed_z),
        reads_codes(bits),
        !f64_below_zero(bits(w.travel_z)),
    ensures
        ready(fold_lines(st, passes_lines(path, depths, w), bits), u),
        lifted_paths(fold_lines(st, passes_lines(path, depths, w), bits)) == lifted_paths(st) + copies(
            bits_points(path, bits),
            depths.len(),
        ),
        no_newlines(passes_lines(path, depths, w)),
    decreases depths.len(),
{
    let bp = bits_points(path, bits);
    if depths.len() == 0 {
        assert(lifted_paths(st) + copies(bp, 0) =~= lifted_paths(st));
    } else {
        let dd = depths.drop_last();
        let d = depths.last();
        assert(d == depths[depths.len() - 1]);
        assert(depths_ok(dd, bits)) by {
            assert forall|i: int| 0 <= i < dd.len() implies num_text(#[trigger] dd[i]) && f64_below_zero(
                bits(dd[i]),
            ) by {
                assert(dd[i] == depths[i]);
            }
        }
        lemma_passes(st, u, path, dd, w, bits);
        let a = passes_lines(path, dd, w);
        let b = pass_lines(path, d, w);
        let s = fold_lines(st, a, bits);
        lemma_fold_append(st, a, b, bits);
        lemma_pass(s, u, path, d, w, bits);
        let n = depths.len();
        assert(copies(bp, (n - 1) as nat).push(bp) =~= copies(bp, n));
        assert((lifted_paths(st) + copies(bp, (n - 1) as nat)).push(bp) =~= lifted_paths(st) + copies(bp, n));
        lemma_no_newlines_append(a, b);
    }
}

/// What the milling of `paths` reads back as: each path of at least two
/// points, once per depth.
pub open spec fn milled_paths(paths: Seq<Seq<PointText>>, n: nat, bits: spec_fn(Seq<char>) -> u64) -> Seq<
    Seq<(u64, u64)>,
>
    decreases paths.len(),
{
    if paths.len() == 0 {
        Seq::<Seq<(u64, u64)>>::empty()
    } else if paths.last().len() < 2 {
        milled_paths(paths.drop_last(), n, bits)
    } else {
        milled_paths(paths.drop_last(), n, bits) + copies(bits_points(paths.last(), bits), n)
    }
}

/// Every path's coordinates are number texts.
pub open spec fn paths_ok(paths: Seq<Seq<PointText>>) -> bool {
    forall|i: int| 0 <= i < paths.len() ==> points_ok(#[trigger] paths[i])
}

pub proof fn lemma_mill(
    st: ReadState,
    u: crate::gcode::Units,
    ps: Seq<Seq<(u64, u64)>>,
    paths: Seq<Seq<PointText>>,
    depths: Seq<Seq<char>>,
    w: JobWordsView,
    bits: spec_fn(Seq<char>) -> u64,
)
    requires
        idle(st, u, bits(w.travel_z), ps),
        paths_ok(paths),
        depths_ok(depths, bits),
        num_text(w.travel_z),
        plain_text(w.feed_xy),
        plain_text(w.feed_z),
        reads_codes(bits),
        !f64_below_zero(bits(w.travel_z)),
    ensures
        idle(
            fold_lines(st, mill_lines(paths, depths, w), bits),
            u,
            bits(w.travel_z),
            ps + milled_paths(paths, depths.len(), bits),
        ),
        no_newlines(mill_lines(paths, depths, w)),
    decreases paths.len(),
{
    if paths.len() == 0 {
        assert(ps + milled_paths(paths, depths.len(), bits) =~= ps);
    } else {
        let pp = paths.drop_last();
        let q = paths.last();
        assert(q == paths[paths.len() - 1]);
        assert(paths_ok(pp)) by {
            assert forall|i: int| 0 <= i < pp.len() implies points_ok(#[trigger] pp[i]) by {
                assert(pp[i] == paths[i]);
            }
        }
        lemma_mill(st, u, ps, pp, depths, w, bits);
        let m = mill_lines(pp, depths, w);
        let s = fold_lines(st, m, bits);
        let mp = milled_paths(pp, depths.len(), bits);
        if q.len() >= 2 {
            let pl = passes_lines(q, depths, w);
            let lift = seq![g00_z(w.travel_z)];
            assert(mill_lines(paths, depths, w) == m + pl + lift);
            lemma_fold_append(st, m + pl, lift, bits);
            lemma_fold_append(st, m, pl, bits);
            lemma_passes(s, u, q, depths, w, bits);
            let s2 = fold_lines(s, pl, bits);
            lemma_lift(s2, u, w.travel_z, bits);
            lemma_fold_push(s2, Seq::<Seq<char>>::empty(), g00_z(w.travel_z), bits);
            assert(Seq::<Seq<char>>::empty().push(g00_z(w.travel_z)) =~= lift);
            let c = copies(bits_points(q, bits), depths.len());
            assert(ps + mp + c =~= ps + (mp + c));
            lemma_no_newlines_append(m, pl);
            assert(no_newlines(lift));
            lemma_no_newlines_append(m + pl, lift);
        }
    }
}

pub proof fn lemma_concat_no_newline(a: Seq<char>, b: Seq<char>)
    requires
        !a.contains('\n'),
        !b.contains('\n'),
    ensures
        !(a + b).contains('\n'),
{
    assert forall|k: int| 0 <= k < (a + b).len() implies (a + b)[k] != '\n' by {
        if k < a.len() {
            assert((a + b)[k] == a[k]);
        } else {
            assert((a + b)[k] == b[k - a.len()]);
        }
    }
}

/// `0.0000` is a number text.
pub proof fn lemma_zero_text()
    ensures
        num_text("0.0000"@),
{
    reveal_strlit("0.0000");
    let t = "0.0000"@;
    assert(t =~= seq!['0', '.', '0', '0', '0', '0']);
    assert(crate::text::ascii_lower_spec(t) =~= t);
    crate::numeric::lemma_first_index(t, 'e');
    assert(crate::numeric::first_index(t, 'e') == 6);
    assert(t.take(6) =~= t);
    assert(t != "inf"@ && t != "infinity"@ && t != "nan"@) by {
        reveal_strlit("inf");
        reveal_strlit("infinity");
        reveal_strlit("nan");
    }
    assert(crate::numeric::float_mantissa(t)) by {
        assert(crate::text::is_ascii_digit(t[0]));
    }
}

/// `M` and two digits changes nothing while idle.
pub proof fn lemma_m_code_line(
    st: ReadState,
    u: crate::gcode::Units,
    z: u64,
    ps: Seq<Seq<(u64, u64)>>,
    d1: char,
    d2: char,
    bits: spec_fn(Seq<char>) -> u64,
)
    requires
        idle(st, u, z, ps),
        '0' <= d1 <= '9',
        '0' <= d2 <= '9',
    ensures
        idle(read_text_line(st, seq!['M', d1, d2], bits), u, z, ps),
        !seq!['M', d1, d2].contains('\n'),
{
    let l = seq!['M', d1, d2];
    lemma_code_literal(d1, d2);
    lemma_letter_word('M', seq![d1, d2]);
    assert(seq!['M'] + seq![d1, d2] =~= l);
    let ts = seq![l];
    assert(join_spec(ts, ' ') == l);
    assert(token(ts[0]));
    lemma_plain_line(st, ts, bits);
    lemma_read_line_empty(st);
}

/// `G` and two digits that read as a code that changes no mode.
pub proof fn lemma_g_mode_line(
    st: ReadState,
    u: crate::gcode::Units,
    z: u64,
    ps: Seq<Seq<(u64, u64)>>,
    d1: char,
    d2: char,
    bits: spec_fn(Seq<char>) -> u64,
)
    requires
        idle(st, u, z, ps),
        '0' <= d1 <= '9',
        '0' <= d2 <= '9',
    ensures
        g_action(bits(seq![d1, d2])) == GAction::Nothing ==> idle(
            read_text_line(st, seq!['G', d1, d2], bits),
            u,
            z,
            ps,
        ),
        g_action(bits(seq![d1, d2])) == GAction::Mm ==> idle(
            read_text_line(st, seq!['G', d1, d2], bits),
            crate::gcode::Units::Mm,
            z,
            ps,
        ),
        g_action(bits(seq![d1, d2])) == GAction::Inch ==> idle(
            read_text_line(st, seq!['G', d1, d2], bits),
            crate::gcode::Units::Inch,
            z,
            ps,
        ),
        !seq!['G', d1, d2].contains('\n'),
{
    lemma_g_code_line(st, d1, d2, bits);
    lemma_read_g(st, bits(seq![d1, d2]));
}

/// The two comment lines of the program start change nothing.
pub proof fn lemma_header_comments(st: ReadState, w: JobWordsView, bits: spec_fn(Seq<char>) -> u64)
    requires
        !w.tool_diameter.contains('\n'),
    ensures
        read_text_line(st, grbl_header_lines(w)[0], bits) == st,
        read_text_line(st, grbl_header_lines(w)[1], bits) == st,
        !grbl_header_lines(w)[0].contains('\n'),
        !grbl_header_lines(w)[1].contains('\n'),
{
    reveal_strlit("(FlatCAM-RS GRBL preprocessor)");
    reveal_strlit("(tool dia: ");
    reveal_strlit(")");
    let h = grbl_header_lines(w);
    let h0 = h[0];
    let h1 = h[1];
    lemma_comment_line(st, h0, bits);
    let lp = "(tool dia: "@;
    let rp = ")"@;
    assert(h1 == lp + w.tool_diameter + rp);
    assert(h1[0] == '(');
    assert(h1[h1.len() - 1] == ')');
    lemma_comment_line(st, h1, bits);
    assert(lp =~= seq!['(', 't', 'o', 'o', 'l', ' ', 'd', 'i', 'a', ':', ' ']);
    assert(!rp.contains('\n'));
    lemma_concat_no_newline(lp, w.tool_diameter);
    lemma_concat_no_newline(lp + w.tool_diameter, rp);
    assert(h0 =~= seq![
        '(', 'F', 'l', 'a', 't', 'C', 'A', 'M', '-', 'R', 'S', ' ', 'G', 'R', 'B',
        'L', ' ', 'p', 'r', 'e', 'p', 'r', 'o', 'c', 'e', 's', 's', 'o', 'r', ')',
    ]);
}

/// `G90` and the units word: the job's units.
pub proof fn lemma_header_modes(
    st: ReadState,
    z: u64,
    ps: Seq<Seq<(u64, u64)>>,
    w: JobWordsView,
    bits: spec_fn(Seq<char>) -> u64,
)
    requires
        idle(st, crate::gcode::Units::Mm, z, ps),
        reads_codes(bits),
    ensures
        idle(
            read_text_line(read_text_line(st, grbl_header_lines(w)[2], bits), grbl_header_lines(w)[3], bits),
            w.units,
            z,
            ps,
        ),
        !grbl_header_lines(w)[2].contains('\n'),
        !grbl_header_lines(w)[3].contains('\n'),
{
    reveal_strlit("G90");
    reveal_strlit("G21");
    reveal_strlit("G20");
    reveal_strlit("90");
    reveal_strlit("21");
    reveal_strlit("20");
    let h = grbl_header_lines(w);
    let h2 = h[2];
    let h3 = h[3];
    assert(h2 =~= seq!['G', '9', '0']);
    assert("90"@ =~= seq!['9', '0']);
    lemma_g_mode_line(st, crate::gcode::Units::Mm, z, ps, '9', '0', bits);
    let s3 = read_text_line(st, h2, bits);
    match w.units {
        crate::gcode::Units::Mm => {
            assert(h3 =~= seq!['G', '2', '1']);
            assert("21"@ =~= seq!['2', '1']);
            lemma_g_mode_line(s3, crate::gcode::Units::Mm, z, ps, '2', '1', bits);
        },
        crate::gcode::Units::Inch => {
            assert(h3 =~= seq!['G', '2', '0']);
            assert("20"@ =~= seq!['2', '0']);
            lemma_g_mode_line(s3, crate::gcode::Units::Mm, z, ps, '2', '0', bits);
        },
    }
}

/// `M03 S<spindle>` changes nothing while idle.
pub proof fn lemma_header_spindle(
    st: ReadState,
    u: crate::gcode::Units,
    z: u64,
    ps: Seq<Seq<(u64, u64)>>,
    w: JobWordsView,
    bits: spec_fn(Seq<char>) -> u64,
)
    requires
        idle(st, u, z, ps),
        plain_text(w.spindle),
    ensures
        idle(read_text_line(st, grbl_header_lines(w)[4], bits), u, z, ps),
        !grbl_header_lines(w)[4].contains('\n'),
{
    reveal_strlit("M03 S");
    let h4 = grbl_header_lines(w)[4];
    let m = seq!['M', '0', '3'];
    let sv = seq!['S'] + w.spindle;
    lemma_code_literal('0', '3');
    lemma_letter_word('M', seq!['0', '3']);
    assert(seq!['M'] + seq!['0', '3'] =~= m);
    lemma_letter_word('S', w.spindle);
    let ts = seq![m, sv];
    lemma_join_small(m, sv, sv, sv);
    assert(h4 =~= join_spec(ts, ' '));
    assert(token(ts[0]) && token(ts[1]));
    lemma_plain_line(st, ts, bits);
    lemma_read_line_empty(st);
}

/// The program start leaves the reader idle at the clearance height, in the
/// job's units.
pub proof fn lemma_header(w: JobWordsView, bits: spec_fn(Seq<char>) -> u64)
    requires
        num_text(w.travel_z),
        plain_text(w.spindle),
        !w.tool_diameter.contains('\n'),
        reads_codes(bits),
        !f64_below_zero(bits(w.travel_z)),
    ensures
        idle(
            fold_lines(read_initial(), grbl_header_lines(w), bits),
            w.units,
            bits(w.travel_z),
            Seq::<Seq<(u64, u64)>>::empty(),
        ),
        no_newlines(grbl_header_lines(w)),
{
    let h = grbl_header_lines(w);
    let e = Seq::<Seq<char>>::empty();
    let ps = Seq::<Seq<(u64, u64)>>::empty();
    let st0 = read_initial();
    let h0 = h[0];
    let h1 = h[1];
    let h2 = h[2];
    let h3 = h[3];
    let h4 = h[4];
    let h5 = h[5];
    assert(e.push(h0).push(h1).push(h2).push(h3).push(h4).push(h5) =~= h);
    lemma_fold_push(st0, e, h0, bits);
    lemma_fold_push(st0, e.push(h0), h1, bits);
    lemma_fold_push(st0, e.push(h0).push(h1), h2, bits);
    lemma_fold_push(st0, e.push(h0).push(h1).push(h2), h3, bits);
    lemma_fold_push(st0, e.push(h0).push(h1).push(h2).push(h3), h4, bits);
    lemma_fold_push(st0, e.push(h0).push(h1).push(h2).push(h3).push(h4), h5, bits);
    lemma_header_comments(st0, w, bits);
    assert(idle(st0, crate::gcode::Units::Mm, 0, ps));
    lemma_header_modes(st0, 0, ps, w, bits);
    let s4 = read_text_line(read_text_line(st0, h2, bits), h3, bits);
    lemma_header_spindle(s4, w.units, 0, ps, w, bits);
    let s5 = read_text_line(s4, h4, bits);
    lemma_lift(s5, w.units, w.travel_z, bits);
    assert(h5 == g00_z(w.travel_z));
    assert(no_newlines(h)) by {
        assert forall|k: int| 0 <= k < h.len() implies !(#[trigger] h[k]).contains('\n') by {
            assert(k == 0 || k == 1 || k == 2 || k == 3 || k == 4 || k == 5);
        }
    }
}

/// The program end keeps the paths read.
pub proof fn lemma_footer(
    st: ReadState,
    u: crate::gcode::Units,
    ps: Seq<Seq<(u64, u64)>>,
    w: JobWordsView,
    bits: spec_fn(Seq<char>) -> u64,
)
    requires
        idle(st, u, bits(w.travel_z), ps),
        num_text(w.travel_z),
        reads_codes(bits),
        !f64_below_zero(bits(w.travel_z)),
    ensures
        ({
            let f = finish(fold_lines(st, grbl_footer_lines(w), bits));
            f.units == u && f.paths == ps
        }),
        no_newlines(grbl_footer_lines(w)),
{
    reveal_strlit("M05");
    reveal_strlit("M30");
    reveal_strlit("G00 X0.0000 Y0.0000");
    reveal_strlit("G00 X");
    reveal_strlit(" Y");
    reveal_strlit("0.0000");
    let f = grbl_footer_lines(w);
    let e = Seq::<Seq<char>>::empty();
    let tz = bits(w.travel_z);
    let f0 = f[0];
    let f1 = f[1];
    let f2 = f[2];
    let f3 = f[3];
    assert(e.push(f0).push(f1).push(f2).push(f3) =~= f);
    lemma_fold_push(st, e, f0, bits);
    lemma_fold_push(st, e.push(f0), f1, bits);
    lemma_fold_push(st, e.push(f0).push(f1), f2, bits);
    lemma_fold_push(st, e.push(f0).push(f1).push(f2), f3, bits);
    lemma_lift(st, u, w.travel_z, bits);
    let s1 = read_text_line(st, f0, bits);
    assert(f1 =~= seq!['M', '0', '5']);
    lemma_m_code_line(s1, u, tz, ps, '0', '5', bits);
    let s2 = read_text_line(s1, f1, bits);
    let z4 = "0.0000"@;
    lemma_zero_text();
    assert(f2 =~= g00_xy(z4, z4));
    lemma_position(s2, u, tz, ps, z4, z4, bits);
    let s3 = read_text_line(s2, f2, bits);
    assert(f3 =~= seq!['M', '3', '0']);
    lemma_m_code_line(s3, u, tz, ps, '3', '0', bits);
    assert(no_newlines(f));
}

/// The text conditions under which a GRBL milling program reads back: the
/// clearance height, every depth and every coordinate a floating-point
/// literal without whitespace; feeds and spindle speed without whitespace;
/// the tool diameter without a line break.
pub open spec fn grbl_texts_ok(w: JobWordsView, paths: Seq<Seq<PointText>>, depths: Seq<Seq<char>>) -> bool {
    &&& num_text(w.travel_z)
    &&& plain_text(w.feed_xy)
    &&& plain_text(w.feed_z)
    &&& plain_text(w.spindle)
    &&& !w.tool_diameter.contains('\n')
    &&& paths_ok(paths)
    &&& forall|i: int| 0 <= i < depths.len() ==> num_text(#[trigger] depths[i])
}

/// A GRBL milling program reads back as what was milled: the job's units,
/// and every polyline of at least two points once per pass depth, in order,
/// each through exactly its points, whatever the conversion of the number
/// texts to `f64` bit patterns, provided it reads the G-codes as their
/// integers, the clearance height as not below zero and every depth as
/// below zero.
pub proof fn law_grbl_mill_reads_back(
    w: JobWordsView,
    paths: Seq<Seq<PointText>>,
    depths: Seq<Seq<char>>,
    bits: spec_fn(Seq<char>) -> u64,
)
    requires
        grbl_texts_ok(w, paths, depths),
        reads_codes(bits),
        !f64_below_zero(bits(w.travel_z)),
        forall|i: int| 0 <= i < depths.len() ==> f64_below_zero(bits(#[trigger] depths[i])),
    ensures
        read_spec(
            bits_lines(
                gcode_words_spec(
                    footer_text(
                        mill_text(
                            header_text(Seq::<char>::empty(), Dialect::Grbl, w),
                            Dialect::Grbl,
                            paths,
                            depths,
                            w,
                        ),
                        Dialect::Grbl,
                        w,
                    ),
                ),
                bits,
            ),
        ) == (w.units, milled_paths(paths, depths.len(), bits)),
{
    lemma_program_text(paths, depths, w);
    let h = grbl_header_lines(w);
    let m = mill_lines(paths, depths, w);
    let f = grbl_footer_lines(w);
    let st0 = read_initial();
    let ps = Seq::<Seq<(u64, u64)>>::empty();
    let mp = milled_paths(paths, depths.len(), bits);
    assert(depths_ok(depths, bits));
    lemma_header(w, bits);
    let s0 = fold_lines(st0, h, bits);
    lemma_mill(s0, w.units, ps, paths, depths, w, bits);
    let s1 = fold_lines(s0, m, bits);
    assert(ps + mp =~= mp);
    lemma_footer(s1, w.units, mp, w, bits);
    lemma_fold_append(st0, h, m, bits);
    lemma_fold_append(st0, h + m, f, bits);
    lemma_no_newlines_append(h, m);
    lemma_no_newlines_append(h + m, f);
    assert(grbl_program_lines(paths, depths, w) == h + m + f);
    lemma_read_text(h + m + f, bits);
}

} // verus!
