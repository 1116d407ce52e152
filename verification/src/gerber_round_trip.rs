//! What the Gerber reader makes of the Gerber writer's file: the unit
//! written, the one aperture, and for every ring of at least three vertices
//! a region whose outline runs through exactly the vertices written (dark
//! for an exterior, clear for a hole), with the polarity switches around
//! the holes and the final merge.
use crate::drill_writer::{lines_text, lemma_lines_text_append, lemma_lines_text_push};
use crate::gerber_writer::{
    gerber_file_lines, gerber_header, polygon_lines, polygons_lines, ring_lines, ring_vertices,
    rings_lines, vertex_line, vertex_lines, PolygonView, RingPoint,
};
use crate::gerber::{
    aperture_select, coord_block_spec, coords_from, decode_in, decode_spec, draw_spec,
    extended_parts, flush_path_spec, is_value_char, nonempty_trimmed, percent_end, run_from,
    split_coords_spec, strip_interp, tokens_from, value_end, word_end, word_spec, without_ws,
    CmdView, CoordWordsView, GerberError, ReaderState, Zeros, extended_from, parse_fs_spec,
    parse_mo_spec, parse_ad_spec, aperture_def_spec, aperture_insert, aperture_index, kind_of,
    float_literals, merge_spec, finish_region_spec, ApertureKind, ApertureView, Units, OpView, PathView,
    SegView, GerberView, initial_state, parse_spec, tokenize_spec,
};
use crate::numeric::{
    all_digits, digits_value, int_text, only_digits, parse_u8_spec, unsigned_int_spec, DecimalView,
};
use crate::text::{
    contains_spec, decimal_spec, is_ascii_digit, is_ws, lemma_split_piece, occurs_at, split_spec,
    starts_with_spec, trim_spec,
};
use vstd::prelude::*;

verus! {

// ---------------------------------------------------------------------------
// The commands of the text written
// ---------------------------------------------------------------------------

/// A line written as a command: `%<statement>*%` (an extended block of one
/// statement) or `<word>*`. Neither the statement nor the word holds
/// whitespace, `*` or `%`, and neither is empty.
pub open spec fn cmd_text(t: Seq<char>) -> bool {
    &&& t.len() > 0
    &&& forall|k: int| 0 <= k < t.len() ==> !is_ws(#[trigger] t[k]) && t[k] != '*' && t[k] != '%'
}

/// A written line and the command it makes.
pub open spec fn extended_line(stmt: Seq<char>) -> Seq<char> {
    seq!['%'] + stmt + seq!['*', '%']
}

pub open spec fn word_line(w: Seq<char>) -> Seq<char> {
    w + seq!['*']
}

/// The shape of a written line: an extended block or a word.
pub open spec fn line_shape(l: Seq<char>) -> Option<CmdView> {
    if l.len() >= 3 && l[0] == '%' && cmd_text(l.subrange(1, l.len() - 2)) && l == extended_line(
        l.subrange(1, l.len() - 2),
    ) {
        Some(CmdView::Extended(seq![l.subrange(1, l.len() - 2)]))
    } else if l.len() >= 2 && cmd_text(l.drop_last()) && l == word_line(l.drop_last()) {
        Some(CmdView::Word(l.drop_last()))
    } else {
        None
    }
}

pub proof fn lemma_percent_end_at(s: Seq<char>, i: int, k: int)
    requires
        0 <= i <= k < s.len(),
        s[k] == '%',
        forall|j: int| i <= j < k ==> s[j] != '%',
    ensures
        percent_end(s, i) == k,
    decreases k - i,
{
    if i < k {
        lemma_percent_end_at(s, i + 1, k);
    }
}

pub proof fn lemma_word_end_at(s: Seq<char>, i: int, k: int)
    requires
        0 <= i <= k < s.len(),
        s[k] == '*',
        forall|j: int| i <= j < k ==> s[j] != '*' && s[j] != '%',
    ensures
        word_end(s, i) == k,
    decreases k - i,
{
    if i < k {
        lemma_word_end_at(s, i + 1, k);
    }
}

pub proof fn lemma_without_ws_plain(t: Seq<char>)
    requires
        forall|k: int| 0 <= k < t.len() ==> !is_ws(#[trigger] t[k]),
    ensures
        without_ws(t) == t,
    decreases t.len(),
{
    if t.len() > 0 {
        assert(!is_ws(t[t.len() - 1]));
        lemma_without_ws_plain(t.drop_last());
        assert(t.drop_last().push(t.last()) =~= t);
    }
}

/// The statements of `<stmt>*` are just `stmt`.
pub proof fn lemma_one_statement(stmt: Seq<char>)
    requires
        cmd_text(stmt),
    ensures
        extended_parts(stmt + seq!['*']) == seq![stmt],
{
    let inner = stmt + seq!['*'];
    assert(!stmt.contains('*')) by {
        if stmt.contains('*') {
            let k = choose|k: int| 0 <= k < stmt.len() && stmt[k] == '*';
            assert(stmt[k] != '*');
        }
    }
    lemma_split_piece(stmt, '*');
    assert(inner.drop_last() =~= stmt);
    assert(inner.last() == '*');
    assert(split_spec(inner, '*') == seq![stmt].push(Seq::<char>::empty()));
    let parts = seq![stmt].push(Seq::<char>::empty());
    crate::drill_round_trip::lemma_trim_no_ws(stmt);
    crate::drill_round_trip::lemma_trim_no_ws(Seq::<char>::empty());
    assert(parts.drop_last() =~= seq![stmt]);
    assert(seq![stmt].drop_last() =~= Seq::<Seq<char>>::empty());
    assert(nonempty_trimmed(seq![stmt]) == nonempty_trimmed(Seq::<Seq<char>>::empty()).push(stmt));
    assert(nonempty_trimmed(Seq::<Seq<char>>::empty()).push(stmt) =~= seq![stmt]);
}

/// Reading a written line followed by its newline.
pub proof fn lemma_tokens_line(s: Seq<char>, i: int, l: Seq<char>)
    requires
        0 <= i,
        i + l.len() + 1 <= s.len(),
        s.subrange(i, i + l.len() + 1) == l + seq!['\n'],
        line_shape(l) is Some,
    ensures
        tokens_from(s, i) == seq![line_shape(l)->0] + tokens_from(s, i + l.len() + 1),
{
    let n = l.len() as int;
    assert forall|k: int| 0 <= k < n implies s[i + k] == l[k] by {
        assert(s.subrange(i, i + n + 1)[k] == s[i + k]);
    }
    assert(s[i + n] == '\n') by {
        assert(s.subrange(i, i + n + 1)[n] == s[i + n]);
    }
    assert(is_ws(s[i + n]));
    if l.len() >= 3 && l[0] == '%' && cmd_text(l.subrange(1, n - 2)) && l == extended_line(
        l.subrange(1, n - 2),
    ) {
        let stmt = l.subrange(1, n - 2);
        assert(s[i] == '%');
        assert(!is_ws(s[i])) by {
            assert(s[i] == '%');
        }
        assert(l[n - 1] == '%');
        assert(l[n - 2] == '*');
        assert forall|j: int| i + 1 <= j < i + n - 1 implies s[j] != '%' by {
            assert(s[j] == l[j - i]);
            if j - i < n - 2 {
                assert(l[j - i] == stmt[j - i - 1]);
            }
        }
        lemma_percent_end_at(s, i + 1, i + n - 1);
        assert(s.subrange(i + 1, i + n - 1) =~= stmt + seq!['*']) by {
            assert forall|j: int| 0 <= j < n - 2 implies s.subrange(i + 1, i + n - 1)[j] == (stmt
                + seq!['*'])[j] by {
                assert(s[i + 1 + j] == l[j + 1]);
            }
        }
        lemma_one_statement(stmt);
        assert(tokens_from(s, i + n) == tokens_from(s, i + n + 1));
    } else {
        let w = l.drop_last();
        assert(l == word_line(w));
        assert(l[n - 1] == '*');
        assert(s[i] == w[0]);
        assert(!is_ws(s[i]) && s[i] != '%');
        assert forall|j: int| i <= j < i + n - 1 implies s[j] != '*' && s[j] != '%' by {
            assert(s[j] == l[j - i]);
            assert(l[j - i] == w[j - i]);
        }
        lemma_word_end_at(s, i, i + n - 1);
        assert(s.subrange(i, i + n - 1) =~= w) by {
            assert forall|j: int| 0 <= j < n - 1 implies s.subrange(i, i + n - 1)[j] == w[j] by {
                assert(s[i + j] == l[j]);
            }
        }
        lemma_without_ws_plain(w);
        assert(tokens_from(s, i + n) == tokens_from(s, i + n + 1));
    }
}

/// Reading written lines: one command per line, in order.
pub proof fn lemma_tokens_lines(s: Seq<char>, i: int, ls: Seq<Seq<char>>)
    requires
        0 <= i <= s.len(),
        s.skip(i) == lines_text(ls),
        forall|k: int| 0 <= k < ls.len() ==> line_shape(#[trigger] ls[k]) is Some,
    ensures
        tokens_from(s, i) == ls.map_values(|l: Seq<char>| line_shape(l)->0),
    decreases ls.len(),
{
    if ls.len() == 0 {
        assert(s.skip(i).len() == 0);
        assert(ls.map_values(|l: Seq<char>| line_shape(l)->0) =~= Seq::<CmdView>::empty());
    } else {
        let l = ls[0];
        let rest = ls.drop_first();
        assert(ls =~= seq![l] + rest);
        lemma_lines_text_append(seq![l], rest);
        lemma_lines_text_push(Seq::<Seq<char>>::empty(), l);
        let n = l.len() as int;
        assert(s.skip(i) =~= l + seq!['\n'] + lines_text(rest));
        assert(s.subrange(i, i + n + 1) =~= l + seq!['\n']) by {
            assert forall|j: int| 0 <= j < n + 1 implies s.subrange(i, i + n + 1)[j] == (l
                + seq!['\n'])[j] by {
                assert(s.skip(i)[j] == s[i + j]);
            }
        }
        assert(line_shape(ls[0]) is Some);
        lemma_tokens_line(s, i, l);
        assert(s.skip(i + n + 1) =~= lines_text(rest)) by {
            assert forall|j: int| 0 <= j < s.skip(i + n + 1).len() implies s.skip(i + n + 1)[j]
                == lines_text(rest)[j] by {
                assert(s.skip(i)[n + 1 + j] == s[i + n + 1 + j]);
            }
        }
        assert forall|k: int| 0 <= k < rest.len() implies line_shape(#[trigger] rest[k]) is Some by {
            assert(rest[k] == ls[k + 1]);
        }
        lemma_tokens_lines(s, i + n + 1, rest);
        assert(ls.map_values(|l: Seq<char>| line_shape(l)->0) =~= seq![line_shape(l)->0]
            + rest.map_values(|l: Seq<char>| line_shape(l)->0));
    }
}

// ---------------------------------------------------------------------------
// Reading commands one after another
// ---------------------------------------------------------------------------

pub proof fn lemma_run_shift(st: ReaderState, a: Seq<CmdView>, b: Seq<CmdView>, j: int)
    requires
        0 <= j <= b.len(),
    ensures
        run_from(st, a + b, a.len() + j) == run_from(st, b, j),
    decreases b.len() - j,
{
    if j < b.len() {
        assert((a + b)[a.len() + j] == b[j]);
        match b[j] {
            CmdView::Extended(parts) => {
                lemma_run_shift(crate::gerber::extended_from(st, parts, 0), a, b, j + 1);
            },
            CmdView::Word(w) => {
                match word_spec(st, w) {
                    Ok(st2) => {
                        lemma_run_shift(st2, a, b, j + 1);
                    },
                    Err(_) => {},
                }
            },
        }
    }
}

pub proof fn lemma_run_prefix(st: ReaderState, a: Seq<CmdView>, b: Seq<CmdView>, i: int)
    requires
        0 <= i <= a.len(),
        run_from(st, a, i) is Ok,
    ensures
        run_from(st, a + b, i) == run_from(run_from(st, a, i)->Ok_0, b, 0),
    decreases a.len() - i,
{
    if i == a.len() {
        lemma_run_shift(st, a, b, 0);
    } else {
        assert((a + b)[i] == a[i]);
        match a[i] {
            CmdView::Extended(parts) => {
                lemma_run_prefix(crate::gerber::extended_from(st, parts, 0), a, b, i + 1);
            },
            CmdView::Word(w) => {
                match word_spec(st, w) {
                    Ok(st2) => {
                        lemma_run_prefix(st2, a, b, i + 1);
                    },
                    Err(_) => {},
                }
            },
        }
    }
}

/// Reading `a + b` is reading `a`, then `b` (when `a` reads).
pub proof fn lemma_run_append(st: ReaderState, a: Seq<CmdView>, b: Seq<CmdView>)
    requires
        run_from(st, a, 0) is Ok,
    ensures
        run_from(st, a + b, 0) == run_from(run_from(st, a, 0)->Ok_0, b, 0),
{
    lemma_run_prefix(st, a, b, 0);
}

pub proof fn lemma_run_one(st: ReaderState, c: CmdView)
    ensures
        run_from(st, seq![c], 0) == (match c {
            CmdView::Extended(parts) => Ok(crate::gerber::extended_from(st, parts, 0)),
            CmdView::Word(w) => word_spec(st, w),
        }),
{
    match c {
        CmdView::Extended(parts) => {
            assert(run_from(crate::gerber::extended_from(st, parts, 0), seq![c], 1) == Ok::<ReaderState, GerberError>(crate::gerber::extended_from(st, parts, 0)));
        },
        CmdView::Word(w) => {
            match word_spec(st, w) {
                Ok(st2) => {
                    assert(run_from(st2, seq![c], 1) == Ok::<ReaderState, GerberError>(st2));
                },
                Err(_) => {},
            }
        },
    }
}

// ---------------------------------------------------------------------------
// Texts and their characters
// ---------------------------------------------------------------------------

/// A prefix or an equal text fixes the first characters.
pub proof fn lemma_prefix_chars(w: Seq<char>, p: Seq<char>)
    ensures
        starts_with_spec(w, p) ==> forall|k: int| 0 <= k < p.len() ==> #[trigger] w[k] == p[k],
        w == p ==> w.len() == p.len() && forall|k: int| 0 <= k < p.len() ==> w[k] == p[k],
{
    if starts_with_spec(w, p) {
        assert forall|k: int| 0 <= k < p.len() implies #[trigger] w[k] == p[k] by {
            assert(w.subrange(0, p.len() as int)[k] == w[k]);
        }
    }
}

pub proof fn lemma_word_shape(w: Seq<char>)
    requires
        cmd_text(w),
        w[0] != '%',
    ensures
        line_shape(word_line(w)) == Some(CmdView::Word(w)),
{
    let l = word_line(w);
    assert(l[0] == w[0]);
    assert(l.drop_last() =~= w);
}

pub proof fn lemma_ext_shape(stmt: Seq<char>)
    requires
        cmd_text(stmt),
    ensures
        line_shape(extended_line(stmt)) == Some(CmdView::Extended(seq![stmt])),
{
    let l = extended_line(stmt);
    assert(l.subrange(1, l.len() - 2) =~= stmt);
}

/// The digits of an integer's text, without its sign.
pub proof fn lemma_only_digits_int(n: int)
    ensures
        only_digits(int_text(n)) == decimal_spec(if n < 0 { -n } else { n } as nat),
{
    let m: nat = if n < 0 { -n } else { n } as nat;
    let d = decimal_spec(m);
    crate::drill_round_trip::lemma_decimal_value(m);
    lemma_filter_all_digits(d);
    if n < 0 {
        reveal_with_fuel(Seq::filter, 2);
        assert(int_text(n) == seq!['-'] + d);
        Seq::filter_distributes_over_add(seq!['-'], d, |c: char| is_ascii_digit(c));
        assert(seq!['-'].drop_last() =~= Seq::<char>::empty());
        assert(seq!['-'].filter(|c: char| is_ascii_digit(c)) =~= Seq::<char>::empty());
        assert(Seq::<char>::empty() + d =~= d);
    }
}

pub proof fn lemma_filter_all_digits(d: Seq<char>)
    requires
        all_digits(d),
    ensures
        d.filter(|c: char| is_ascii_digit(c)) == d,
    decreases d.len(),
{
    reveal(Seq::filter);
    if d.len() > 0 {
        let pred = |c: char| is_ascii_digit(c);
        assert(all_digits(d.drop_last())) by {
            assert forall|i: int| 0 <= i < d.drop_last().len() implies is_ascii_digit(#[trigger] d.drop_last()[i]) by {
                assert(d.drop_last()[i] == d[i]);
            }
        }
        lemma_filter_all_digits(d.drop_last());
        assert(is_ascii_digit(d[d.len() - 1]));
        assert(pred(d.last()));
        reveal(Seq::filter);
        assert(d.filter(pred) == d.drop_last().filter(pred).push(d.last()));
        assert(d.drop_last().push(d.last()) =~= d);
    }
}

/// The magnitude of a code.
pub open spec fn abs_code(n: i64) -> nat {
    if n < 0 {
        (-(n as int)) as nat
    } else {
        n as nat
    }
}

/// The value of a `34`-format code: its digits, scaled by 10^-4.
pub open spec fn code_value(n: i64) -> DecimalView {
    DecimalView {
        negative: n < 0,
        digits: decimal_spec(abs_code(n)),
        exponent: -4,
    }
}

/// The text of a code reads back as its value under `FSLAX34Y34`.
pub proof fn lemma_decode_code(n: i64)
    requires
        n > i64::MIN,
    ensures
        decode_spec(Zeros::Leading, 3, 4, int_text(n as int)) == code_value(n),
{
    let m: nat = abs_code(n);
    lemma_only_digits_int(n as int);
    crate::drill_round_trip::lemma_decimal_value(m);
    let t = int_text(n as int);
    if n < 0 {
        assert(t[0] == '-');
    } else {
        assert(t[0] == decimal_spec(m)[0]);
        assert(is_ascii_digit(decimal_spec(m)[0]));
    }
}

// ---------------------------------------------------------------------------
// Function-code words
// ---------------------------------------------------------------------------

/// A word that starts with neither `G` nor `M` is none of the reader's
/// G- or M-codes.
pub proof fn lemma_word_not_gm(w: Seq<char>)
    requires
        w.len() > 0,
        w[0] != 'G',
        w[0] != 'M',
    ensures
        !starts_with_spec(w, "G04"@),
        !starts_with_spec(w, "G4"@),
        w != "G36"@,
        w != "G37"@,
        w != "G01"@ && w != "G1"@ && w != "G02"@ && w != "G2"@ && w != "G03"@ && w != "G3"@,
        w != "G74"@ && w != "G75"@,
        !starts_with_spec(w, "G70"@),
        !starts_with_spec(w, "G71"@),
        !starts_with_spec(w, "M02"@),
        !starts_with_spec(w, "M0"@),
        !starts_with_spec(w, "G54"@),
        !starts_with_spec(w, "G01"@) && !starts_with_spec(w, "G02"@) && !starts_with_spec(w, "G03"@),
        !starts_with_spec(w, "G1"@) && !starts_with_spec(w, "G2"@) && !starts_with_spec(w, "G3"@),
{
    reveal_strlit("G04");
    reveal_strlit("G4");
    reveal_strlit("G36");
    reveal_strlit("G37");
    reveal_strlit("G01");
    reveal_strlit("G1");
    reveal_strlit("G02");
    reveal_strlit("G2");
    reveal_strlit("G03");
    reveal_strlit("G3");
    reveal_strlit("G74");
    reveal_strlit("G75");
    reveal_strlit("G70");
    reveal_strlit("G71");
    reveal_strlit("M02");
    reveal_strlit("M0");
    reveal_strlit("G54");
    lemma_prefix_chars(w, "G04"@);
    lemma_prefix_chars(w, "G4"@);
    lemma_prefix_chars(w, "G36"@);
    lemma_prefix_chars(w, "G37"@);
    lemma_prefix_chars(w, "G01"@);
    lemma_prefix_chars(w, "G1"@);
    lemma_prefix_chars(w, "G02"@);
    lemma_prefix_chars(w, "G2"@);
    lemma_prefix_chars(w, "G03"@);
    lemma_prefix_chars(w, "G3"@);
    lemma_prefix_chars(w, "G74"@);
    lemma_prefix_chars(w, "G75"@);
    lemma_prefix_chars(w, "G70"@);
    lemma_prefix_chars(w, "G71"@);
    lemma_prefix_chars(w, "M02"@);
    lemma_prefix_chars(w, "M0"@);
    lemma_prefix_chars(w, "G54"@);
}

pub proof fn lemma_two_digit_value(a: char, b: char)
    ensures
        digits_value(seq![a, b]) == crate::numeric::digit_value(a) * 10 + crate::numeric::digit_value(b),
{
    assert(seq![a, b].drop_last() =~= seq![a]);
    assert(seq![a].drop_last() =~= Seq::<char>::empty());
    assert(digits_value(seq![a]) == digits_value(Seq::<char>::empty()) * 10 + crate::numeric::digit_value(a));
}

/// `D10` selects aperture 10 (ending any path outside a region).
pub proof fn lemma_select_d10(st: ReaderState)
    ensures
        word_spec(st, "D10"@) == Ok::<ReaderState, GerberError>(
            ReaderState { cur_aperture: 10, ..flush_path_spec(st) },
        ),
{
    reveal_strlit("D10");
    reveal_strlit("G54");
    let w = "D10"@;
    crate::drill_round_trip::lemma_trim_no_ws(w);
    lemma_word_not_gm(w);
    assert(w.drop_first() =~= seq!['1', '0']);
    lemma_two_digit_value('1', '0');
    assert(crate::numeric::digit_value('1') == 1 && crate::numeric::digit_value('0') == 0);
    assert(crate::numeric::parse_i32_spec(seq!['1', '0']) == Some(10i32));
    assert(aperture_select(w) == Some(10i32));
}

/// `G36` opens a region.
pub proof fn lemma_g36(st: ReaderState)
    ensures
        word_spec(st, "G36"@) == Ok::<ReaderState, GerberError>(
            ReaderState { region: true, ..flush_path_spec(st) },
        ),
{
    reveal_strlit("G36");
    reveal_strlit("G04");
    reveal_strlit("G4");
    let w = "G36"@;
    crate::drill_round_trip::lemma_trim_no_ws(w);
    lemma_prefix_chars(w, "G04"@);
    lemma_prefix_chars(w, "G4"@);
    assert(trim_spec(w) == w);
    assert(w.len() == 3 && w[1] == '3');
    assert(!starts_with_spec(w, "G04"@));
    assert(!starts_with_spec(w, "G4"@));
}

/// `G37` closes the region.
pub proof fn lemma_g37(st: ReaderState)
    ensures
        word_spec(st, "G37"@) == Ok::<ReaderState, GerberError>(
            ReaderState { region: false, ..crate::gerber::finish_region_spec(st) },
        ),
{
    reveal_strlit("G37");
    reveal_strlit("G36");
    reveal_strlit("G04");
    reveal_strlit("G4");
    let w = "G37"@;
    crate::drill_round_trip::lemma_trim_no_ws(w);
    lemma_prefix_chars(w, "G04"@);
    lemma_prefix_chars(w, "G4"@);
    lemma_prefix_chars(w, "G36"@);
    assert(trim_spec(w) == w);
    assert(w.len() == 3 && w[1] == '3' && w[2] == '7');
    assert(!starts_with_spec(w, "G04"@));
    assert(!starts_with_spec(w, "G4"@));
    assert(w != "G36"@);
}

/// `M02` changes nothing.
pub proof fn lemma_m02(st: ReaderState)
    ensures
        word_spec(st, "M02"@) == Ok::<ReaderState, GerberError>(st),
{
    reveal_strlit("M02");
    reveal_strlit("G04");
    reveal_strlit("G4");
    reveal_strlit("G36");
    reveal_strlit("G37");
    reveal_strlit("G01");
    reveal_strlit("G1");
    reveal_strlit("G02");
    reveal_strlit("G2");
    reveal_strlit("G03");
    reveal_strlit("G3");
    reveal_strlit("G74");
    reveal_strlit("G75");
    reveal_strlit("G70");
    reveal_strlit("G71");
    let w = "M02"@;
    crate::drill_round_trip::lemma_trim_no_ws(w);
    lemma_prefix_chars(w, "G04"@);
    lemma_prefix_chars(w, "G4"@);
    lemma_prefix_chars(w, "G70"@);
    lemma_prefix_chars(w, "G71"@);
    assert(w.subrange(0, 3) =~= "M02"@);
}

// ---------------------------------------------------------------------------
// Vertex words
// ---------------------------------------------------------------------------

/// The word of a vertex line (the line without its `*`).
pub open spec fn vertex_word(p: RingPoint, first: bool) -> Seq<char> {
    seq!['X'] + int_text(p.x as int) + seq!['Y'] + int_text(p.y as int) + seq![
        'D',
        '0',
        if first {
            '2'
        } else {
            '1'
        },
    ]
}

pub proof fn lemma_int_text_chars(n: int)
    ensures
        forall|k: int| 0 <= k < int_text(n).len() ==> (is_ascii_digit(#[trigger] int_text(n)[k]) || int_text(n)[k] == '-'),
        int_text(n).len() >= 1,
{
    let m: nat = if n < 0 { (-n) as nat } else { n as nat };
    crate::drill_round_trip::lemma_decimal_value(m);
    let d = decimal_spec(m);
    assert forall|k: int| 0 <= k < int_text(n).len() implies (is_ascii_digit(#[trigger] int_text(n)[k]) || int_text(n)[k] == '-') by {
        if n < 0 {
            if k > 0 {
                assert(int_text(n)[k] == d[k - 1]);
            }
        } else {
            assert(int_text(n)[k] == d[k]);
        }
    }
}

pub proof fn lemma_vertex_word_shape(p: RingPoint, first: bool)
    ensures
        vertex_line(p, first) == crate::gerber_round_trip::word_line(vertex_word(p, first)),
        cmd_text(vertex_word(p, first)),
        vertex_word(p, first)[0] == 'X',
        line_shape(vertex_line(p, first)) == Some(CmdView::Word(vertex_word(p, first))),
{
    reveal_strlit("X");
    reveal_strlit("Y");
    reveal_strlit("D01*");
    reveal_strlit("D02*");
    let w = vertex_word(p, first);
    let tx = int_text(p.x as int);
    let ty = int_text(p.y as int);
    lemma_int_text_chars(p.x as int);
    lemma_int_text_chars(p.y as int);
    assert(vertex_line(p, first) =~= word_line(w));
    assert forall|k: int| 0 <= k < w.len() implies !is_ws(#[trigger] w[k]) && w[k] != '*' && w[k] != '%' by {
        let a: int = 1 + tx.len() as int;
        if 1 <= k < a {
            assert(w[k] == tx[k - 1]);
            assert(is_ascii_digit(tx[k - 1]) || tx[k - 1] == '-');
        } else if a + 1 <= k < a + 1 + ty.len() {
            assert(w[k] == ty[k - a - 1]);
            assert(is_ascii_digit(ty[k - a - 1]) || ty[k - a - 1] == '-');
        }
    }
    lemma_word_shape(w);
}

pub proof fn lemma_value_end_at(s: Seq<char>, i: int, e: int)
    requires
        0 <= i <= e <= s.len(),
        forall|j: int| i <= j < e ==> is_value_char(#[trigger] s[j]),
        e == s.len() || !is_value_char(s[e]),
    ensures
        value_end(s, i) == e,
    decreases e - i,
{
    if i < e {
        lemma_value_end_at(s, i + 1, e);
    }
}

/// The coordinate words of a vertex word: its X, its Y, and `D02`/`D01`.
pub proof fn lemma_vertex_coords(p: RingPoint, first: bool)
    ensures
        split_coords_spec(vertex_word(p, first)) == (CoordWordsView {
            x: Some(int_text(p.x as int)),
            y: Some(int_text(p.y as int)),
            i: None,
            j: None,
            d: Some(if first { 2u8 } else { 1u8 }),
        }),
{
    let w = vertex_word(p, first);
    let tx = int_text(p.x as int);
    let ty = int_text(p.y as int);
    lemma_int_text_chars(p.x as int);
    lemma_int_text_chars(p.y as int);
    let a: int = 1 + tx.len() as int;
    let b: int = a + 1 + ty.len() as int;
    assert(w.len() == b + 3);
    assert(w[0] == 'X');
    assert(w[a] == 'Y');
    assert(w[b] == 'D');
    assert forall|j: int| 1 <= j < a implies is_value_char(#[trigger] w[j]) by {
        assert(w[j] == tx[j - 1]);
        assert(is_ascii_digit(tx[j - 1]) || tx[j - 1] == '-');
    }
    lemma_value_end_at(w, 1, a);
    assert(w.subrange(1, a) =~= tx);
    assert forall|j: int| a + 1 <= j < b implies is_value_char(#[trigger] w[j]) by {
        assert(w[j] == ty[j - a - 1]);
        assert(is_ascii_digit(ty[j - a - 1]) || ty[j - a - 1] == '-');
    }
    lemma_value_end_at(w, a + 1, b);
    assert(w.subrange(a + 1, b) =~= ty);
    let dc: char = if first { '2' } else { '1' };
    assert(w[b + 1] == '0' && w[b + 2] == dc);
    lemma_value_end_at(w, b + 1, b + 3);
    let dv = w.subrange(b + 1, b + 3);
    assert(dv =~= seq!['0', dc]);
    lemma_two_digit_value('0', dc);
    assert(crate::numeric::digit_value('0') == 0);
    assert(crate::numeric::digit_value(dc) == if first { 2nat } else { 1nat });
    assert(all_digits(seq!['0', dc]));
    assert(parse_u8_spec(dv) == Some(if first { 2u8 } else { 1u8 }));
    let acc0 = CoordWordsView { x: None, y: None, i: None, j: None, d: None };
    let acc1 = CoordWordsView { x: Some(tx), ..acc0 };
    let acc2 = CoordWordsView { y: Some(ty), ..acc1 };
    let acc3 = CoordWordsView { d: Some(if first { 2u8 } else { 1u8 }), ..acc2 };
    assert(coords_from(w, b + 3, acc3) == acc3);
    assert(coords_from(w, b, acc2) == coords_from(w, b + 3, acc3));
    assert(coords_from(w, a, acc1) == coords_from(w, b, acc2));
    assert(coords_from(w, 0, acc0) == coords_from(w, a, acc1));
}

/// A vertex word moves to (`D02`) or draws a line to (`D01`) the vertex.
pub proof fn lemma_vertex_step(st: ReaderState, p: RingPoint, first: bool)
    requires
        st.have_format,
        st.zeros == Zeros::Leading,
        st.int_digits == 3,
        st.frac_digits == 4,
        st.interp == 1,
        p.x > i64::MIN,
        p.y > i64::MIN,
    ensures
        word_spec(st, vertex_word(p, first)) == Ok::<ReaderState, GerberError>(
            if first {
                ReaderState { x: code_value(p.x), y: code_value(p.y), ..flush_path_spec(st) }
            } else {
                draw_spec(st, code_value(p.x), code_value(p.y), split_coords_spec(vertex_word(p, first)))
            },
        ),
{
    let w = vertex_word(p, first);
    lemma_vertex_word_shape(p, first);
    crate::drill_round_trip::lemma_trim_no_ws(w);
    lemma_word_not_gm(w);
    assert(aperture_select(w) is None);
    assert(strip_interp(w) == (None::<u8>, w));
    lemma_vertex_coords(p, first);
    lemma_decode_code(p.x);
    lemma_decode_code(p.y);
    assert(decode_in(st, int_text(p.x as int)) == code_value(p.x));
    assert(decode_in(st, int_text(p.y as int)) == code_value(p.y));
}

// ---------------------------------------------------------------------------
// Extended statements
// ---------------------------------------------------------------------------

/// `%FSLAX34Y34*%`: leading zeros omitted, three integer and four fraction
/// digits.
pub proof fn lemma_fs(st: ReaderState)
    ensures
        extended_from(st, seq!["FSLAX34Y34"@], 0) == (ReaderState {
            zeros: Zeros::Leading,
            int_digits: 3,
            frac_digits: 4,
            have_format: true,
            ..st
        }),
{
    reveal_strlit("FSLAX34Y34");
    reveal_strlit("FS");
    reveal_strlit("FSL");
    let s = "FSLAX34Y34"@;
    crate::drill_round_trip::lemma_trim_no_ws(s);
    assert(s.subrange(0, 2) =~= "FS"@);
    assert(s.subrange(0, 3) =~= "FSL"@);
    assert(occurs_at(s, "FSL"@, 0));
    crate::drill_round_trip::lemma_first_index_at(s, 'X', 4);
    assert(crate::numeric::digit_value('3') == 3 && crate::numeric::digit_value('4') == 4);
    assert(extended_from(parse_fs_spec(st, s), seq![s], 1) == parse_fs_spec(st, s));
}

/// `%MOMM*%` and `%MOIN*%` select the units.
pub proof fn lemma_mo(st: ReaderState, metric: bool)
    ensures
        extended_from(st, seq![if metric { "MOMM"@ } else { "MOIN"@ }], 0) == (ReaderState {
            units: if metric { Units::Mm } else { Units::Inch },
            ..st
        }),
{
    reveal_strlit("MOMM");
    reveal_strlit("MOIN");
    reveal_strlit("FS");
    reveal_strlit("MO");
    reveal_strlit("MM");
    reveal_strlit("IN");
    let s = if metric { "MOMM"@ } else { "MOIN"@ };
    crate::drill_round_trip::lemma_trim_no_ws(s);
    lemma_prefix_chars(s, "FS"@);
    assert(s.subrange(0, 2) =~= "MO"@);
    if metric {
        assert(s.subrange(2, 4) =~= "MM"@);
        assert(occurs_at(s, "MM"@, 2));
    } else {
        assert(!contains_spec(s, "MM"@)) by {
            assert forall|k: int| !occurs_at(s, "MM"@, k) by {
                if occurs_at(s, "MM"@, k) {
                    assert(s.subrange(k, k + 2)[0] == s[k]);
                    assert(s.subrange(k, k + 2)[1] == s[k + 1]);
                }
            }
        }
        assert(s.subrange(2, 4) =~= "IN"@);
        assert(occurs_at(s, "IN"@, 2));
    }
    assert(extended_from(parse_mo_spec(st, s), seq![s], 1) == parse_mo_spec(st, s));
}

/// The one aperture the writer defines: D10, a circle of 0.001.
pub open spec fn writer_aperture() -> ApertureView {
    ApertureView { kind: ApertureKind::Circle, template: "C"@, mods: seq!["0.00100"@] }
}

/// `%ADD10C,0.00100*%` defines D10 in an empty table.
pub proof fn lemma_ad(st: ReaderState)
    requires
        st.apertures.len() == 0,
    ensures
        extended_from(st, seq!["ADD10C,0.00100"@], 0) == (ReaderState {
            apertures: seq![(10i32, writer_aperture())],
            ..st
        }),
{
    reveal_strlit("ADD10C,0.00100");
    reveal_strlit("FS");
    reveal_strlit("MO");
    reveal_strlit("AD");
    reveal_strlit("C");
    reveal_strlit("0.00100");
    let s = "ADD10C,0.00100"@;
    crate::drill_round_trip::lemma_trim_no_ws(s);
    lemma_prefix_chars(s, "FS"@);
    lemma_prefix_chars(s, "MO"@);
    assert(s.subrange(0, 2) =~= "AD"@);
    let body = s.skip(3);
    assert(body =~= seq!['1', '0'] + seq!['C', ',', '0', '.', '0', '0', '1', '0', '0']);
    crate::drill_round_trip::lemma_leading_digits_split(seq!['1', '0'], seq!['C', ',', '0', '.', '0', '0', '1', '0', '0']);
    assert(body.take(2) =~= seq!['1', '0']);
    lemma_two_digit_value('1', '0');
    assert(crate::numeric::digit_value('1') == 1 && crate::numeric::digit_value('0') == 0);
    assert(crate::numeric::parse_i32_spec(seq!['1', '0']) == Some(10i32));
    let rest = body.skip(2);
    assert(rest =~= seq!['C', ',', '0', '.', '0', '0', '1', '0', '0']);
    crate::drill_round_trip::lemma_first_index_at(rest, ',', 1);
    assert(rest.take(1) =~= "C"@);
    let m = rest.skip(2);
    assert(m =~= "0.00100"@);
    assert forall|j: int| 0 <= j < m.len() implies m[j] != 'X' by {}
    assert(!m.contains('X'));
    lemma_split_piece(m, 'X');
    crate::drill_round_trip::lemma_trim_no_ws(m);
    assert(crate::drill_round_trip::decimal_text(m)) by {
        crate::drill_round_trip::lemma_first_index_at(m, '.', 1);
        assert(m.take(1) =~= seq!['0']);
        assert(m.skip(2) =~= seq!['0', '0', '1', '0', '0']);
    }
    crate::drill_round_trip::lemma_decimal_text_literal(m);
    assert(seq![m].drop_last() =~= Seq::<Seq<char>>::empty());
    assert(float_literals(seq![m]) == float_literals(Seq::<Seq<char>>::empty()).push(m));
    assert(float_literals(seq![m]) =~= seq![m]);
    assert(kind_of("C"@) == ApertureKind::Circle);
    assert(aperture_def_spec(s) == Some((10i32, writer_aperture())));
    assert(aperture_index(st.apertures, 10i32) == 0);
    assert(aperture_insert(st.apertures, 10i32, writer_aperture()) =~= seq![(10i32, writer_aperture())]);
    assert(extended_from(parse_ad_spec(st, s), seq![s], 1) == parse_ad_spec(st, s));
}

/// `%LPC*%` and `%LPD*%`: a merge, then clear or dark polarity.
pub proof fn lemma_lp(st: ReaderState, clear: bool)
    ensures
        extended_from(st, seq![if clear { "LPC"@ } else { "LPD"@ }], 0) == (ReaderState {
            dark: !clear,
            ..merge_spec(flush_path_spec(st))
        }),
{
    reveal_strlit("LPC");
    reveal_strlit("LPD");
    reveal_strlit("FS");
    reveal_strlit("MO");
    reveal_strlit("AD");
    reveal_strlit("AM");
    reveal_strlit("LP");
    reveal_strlit("C");
    let s = if clear { "LPC"@ } else { "LPD"@ };
    crate::drill_round_trip::lemma_trim_no_ws(s);
    lemma_prefix_chars(s, "FS"@);
    lemma_prefix_chars(s, "MO"@);
    lemma_prefix_chars(s, "AD"@);
    lemma_prefix_chars(s, "AM"@);
    assert(s.subrange(0, 2) =~= "LP"@);
    if clear {
        assert(s.subrange(2, 3) =~= "C"@);
        assert(occurs_at(s, "C"@, 2));
    } else {
        assert(!contains_spec(s, "C"@)) by {
            assert forall|k: int| !occurs_at(s, "C"@, k) by {
                if occurs_at(s, "C"@, k) {
                    assert(s.subrange(k, k + 1)[0] == s[k]);
                }
            }
        }
    }
    let st2 = ReaderState { dark: !contains_spec(s, "C"@), ..merge_spec(flush_path_spec(st)) };
    assert(extended_from(st2, seq![s], 1) == st2);
}

// ---------------------------------------------------------------------------
// What the reader gives back
// ---------------------------------------------------------------------------

/// A straight draw to a vertex.
pub open spec fn line_seg(p: RingPoint) -> SegView {
    SegView::Line { x: code_value(p.x), y: code_value(p.y) }
}

/// The outline through the vertices `c`: from the first, lines to the others.
pub open spec fn ring_path(c: Seq<RingPoint>) -> PathView {
    PathView {
        start_x: code_value(c[0].x),
        start_y: code_value(c[0].y),
        segments: c.skip(1).map_values(|p: RingPoint| line_seg(p)),
    }
}

/// The region a written ring reads back as (none for fewer than three
/// vertices).
pub open spec fn ring_ops(r: Seq<RingPoint>, dark: bool) -> Seq<OpView> {
    let c = ring_vertices(r);
    if c.len() < 3 {
        Seq::<OpView>::empty()
    } else {
        seq![OpView::Region { path: ring_path(c), dark }]
    }
}

/// The clear regions of the holes `hs[..n]`.
pub open spec fn holes_ops(hs: Seq<Seq<RingPoint>>, n: int) -> Seq<OpView>
    decreases n,
{
    if n <= 0 || n > hs.len() {
        Seq::<OpView>::empty()
    } else {
        holes_ops(hs, n - 1) + ring_ops(hs[n - 1], false)
    }
}

/// A polygon read back: its dark exterior, then, if it has holes, a merge,
/// the clear holes and another merge.
pub open spec fn polygon_ops(p: PolygonView) -> Seq<OpView> {
    ring_ops(p.exterior, true) + if p.interiors.len() > 0 {
        seq![OpView::Merge] + holes_ops(p.interiors, p.interiors.len() as int) + seq![OpView::Merge]
    } else {
        Seq::<OpView>::empty()
    }
}

/// The polygons `ps[..n]` read back.
pub open spec fn polygons_ops(ps: Seq<PolygonView>, n: int) -> Seq<OpView>
    decreases n,
{
    if n <= 0 || n > ps.len() {
        Seq::<OpView>::empty()
    } else {
        polygons_ops(ps, n - 1) + polygon_ops(ps[n - 1])
    }
}

/// No code of the ring is `i64::MIN` (whose magnitude does not fit an
/// `i64`).
pub open spec fn ring_codes_ok(r: Seq<RingPoint>) -> bool {
    forall|k: int| 0 <= k < r.len() ==> (#[trigger] r[k]).x > i64::MIN && r[k].y > i64::MIN
}

pub open spec fn polygon_codes_ok(p: PolygonView) -> bool {
    &&& ring_codes_ok(p.exterior)
    &&& forall|j: int| 0 <= j < p.interiors.len() ==> ring_codes_ok(#[trigger] p.interiors[j])
}

/// The commands of written lines.
pub open spec fn cmds_of(ls: Seq<Seq<char>>) -> Seq<CmdView> {
    ls.map_values(|l: Seq<char>| line_shape(l)->0)
}

pub proof fn lemma_cmds_of_append(a: Seq<Seq<char>>, b: Seq<Seq<char>>)
    ensures
        cmds_of(a + b) == cmds_of(a) + cmds_of(b),
{
    assert(cmds_of(a + b) =~= cmds_of(a) + cmds_of(b));
}

/// The reader between polygons: the format, units and aperture of the
/// header, linear interpolation, no region, no path.
pub open spec fn steady(st: ReaderState, u: Units) -> bool {
    &&& st.units == u
    &&& st.zeros == Zeros::Leading
    &&& st.int_digits == 3
    &&& st.frac_digits == 4
    &&& st.have_format
    &&& st.apertures == seq![(10i32, writer_aperture())]
    &&& st.cur_aperture == 10
    &&& st.interp == 1
    &&& !st.region
    &&& st.path is None
}

/// The outline so far after `n` vertices (none after the first alone).
pub open spec fn partial_path(c: Seq<RingPoint>, n: int) -> Option<PathView> {
    if n < 2 {
        None
    } else {
        Some(ring_path(c.take(n)))
    }
}

/// The vertex words of `c[..n]`: a move to the first, draws to the others.
pub proof fn lemma_vertices(st: ReaderState, c: Seq<RingPoint>, n: int)
    requires
        1 <= n <= c.len(),
        st.have_format,
        st.zeros == Zeros::Leading,
        st.int_digits == 3,
        st.frac_digits == 4,
        st.interp == 1,
        st.region,
        st.path is None,
        ring_codes_ok(c),
    ensures
        forall|k: int| 0 <= k < vertex_lines(c, n).len() ==> line_shape(#[trigger] vertex_lines(c, n)[k]) is Some,
        vertex_lines(c, n).len() == n,
        run_from(st, cmds_of(vertex_lines(c, n)), 0) == Ok::<ReaderState, GerberError>(
            ReaderState {
                path: partial_path(c, n),
                x: code_value(c[n - 1].x),
                y: code_value(c[n - 1].y),
                last_path_aperture: if n >= 2 {
                    st.cur_aperture
                } else {
                    st.last_path_aperture
                },
                ..st
            },
        ),
    decreases n,
{
    let p = c[n - 1];
    assert(p.x > i64::MIN && p.y > i64::MIN);
    lemma_vertex_word_shape(p, n == 1);
    let l = vertex_line(p, n == 1);
    if n == 1 {
        assert(vertex_lines(c, 0) == Seq::<Seq<char>>::empty());
        assert(vertex_lines(c, 1) =~= seq![l]);
        assert(cmds_of(seq![l]) =~= seq![CmdView::Word(vertex_word(p, true))]);
        lemma_run_one(st, CmdView::Word(vertex_word(p, true)));
        lemma_vertex_step(st, p, true);
    } else {
        lemma_vertices(st, c, n - 1);
        let a = vertex_lines(c, n - 1);
        assert(vertex_lines(c, n) == a.push(l));
        assert(a.push(l) =~= a + seq![l]);
        lemma_cmds_of_append(a, seq![l]);
        let w = CmdView::Word(vertex_word(p, false));
        assert(cmds_of(seq![l]) =~= seq![w]);
        lemma_run_append(st, cmds_of(a), seq![w]);
        let r0 = run_from(st, cmds_of(a), 0)->Ok_0;
        lemma_run_one(r0, w);
        lemma_vertex_step(r0, p, false);
        let seg = line_seg(p);
        assert(c.take(n).skip(1) =~= c.take(n - 1).skip(1).push(p));
        assert(c.take(n).skip(1).map_values(|q: RingPoint| line_seg(q)) =~= c.take(n - 1).skip(1).map_values(
            |q: RingPoint| line_seg(q),
        ).push(seg));
        if n == 2 {
            assert(c.take(1).skip(1).map_values(|q: RingPoint| line_seg(q)) =~= Seq::<SegView>::empty());
            assert(c.take(2).skip(1).map_values(|q: RingPoint| line_seg(q)) =~= seq![seg]);
        }
        assert forall|k: int| 0 <= k < vertex_lines(c, n).len() implies line_shape(#[trigger] vertex_lines(c, n)[k]) is Some by {
            if k < a.len() {
                assert(vertex_lines(c, n)[k] == a[k]);
            }
        }
    }
}

/// A written ring: its region (if it has three vertices or more) is added
/// with the polarity in force.
pub proof fn lemma_ring(st: ReaderState, u: Units, r: Seq<RingPoint>)
    requires
        steady(st, u),
        ring_codes_ok(r),
    ensures
        forall|k: int| 0 <= k < ring_lines(r).len() ==> line_shape(#[trigger] ring_lines(r)[k]) is Some,
        run_from(st, cmds_of(ring_lines(r)), 0) is Ok,
        steady(run_from(st, cmds_of(ring_lines(r)), 0)->Ok_0, u),
        (run_from(st, cmds_of(ring_lines(r)), 0)->Ok_0).dark == st.dark,
        (run_from(st, cmds_of(ring_lines(r)), 0)->Ok_0).ops == st.ops + ring_ops(r, st.dark),
{
    reveal_strlit("G36*");
    reveal_strlit("G37*");
    reveal_strlit("G36");
    reveal_strlit("G37");
    let c = ring_vertices(r);
    assert(ring_codes_ok(c)) by {
        assert forall|k: int| 0 <= k < c.len() implies (#[trigger] c[k]).x > i64::MIN && c[k].y > i64::MIN by {
            assert(c[k] == r[k]);
        }
    }
    if c.len() < 3 {
        assert(cmds_of(Seq::<Seq<char>>::empty()) =~= Seq::<CmdView>::empty());
        assert(st.ops + Seq::<OpView>::empty() =~= st.ops);
    } else {
        let n = c.len() as int;
        let v = vertex_lines(c, n);
        let g36 = "G36*"@;
        let g37 = "G37*"@;
        assert(g36 =~= word_line("G36"@));
        assert(g37 =~= word_line("G37"@));
        assert(cmd_text("G36"@));
        assert(cmd_text("G37"@));
        lemma_word_shape("G36"@);
        lemma_word_shape("G37"@);
        assert(ring_lines(r) == seq![g36] + v + seq![g37]);
        lemma_cmds_of_append(seq![g36] + v, seq![g37]);
        lemma_cmds_of_append(seq![g36], v);
        assert(cmds_of(seq![g36]) =~= seq![CmdView::Word("G36"@)]);
        assert(cmds_of(seq![g37]) =~= seq![CmdView::Word("G37"@)]);
        lemma_run_one(st, CmdView::Word("G36"@));
        lemma_g36(st);
        let s1 = ReaderState { region: true, ..flush_path_spec(st) };
        assert(s1 == ReaderState { region: true, ..st });
        lemma_run_append(st, seq![CmdView::Word("G36"@)], cmds_of(v));
        lemma_vertices(s1, c, n);
        let s2 = run_from(s1, cmds_of(v), 0)->Ok_0;
        lemma_run_append(st, seq![CmdView::Word("G36"@)] + cmds_of(v), seq![CmdView::Word("G37"@)]);
        lemma_run_one(s2, CmdView::Word("G37"@));
        lemma_g37(s2);
        assert(c.take(n) =~= c);
        assert(ring_path(c.take(n)) == ring_path(c));
        assert forall|k: int| 0 <= k < ring_lines(r).len() implies line_shape(#[trigger] ring_lines(r)[k]) is Some by {
            if k == 0 {
                assert(ring_lines(r)[k] == g36);
            } else if k <= n {
                assert(ring_lines(r)[k] == v[k - 1]);
            } else {
                assert(ring_lines(r)[k] == g37);
            }
        }
    }
}

/// The holes `hs[..n]`, read with clear polarity.
pub proof fn lemma_holes(st: ReaderState, u: Units, hs: Seq<Seq<RingPoint>>, n: int)
    requires
        steady(st, u),
        !st.dark,
        0 <= n <= hs.len(),
        forall|j: int| 0 <= j < hs.len() ==> ring_codes_ok(#[trigger] hs[j]),
    ensures
        forall|k: int| 0 <= k < rings_lines(hs, n).len() ==> line_shape(#[trigger] rings_lines(hs, n)[k]) is Some,
        run_from(st, cmds_of(rings_lines(hs, n)), 0) is Ok,
        steady(run_from(st, cmds_of(rings_lines(hs, n)), 0)->Ok_0, u),
        !(run_from(st, cmds_of(rings_lines(hs, n)), 0)->Ok_0).dark,
        (run_from(st, cmds_of(rings_lines(hs, n)), 0)->Ok_0).ops == st.ops + holes_ops(hs, n),
    decreases n,
{
    if n == 0 {
        assert(cmds_of(Seq::<Seq<char>>::empty()) =~= Seq::<CmdView>::empty());
        assert(st.ops + Seq::<OpView>::empty() =~= st.ops);
    } else {
        lemma_holes(st, u, hs, n - 1);
        let a = rings_lines(hs, n - 1);
        let b = ring_lines(hs[n - 1]);
        lemma_cmds_of_append(a, b);
        lemma_run_append(st, cmds_of(a), cmds_of(b));
        let s1 = run_from(st, cmds_of(a), 0)->Ok_0;
        lemma_ring(s1, u, hs[n - 1]);
        assert(st.ops + holes_ops(hs, n - 1) + ring_ops(hs[n - 1], false) =~= st.ops + holes_ops(hs, n));
        assert forall|k: int| 0 <= k < (a + b).len() implies line_shape(#[trigger] (a + b)[k]) is Some by {
            if k < a.len() {
                assert((a + b)[k] == a[k]);
            } else {
                assert((a + b)[k] == b[k - a.len()]);
            }
        }
    }
}

/// The lines of a polygon's holes: a switch to clear polarity, the holes,
/// a switch back to dark.
pub open spec fn holes_block(hs: Seq<Seq<RingPoint>>) -> Seq<Seq<char>> {
    seq!["%LPC*%"@] + rings_lines(hs, hs.len() as int) + seq!["%LPD*%"@]
}

pub proof fn lemma_holes_block(st: ReaderState, u: Units, hs: Seq<Seq<RingPoint>>)
    requires
        steady(st, u),
        st.dark,
        forall|j: int| 0 <= j < hs.len() ==> ring_codes_ok(#[trigger] hs[j]),
    ensures
        forall|k: int| 0 <= k < holes_block(hs).len() ==> line_shape(#[trigger] holes_block(hs)[k]) is Some,
        run_from(st, cmds_of(holes_block(hs)), 0) is Ok,
        steady(run_from(st, cmds_of(holes_block(hs)), 0)->Ok_0, u),
        (run_from(st, cmds_of(holes_block(hs)), 0)->Ok_0).dark,
        (run_from(st, cmds_of(holes_block(hs)), 0)->Ok_0).ops == st.ops + (seq![OpView::Merge]
            + holes_ops(hs, hs.len() as int) + seq![OpView::Merge]),
{
    reveal_strlit("%LPC*%");
    reveal_strlit("%LPD*%");
    reveal_strlit("LPC");
    reveal_strlit("LPD");
    let hl = rings_lines(hs, hs.len() as int);
    let lpc = "%LPC*%"@;
    let lpd = "%LPD*%"@;
    assert(lpc =~= extended_line("LPC"@));
    assert(lpd =~= extended_line("LPD"@));
    assert(cmd_text("LPC"@));
    assert(cmd_text("LPD"@));
    lemma_ext_shape("LPC"@);
    lemma_ext_shape("LPD"@);
    let cpc = CmdView::Extended(seq!["LPC"@]);
    let cpd = CmdView::Extended(seq!["LPD"@]);
    assert(cmds_of(seq![lpc]) =~= seq![cpc]);
    assert(cmds_of(seq![lpd]) =~= seq![cpd]);
    lemma_cmds_of_append(seq![lpc] + hl, seq![lpd]);
    lemma_cmds_of_append(seq![lpc], hl);
    lemma_run_one(st, cpc);
    lemma_lp(st, true);
    let s2 = ReaderState { dark: false, ..merge_spec(flush_path_spec(st)) };
    lemma_holes(s2, u, hs, hs.len() as int);
    lemma_run_append(st, seq![cpc], cmds_of(hl));
    let s3 = run_from(s2, cmds_of(hl), 0)->Ok_0;
    lemma_run_append(st, seq![cpc] + cmds_of(hl), seq![cpd]);
    lemma_run_one(s3, cpd);
    lemma_lp(s3, false);
    assert(st.ops + (seq![OpView::Merge] + holes_ops(hs, hs.len() as int) + seq![OpView::Merge])
        =~= st.ops.push(OpView::Merge) + holes_ops(hs, hs.len() as int) + seq![OpView::Merge]);
    assert(s2.ops + holes_ops(hs, hs.len() as int) == st.ops.push(OpView::Merge) + holes_ops(hs, hs.len() as int));
    let b = holes_block(hs);
    assert forall|k: int| 0 <= k < b.len() implies line_shape(#[trigger] b[k]) is Some by {
        if k == 0 {
            assert(b[k] == lpc);
        } else if k < 1 + hl.len() {
            assert(b[k] == hl[k - 1]);
        } else {
            assert(b[k] == lpd);
        }
    }
}

/// A written polygon: its exterior, then its holes between polarity
/// switches.
pub proof fn lemma_polygon(st: ReaderState, u: Units, p: PolygonView)
    requires
        steady(st, u),
        st.dark,
        polygon_codes_ok(p),
    ensures
        forall|k: int| 0 <= k < polygon_lines(p).len() ==> line_shape(#[trigger] polygon_lines(p)[k]) is Some,
        run_from(st, cmds_of(polygon_lines(p)), 0) is Ok,
        steady(run_from(st, cmds_of(polygon_lines(p)), 0)->Ok_0, u),
        (run_from(st, cmds_of(polygon_lines(p)), 0)->Ok_0).dark,
        (run_from(st, cmds_of(polygon_lines(p)), 0)->Ok_0).ops == st.ops + polygon_ops(p),
{
    let e = ring_lines(p.exterior);
    lemma_ring(st, u, p.exterior);
    let s1 = run_from(st, cmds_of(e), 0)->Ok_0;
    if p.interiors.len() == 0 {
        assert(polygon_lines(p) =~= e);
        assert(polygon_ops(p) =~= ring_ops(p.exterior, true));
    } else {
        let hs = p.interiors;
        let b = holes_block(hs);
        assert(polygon_lines(p) == e + b);
        lemma_cmds_of_append(e, b);
        lemma_holes_block(s1, u, hs);
        lemma_run_append(st, cmds_of(e), cmds_of(b));
        assert(st.ops + polygon_ops(p) =~= st.ops + ring_ops(p.exterior, true) + (seq![OpView::Merge]
            + holes_ops(hs, hs.len() as int) + seq![OpView::Merge]));
        let pl = polygon_lines(p);
        assert forall|k: int| 0 <= k < pl.len() implies line_shape(#[trigger] pl[k]) is Some by {
            if k < e.len() {
                assert(pl[k] == e[k]);
            } else {
                assert(pl[k] == b[k - e.len()]);
            }
        }
    }
}

/// The polygons `ps[..n]`.
pub proof fn lemma_polygons(st: ReaderState, u: Units, ps: Seq<PolygonView>, n: int)
    requires
        steady(st, u),
        st.dark,
        0 <= n <= ps.len(),
        forall|i: int| 0 <= i < ps.len() ==> polygon_codes_ok(#[trigger] ps[i]),
    ensures
        forall|k: int| 0 <= k < polygons_lines(ps, n).len() ==> line_shape(#[trigger] polygons_lines(ps, n)[k]) is Some,
        run_from(st, cmds_of(polygons_lines(ps, n)), 0) is Ok,
        steady(run_from(st, cmds_of(polygons_lines(ps, n)), 0)->Ok_0, u),
        (run_from(st, cmds_of(polygons_lines(ps, n)), 0)->Ok_0).dark,
        (run_from(st, cmds_of(polygons_lines(ps, n)), 0)->Ok_0).ops == st.ops + polygons_ops(ps, n),
    decreases n,
{
    if n == 0 {
        assert(cmds_of(Seq::<Seq<char>>::empty()) =~= Seq::<CmdView>::empty());
        assert(st.ops + Seq::<OpView>::empty() =~= st.ops);
    } else {
        lemma_polygons(st, u, ps, n - 1);
        let a = polygons_lines(ps, n - 1);
        let b = polygon_lines(ps[n - 1]);
        lemma_cmds_of_append(a, b);
        lemma_run_append(st, cmds_of(a), cmds_of(b));
        let s1 = run_from(st, cmds_of(a), 0)->Ok_0;
        lemma_polygon(s1, u, ps[n - 1]);
        assert(st.ops + polygons_ops(ps, n - 1) + polygon_ops(ps[n - 1]) =~= st.ops + polygons_ops(ps, n));
        assert forall|k: int| 0 <= k < (a + b).len() implies line_shape(#[trigger] (a + b)[k]) is Some by {
            if k < a.len() {
                assert((a + b)[k] == a[k]);
            } else {
                assert((a + b)[k] == b[k - a.len()]);
            }
        }
    }
}

/// The commands of the header.
pub open spec fn header_cmds(metric: bool) -> Seq<CmdView> {
    seq![
        CmdView::Extended(seq!["FSLAX34Y34"@]),
        CmdView::Extended(seq![if metric { "MOMM"@ } else { "MOIN"@ }]),
        CmdView::Extended(seq!["ADD10C,0.00100"@]),
        CmdView::Word("D10"@),
    ]
}

pub proof fn lemma_header_cmds(metric: bool)
    ensures
        forall|k: int| 0 <= k < gerber_header(metric).len() ==> line_shape(#[trigger] gerber_header(metric)[k]) is Some,
        cmds_of(gerber_header(metric)) == header_cmds(metric),
{
    reveal_strlit("%FSLAX34Y34*%");
    reveal_strlit("%MOMM*%");
    reveal_strlit("%MOIN*%");
    reveal_strlit("%ADD10C,0.00100*%");
    reveal_strlit("D10*");
    reveal_strlit("FSLAX34Y34");
    reveal_strlit("MOMM");
    reveal_strlit("MOIN");
    reveal_strlit("ADD10C,0.00100");
    reveal_strlit("D10");
    let fs = "FSLAX34Y34"@;
    let mo = if metric { "MOMM"@ } else { "MOIN"@ };
    let ad = "ADD10C,0.00100"@;
    let d10 = "D10"@;
    let h = gerber_header(metric);
    assert(h[0] =~= extended_line(fs));
    assert(h[1] =~= extended_line(mo));
    assert(h[2] =~= extended_line(ad));
    assert(h[3] =~= word_line(d10));
    assert(cmd_text(fs));
    assert(cmd_text(mo));
    assert(cmd_text(ad));
    assert(cmd_text(d10));
    lemma_ext_shape(fs);
    lemma_ext_shape(mo);
    lemma_ext_shape(ad);
    lemma_word_shape(d10);
    assert(cmds_of(h) =~= header_cmds(metric));
}

/// The header reads as: the format, the units, the aperture D10 defined and
/// selected.
pub proof fn lemma_header(metric: bool)
    ensures
        run_from(initial_state(), header_cmds(metric), 0) is Ok,
        steady(
            run_from(initial_state(), header_cmds(metric), 0)->Ok_0,
            if metric { Units::Mm } else { Units::Inch },
        ),
        (run_from(initial_state(), header_cmds(metric), 0)->Ok_0).dark,
        (run_from(initial_state(), header_cmds(metric), 0)->Ok_0).ops.len() == 0,
{
    let cs = header_cmds(metric);
    let st0 = initial_state();
    lemma_fs(st0);
    let st1 = ReaderState { zeros: Zeros::Leading, int_digits: 3, frac_digits: 4, have_format: true, ..st0 };
    lemma_mo(st1, metric);
    let st2 = ReaderState { units: if metric { Units::Mm } else { Units::Inch }, ..st1 };
    lemma_ad(st2);
    let st3 = ReaderState { apertures: seq![(10i32, writer_aperture())], ..st2 };
    lemma_select_d10(st3);
    let st4 = ReaderState { cur_aperture: 10, ..flush_path_spec(st3) };
    assert(run_from(st4, cs, 4) == Ok::<ReaderState, GerberError>(st4));
    assert(run_from(st3, cs, 3) == Ok::<ReaderState, GerberError>(st4));
    assert(run_from(st2, cs, 2) == Ok::<ReaderState, GerberError>(st4));
    assert(run_from(st1, cs, 1) == Ok::<ReaderState, GerberError>(st4));
    assert(run_from(st0, cs, 0) == Ok::<ReaderState, GerberError>(st4));
}

// ---------------------------------------------------------------------------
// The round trip
// ---------------------------------------------------------------------------

/// A Gerber file written from polygons reads back as: the units written,
/// the one aperture D10 (a circle of 0.00100), and for each polygon in
/// order the dark region of its exterior and, if it has holes, a merge, the
/// clear regions of its holes and a merge; each region's outline starts at
/// the first vertex written and draws lines through the others, every
/// coordinate the exact value of its code (code × 10^-4); a ring of fewer
/// than three vertices gives no region; the reading ends with a merge. No
/// code may be `i64::MIN`.
pub proof fn law_gerber_file_reads_back(ps: Seq<PolygonView>, metric: bool)
    requires
        forall|i: int| 0 <= i < ps.len() ==> polygon_codes_ok(#[trigger] ps[i]),
    ensures
        parse_spec(lines_text(gerber_file_lines(ps, metric))) == Ok::<GerberView, GerberError>(
            GerberView {
                units: if metric { Units::Mm } else { Units::Inch },
                apertures: seq![(10i32, writer_aperture())],
                ops: polygons_ops(ps, ps.len() as int).push(OpView::Merge),
            },
        ),
{
    reveal_strlit("M02*");
    reveal_strlit("M02");
    let u = if metric { Units::Mm } else { Units::Inch };
    let h = gerber_header(metric);
    let b = polygons_lines(ps, ps.len() as int);
    let m = seq!["M02*"@];
    let ls = gerber_file_lines(ps, metric);
    assert(ls == h + b + m);
    lemma_header_cmds(metric);
    lemma_header(metric);
    let st0 = initial_state();
    let s1 = run_from(st0, cmds_of(h), 0)->Ok_0;
    lemma_polygons(s1, u, ps, ps.len() as int);
    let s2 = run_from(s1, cmds_of(b), 0)->Ok_0;
    assert("M02*"@ =~= word_line("M02"@));
    assert(cmd_text("M02"@));
    lemma_word_shape("M02"@);
    assert(cmds_of(m) =~= seq![CmdView::Word("M02"@)]);
    lemma_run_one(s2, CmdView::Word("M02"@));
    lemma_m02(s2);
    lemma_cmds_of_append(h + b, m);
    lemma_cmds_of_append(h, b);
    lemma_run_append(st0, cmds_of(h), cmds_of(b));
    lemma_run_append(st0, cmds_of(h) + cmds_of(b), cmds_of(m));
    assert forall|k: int| 0 <= k < ls.len() implies line_shape(#[trigger] ls[k]) is Some by {
        if k < h.len() {
            assert(ls[k] == h[k]);
        } else if k < h.len() + b.len() {
            assert(ls[k] == b[k - h.len()]);
        } else {
            assert(ls[k] == "M02*"@);
        }
    }
    let content = lines_text(ls);
    assert(content.skip(0) =~= content);
    lemma_tokens_lines(content, 0, ls);
    assert(tokenize_spec(content) == cmds_of(ls));
    assert(s1.ops.len() == 0);
    assert(s2.ops == polygons_ops(ps, ps.len() as int)) by {
        assert(s1.ops + polygons_ops(ps, ps.len() as int) =~= polygons_ops(ps, ps.len() as int));
    }
}

} // verus!
