//! What the drill reader makes of the drill writer's program: the same units
//! and the same tools, each number read back as exactly the decimal literal
//! that was written.
use crate::drill_writer::{
    def_line, def_lines, body_lines, drill_file_lines, hit_line, lemma_lines_text_append,
    lemma_lines_text_push,
    lines_text, select_line,
    slot_line, tool_block, units_header, PointTextView, ToolTextView,
};
use crate::excellon::{
    coord_line, coord_run_end, default_tool, diameter_after_c, ensure_tool, exc_coords,
    exc_decode, exc_initial, extract_coord_spec, find_sub, is_coord_char, lemma_coord_run_end,
    lemma_find_sub, lemma_tool_index, line_spec, lines_from, parse_spec, sorted_keys,
    tool_index, tool_line, units_line, update_tool, with_diameter, with_drill, with_slot,
    DiaConversion, DiameterView, ErrorView, ExcState, ExcellonView, PointView, ToolView, Units,
};
use crate::numeric::{
    all_digits, digit_value, digits_value, first_index, int_text, is_float_literal,
    leading_digits, literal_value, parse_i32_spec, plain_literal_decimal, signed_int_spec,
    lemma_first_index, DecimalView, float_mantissa, float_body,
};
use crate::text::{
    ascii_lower_spec, contains_spec, decimal_spec, digit_char, is_ascii_digit, is_ws, join_spec,
    lemma_decimal_digits, lemma_split_join, occurs_at, split_spec, starts_with_spec,
    trim_end_spec, trim_spec, trim_start_spec,
};
use vstd::prelude::*;

verus! {

// ---------------------------------------------------------------------------
// Numbers
// ---------------------------------------------------------------------------

pub proof fn lemma_digit_char_value(d: nat)
    requires
        d < 10,
    ensures
        digit_value(digit_char(d)) == d,
        is_ascii_digit(digit_char(d)),
{
    assert(digit_char(d) as u32 == d + 48);
}

/// The decimal text of `n` reads back as `n`.
pub proof fn lemma_decimal_value(n: nat)
    ensures
        digits_value(decimal_spec(n)) == n,
        all_digits(decimal_spec(n)),
        decimal_spec(n).len() >= 1,
    decreases n,
{
    lemma_decimal_digits(n);
    if n < 10 {
        lemma_digit_char_value(n);
        assert(seq![digit_char(n)].drop_last() =~= Seq::<char>::empty());
        assert(decimal_spec(n) == seq![digit_char(n)]);
        assert(digits_value(Seq::<char>::empty()) == 0);
        assert(digits_value(seq![digit_char(n)]) == digits_value(Seq::<char>::empty()) * 10
            + digit_value(digit_char(n)));
    } else {
        lemma_decimal_value(n / 10);
        lemma_digit_char_value(n % 10);
        let d = decimal_spec(n / 10).push(digit_char(n % 10));
        assert(d.drop_last() =~= decimal_spec(n / 10));
        assert(d.last() == digit_char(n % 10));
        assert(digits_value(d) == digits_value(decimal_spec(n / 10)) * 10 + (n % 10));
        assert((n / 10) * 10 + n % 10 == n);
    }
}


// ---------------------------------------------------------------------------
// Lines
// ---------------------------------------------------------------------------

pub proof fn lemma_lines_from_shift(st: ExcState, a: Seq<Seq<char>>, b: Seq<Seq<char>>, j: int)
    requires
        0 <= j <= b.len(),
    ensures
        lines_from(st, a + b, a.len() + j) == lines_from(st, b, j),
    decreases b.len() - j,
{
    if j < b.len() {
        assert((a + b)[a.len() + j] == b[j]);
        lemma_lines_from_shift(line_spec(st, trim_spec(b[j])), a, b, j + 1);
    }
}

pub proof fn lemma_lines_from_prefix(st: ExcState, a: Seq<Seq<char>>, b: Seq<Seq<char>>, i: int)
    requires
        0 <= i <= a.len(),
    ensures
        lines_from(st, a + b, i) == lines_from(lines_from(st, a, i), b, 0),
    decreases a.len() - i,
{
    if i == a.len() {
        lemma_lines_from_shift(st, a, b, 0);
    } else {
        assert((a + b)[i] == a[i]);
        lemma_lines_from_prefix(line_spec(st, trim_spec(a[i])), a, b, i + 1);
    }
}

/// Reading `a + b` is reading `a`, then `b`.
pub proof fn lemma_lines_from_append(st: ExcState, a: Seq<Seq<char>>, b: Seq<Seq<char>>)
    ensures
        lines_from(st, a + b, 0) == lines_from(lines_from(st, a, 0), b, 0),
{
    lemma_lines_from_prefix(st, a, b, 0);
}

pub proof fn lemma_lines_from_one(st: ExcState, l: Seq<char>)
    ensures
        lines_from(st, seq![l], 0) == line_spec(st, trim_spec(l)),
{
    assert(lines_from(line_spec(st, trim_spec(l)), seq![l], 1) == line_spec(st, trim_spec(l)));
}

/// A text without whitespace is its own trim.
pub proof fn lemma_trim_no_ws(l: Seq<char>)
    requires
        forall|k: int| 0 <= k < l.len() ==> !is_ws(#[trigger] l[k]),
    ensures
        trim_spec(l) == l,
{
    if l.len() > 0 {
        assert(!is_ws(l[0]));
        assert(!is_ws(l.last())) by {
            assert(l.last() == l[l.len() - 1]);
        }
    }
    assert(trim_start_spec(l) == l);
    assert(trim_end_spec(l) == l);
}

/// A text whose first character is not whitespace trims to something.
pub proof fn lemma_trim_end_keeps_first(s: Seq<char>)
    requires
        s.len() > 0,
        !is_ws(s[0]),
    ensures
        trim_end_spec(s).len() > 0,
    decreases s.len(),
{
    if is_ws(s.last()) {
        if s.len() == 1 {
            assert(s.last() == s[0]);
        } else {
            assert(s.drop_last()[0] == s[0]);
            lemma_trim_end_keeps_first(s.drop_last());
        }
    }
}

/// Lines followed by newlines are the lines and one empty piece joined
/// with newlines.
pub proof fn lemma_lines_text_join(ls: Seq<Seq<char>>)
    ensures
        lines_text(ls) == join_spec(ls.push(Seq::<char>::empty()), '\n'),
    decreases ls.len(),
{
    let e = Seq::<char>::empty();
    if ls.len() == 0 {
        assert(ls.push(e) =~= seq![e]);
    } else {
        let l0 = ls.drop_last();
        lemma_lines_text_join(l0);
        assert(ls.push(e).drop_last() =~= ls);
        assert(ls.push(e).last() == e);
        if l0.len() == 0 {
            assert(join_spec(ls, '\n') == ls[0]);
            assert(ls[0] == ls.last());
        } else {
            assert(l0.push(e).drop_last() =~= l0);
            assert(join_spec(ls, '\n') == join_spec(l0, '\n').push('\n') + ls.last());
            assert(join_spec(l0.push(e), '\n') == join_spec(l0, '\n').push('\n') + e);
        }
        assert(join_spec(ls.push(e), '\n') == join_spec(ls, '\n').push('\n') + e);
        assert(lines_text(ls) =~= join_spec(ls.push(e), '\n'));
    }
}

/// Lines without newlines split back into the lines and one empty piece.
pub proof fn lemma_split_lines_text(ls: Seq<Seq<char>>)
    requires
        forall|i: int| 0 <= i < ls.len() ==> !(#[trigger] ls[i]).contains('\n'),
    ensures
        split_spec(lines_text(ls), '\n') == ls.push(Seq::<char>::empty()),
{
    let p = ls.push(Seq::<char>::empty());
    assert forall|i: int| 0 <= i < p.len() implies !(#[trigger] p[i]).contains('\n') by {
        if i < ls.len() {
            assert(p[i] == ls[i]);
        } else {
            assert(p[i] == Seq::<char>::empty());
        }
    }
    lemma_lines_text_join(ls);
    lemma_split_join(p, '\n');
}

// ---------------------------------------------------------------------------
// Number texts
// ---------------------------------------------------------------------------

/// Digits, a decimal point, and digits again (as `format!("{:.3}", v)`
/// writes a non-negative finite value).
pub open spec fn unsigned_decimal_text(b: Seq<char>) -> bool {
    let k = first_index(b, '.');
    &&& 0 < k && k + 1 < b.len()
    &&& all_digits(b.take(k))
    &&& all_digits(b.skip(k + 1))
}

/// An optional `-`, then digits, a point and digits.
pub open spec fn decimal_text(s: Seq<char>) -> bool {
    if s.len() > 0 && s[0] == '-' {
        unsigned_decimal_text(s.drop_first())
    } else {
        unsigned_decimal_text(s)
    }
}

pub proof fn lemma_unsigned_shape(b: Seq<char>)
    requires
        unsigned_decimal_text(b),
    ensures
        b[first_index(b, '.')] == '.',
        is_ascii_digit(b[0]),
        forall|j: int| 0 <= j < b.len() && j != first_index(b, '.') ==> is_ascii_digit(#[trigger] b[j]),
{
    let k = first_index(b, '.');
    lemma_first_index(b, '.');
    assert(b.take(k)[0] == b[0]);
    assert forall|j: int| 0 <= j < b.len() && j != k implies is_ascii_digit(#[trigger] b[j]) by {
        if j < k {
            assert(b.take(k)[j] == b[j]);
        } else {
            assert(b.skip(k + 1)[j - k - 1] == b[j]);
        }
    }
}

/// The characters of a number text: digits, one point, perhaps a leading
/// `-`; the text holds a point.
pub proof fn lemma_decimal_text_chars(s: Seq<char>)
    requires
        decimal_text(s),
    ensures
        s.len() >= 3,
        is_ascii_digit(s[0]) || s[0] == '-',
        forall|j: int| 0 <= j < s.len() ==> (is_ascii_digit(#[trigger] s[j]) || s[j] == '.' || s[j] == '-'),
        forall|j: int| 0 <= j < s.len() ==> is_coord_char(#[trigger] s[j]),
        forall|j: int| 0 <= j < s.len() ==> !is_ws(#[trigger] s[j]),
        contains_spec(s, "."@),
{
    reveal_strlit(".");
    let neg = s.len() > 0 && s[0] == '-';
    let b = if neg { s.drop_first() } else { s };
    lemma_unsigned_shape(b);
    let k = first_index(b, '.');
    let d: int = if neg { 1 } else { 0 };
    assert forall|j: int| 0 <= j < s.len() implies (is_ascii_digit(#[trigger] s[j]) || s[j] == '.'
        || s[j] == '-') by {
        if j >= d {
            assert(s[j] == b[j - d]);
        }
    }
    assert forall|j: int| 0 <= j < s.len() implies is_coord_char(#[trigger] s[j]) by {
        assert(is_ascii_digit(s[j]) || s[j] == '.' || s[j] == '-');
    }
    assert forall|j: int| 0 <= j < s.len() implies !is_ws(#[trigger] s[j]) by {
        assert(is_ascii_digit(s[j]) || s[j] == '.' || s[j] == '-');
    }
    assert(s[k + d] == '.');
    assert(s.subrange(k + d, k + d + 1) =~= "."@);
    assert(occurs_at(s, "."@, k + d));
}

/// A number text is a floating-point literal, read as the decimal it writes.
pub proof fn lemma_decimal_text_literal(s: Seq<char>)
    requires
        decimal_text(s),
    ensures
        is_float_literal(s),
        literal_value(s) == Some(plain_literal_decimal(s)),
{
    lemma_decimal_text_chars(s);
    reveal_strlit("inf");
    reveal_strlit("infinity");
    reveal_strlit("nan");
    let t = ascii_lower_spec(s);
    assert(t =~= s) by {
        assert forall|i: int| 0 <= i < s.len() implies t[i] == s[i] by {
            assert(is_ascii_digit(s[i]) || s[i] == '.' || s[i] == '-');
        }
    }
    let neg = s.len() > 0 && s[0] == '-';
    let b = if neg { s.drop_first() } else { s };
    lemma_unsigned_shape(b);
    let k = first_index(b, '.');
    assert(b.len() > 0 && b[0] != '+' && b[0] != '-');
    lemma_first_index(b, 'e');
    assert forall|j: int| 0 <= j < b.len() implies b[j] != 'e' by {
        if j != k {
            assert(is_ascii_digit(b[j]));
        }
    }
    assert(first_index(b, 'e') == b.len());
    assert(b.take(b.len() as int) =~= b);
    assert(b != "inf"@ && b != "infinity"@ && b != "nan"@) by {
        assert(is_ascii_digit(b[0]));
    }
    assert(float_mantissa(b)) by {
        assert forall|i: int| 0 <= i < b.len() implies (is_ascii_digit(#[trigger] b[i]) || b[i] == '.') by {
            if i != k {
                assert(is_ascii_digit(b[i]));
            }
        }
        assert forall|i: int, j: int| 0 <= i < j < b.len() && #[trigger] b[i] == '.' implies #[trigger] b[j] != '.' by {
            if i != k {
                assert(is_ascii_digit(b[i]));
            }
            assert(j != k);
            assert(is_ascii_digit(b[j]));
        }
        assert(is_ascii_digit(b[0]));
    }
    assert(float_body(b));
    if neg {
        assert(t.drop_first() =~= b);
    }
}

// ---------------------------------------------------------------------------
// Positions in a line
// ---------------------------------------------------------------------------

pub proof fn lemma_first_index_at(s: Seq<char>, c: char, k: int)
    requires
        0 <= k < s.len(),
        s[k] == c,
        forall|j: int| 0 <= j < k ==> s[j] != c,
    ensures
        first_index(s, c) == k,
{
    lemma_first_index(s, c);
}

pub proof fn lemma_first_index_absent(s: Seq<char>, c: char)
    requires
        forall|j: int| 0 <= j < s.len() ==> s[j] != c,
    ensures
        first_index(s, c) == s.len(),
{
    lemma_first_index(s, c);
}

pub proof fn lemma_coord_run_to(s: Seq<char>, i: int, e: int)
    requires
        0 <= i <= e <= s.len(),
        forall|j: int| i <= j < e ==> is_coord_char(#[trigger] s[j]),
        e == s.len() || !is_coord_char(s[e]),
    ensures
        coord_run_end(s, i) == e,
    decreases e - i,
{
    if i < e {
        lemma_coord_run_to(s, i + 1, e);
    }
}

/// The value after `key` at `p`: the `n` coordinate characters that follow.
pub proof fn lemma_extract_at(l: Seq<char>, key: char, p: int, n: int)
    requires
        0 <= p,
        n >= 1,
        p + 1 + n <= l.len(),
        l[p] == key,
        forall|j: int| 0 <= j < p ==> l[j] != key,
        forall|j: int| p + 1 <= j < p + 1 + n ==> is_coord_char(#[trigger] l[j]),
        p + 1 + n == l.len() || !is_coord_char(l[p + 1 + n]),
    ensures
        extract_coord_spec(l, key) == Some(l.subrange(p + 1, p + 1 + n)),
{
    lemma_first_index_at(l, key, p);
    lemma_coord_run_to(l, p + 1, p + 1 + n);
}

pub proof fn lemma_leading_digits_split(a: Seq<char>, b: Seq<char>)
    requires
        all_digits(a),
        b.len() == 0 || !is_ascii_digit(b[0]),
    ensures
        leading_digits(a + b) == a.len(),
    decreases a.len(),
{
    if a.len() == 0 {
        assert(a + b =~= b);
    } else {
        assert((a + b)[0] == a[0]);
        assert((a + b).drop_first() =~= a.drop_first() + b);
        lemma_leading_digits_split(a.drop_first(), b);
    }
}

pub proof fn lemma_find_sub_first(s: Seq<char>, n: Seq<char>, i: int, k: int)
    requires
        n.len() > 0,
        0 <= i <= k,
        occurs_at(s, n, k),
        forall|j: int| i <= j < k ==> s[j] != n[0],
    ensures
        find_sub(s, n, i) == k,
    decreases k - i,
{
    assert(s.subrange(k, k + n.len())[0] == s[k]);
    if i < k {
        assert(!occurs_at(s, n, i)) by {
            if occurs_at(s, n, i) {
                assert(s.subrange(i, i + n.len())[0] == s[i]);
            }
        }
        lemma_find_sub_first(s, n, i + 1, k);
    }
}

pub proof fn lemma_find_sub_absent(s: Seq<char>, n: Seq<char>)
    requires
        n.len() > 0,
        forall|j: int| 0 <= j < s.len() ==> s[j] != n[0],
    ensures
        find_sub(s, n, 0) == s.len(),
{
    lemma_find_sub(s, n, 0);
    let k = find_sub(s, n, 0);
    if k < s.len() {
        assert(s.subrange(k, k + n.len())[0] == s[k]);
    }
}

/// What the first characters of a line tell about the reader's tests.
pub proof fn lemma_line_heads(l: Seq<char>)
    requires
        l.len() > 0,
    ensures
        starts_with_spec(l, ";"@) ==> l[0] == ';',
        l == "M48"@ ==> l.len() == 3 && l[1] == '4',
        l == "%"@ ==> l.len() == 1 && l[0] == '%',
        l == "M95"@ ==> l.len() == 3 && l[1] == '9',
        starts_with_spec(l, "INCH"@) ==> l[0] == 'I',
        starts_with_spec(l, "METRIC"@) ==> l.len() >= 6 && l[0] == 'M' && l[1] == 'E',
        l == "M71"@ ==> l.len() == 3 && l[1] == '7' && l[2] == '1',
        l == "M72"@ ==> l.len() == 3 && l[1] == '7' && l[2] == '2',
        starts_with_spec(l, "FMAT"@) ==> l[0] == 'F',
        l == "M30"@ ==> l.len() == 3 && l[1] == '3',
        starts_with_spec(l, "G90"@) ==> l[0] == 'G',
        starts_with_spec(l, "G91"@) ==> l[0] == 'G',
        starts_with_spec(l, "G05"@) ==> l[0] == 'G',
        starts_with_spec(l, "T"@) <==> l[0] == 'T',
        starts_with_spec(l, "G00"@) ==> l[0] == 'G',
        starts_with_spec(l, "G01"@) ==> l[0] == 'G',
        l[0] == 'X' ==> contains_spec(l, "X"@),
        (l == "M48"@ || l == "M95"@ || l == "M71"@ || l == "M72"@ || l == "M30"@) ==> l[0] == 'M',
{
    reveal_strlit(";");
    reveal_strlit("M48");
    reveal_strlit("%");
    reveal_strlit("M95");
    reveal_strlit("INCH");
    reveal_strlit("METRIC");
    reveal_strlit("M71");
    reveal_strlit("M72");
    reveal_strlit("FMAT");
    reveal_strlit("M30");
    reveal_strlit("G90");
    reveal_strlit("G91");
    reveal_strlit("G05");
    reveal_strlit("T");
    reveal_strlit("G00");
    reveal_strlit("G01");
    reveal_strlit("X");
    assert(starts_with_spec(l, ";"@) ==> l.subrange(0, 1)[0] == l[0]);
    assert(starts_with_spec(l, "INCH"@) ==> l.subrange(0, 4)[0] == l[0]);
    assert(starts_with_spec(l, "METRIC"@) ==> l.subrange(0, 6)[0] == l[0] && l.subrange(0, 6)[1] == l[1]);
    assert(starts_with_spec(l, "FMAT"@) ==> l.subrange(0, 4)[0] == l[0]);
    assert(starts_with_spec(l, "G90"@) ==> l.subrange(0, 3)[0] == l[0]);
    assert(starts_with_spec(l, "G91"@) ==> l.subrange(0, 3)[0] == l[0]);
    assert(starts_with_spec(l, "G05"@) ==> l.subrange(0, 3)[0] == l[0]);
    assert(starts_with_spec(l, "G00"@) ==> l.subrange(0, 3)[0] == l[0]);
    assert(starts_with_spec(l, "G01"@) ==> l.subrange(0, 3)[0] == l[0]);
    assert(starts_with_spec(l, "T"@) ==> l.subrange(0, 1)[0] == l[0]);
    if l[0] == 'T' {
        assert(l.subrange(0, 1) =~= "T"@);
    }
    if l[0] == 'X' {
        assert(l.subrange(0, 1) =~= "X"@);
        assert(occurs_at(l, "X"@, 0));
    }
}

// ---------------------------------------------------------------------------
// The reader on each kind of line written
// ---------------------------------------------------------------------------

/// The lines that change nothing: `M48`, `%`, `M30` and the empty piece
/// after the last newline.
pub proof fn lemma_inert_lines(st: ExcState)
    ensures
        line_spec(st, trim_spec("M48"@)) == st,
        line_spec(st, trim_spec("%"@)) == st,
        line_spec(st, trim_spec("M30"@)) == st,
        line_spec(st, trim_spec(Seq::<char>::empty())) == st,
{
    reveal_strlit("M48");
    reveal_strlit("%");
    reveal_strlit("M30");
    lemma_trim_no_ws("M48"@);
    lemma_trim_no_ws("%"@);
    lemma_trim_no_ws("M30"@);
    lemma_trim_no_ws(Seq::<char>::empty());
    lemma_line_heads("M30"@);
    lemma_line_heads("%"@);
}

/// The units declaration sets the units.
pub proof fn lemma_units_line(st: ExcState, u: Units)
    ensures
        line_spec(st, trim_spec(units_header(u))).units == u,
        line_spec(st, trim_spec(units_header(u))).units_seen,
        line_spec(st, trim_spec(units_header(u))).tools == st.tools,
        line_spec(st, trim_spec(units_header(u))).cur_tool == st.cur_tool,
{
    reveal_strlit("METRIC,LZ");
    reveal_strlit("INCH,LZ");
    reveal_strlit("METRIC");
    reveal_strlit("INCH");
    let l = units_header(u);
    lemma_trim_no_ws(l);
    lemma_line_heads(l);
    match u {
        Units::Mm => {
            assert(l.subrange(0, 6) =~= "METRIC"@);
        },
        Units::Inch => {
            assert(l.subrange(0, 4) =~= "INCH"@);
        },
    }
}

/// No whitespace and no newline.
pub open spec fn plain_line(l: Seq<char>) -> bool {
    forall|k: int| 0 <= k < l.len() ==> !is_ws(#[trigger] l[k]) && l[k] != '\n'
}

pub proof fn lemma_plain_concat(a: Seq<char>, b: Seq<char>)
    requires
        plain_line(a),
        plain_line(b),
    ensures
        plain_line(a + b),
{
    assert forall|k: int| 0 <= k < (a + b).len() implies !is_ws(#[trigger] (a + b)[k]) && (a
        + b)[k] != '\n' by {
        if k < a.len() {
            assert((a + b)[k] == a[k]);
        } else {
            assert((a + b)[k] == b[k - a.len()]);
        }
    }
}

pub proof fn lemma_plain_digits(a: Seq<char>)
    requires
        all_digits(a),
    ensures
        plain_line(a),
{
    assert forall|k: int| 0 <= k < a.len() implies !is_ws(#[trigger] a[k]) && a[k] != '\n' by {
        assert(is_ascii_digit(a[k]));
    }
}

pub proof fn lemma_plain_number(a: Seq<char>)
    requires
        decimal_text(a),
    ensures
        plain_line(a),
{
    lemma_decimal_text_chars(a);
    assert forall|k: int| 0 <= k < a.len() implies !is_ws(#[trigger] a[k]) && a[k] != '\n' by {
        assert(is_ascii_digit(a[k]) || a[k] == '.' || a[k] == '-');
    }
}

/// A plain line is its own trim and holds no newline.
pub proof fn lemma_plain_line(l: Seq<char>)
    requires
        plain_line(l),
    ensures
        trim_spec(l) == l,
        !l.contains('\n'),
{
    lemma_trim_no_ws(l);
}

pub proof fn lemma_i32_decimal(n: i32)
    requires
        n >= 0,
    ensures
        int_text(n as int) == decimal_spec(n as nat),
        parse_i32_spec(decimal_spec(n as nat)) == Some(n),
        all_digits(decimal_spec(n as nat)),
        decimal_spec(n as nat).len() >= 1,
{
    let dec = decimal_spec(n as nat);
    lemma_decimal_value(n as nat);
    assert(is_ascii_digit(dec[0]));
    assert(signed_int_spec(dec) == Some(n as int));
}

/// A tool definition `T<n>C<dia>` gives tool `n` the diameter written.
pub proof fn lemma_def_line(st: ExcState, n: i32, d: Seq<char>)
    requires
        n >= 1,
        decimal_text(d),
    ensures
        plain_line(def_line(n, d)),
        line_spec(st, def_line(n, d)) == (ExcState {
            tools: update_tool(
                st.tools,
                n,
                with_diameter(
                    DiameterView { value: plain_literal_decimal(d), conversion: DiaConversion::Same },
                ),
            ),
            ..st
        }),
{
    reveal_strlit("T");
    reveal_strlit("C");
    lemma_i32_decimal(n);
    let dec = decimal_spec(n as nat);
    let l = def_line(n, d);
    assert(l =~= seq!['T'] + dec + seq!['C'] + d);
    lemma_plain_digits(dec);
    lemma_plain_number(d);
    lemma_plain_concat(seq!['T'], dec);
    lemma_plain_concat(seq!['T'] + dec, seq!['C']);
    lemma_plain_concat(seq!['T'] + dec + seq!['C'], d);
    lemma_line_heads(l);
    assert(l[0] == 'T');
    let rest = l.skip(1);
    assert(rest =~= dec + (seq!['C'] + d));
    assert((seq!['C'] + d)[0] == 'C');
    lemma_leading_digits_split(dec, seq!['C'] + d);
    assert(rest.take(dec.len() as int) =~= dec);
    lemma_decimal_text_chars(d);
    let p: int = 1 + dec.len() as int;
    assert forall|j: int| 0 <= j < p implies l[j] != 'C' by {
        if j > 0 {
            assert(l[j] == dec[j - 1]);
            assert(is_ascii_digit(dec[j - 1]));
        }
    }
    assert forall|j: int| p + 1 <= j < p + 1 + d.len() implies is_coord_char(#[trigger] l[j]) by {
        assert(l[j] == d[j - p - 1]);
    }
    lemma_extract_at(l, 'C', p, d.len() as int);
    assert(l.subrange(p + 1, p + 1 + d.len()) =~= d);
    lemma_decimal_text_literal(d);
    assert(diameter_after_c(l) == Some(plain_literal_decimal(d)));
}

/// A tool selection `T<n>` makes tool `n` (present from now on) current.
pub proof fn lemma_select_line(st: ExcState, n: i32)
    requires
        n >= 1,
    ensures
        plain_line(select_line(n)),
        line_spec(st, select_line(n)) == (ExcState {
            tools: ensure_tool(st.tools, n),
            cur_tool: n,
            routing: false,
            ..st
        }),
{
    reveal_strlit("T");
    lemma_i32_decimal(n);
    let dec = decimal_spec(n as nat);
    let l = select_line(n);
    assert(l =~= seq!['T'] + dec);
    lemma_plain_digits(dec);
    lemma_plain_concat(seq!['T'], dec);
    lemma_line_heads(l);
    let rest = l.skip(1);
    assert(rest =~= dec + Seq::<char>::empty());
    lemma_leading_digits_split(dec, Seq::<char>::empty());
    assert(rest.take(dec.len() as int) =~= dec);
    assert forall|j: int| 0 <= j < l.len() implies l[j] != 'C' by {
        if j > 0 {
            assert(l[j] == dec[j - 1]);
            assert(is_ascii_digit(dec[j - 1]));
        }
    }
    lemma_first_index_absent(l, 'C');
    assert(diameter_after_c(l) is None);
}

/// The point a written point reads back as.
pub open spec fn read_point(p: PointTextView) -> PointView {
    (plain_literal_decimal(p.0), plain_literal_decimal(p.1))
}

/// Both coordinates of a point are number texts.
pub open spec fn point_ok(p: PointTextView) -> bool {
    decimal_text(p.0) && decimal_text(p.1)
}

/// `X<x>Y<y>` reads as the point written, and holds no `G`.
pub proof fn lemma_hit_coords(st: ExcState, p: PointTextView)
    requires
        point_ok(p),
    ensures
        plain_line(hit_line(p)),
        hit_line(p).len() > 0,
        hit_line(p)[0] == 'X',
        forall|j: int| 0 <= j < hit_line(p).len() ==> #[trigger] hit_line(p)[j] != 'G',
        exc_coords(st, hit_line(p)) == read_point(p),
{
    reveal_strlit("X");
    reveal_strlit("Y");
    let x = p.0;
    let y = p.1;
    let l = hit_line(p);
    assert(l =~= seq!['X'] + x + seq!['Y'] + y);
    lemma_decimal_text_chars(x);
    lemma_decimal_text_chars(y);
    lemma_plain_number(x);
    lemma_plain_number(y);
    lemma_plain_concat(seq!['X'], x);
    lemma_plain_concat(seq!['X'] + x, seq!['Y']);
    lemma_plain_concat(seq!['X'] + x + seq!['Y'], y);
    let py: int = 1 + x.len() as int;
    assert forall|j: int| 0 <= j < l.len() implies #[trigger] l[j] != 'G' by {
        if 1 <= j < py {
            assert(l[j] == x[j - 1]);
        } else if j > py {
            assert(l[j] == y[j - py - 1]);
        }
    }
    assert forall|j: int| 1 <= j < 1 + x.len() implies is_coord_char(#[trigger] l[j]) by {
        assert(l[j] == x[j - 1]);
    }
    lemma_extract_at(l, 'X', 0, x.len() as int);
    assert(l.subrange(1, 1 + x.len() as int) =~= x);
    assert forall|j: int| 0 <= j < py implies l[j] != 'Y' by {
        if j >= 1 {
            assert(l[j] == x[j - 1]);
        }
    }
    assert forall|j: int| py + 1 <= j < py + 1 + y.len() implies is_coord_char(#[trigger] l[j]) by {
        assert(l[j] == y[j - py - 1]);
    }
    lemma_extract_at(l, 'Y', py, y.len() as int);
    assert(l.subrange(py + 1, py + 1 + y.len()) =~= y);
    lemma_decimal_text_literal(x);
    lemma_decimal_text_literal(y);
}

/// A drill hit `X<x>Y<y>` goes to the current tool.
pub proof fn lemma_hit_line(st: ExcState, p: PointTextView)
    requires
        point_ok(p),
    ensures
        plain_line(hit_line(p)),
        line_spec(st, hit_line(p)) == ({
            let q = read_point(p);
            let st2 = ExcState { x: q.0, y: q.1, ..st };
            if st.cur_tool != 0 {
                ExcState { tools: update_tool(st2.tools, st.cur_tool, with_drill(q)), ..st2 }
            } else {
                st2
            }
        }),
{
    reveal_strlit("G85");
    let l = hit_line(p);
    lemma_hit_coords(st, p);
    lemma_line_heads(l);
    lemma_find_sub_absent(l, "G85"@);
}

/// A slot `X..Y..G85X..Y..` goes to the current tool.
pub proof fn lemma_slot_line(st: ExcState, s: (PointTextView, PointTextView))
    requires
        point_ok(s.0),
        point_ok(s.1),
    ensures
        plain_line(slot_line(s)),
        line_spec(st, slot_line(s)) == ({
            let a = read_point(s.0);
            let b = read_point(s.1);
            let st2 = ExcState { x: b.0, y: b.1, ..st };
            if st.cur_tool != 0 {
                ExcState { tools: update_tool(st2.tools, st.cur_tool, with_slot(a, b)), ..st2 }
            } else {
                st2
            }
        }),
{
    reveal_strlit("G85");
    let ha = hit_line(s.0);
    let hb = hit_line(s.1);
    let l = slot_line(s);
    lemma_hit_coords(st, s.0);
    lemma_hit_coords(st, s.1);
    lemma_plain_concat(ha, "G85"@);
    lemma_plain_concat(ha + "G85"@, hb);
    assert(l[0] == ha[0]);
    lemma_line_heads(l);
    let k: int = ha.len() as int;
    assert(l.subrange(k, k + 3) =~= "G85"@);
    assert forall|j: int| 0 <= j < k implies l[j] != "G85"@[0] by {
        assert(l[j] == ha[j]);
    }
    lemma_find_sub_first(l, "G85"@, 0, k);
    assert(l.take(k) =~= ha);
    assert(l.skip(k + 3) =~= hb);
}

// ---------------------------------------------------------------------------
// The tool table as it fills
// ---------------------------------------------------------------------------

/// The diameter a written tool reads back with.
pub open spec fn read_diameter(tv: ToolTextView) -> DiameterView {
    DiameterView { value: plain_literal_decimal(tv.diameter), conversion: DiaConversion::Same }
}

/// A written tool once its definition is read: its diameter, no hits yet.
pub open spec fn defined_tool(tv: ToolTextView) -> ToolView {
    ToolView {
        diameter: read_diameter(tv),
        drills: Seq::<PointView>::empty(),
        slots: Seq::<(PointView, PointView)>::empty(),
    }
}

/// A written tool as it reads back: its diameter, hits and slots.
pub open spec fn read_tool(tv: ToolTextView) -> ToolView {
    ToolView {
        diameter: read_diameter(tv),
        drills: tv.drills.map_values(|p: PointTextView| read_point(p)),
        slots: tv.slots.map_values(
            |s: (PointTextView, PointTextView)| (read_point(s.0), read_point(s.1)),
        ),
    }
}

/// A written table as it reads back.
pub open spec fn read_table(t: Seq<(i32, ToolTextView)>) -> Seq<(i32, ToolView)> {
    t.map_values(|e: (i32, ToolTextView)| (e.0, read_tool(e.1)))
}

/// The table after the header: every tool with its diameter only.
pub open spec fn defined_table(t: Seq<(i32, ToolTextView)>) -> Seq<(i32, ToolView)> {
    t.map_values(|e: (i32, ToolTextView)| (e.0, defined_tool(e.1)))
}

/// The table once the blocks of the first `i` tools are read.
pub open spec fn mixed_table(t: Seq<(i32, ToolTextView)>, i: int) -> Seq<(i32, ToolView)> {
    Seq::new(
        t.len(),
        |j: int|
            (t[j].0, if j < i {
                read_tool(t[j].1)
            } else {
                defined_tool(t[j].1)
            }),
    )
}

/// Every number of a tool is a number text.
pub open spec fn tool_text_ok(tv: ToolTextView) -> bool {
    &&& decimal_text(tv.diameter)
    &&& forall|k: int| 0 <= k < tv.drills.len() ==> point_ok(#[trigger] tv.drills[k])
    &&& forall|k: int| 0 <= k < tv.slots.len() ==> point_ok((#[trigger] tv.slots[k]).0) && point_ok(tv.slots[k].1)
}

/// A table the reader gives back: tool numbers from 1 up, strictly
/// increasing, every number a number text.
pub open spec fn writable_table(t: Seq<(i32, ToolTextView)>) -> bool {
    &&& forall|k: int| 0 <= k < t.len() ==> (#[trigger] t[k]).0 >= 1 && tool_text_ok(t[k].1)
    &&& forall|a: int, b: int| 0 <= a < b < t.len() ==> #[trigger] t[a].0 < #[trigger] t[b].0
}

/// A new number above all others goes at the end of the table.
pub proof fn lemma_update_new_last(tab: Seq<(i32, ToolView)>, k: i32, f: spec_fn(ToolView) -> ToolView)
    requires
        sorted_keys(tab),
        forall|j: int| 0 <= j < tab.len() ==> #[trigger] tab[j].0 < k,
    ensures
        update_tool(tab, k, f) == tab.push((k, f(default_tool()))),
{
    lemma_tool_index(tab, k);
    let p = tool_index(tab, k);
    assert(p == tab.len()) by {
        if p < tab.len() {
            assert(tab[p].0 >= k);
        }
    }
    let t2 = ensure_tool(tab, k);
    assert(t2 =~= tab.push((k, default_tool())));
    assert(sorted_keys(t2)) by {
        assert forall|a: int, b: int| 0 <= a < b < t2.len() implies #[trigger] t2[a].0
            < #[trigger] t2[b].0 by {
            if b < tab.len() {
                assert(t2[a] == tab[a] && t2[b] == tab[b]);
            } else {
                assert(t2[a] == tab[a]);
            }
        }
    }
    lemma_tool_index(t2, k);
    let q = tool_index(t2, k);
    assert(q == tab.len()) by {
        if q < tab.len() {
            assert(t2[q] == tab[q]);
        }
        if q > tab.len() {
            assert(t2[tab.len() as int].0 == k);
        }
    }
    assert(t2.update(q, (k, f(t2[q].1))) =~= tab.push((k, f(default_tool()))));
}

/// Updating a tool already present changes its entry in place.
pub proof fn lemma_update_present(tab: Seq<(i32, ToolView)>, i: int, f: spec_fn(ToolView) -> ToolView)
    requires
        sorted_keys(tab),
        0 <= i < tab.len(),
    ensures
        tool_index(tab, tab[i].0) == i,
        ensure_tool(tab, tab[i].0) == tab,
        update_tool(tab, tab[i].0, f) == tab.update(i, (tab[i].0, f(tab[i].1))),
        sorted_keys(tab.update(i, (tab[i].0, f(tab[i].1)))),
{
    let k = tab[i].0;
    lemma_tool_index(tab, k);
    let p = tool_index(tab, k);
    assert(p == i) by {
        if p < i {
            assert(tab[p].0 < tab[i].0);
        }
    }
    let t3 = tab.update(i, (k, f(tab[i].1)));
    assert forall|a: int, b: int| 0 <= a < b < t3.len() implies #[trigger] t3[a].0
        < #[trigger] t3[b].0 by {
        assert(t3[a].0 == tab[a].0 && t3[b].0 == tab[b].0);
    }
}

/// Reading one more line at the end.
pub proof fn lemma_lines_from_push(st: ExcState, a: Seq<Seq<char>>, l: Seq<char>)
    ensures
        lines_from(st, a.push(l), 0) == line_spec(lines_from(st, a, 0), trim_spec(l)),
{
    assert(a.push(l) =~= a + seq![l]);
    lemma_lines_from_append(st, a, seq![l]);
    lemma_lines_from_one(lines_from(st, a, 0), l);
}

/// The tool definitions of the header fill the table with the tools and
/// their diameters, in order.
pub proof fn lemma_def_phase(st: ExcState, t: Seq<(i32, ToolTextView)>, i: int)
    requires
        writable_table(t),
        0 <= i <= t.len(),
        st.tools.len() == 0,
    ensures
        lines_from(st, def_lines(t.take(i)), 0) == (ExcState { tools: defined_table(t.take(i)), ..st }),
        forall|k: int| 0 <= k < def_lines(t.take(i)).len() ==> plain_line(#[trigger] def_lines(t.take(i))[k]),
    decreases i,
{
    if i == 0 {
        assert(t.take(0) =~= Seq::<(i32, ToolTextView)>::empty());
        assert(defined_table(t.take(0)) =~= st.tools);
    } else {
        lemma_def_phase(st, t, i - 1);
        let pre = t.take(i - 1);
        assert(t.take(i).drop_last() =~= pre);
        assert(t.take(i).last() == t[i - 1]);
        let n = t[i - 1].0;
        let d = t[i - 1].1.diameter;
        let l = def_line(n, d);
        let a = def_lines(pre);
        assert(def_lines(t.take(i)) == a.push(l));
        let st1 = ExcState { tools: defined_table(pre), ..st };
        lemma_lines_from_push(st, a, l);
        lemma_def_line(st1, n, d);
        lemma_plain_line(l);
        let tab = defined_table(pre);
        assert(sorted_keys(tab)) by {
            assert forall|x: int, y: int| 0 <= x < y < tab.len() implies #[trigger] tab[x].0
                < #[trigger] tab[y].0 by {
                assert(tab[x].0 == t[x].0 && tab[y].0 == t[y].0);
            }
        }
        assert forall|j: int| 0 <= j < tab.len() implies #[trigger] tab[j].0 < n by {
            assert(tab[j].0 == t[j].0);
        }
        let f = with_diameter(read_diameter(t[i - 1].1));
        lemma_update_new_last(tab, n, f);
        assert(f(default_tool()) == defined_tool(t[i - 1].1));
        assert(tab.push((n, f(default_tool()))) =~= defined_table(t.take(i)));
        assert forall|k: int| 0 <= k < a.push(l).len() implies plain_line(#[trigger] a.push(l)[k]) by {
            if k < a.len() {
                assert(a.push(l)[k] == a[k]);
            }
        }
    }
}

/// The hits of the current tool `i` append to its hits, in order.
pub proof fn lemma_hits(st: ExcState, ds: Seq<PointTextView>, i: int)
    requires
        sorted_keys(st.tools),
        0 <= i < st.tools.len(),
        st.cur_tool == st.tools[i].0,
        st.cur_tool != 0,
        forall|k: int| 0 <= k < ds.len() ==> point_ok(#[trigger] ds[k]),
    ensures
        ({
            let r = lines_from(st, ds.map_values(|p: PointTextView| hit_line(p)), 0);
            &&& r.tools == st.tools.update(
                i,
                (
                    st.tools[i].0,
                    ToolView {
                        drills: st.tools[i].1.drills + ds.map_values(|p: PointTextView| read_point(p)),
                        ..st.tools[i].1
                    },
                ),
            )
            &&& r.cur_tool == st.cur_tool
            &&& r.units == st.units
            &&& r.units_seen == st.units_seen
        }),
        forall|k: int| 0 <= k < ds.len() ==> plain_line(#[trigger] hit_line(ds[k])),
    decreases ds.len(),
{
    let tv = st.tools[i].1;
    if ds.len() == 0 {
        assert(ds.map_values(|p: PointTextView| hit_line(p)) =~= Seq::<Seq<char>>::empty());
        assert(tv.drills + ds.map_values(|p: PointTextView| read_point(p)) =~= tv.drills);
        assert(st.tools.update(i, (st.tools[i].0, ToolView { drills: tv.drills, ..tv })) =~= st.tools);
    } else {
        let d0 = ds.drop_last();
        let p = ds.last();
        assert forall|k: int| 0 <= k < d0.len() implies point_ok(#[trigger] d0[k]) by {
            assert(d0[k] == ds[k]);
        }
        lemma_hits(st, d0, i);
        let a = d0.map_values(|q: PointTextView| hit_line(q));
        assert(ds.map_values(|q: PointTextView| hit_line(q)) =~= a.push(hit_line(p)));
        lemma_lines_from_push(st, a, hit_line(p));
        let r0 = lines_from(st, a, 0);
        assert(point_ok(ds[ds.len() - 1]));
        lemma_hit_line(r0, p);
        lemma_plain_line(hit_line(p));
        let tab0 = r0.tools;
        let e0 = (st.tools[i].0, ToolView {
            drills: tv.drills + d0.map_values(|q: PointTextView| read_point(q)),
            ..tv
        });
        lemma_update_present(st.tools, i, |x: ToolView| e0.1);
        assert(tab0[i] == e0);
        let st2 = ExcState { x: read_point(p).0, y: read_point(p).1, ..r0 };
        lemma_update_present(tab0, i, with_drill(read_point(p)));
        assert(tv.drills + d0.map_values(|q: PointTextView| read_point(q)).push(read_point(p))
            =~= tv.drills + ds.map_values(|q: PointTextView| read_point(q)));
        assert(tab0.update(i, (tab0[i].0, with_drill(read_point(p))(tab0[i].1))) =~= st.tools.update(
            i,
            (st.tools[i].0, ToolView {
                drills: tv.drills + ds.map_values(|q: PointTextView| read_point(q)),
                ..tv
            }),
        ));
        assert forall|k: int| 0 <= k < ds.len() implies plain_line(#[trigger] hit_line(ds[k])) by {
            if k < d0.len() {
                assert(ds[k] == d0[k]);
            }
        }
    }
}

/// The slots of the current tool `i` append to its slots, in order.
pub proof fn lemma_slots(st: ExcState, ss: Seq<(PointTextView, PointTextView)>, i: int)
    requires
        sorted_keys(st.tools),
        0 <= i < st.tools.len(),
        st.cur_tool == st.tools[i].0,
        st.cur_tool != 0,
        forall|k: int| 0 <= k < ss.len() ==> point_ok((#[trigger] ss[k]).0) && point_ok(ss[k].1),
    ensures
        ({
            let r = lines_from(st, ss.map_values(|s: (PointTextView, PointTextView)| slot_line(s)), 0);
            &&& r.tools == st.tools.update(
                i,
                (
                    st.tools[i].0,
                    ToolView {
                        slots: st.tools[i].1.slots + ss.map_values(
                            |s: (PointTextView, PointTextView)| (read_point(s.0), read_point(s.1)),
                        ),
                        ..st.tools[i].1
                    },
                ),
            )
            &&& r.cur_tool == st.cur_tool
            &&& r.units == st.units
            &&& r.units_seen == st.units_seen
        }),
        forall|k: int| 0 <= k < ss.len() ==> plain_line(#[trigger] slot_line(ss[k])),
    decreases ss.len(),
{
    let tv = st.tools[i].1;
    if ss.len() == 0 {
        assert(ss.map_values(|s: (PointTextView, PointTextView)| slot_line(s)) =~= Seq::<Seq<char>>::empty());
        assert(tv.slots + ss.map_values(
            |s: (PointTextView, PointTextView)| (read_point(s.0), read_point(s.1)),
        ) =~= tv.slots);
        assert(st.tools.update(i, (st.tools[i].0, ToolView { slots: tv.slots, ..tv })) =~= st.tools);
    } else {
        let s0 = ss.drop_last();
        let p = ss.last();
        assert forall|k: int| 0 <= k < s0.len() implies point_ok((#[trigger] s0[k]).0) && point_ok(s0[k].1) by {
            assert(s0[k] == ss[k]);
        }
        lemma_slots(st, s0, i);
        let a = s0.map_values(|q: (PointTextView, PointTextView)| slot_line(q));
        assert(ss.map_values(|q: (PointTextView, PointTextView)| slot_line(q)) =~= a.push(slot_line(p)));
        lemma_lines_from_push(st, a, slot_line(p));
        let r0 = lines_from(st, a, 0);
        assert(point_ok(ss[ss.len() - 1].0) && point_ok(ss[ss.len() - 1].1));
        lemma_slot_line(r0, p);
        lemma_plain_line(slot_line(p));
        let tab0 = r0.tools;
        let rd = |q: (PointTextView, PointTextView)| (read_point(q.0), read_point(q.1));
        let e0 = (st.tools[i].0, ToolView { slots: tv.slots + s0.map_values(rd), ..tv });
        lemma_update_present(st.tools, i, |x: ToolView| e0.1);
        assert(tab0[i] == e0);
        let w = with_slot(read_point(p.0), read_point(p.1));
        lemma_update_present(tab0, i, w);
        assert(tv.slots + s0.map_values(rd).push(rd(p)) =~= tv.slots + ss.map_values(rd));
        assert(tab0.update(i, (tab0[i].0, w(tab0[i].1))) =~= st.tools.update(
            i,
            (st.tools[i].0, ToolView { slots: tv.slots + ss.map_values(rd), ..tv }),
        ));
        assert forall|k: int| 0 <= k < ss.len() implies plain_line(#[trigger] slot_line(ss[k])) by {
            if k < s0.len() {
                assert(ss[k] == s0[k]);
            }
        }
    }
}

pub proof fn lemma_mixed_sorted(t: Seq<(i32, ToolTextView)>, i: int)
    requires
        writable_table(t),
    ensures
        sorted_keys(mixed_table(t, i)),
        mixed_table(t, i).len() == t.len(),
{
    let m = mixed_table(t, i);
    assert forall|a: int, b: int| 0 <= a < b < m.len() implies #[trigger] m[a].0 < #[trigger] m[b].0 by {
        assert(m[a].0 == t[a].0 && m[b].0 == t[b].0);
    }
}

/// The block of tool `i` gives that tool its hits and slots.
pub proof fn lemma_block(st: ExcState, t: Seq<(i32, ToolTextView)>, i: int)
    requires
        writable_table(t),
        0 <= i < t.len(),
        st.tools == mixed_table(t, i),
    ensures
        ({
            let r = lines_from(st, tool_block(t[i].0, t[i].1), 0);
            &&& r.tools == mixed_table(t, i + 1)
            &&& r.units == st.units
            &&& r.units_seen == st.units_seen
        }),
        forall|k: int| 0 <= k < tool_block(t[i].0, t[i].1).len() ==> plain_line(
            #[trigger] tool_block(t[i].0, t[i].1)[k],
        ),
{
    let n = t[i].0;
    let tv = t[i].1;
    let m = mixed_table(t, i);
    assert(t[i].0 >= 1 && tool_text_ok(t[i].1));
    let sel = select_line(n);
    let hs = tv.drills.map_values(|p: PointTextView| hit_line(p));
    let sl = tv.slots.map_values(|s: (PointTextView, PointTextView)| slot_line(s));
    assert(tool_block(n, tv) == seq![sel] + hs + sl);
    lemma_lines_from_append(st, seq![sel] + hs, sl);
    lemma_lines_from_append(st, seq![sel], hs);
    lemma_lines_from_one(st, sel);
    lemma_select_line(st, n);
    lemma_plain_line(sel);
    lemma_mixed_sorted(t, i);
    lemma_update_present(m, i, |x: ToolView| x);
    assert(m[i] == (n, defined_tool(tv)));
    let s1 = lines_from(st, seq![sel], 0);
    assert(s1.tools == m && s1.cur_tool == n);
    lemma_hits(s1, tv.drills, i);
    let s2 = lines_from(s1, hs, 0);
    let rd = |p: PointTextView| read_point(p);
    let rs = |s: (PointTextView, PointTextView)| (read_point(s.0), read_point(s.1));
    let m2 = m.update(i, (n, ToolView { drills: Seq::<PointView>::empty() + tv.drills.map_values(rd), ..defined_tool(tv) }));
    assert(s2.tools == m2);
    assert(sorted_keys(m2)) by {
        assert forall|a: int, b: int| 0 <= a < b < m2.len() implies #[trigger] m2[a].0 < #[trigger] m2[b].0 by {
            assert(m2[a].0 == m[a].0 && m2[b].0 == m[b].0);
        }
    }
    lemma_slots(s2, tv.slots, i);
    let r = lines_from(s2, sl, 0);
    assert(r.tools =~= mixed_table(t, i + 1)) by {
        assert(Seq::<PointView>::empty() + tv.drills.map_values(rd) =~= tv.drills.map_values(rd));
        assert(Seq::<(PointView, PointView)>::empty() + tv.slots.map_values(rs) =~= tv.slots.map_values(rs));
        assert(m2[i].1.slots == Seq::<(PointView, PointView)>::empty());
    }
    let b = tool_block(n, tv);
    assert forall|k: int| 0 <= k < b.len() implies plain_line(#[trigger] b[k]) by {
        if k == 0 {
            assert(b[k] == sel);
        } else if k < 1 + hs.len() {
            assert(b[k] == hs[k - 1]);
            assert(hs[k - 1] == hit_line(tv.drills[k - 1]));
        } else {
            assert(b[k] == sl[k - 1 - hs.len()]);
            assert(sl[k - 1 - hs.len()] == slot_line(tv.slots[k - 1 - hs.len()]));
        }
    }
}

/// The blocks of the first `i` tools give those tools their hits and slots.
pub proof fn lemma_body_phase(st: ExcState, t: Seq<(i32, ToolTextView)>, i: int)
    requires
        writable_table(t),
        0 <= i <= t.len(),
        st.tools == mixed_table(t, 0),
    ensures
        ({
            let r = lines_from(st, body_lines(t.take(i)), 0);
            &&& r.tools == mixed_table(t, i)
            &&& r.units == st.units
            &&& r.units_seen == st.units_seen
        }),
        forall|k: int| 0 <= k < body_lines(t.take(i)).len() ==> plain_line(#[trigger] body_lines(t.take(i))[k]),
    decreases i,
{
    if i == 0 {
        assert(t.take(0) =~= Seq::<(i32, ToolTextView)>::empty());
    } else {
        lemma_body_phase(st, t, i - 1);
        let pre = t.take(i - 1);
        assert(t.take(i).drop_last() =~= pre);
        assert(t.take(i).last() == t[i - 1]);
        let a = body_lines(pre);
        let b = tool_block(t[i - 1].0, t[i - 1].1);
        assert(body_lines(t.take(i)) == a + b);
        lemma_lines_from_append(st, a, b);
        lemma_block(lines_from(st, a, 0), t, i - 1);
        assert forall|k: int| 0 <= k < (a + b).len() implies plain_line(#[trigger] (a + b)[k]) by {
            if k < a.len() {
                assert((a + b)[k] == a[k]);
            } else {
                assert((a + b)[k] == b[k - a.len()]);
            }
        }
    }
}

// ---------------------------------------------------------------------------
// The round trip
// ---------------------------------------------------------------------------

/// Reading every line of the program (and the empty piece after the last
/// newline) leaves the units written and the table read back.
#[verifier::spinoff_prover]
#[verifier::rlimit(40)]
pub proof fn lemma_program_lines_read(u: Units, t: Seq<(i32, ToolTextView)>)
    requires
        writable_table(t),
    ensures
        ({
            let r = lines_from(exc_initial(), drill_file_lines(u, t).push(Seq::<char>::empty()), 0);
            &&& r.units == u
            &&& r.units_seen
            &&& r.tools == read_table(t)
        }),
        forall|k: int| 0 <= k < drill_file_lines(u, t).len() ==> plain_line(#[trigger] drill_file_lines(u, t)[k]),
{
    reveal_strlit("M48");
    reveal_strlit("%");
    reveal_strlit("M30");
    reveal_strlit("METRIC,LZ");
    reveal_strlit("INCH,LZ");
    let e = Seq::<char>::empty();
    let h = seq!["M48"@, units_header(u)];
    let d = def_lines(t);
    let pc = seq!["%"@];
    let b = body_lines(t);
    let ls = drill_file_lines(u, t);
    assert(t.take(t.len() as int) =~= t);
    let st0 = exc_initial();
    lemma_lines_from_push(st0, seq!["M48"@], units_header(u));
    lemma_lines_from_one(st0, "M48"@);
    lemma_inert_lines(st0);
    assert(seq!["M48"@].push(units_header(u)) =~= h);
    lemma_units_line(st0, u);
    let st1 = lines_from(st0, h, 0);
    lemma_def_phase(st1, t, t.len() as int);
    let st2 = lines_from(st1, d, 0);
    lemma_lines_from_one(st2, "%"@);
    lemma_inert_lines(st2);
    let st3 = lines_from(st2, pc, 0);
    assert(mixed_table(t, 0) =~= defined_table(t));
    lemma_body_phase(st3, t, t.len() as int);
    let st4 = lines_from(st3, b, 0);
    assert(st4.tools == read_table(t)) by {
        assert(mixed_table(t, t.len() as int) =~= read_table(t));
    }
    let tail = seq!["M30"@, e];
    lemma_lines_from_push(st4, seq!["M30"@], e);
    lemma_lines_from_one(st4, "M30"@);
    lemma_inert_lines(st4);
    lemma_inert_lines(line_spec(st4, trim_spec("M30"@)));
    assert(seq!["M30"@].push(e) =~= tail);
    assert(ls.push(e) =~= h + d + pc + b + tail);
    lemma_lines_from_append(st0, h + d + pc + b, tail);
    lemma_lines_from_append(st0, h + d + pc, b);
    lemma_lines_from_append(st0, h + d, pc);
    lemma_lines_from_append(st0, h, d);
    assert forall|k: int| 0 <= k < ls.len() implies plain_line(#[trigger] ls[k]) by {
        let hd = h + d;
        let hdp = hd + pc;
        let hdpb = hdp + b;
        assert(ls == hdpb + seq!["M30"@]);
        if k < 2 {
            assert(ls[k] == h[k]);
            if k == 0 {
                assert(ls[k] =~= seq!['M', '4', '8']);
            } else if u == Units::Mm {
                assert(ls[k] =~= seq!['M', 'E', 'T', 'R', 'I', 'C', ',', 'L', 'Z']);
            } else {
                assert(ls[k] =~= seq!['I', 'N', 'C', 'H', ',', 'L', 'Z']);
            }
        } else if k < 2 + d.len() {
            assert(ls[k] == d[k - 2]);
        } else if k == 2 + d.len() {
            assert(ls[k] == "%"@);
        } else if k < 3 + d.len() + b.len() {
            assert(ls[k] == b[k - 3 - d.len()]);
        } else {
            assert(ls[k] == "M30"@);
        }
    }
}

/// A drill program written from a table reads back as that table: the same
/// units, the same tools in the same order, each diameter, hit and slot as
/// exactly the decimal literal written. Tool numbers must be at least 1 and
/// strictly increasing (tool 0 is "no tool", whose hits are dropped), and
/// every number a number text (digits, a point, digits, perhaps a `-`).
pub proof fn law_drill_file_reads_back(u: Units, t: Seq<(i32, ToolTextView)>)
    requires
        writable_table(t),
    ensures
        parse_spec(lines_text(drill_file_lines(u, t))) == Ok::<ExcellonView, ErrorView>(
            ExcellonView { units: u, tools: read_table(t) },
        ),
{
    reveal_strlit("M48");
    let ls = drill_file_lines(u, t);
    lemma_program_lines_read(u, t);
    assert forall|k: int| 0 <= k < ls.len() implies !(#[trigger] ls[k]).contains('\n') by {
        lemma_plain_line(ls[k]);
    }
    lemma_split_lines_text(ls);
    let content = lines_text(ls);
    assert(ls =~= seq!["M48"@] + ls.skip(1));
    lemma_lines_text_append(seq!["M48"@], ls.skip(1));
    lemma_lines_text_push(Seq::<Seq<char>>::empty(), "M48"@);
    assert(content[0] == 'M');
    assert(trim_start_spec(content) == content);
    lemma_trim_end_keeps_first(content);
}

} // verus!
