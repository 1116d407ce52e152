//! Numbers as they are written in CAM files: digit runs, Rust's integer and
//! floating-point literal grammars, and exact decimal values.
//!
//! The file-format readers of this crate never compute with floating point.
//! A coordinate is kept as an exact [`Decimal`] (sign, digit string and a
//! power-of-ten exponent); a value that is read as a floating-point number
//! is kept as its literal text once it has been checked against the
//! documented grammar of `f64::from_str`, so that a caller converts it with
//! that very call.
use crate::text::{ascii_lower_spec, is_ascii_digit, to_ascii_lower};
use vstd::prelude::*;

verus! {

// ---------------------------------------------------------------------------
// Digit runs
// ---------------------------------------------------------------------------

/// Every character of `s` is an ASCII digit.
pub open spec fn all_digits(s: Seq<char>) -> bool {
    forall|i: int| 0 <= i < s.len() ==> is_ascii_digit(#[trigger] s[i])
}

/// The value of the digit character `c`.
pub open spec fn digit_value(c: char) -> nat {
    ((c as u32) - 48) as nat
}

/// The number written by the digit string `s` (most significant first); the
/// empty string is 0.
pub open spec fn digits_value(s: Seq<char>) -> nat
    decreases s.len(),
{
    if s.len() == 0 {
        0
    } else {
        digits_value(s.drop_last()) * 10 + digit_value(s.last())
    }
}

/// A longer digit string never has a smaller value than its prefix.
pub proof fn lemma_digits_value_prefix(s: Seq<char>, i: int, j: int)
    requires
        0 <= i <= j <= s.len(),
        all_digits(s),
    ensures
        digits_value(s.take(i)) <= digits_value(s.take(j)),
    decreases j - i,
{
    if i < j {
        lemma_digits_value_prefix(s, i, j - 1);
        assert(s.take(j).drop_last() =~= s.take(j - 1));
    }
}

/// The digits of `s`, in order, with every other character left out.
pub open spec fn only_digits(s: Seq<char>) -> Seq<char> {
    s.filter(|c: char| is_ascii_digit(c))
}

/// `only_digits` as a fresh vector.
pub fn keep_digits(s: &[char]) -> (v: Vec<char>)
    ensures
        v@ == only_digits(s@),
        all_digits(v@),
{
    let mut v: Vec<char> = Vec::new();
    let mut i: usize = 0;
    while i < s.len()
        invariant
            i <= s@.len(),
            v@ == only_digits(s@.take(i as int)),
            all_digits(v@),
        decreases s@.len() - i,
    {
        let c = s[i];
        proof {
            assert(s@.take(i + 1).drop_last() =~= s@.take(i as int));
            assert(s@.take(i + 1).last() == c);
            reveal(Seq::filter);
        }
        if '0' <= c && c <= '9' {
            v.push(c);
        }
        i = i + 1;
        assert(v@ =~= only_digits(s@.take(i as int)));
    }
    assert(s@.take(s@.len() as int) =~= s@);
    v
}

/// The value of the digit string `d`, if it does not exceed `cap`.
pub fn digits_value_upto(d: &[char], cap: u64) -> (r: Option<u64>)
    requires
        all_digits(d@),
        cap >= 9,
    ensures
        match r {
            Some(v) => v == digits_value(d@) && v <= cap,
            None => digits_value(d@) > cap,
        },
{
    let mut acc: u64 = 0;
    let mut i: usize = 0;
    while i < d.len()
        invariant
            i <= d@.len(),
            all_digits(d@),
            cap >= 9,
            acc == digits_value(d@.take(i as int)),
            acc <= cap,
        decreases d@.len() - i,
    {
        let c = d[i];
        assert(is_ascii_digit(d@[i as int]));
        let dig = (c as u32 - 48) as u64;
        proof {
            assert(d@.take(i + 1).drop_last() =~= d@.take(i as int));
            assert(d@.take(i + 1).last() == c);
        }
        if acc > (cap - dig) / 10 {
            proof {
                assert(acc * 10 + dig > cap) by (nonlinear_arith)
                    requires
                        acc > (cap - dig) / 10,
                        dig <= 9,
                        cap >= 9,
                ;
                lemma_digits_value_prefix(d@, i + 1, d@.len() as int);
                assert(d@.take(d@.len() as int) =~= d@);
            }
            return None;
        }
        proof {
            assert(acc * 10 + dig <= cap) by (nonlinear_arith)
                requires
                    acc <= (cap - dig) / 10,
                    dig <= 9,
            ;
        }
        acc = acc * 10 + dig;
        i = i + 1;
    }
    assert(d@.take(d@.len() as int) =~= d@);
    Some(acc)
}

/// The number of ASCII digits at the start of `s`.
pub open spec fn leading_digits(s: Seq<char>) -> int
    decreases s.len(),
{
    if s.len() == 0 {
        0
    } else if is_ascii_digit(s[0]) {
        1 + leading_digits(s.drop_first())
    } else {
        0
    }
}

pub proof fn lemma_leading_digits(s: Seq<char>)
    ensures
        0 <= leading_digits(s) <= s.len(),
        forall|k: int| 0 <= k < leading_digits(s) ==> is_ascii_digit(#[trigger] s[k]),
        leading_digits(s) < s.len() ==> !is_ascii_digit(s[leading_digits(s)]),
    decreases s.len(),
{
    if s.len() > 0 && is_ascii_digit(s[0]) {
        lemma_leading_digits(s.drop_first());
        assert forall|k: int| 0 <= k < leading_digits(s) implies is_ascii_digit(#[trigger] s[k]) by {
            if k > 0 {
                assert(s[k] == s.drop_first()[k - 1]);
            }
        }
    }
}

// ---------------------------------------------------------------------------
// Rust's integer literal grammar (`FromStr` for the integer types)
// ---------------------------------------------------------------------------

/// The value that `FromStr` for a signed integer type reads from `s`, before
/// the range check: an optional `+` or `-` followed by one or more digits.
pub open spec fn signed_int_spec(s: Seq<char>) -> Option<int> {
    if s.len() > 0 && (s[0] == '+' || s[0] == '-') {
        let d = s.drop_first();
        if d.len() > 0 && all_digits(d) {
            Some(if s[0] == '-' { -(digits_value(d) as int) } else { digits_value(d) as int })
        } else {
            None
        }
    } else if s.len() > 0 && all_digits(s) {
        Some(digits_value(s) as int)
    } else {
        None
    }
}

/// The value that `FromStr` for an unsigned integer type reads from `s`,
/// before the range check: an optional `+` followed by one or more digits.
pub open spec fn unsigned_int_spec(s: Seq<char>) -> Option<nat> {
    if s.len() > 0 && s[0] == '+' {
        let d = s.drop_first();
        if d.len() > 0 && all_digits(d) {
            Some(digits_value(d))
        } else {
            None
        }
    } else if s.len() > 0 && all_digits(s) {
        Some(digits_value(s))
    } else {
        None
    }
}

/// `s` read as an `i32` (as `str::parse::<i32>`).
pub open spec fn parse_i32_spec(s: Seq<char>) -> Option<i32> {
    match signed_int_spec(s) {
        Some(v) => if i32::MIN <= v <= i32::MAX {
            Some(v as i32)
        } else {
            None
        },
        None => None,
    }
}

/// `s` read as a `u8` (as `str::parse::<u8>`).
pub open spec fn parse_u8_spec(s: Seq<char>) -> Option<u8> {
    match unsigned_int_spec(s) {
        Some(v) => if v <= u8::MAX {
            Some(v as u8)
        } else {
            None
        },
        None => None,
    }
}

/// `s` read as a `usize` (as `str::parse::<usize>`).
pub open spec fn parse_usize_spec(s: Seq<char>) -> Option<usize> {
    match unsigned_int_spec(s) {
        Some(v) => if v <= usize::MAX {
            Some(v as usize)
        } else {
            None
        },
        None => None,
    }
}

/// Are all characters of `s[from..]` digits (and is there at least one)?
fn digit_tail(s: &[char], from: usize) -> (b: bool)
    requires
        from <= s@.len(),
    ensures
        b == (s@.len() > from && all_digits(s@.subrange(from as int, s@.len() as int))),
{
    if from >= s.len() {
        return false;
    }
    let mut i = from;
    while i < s.len()
        invariant
            from <= i <= s@.len(),
            forall|k: int| from <= k < i ==> is_ascii_digit(#[trigger] s@[k]),
        decreases s@.len() - i,
    {
        if !('0' <= s[i] && s[i] <= '9') {
            assert(!is_ascii_digit(s@.subrange(from as int, s@.len() as int)[i - from]));
            return false;
        }
        i = i + 1;
    }
    assert forall|k: int| 0 <= k < s@.len() - from implies is_ascii_digit(
        #[trigger] s@.subrange(from as int, s@.len() as int)[k],
    ) by {
        assert(is_ascii_digit(s@[from + k]));
    }
    true
}

/// The sign and the digit run of an integer literal: `(negative, start)` where
/// `start` is the index of the first digit, if `s` has integer shape.
fn int_shape(s: &[char], allow_minus: bool) -> (r: Option<(bool, usize)>)
    ensures
        match r {
            Some((neg, start)) => {
                &&& start <= s@.len()
                &&& all_digits(s@.subrange(start as int, s@.len() as int))
                &&& (start == 0 || start == 1)
                &&& s@.len() > start
                &&& (start == 1 ==> (s@[0] == '+' || (allow_minus && s@[0] == '-')))
                &&& (start == 0 ==> all_digits(s@))
                &&& neg == (start == 1 && s@[0] == '-')
                &&& (start == 1 ==> s@.drop_first() =~= s@.subrange(1, s@.len() as int))
            },
            None => if allow_minus {
                signed_int_spec(s@) is None
            } else {
                unsigned_int_spec(s@) is None
            },
        },
{
    if s.len() == 0 {
        return None;
    }
    if s[0] == '+' || (allow_minus && s[0] == '-') {
        if digit_tail(s, 1) {
            assert(s@.drop_first() =~= s@.subrange(1, s@.len() as int));
            return Some((s[0] == '-', 1));
        }
        assert(s@.drop_first() =~= s@.subrange(1, s@.len() as int));
        return None;
    }
    if digit_tail(s, 0) {
        assert(s@ =~= s@.subrange(0, s@.len() as int));
        return Some((false, 0));
    }
    assert(s@ =~= s@.subrange(0, s@.len() as int));
    if !allow_minus && s[0] == '-' {
        assert(!is_ascii_digit(s@[0]));
    }
    None
}

/// `s` read as an `i32`, as `str::parse::<i32>().ok()`.
pub fn parse_i32(s: &[char]) -> (r: Option<i32>)
    ensures
        r == parse_i32_spec(s@),
{
    match int_shape(s, true) {
        None => None,
        Some((neg, start)) => {
            let d = crate::text::slice_vec(s, start, s.len());
            proof {
                if start == 1 {
                    assert(d@ =~= s@.drop_first());
                } else {
                    assert(d@ =~= s@);
                }
            }
            let cap: u64 = if neg { 2147483648 } else { 2147483647 };
            match digits_value_upto(&d, cap) {
                None => None,
                Some(v) => {
                    if neg {
                        Some((0 - (v as i64)) as i32)
                    } else {
                        Some(v as i32)
                    }
                },
            }
        },
    }
}

/// `s` read as a `u8`, as `str::parse::<u8>().ok()`.
pub fn parse_u8(s: &[char]) -> (r: Option<u8>)
    ensures
        r == parse_u8_spec(s@),
{
    match int_shape(s, false) {
        None => None,
        Some((_neg, start)) => {
            let d = crate::text::slice_vec(s, start, s.len());
            proof {
                if start == 1 {
                    assert(d@ =~= s@.drop_first());
                } else {
                    assert(d@ =~= s@);
                }
            }
            match digits_value_upto(&d, 255) {
                None => None,
                Some(v) => Some(v as u8),
            }
        },
    }
}

/// `s` read as a `usize`, as `str::parse::<usize>().ok()`.
pub fn parse_usize(s: &[char]) -> (r: Option<usize>)
    ensures
        r == parse_usize_spec(s@),
{
    match int_shape(s, false) {
        None => None,
        Some((_neg, start)) => {
            let d = crate::text::slice_vec(s, start, s.len());
            proof {
                if start == 1 {
                    assert(d@ =~= s@.drop_first());
                } else {
                    assert(d@ =~= s@);
                }
            }
            let cap: u64 = usize::MAX as u64;
            match digits_value_upto(&d, cap) {
                None => None,
                Some(v) => Some(v as usize),
            }
        },
    }
}

// ---------------------------------------------------------------------------
// Rust's floating-point literal grammar (`FromStr` for `f64`)
// ---------------------------------------------------------------------------

/// The mantissa of a decimal float literal: digits with at most one `.`, and
/// at least one digit (`Digit+ | Digit+ '.' Digit* | Digit* '.' Digit+`).
pub open spec fn float_mantissa(m: Seq<char>) -> bool {
    &&& forall|i: int| 0 <= i < m.len() ==> (is_ascii_digit(#[trigger] m[i]) || m[i] == '.')
    &&& forall|i: int, j: int| 0 <= i < j < m.len() && #[trigger] m[i] == '.' ==> #[trigger] m[j] != '.'
    &&& exists|i: int| 0 <= i < m.len() && is_ascii_digit(#[trigger] m[i])
}

/// An exponent part after the `e`: an optional sign and one or more digits.
pub open spec fn float_exponent(x: Seq<char>) -> bool {
    signed_int_spec(x) is Some
}

/// Index of the first `c` in `s`, or `s.len()` when there is none.
pub open spec fn first_index(s: Seq<char>, c: char) -> int
    decreases s.len(),
{
    if s.len() == 0 {
        0
    } else if s[0] == c {
        0
    } else {
        1 + first_index(s.drop_first(), c)
    }
}

pub proof fn lemma_first_index(s: Seq<char>, c: char)
    ensures
        0 <= first_index(s, c) <= s.len(),
        first_index(s, c) < s.len() ==> s[first_index(s, c)] == c,
        forall|k: int| 0 <= k < first_index(s, c) ==> s[k] != c,
    decreases s.len(),
{
    if s.len() > 0 && s[0] != c {
        lemma_first_index(s.drop_first(), c);
        assert forall|k: int| 0 <= k < first_index(s, c) implies s[k] != c by {
            if k > 0 {
                assert(s[k] == s.drop_first()[k - 1]);
            }
        }
    }
}

/// The unsigned part of a float literal (already lower-cased): `inf`,
/// `infinity`, `nan`, or a mantissa with an optional `e` exponent.
pub open spec fn float_body(b: Seq<char>) -> bool {
    let k = first_index(b, 'e');
    ||| b == "inf"@
    ||| b == "infinity"@
    ||| b == "nan"@
    ||| (float_mantissa(b.take(k)) && (k == b.len() || float_exponent(b.skip(k + 1))))
}

/// `s` is accepted by `f64::from_str`: the documented grammar
/// `Sign? ( 'inf' | 'infinity' | 'nan' | Number )`, `Number ::= ( Digit+ |
/// Digit+ '.' Digit* | Digit* '.' Digit+ ) Exp?`, `Exp ::= 'e' Sign? Digit+`,
/// read after lower-casing.
pub open spec fn is_float_literal(s: Seq<char>) -> bool {
    let t = ascii_lower_spec(s);
    if t.len() > 0 && (t[0] == '+' || t[0] == '-') {
        float_body(t.drop_first())
    } else {
        float_body(t)
    }
}

/// Index of the first `c` in `s`, or `s.len()`.
pub fn find_char(s: &[char], c: char) -> (k: usize)
    ensures
        k == first_index(s@, c),
        k <= s@.len(),
        k < s@.len() ==> s@[k as int] == c,
        forall|j: int| 0 <= j < k ==> s@[j] != c,
{
    proof {
        lemma_first_index(s@, c);
    }
    let mut k: usize = 0;
    while k < s.len() && s[k] != c
        invariant
            k <= s@.len(),
            forall|j: int| 0 <= j < k ==> s@[j] != c,
            0 <= first_index(s@, c) <= s@.len(),
            first_index(s@, c) < s@.len() ==> s@[first_index(s@, c)] == c,
            forall|j: int| 0 <= j < first_index(s@, c) ==> s@[j] != c,
        decreases s@.len() - k,
    {
        k = k + 1;
    }
    k
}

/// Is `m` a float mantissa?
fn is_mantissa(m: &[char]) -> (b: bool)
    ensures
        b == float_mantissa(m@),
{
    let mut dots: usize = 0;
    let mut digits: usize = 0;
    let mut i: usize = 0;
    let ghost mut dot_at: int = -1;
    while i < m.len()
        invariant
            i <= m@.len(),
            dots <= 1,
            digits <= i,
            forall|k: int| 0 <= k < i ==> (is_ascii_digit(#[trigger] m@[k]) || m@[k] == '.'),
            dots == 0 ==> forall|k: int| 0 <= k < i ==> #[trigger] m@[k] != '.',
            dots == 1 ==> 0 <= dot_at < i && m@[dot_at] == '.' && forall|k: int|
                0 <= k < i && k != dot_at ==> #[trigger] m@[k] != '.',
            digits > 0 <==> exists|k: int| 0 <= k < i && is_ascii_digit(#[trigger] m@[k]),
        decreases m@.len() - i,
    {
        let c = m[i];
        if c == '.' {
            if dots == 1 {
                assert(m@[dot_at] == '.' && m@[i as int] == '.' && dot_at < i);
                return false;
            }
            dots = 1;
            proof {
                dot_at = i as int;
            }
        } else if '0' <= c && c <= '9' {
            digits = digits + 1;
        } else {
            assert(!(is_ascii_digit(m@[i as int]) || m@[i as int] == '.'));
            return false;
        }
        i = i + 1;
    }
    if digits == 0 {
        return false;
    }
    proof {
        assert forall|a: int, b: int| 0 <= a < b < m@.len() && #[trigger] m@[a] == '.' implies #[trigger] m@[b]
            != '.' by {
            if dots == 1 {
                if a == dot_at {
                } else {
                    assert(m@[a] != '.');
                }
            }
        }
    }
    true
}

/// Is `b` (lower-case, no sign) the body of a float literal?
fn is_float_body(b: &[char]) -> (r: bool)
    ensures
        r == float_body(b@),
{
    if crate::text::eq_text(b, "inf") || crate::text::eq_text(b, "infinity")
        || crate::text::eq_text(b, "nan") {
        return true;
    }
    let k = find_char(b, 'e');
    let m = crate::text::slice_vec(b, 0, k);
    assert(m@ =~= b@.take(k as int));
    if !is_mantissa(&m) {
        return false;
    }
    if k == b.len() {
        return true;
    }
    let x = crate::text::slice_vec(b, k + 1, b.len());
    assert(x@ =~= b@.skip(k + 1));
    match int_shape(&x, true) {
        Some(_) => {
            true
        },
        None => false,
    }
}

/// Does `f64::from_str` accept `s`?
pub fn is_float_lit(s: &[char]) -> (r: bool)
    ensures
        r == is_float_literal(s@),
{
    let t = to_ascii_lower(s);
    if t.len() > 0 && (t[0] == '+' || t[0] == '-') {
        let b = crate::text::slice_vec(&t, 1, t.len());
        assert(b@ =~= t@.drop_first());
        is_float_body(&b)
    } else {
        is_float_body(&t)
    }
}

// ---------------------------------------------------------------------------
// Exact decimal values
// ---------------------------------------------------------------------------

/// An exact decimal number: `(-1)^negative × digits × 10^exponent`, where
/// `digits` is a string of ASCII digits (its value as in [`digits_value`]).
/// `negative` with an all-zero digit string is the negative zero that a
/// reader produces for `-0`.
#[derive(Debug)]
pub struct Decimal {
    pub negative: bool,
    pub digits: Vec<char>,
    pub exponent: i128,
}

/// The content of a [`Decimal`].
pub struct DecimalView {
    pub negative: bool,
    pub digits: Seq<char>,
    pub exponent: int,
}

impl View for Decimal {
    type V = DecimalView;

    open spec fn view(&self) -> DecimalView {
        DecimalView { negative: self.negative, digits: self.digits@, exponent: self.exponent as int }
    }
}

impl Decimal {
    /// Well-formed: the digit string holds digits only.
    pub open spec fn wf(&self) -> bool {
        all_digits(self.digits@)
    }

    /// Positive zero.
    pub fn zero() -> (d: Decimal)
        ensures
            d@ == zero_spec(),
            d.wf(),
    {
        let mut v: Vec<char> = Vec::new();
        v.push('0');
        assert(v@ =~= seq!['0']);
        Decimal { negative: false, digits: v, exponent: 0 }
    }

    /// A copy of `self`.
    pub fn copy(&self) -> (d: Decimal)
        ensures
            d@ == self@,
    {
        let mut v: Vec<char> = Vec::new();
        let mut i: usize = 0;
        while i < self.digits.len()
            invariant
                i <= self.digits@.len(),
                v@ == self.digits@.take(i as int),
            decreases self.digits@.len() - i,
        {
            v.push(self.digits[i]);
            i = i + 1;
            assert(v@ =~= self.digits@.take(i as int));
        }
        assert(self.digits@.take(self.digits@.len() as int) =~= self.digits@);
        Decimal { negative: self.negative, digits: v, exponent: self.exponent }
    }
}

/// Every character of `t` is a digit, a sign or a decimal point.
pub open spec fn plain_chars(t: Seq<char>) -> bool {
    forall|i: int| 0 <= i < t.len() ==> (is_ascii_digit(#[trigger] t[i]) || t[i] == '+' || t[i] == '-' || t[i] == '.')
}

/// A literal made of digits, signs and points only writes its digits with
/// the point removed: they are all digits.
pub proof fn lemma_plain_literal_digits(t: Seq<char>)
    requires
        plain_chars(t),
        is_float_literal(t),
    ensures
        all_digits(plain_literal_decimal(t).digits),
{
    let tl = ascii_lower_spec(t);
    assert(tl =~= t) by {
        assert forall|i: int| 0 <= i < t.len() implies tl[i] == t[i] by {
            assert(is_ascii_digit(t[i]) || t[i] == '+' || t[i] == '-' || t[i] == '.');
        }
    }
    let body = if t.len() > 0 && (t[0] == '+' || t[0] == '-') {
        t.drop_first()
    } else {
        t
    };
    assert(float_body(body));
    reveal_strlit("inf");
    reveal_strlit("infinity");
    reveal_strlit("nan");
    if body.len() > 0 {
        assert(is_ascii_digit(body[0]) || body[0] == '+' || body[0] == '-' || body[0] == '.') by {
            if body =~= t.drop_first() {
                assert(body[0] == t[1]);
            }
        }
    }
    assert(body != "inf"@ && body != "infinity"@ && body != "nan"@) by {
        if body.len() > 0 {
            assert(body[0] != 'i' && body[0] != 'n');
        }
    }
    lemma_first_index(body, 'e');
    assert(forall|i: int| 0 <= i < body.len() ==> body[i] != 'e') by {
        assert forall|i: int| 0 <= i < body.len() implies body[i] != 'e' by {
            if body =~= t.drop_first() {
                assert(body[i] == t[i + 1]);
            } else {
                assert(body[i] == t[i]);
            }
        }
    }
    let ke = first_index(body, 'e');
    assert(ke == body.len());
    assert(body.take(ke) =~= body);
    assert(float_mantissa(body));
    let k = first_index(body, '.');
    lemma_first_index(body, '.');
    let frac = if k < body.len() {
        body.skip(k + 1)
    } else {
        Seq::<char>::empty()
    };
    let ds = body.take(k) + frac;
    assert forall|i: int| 0 <= i < ds.len() implies is_ascii_digit(#[trigger] ds[i]) by {
        if i < k {
            assert(ds[i] == body[i]);
            assert(body[i] != '.');
        } else {
            assert(ds[i] == body[i + 1]);
            assert(body[k] == '.');
            assert(body[i + 1] != '.');
        }
    }
}

/// A value read as a floating-point number: the exact decimal it writes,
/// when it is a literal (an optional sign, digits and at most one point).
pub open spec fn literal_value(t: Seq<char>) -> Option<DecimalView> {
    if is_float_literal(t) {
        Some(plain_literal_decimal(t))
    } else {
        None
    }
}

/// The literal `t` (digits, signs and points only) as an exact decimal.
pub fn literal_decimal(t: &[char]) -> (r: Option<Decimal>)
    ensures
        match r {
            Some(d) => literal_value(t@) == Some(d@) && (plain_chars(t@) ==> d.wf()),
            None => literal_value(t@) is None,
        },
{
    if !is_float_lit(t) {
        return None;
    }
    let neg = t.len() > 0 && t[0] == '-';
    let start: usize = if t.len() > 0 && (t[0] == '+' || t[0] == '-') {
        1
    } else {
        0
    };
    let body = crate::text::slice_vec(t, start, t.len());
    proof {
        if start == 1 {
            assert(body@ =~= t@.drop_first());
        } else {
            assert(body@ =~= t@);
        }
    }
    let k = find_char(&body, '.');
    let mut digits = crate::text::slice_vec(&body, 0, k);
    let mut frac_len: usize = 0;
    if k < body.len() {
        let frac = crate::text::slice_vec(&body, k + 1, body.len());
        assert(frac@ =~= body@.skip(k + 1));
        let ghost d0 = digits@;
        let mut i: usize = 0;
        while i < frac.len()
            invariant
                i <= frac@.len(),
                digits@ == d0 + frac@.take(i as int),
            decreases frac@.len() - i,
        {
            digits.push(frac[i]);
            i = i + 1;
            assert(digits@ =~= d0 + frac@.take(i as int));
        }
        assert(frac@.take(frac@.len() as int) =~= frac@);
        frac_len = frac.len();
    } else {
        assert(body@.take(k as int) + Seq::<char>::empty() =~= body@.take(k as int));
    }
    assert(body@.take(k as int) =~= body@.subrange(0, k as int));
    let d = Decimal { negative: neg, digits, exponent: 0 - (frac_len as i128) };
    proof {
        if plain_chars(t@) {
            lemma_plain_literal_digits(t@);
        }
    }
    Some(d)
}


/// The text of the integer `i`: an optional `-` and its decimal digits.
pub open spec fn int_text(i: int) -> Seq<char> {
    if i < 0 {
        seq!['-'] + crate::text::decimal_spec((-i) as nat)
    } else {
        crate::text::decimal_spec(i as nat)
    }
}

/// The decimal `d` written as a floating-point literal, `[-]<digits>e<exponent>`.
pub open spec fn literal_text(d: DecimalView) -> Seq<char> {
    (if d.negative {
        seq!['-']
    } else {
        Seq::<char>::empty()
    }) + d.digits + seq!['e'] + int_text(d.exponent)
}

/// Appends the decimal digits of `n`.
fn push_decimal_u128(out: &mut Vec<char>, n: u128)
    ensures
        final(out)@ == old(out)@ + crate::text::decimal_spec(n as nat),
    decreases n,
{
    if n < 10 {
        out.push(((n as u8) + 48) as char);
        assert(old(out)@ + crate::text::decimal_spec(n as nat) =~= old(out)@.push(
            crate::text::digit_char(n as nat),
        ));
    } else {
        push_decimal_u128(out, n / 10);
        out.push((((n % 10) as u8) + 48) as char);
        assert(old(out)@ + crate::text::decimal_spec(n as nat) =~= (old(out)@
            + crate::text::decimal_spec((n / 10) as nat)).push(
            crate::text::digit_char((n % 10) as nat),
        ));
    }
}

impl Decimal {
    /// The number written as a floating-point literal, `[-]<digits>e<exponent>`
    /// (for instance `-125e-2`), which `f64::from_str` reads as the `f64`
    /// nearest to it.
    pub fn to_literal(&self) -> (s: String)
        ensures
            s@ == literal_text(self@),
    {
        let mut v: Vec<char> = Vec::new();
        if self.negative {
            v.push('-');
        }
        let mut i: usize = 0;
        let ghost v0 = v@;
        while i < self.digits.len()
            invariant
                i <= self.digits@.len(),
                v@ == v0 + self.digits@.take(i as int),
            decreases self.digits@.len() - i,
        {
            v.push(self.digits[i]);
            i = i + 1;
            assert(v@ =~= v0 + self.digits@.take(i as int));
        }
        assert(self.digits@.take(self.digits@.len() as int) =~= self.digits@);
        v.push('e');
        let ghost v1 = v@;
        if self.exponent < 0 {
            v.push('-');
            let m: u128 = if self.exponent == i128::MIN {
                170141183460469231731687303715884105728u128
            } else {
                (0 - self.exponent) as u128
            };
            push_decimal_u128(&mut v, m);
            assert(v@ =~= v1 + int_text(self@.exponent));
        } else {
            push_decimal_u128(&mut v, self.exponent as u128);
            assert(v@ =~= v1 + int_text(self@.exponent));
        }
        assert(v@ =~= literal_text(self@));
        crate::text::string_from_chars(&v)
    }
}

/// Positive zero, written `0`.
pub open spec fn zero_spec() -> DecimalView {
    DecimalView { negative: false, digits: seq!['0'], exponent: 0 }
}

/// The literal `s` (an optional sign, then digits with at most one `.`, no
/// exponent) as an exact decimal: the digits with the point removed, scaled
/// by the number of digits after the point.
pub open spec fn plain_literal_decimal(s: Seq<char>) -> DecimalView {
    let neg = s.len() > 0 && s[0] == '-';
    let body = if s.len() > 0 && (s[0] == '+' || s[0] == '-') {
        s.drop_first()
    } else {
        s
    };
    let k = first_index(body, '.');
    let frac = if k < body.len() {
        body.skip(k + 1)
    } else {
        Seq::<char>::empty()
    };
    DecimalView { negative: neg, digits: body.take(k) + frac, exponent: -(frac.len() as int) }
}


// ---------------------------------------------------------------------------
// Comparing a decimal with the `f64` value 0.1
// ---------------------------------------------------------------------------

/// `10^n`.
pub open spec fn pow10(n: nat) -> nat
    decreases n,
{
    if n == 0 {
        1
    } else {
        10 * pow10((n - 1) as nat)
    }
}

/// The digits of the midpoint between `0.1` as an `f64` and the next larger
/// `f64`, as `0.<digits>` (57 digits). Rounding to nearest, ties to even,
/// takes every decimal up to this midpoint to `0.1` or below (the `f64`
/// nearest 0.1 has an even significand), and every larger one above it.
pub open spec fn tenth_midpoint_digits() -> Seq<char> {
    "100000000000000012490009027033011079765856266021728515625"@
}

/// Does the decimal `d` (digits only), read as an `f64`, compare `<= 0.1`?
/// Negative values and zero do; a positive value does when it does not
/// exceed the midpoint above `0.1`.
pub open spec fn f64_at_most_tenth(d: DecimalView) -> bool {
    let m = digits_value(tenth_midpoint_digits());
    let e = d.exponent + 57;
    d.negative || if e >= 0 {
        digits_value(d.digits) * pow10(e as nat) <= m
    } else {
        digits_value(d.digits) <= m * pow10((-e) as nat)
    }
}

pub proof fn lemma_pow10_add(a: nat, b: nat)
    ensures
        pow10(a + b) == pow10(a) * pow10(b),
    decreases b,
{
    if b == 0 {
        assert(a + b == a);
        assert(pow10(b) == 1);
    } else {
        let b1 = (b - 1) as nat;
        lemma_pow10_add(a, b1);
        let pa = pow10(a);
        let pb1 = pow10(b1);
        assert(pow10(a + b1) == pa * pb1);
        assert(a + b == (a + b1) + 1);
        assert(pow10(a + b) == 10 * pow10(a + b1));
        assert(pow10(b) == 10 * pb1);
        assert(pa * (10 * pb1) == 10 * (pa * pb1)) by (nonlinear_arith);
    }
}

pub proof fn lemma_pow10_pos(a: nat)
    ensures
        pow10(a) >= 1,
    decreases a,
{
    if a > 0 {
        lemma_pow10_pos((a - 1) as nat);
    }
}

pub proof fn lemma_pow10_mono(a: nat, b: nat)
    requires
        a <= b,
    ensures
        pow10(a) <= pow10(b),
    decreases b - a,
{
    if a < b {
        lemma_pow10_mono(a, (b - 1) as nat);
        lemma_pow10_pos((b - 1) as nat);
    }
}

/// The value of a concatenation of digit strings.
pub proof fn lemma_digits_value_append(x: Seq<char>, y: Seq<char>)
    ensures
        digits_value(x + y) == digits_value(x) * pow10(y.len()) + digits_value(y),
    decreases y.len(),
{
    if y.len() == 0 {
        assert(x + y =~= x);
        assert(pow10(0) == 1);
        assert(digits_value(y) == 0);
        assert(digits_value(x) * 1 == digits_value(x));
    } else {
        let y2 = y.drop_last();
        lemma_digits_value_append(x, y2);
        assert((x + y).drop_last() =~= x + y2);
        assert((x + y).last() == y.last());
        let a = digits_value(x);
        let p = pow10(y2.len());
        let b = digits_value(y2);
        let d = digit_value(y.last());
        assert(pow10(y.len()) == 10 * p);
        assert(digits_value(y) == b * 10 + d);
        assert(digits_value(x + y) == digits_value(x + y2) * 10 + d);
        assert(digits_value(x + y2) == a * p + b);
        assert((a * p + b) * 10 == a * (10 * p) + b * 10) by (nonlinear_arith);
    }
}

/// A digit string of length `n` has a value below `10^n`.
pub proof fn lemma_digits_value_bound(s: Seq<char>)
    requires
        all_digits(s),
    ensures
        digits_value(s) < pow10(s.len()),
    decreases s.len(),
{
    if s.len() > 0 {
        let t = s.drop_last();
        assert(all_digits(t)) by {
            assert forall|i: int| 0 <= i < t.len() implies is_ascii_digit(#[trigger] t[i]) by {
                assert(t[i] == s[i]);
            }
        }
        lemma_digits_value_bound(t);
        assert(is_ascii_digit(s[s.len() - 1]));
        let a = digits_value(t);
        let p = pow10(t.len());
        assert(a * 10 + 9 < p * 10) by (nonlinear_arith)
            requires
                a < p,
        ;
    }
}

/// A digit string without a leading zero has a value of at least
/// `10^(n-1)`.
pub proof fn lemma_digits_value_lower(s: Seq<char>)
    requires
        all_digits(s),
        s.len() >= 1,
        s[0] != '0',
    ensures
        digits_value(s) >= pow10((s.len() - 1) as nat),
{
    let h = s.take(1);
    let r = s.skip(1);
    assert(h + r =~= s);
    lemma_digits_value_append(h, r);
    assert(h.drop_last() =~= Seq::<char>::empty());
    assert(digits_value(Seq::<char>::empty()) == 0);
    assert(h.last() == s[0]);
    assert(digits_value(h) == digits_value(h.drop_last()) * 10 + digit_value(h.last()));
    assert(digits_value(h) == digit_value(s[0]));
    assert(is_ascii_digit(s[0]));
    assert(digits_value(h) >= 1);
    lemma_pow10_pos(r.len());
    assert(digits_value(h) * pow10(r.len()) >= pow10(r.len())) by (nonlinear_arith)
        requires
            digits_value(h) >= 1,
            pow10(r.len()) >= 1,
    ;
}

/// Zeros appended multiply the value by a power of ten.
pub proof fn lemma_digits_value_zeros(x: Seq<char>, n: nat)
    ensures
        digits_value(x + Seq::new(n, |i: int| '0')) == digits_value(x) * pow10(n),
    decreases n,
{
    let z = Seq::new(n, |i: int| '0');
    lemma_digits_value_append(x, z);
    lemma_zeros_value(n);
}

pub proof fn lemma_zeros_value(n: nat)
    ensures
        digits_value(Seq::new(n, |i: int| '0')) == 0,
    decreases n,
{
    if n > 0 {
        lemma_zeros_value((n - 1) as nat);
        assert(Seq::new(n, |i: int| '0').drop_last() =~= Seq::new((n - 1) as nat, |i: int| '0'));
    }
}

/// Equal-length digit strings compare like their values: at the first
/// difference, the smaller digit gives the smaller value.
pub proof fn lemma_digits_value_lex(a: Seq<char>, b: Seq<char>, k: int)
    requires
        a.len() == b.len(),
        all_digits(a),
        all_digits(b),
        0 <= k < a.len(),
        forall|j: int| 0 <= j < k ==> a[j] == b[j],
        digit_value(a[k]) < digit_value(b[k]),
    ensures
        digits_value(a) < digits_value(b),
{
    let n = a.len();
    let pa = a.take(k + 1);
    let pb = b.take(k + 1);
    let ra = a.skip(k + 1);
    let rb = b.skip(k + 1);
    assert(pa + ra =~= a);
    assert(pb + rb =~= b);
    lemma_digits_value_append(pa, ra);
    lemma_digits_value_append(pb, rb);
    assert(pa.drop_last() =~= pb.drop_last());
    assert(pa.last() == a[k] && pb.last() == b[k]);
    assert(all_digits(ra)) by {
        assert forall|i: int| 0 <= i < ra.len() implies is_ascii_digit(#[trigger] ra[i]) by {
            assert(ra[i] == a[i + k + 1]);
        }
    }
    lemma_digits_value_bound(ra);
    let c = digits_value(pa.drop_last());
    let x = digits_value(pa);
    let y = digits_value(pb);
    assert(x + 1 <= y);
    let p = pow10(ra.len());
    assert(rb.len() == ra.len());
    let va = digits_value(ra);
    let vb = digits_value(rb);
    assert(x * p + va < y * p + vb) by (nonlinear_arith)
        requires
            x + 1 <= y,
            va < p,
            vb >= 0,
    ;
}


/// The midpoint digits are 57 digits with a leading `1`.
pub proof fn lemma_tenth_midpoint()
    ensures
        tenth_midpoint_digits().len() == 57,
        all_digits(tenth_midpoint_digits()),
        tenth_midpoint_digits()[0] == '1',
        pow10(56) <= digits_value(tenth_midpoint_digits()) < pow10(57),
{
    reveal_strlit("100000000000000012490009027033011079765856266021728515625");
    let m = tenth_midpoint_digits();
    assert(all_digits(m)) by {
        assert forall|i: int| 0 <= i < m.len() implies is_ascii_digit(#[trigger] m[i]) by {
            reveal_strlit("100000000000000012490009027033011079765856266021728515625");
        }
    }
    lemma_digits_value_lower(m);
    lemma_digits_value_bound(m);
}

/// Does the decimal `d`, read as an `f64`, compare `<= 0.1`? (See
/// [`f64_at_most_tenth`].)
pub fn at_most_tenth(d: &Decimal) -> (b: bool)
    requires
        all_digits(d.digits@),
    ensures
        b == f64_at_most_tenth(d@),
{
    if d.negative {
        return true;
    }
    let ghost ds = d.digits@;
    let ghost m = digits_value(tenth_midpoint_digits());
    proof {
        lemma_tenth_midpoint();
    }
    let n = d.digits.len();
    let mut z: usize = 0;
    while z < n && d.digits[z] == '0'
        invariant
            z <= n,
            n == ds.len(),
            ds == d.digits@,
            forall|j: int| 0 <= j < z ==> ds[j] == '0',
        decreases n - z,
    {
        z = z + 1;
    }
    let ghost da = ds.skip(z as int);
    proof {
        assert(ds.take(z as int) =~= Seq::new(z as nat, |i: int| '0'));
        assert(ds.take(z as int) + da =~= ds);
        lemma_digits_value_append(ds.take(z as int), da);
        lemma_zeros_value(z as nat);
        assert(all_digits(da)) by {
            assert forall|i: int| 0 <= i < da.len() implies is_ascii_digit(#[trigger] da[i]) by {
                assert(da[i] == ds[i + z]);
            }
        }
    }
    let ghost v = digits_value(da);
    proof {
        assert(digits_value(ds.take(z as int)) == 0);
        assert(0 * pow10(da.len()) == 0);
        assert(digits_value(ds) == v);
    }
    if z == n {
        proof {
            assert(da.len() == 0);
            assert(v == 0);
            let e = d@.exponent + 57;
            if e >= 0 {
                assert(0 * pow10(e as nat) == 0);
            } else {
                lemma_pow10_pos((-e) as nat);
                assert(m * pow10((-e) as nat) >= 0) by (nonlinear_arith)
                    requires
                        m >= 0,
                        pow10((-e) as nat) >= 1,
                ;
            }
        }
        return true;
    }
    let la = n - z;
    proof {
        assert(da.len() == la);
        assert(da[0] != '0');
        lemma_digits_value_lower(da);
        lemma_digits_value_bound(da);
    }
    if d.exponent >= 0 {
        // the value is at least 10^(la-1) >= 1 > 0.1
        proof {
            let e = d@.exponent + 57;
            let q = pow10(e as nat);
            lemma_pow10_mono(57, e as nat);
            lemma_pow10_pos((la - 1) as nat);
            assert(v * q >= 1 * q) by (nonlinear_arith)
                requires
                    v >= 1,
                    q >= 0,
            ;
        }
        return false;
    }
    let t: i128 = (la as i128) + d.exponent;
    let ghost e: int = d@.exponent + 57;
    if t < 0 {
        proof {
            if e >= 0 {
                let q = pow10(e as nat);
                lemma_pow10_pos(e as nat);
                lemma_pow10_add(la as nat, e as nat);
                lemma_pow10_mono((la + e) as nat, 56);
                assert(v * q < pow10(la as nat) * q) by (nonlinear_arith)
                    requires
                        v < pow10(la as nat),
                        q >= 1,
                ;
                lemma_pow10_pos(e as nat);
            } else {
                let q = pow10((-e) as nat);
                lemma_pow10_add(56, (-e) as nat);
                lemma_pow10_mono(la as nat, (56 - e) as nat);
                assert(m * q >= pow10(56) * q) by (nonlinear_arith)
                    requires
                        m >= pow10(56),
                        q >= 0,
                ;
            }
        }
        return true;
    }
    if t > 0 {
        proof {
            if e >= 0 {
                let q = pow10(e as nat);
                lemma_pow10_add((la - 1) as nat, e as nat);
                lemma_pow10_mono(57, (la - 1 + e) as nat);
                assert(v * q >= pow10((la - 1) as nat) * q) by (nonlinear_arith)
                    requires
                        v >= pow10((la - 1) as nat),
                        q >= 0,
                ;
            } else {
                let q = pow10((-e) as nat);
                lemma_pow10_add(57, (-e) as nat);
                lemma_pow10_mono((57 - e) as nat, (la - 1) as nat);
                lemma_pow10_pos((-e) as nat);
                assert(m * q < pow10(57) * q) by (nonlinear_arith)
                    requires
                        m < pow10(57),
                        q >= 1,
                ;
            }
        }
        return false;
    }
    // Same order of magnitude: compare the digit strings, padded with zeros
    // to a common length.
    let mstr = crate::text::chars_of("100000000000000012490009027033011079765856266021728515625");
    assert(mstr@ == tenth_midpoint_digits());
    let len: usize = if la > 57 {
        la
    } else {
        57
    };
    let ghost ma = tenth_midpoint_digits();
    let ghost a = da + Seq::new((len - la) as nat, |i: int| '0');
    let ghost b = ma + Seq::new((len - 57) as nat, |i: int| '0');
    proof {
        lemma_digits_value_zeros(da, (len - la) as nat);
        lemma_digits_value_zeros(ma, (len - 57) as nat);
        assert(a.len() == len && b.len() == len);
        assert(all_digits(a)) by {
            assert forall|i: int| 0 <= i < a.len() implies is_ascii_digit(#[trigger] a[i]) by {
                if i < la {
                    assert(a[i] == da[i]);
                }
            }
        }
        assert(all_digits(b)) by {
            assert forall|i: int| 0 <= i < b.len() implies is_ascii_digit(#[trigger] b[i]) by {
                if i < 57 {
                    assert(b[i] == ma[i]);
                }
            }
        }
        // the comparison of the padded strings is the comparison asked for
        assert(pow10(0) == 1);
        if la <= 57 {
            assert(len == 57);
            assert(e == 57 - la);
            assert(digits_value(b) == m * 1);
            assert(digits_value(a) == v * pow10((57 - la) as nat));
        } else {
            assert(len == la);
            assert(-e == la - 57);
            assert(digits_value(a) == v * 1);
            assert(digits_value(b) == m * pow10((la - 57) as nat));
        }
        assert(f64_at_most_tenth(d@) == (digits_value(a) <= digits_value(b)));
    }
    let mut i: usize = 0;
    while i < len
        invariant
            i <= len,
            a.len() == len,
            b.len() == len,
            la == da.len(),
            mstr@ == ma,
            ma.len() == 57,
            all_digits(a),
            all_digits(b),
            da == d.digits@.skip(z as int),
            z + la == d.digits@.len(),
            n == d.digits@.len(),
            f64_at_most_tenth(d@) == (digits_value(a) <= digits_value(b)),
            forall|j: int| 0 <= j < i ==> a[j] == b[j],
            forall|j: int| 0 <= j < len ==> #[trigger] a[j] == if j < la {
                da[j]
            } else {
                '0'
            },
            forall|j: int| 0 <= j < len ==> #[trigger] b[j] == if j < 57 {
                ma[j]
            } else {
                '0'
            },
        decreases len - i,
    {
        let ca = if i < la {
            assert(z + i < n);
            assert(da[i as int] == d.digits@[z + i]);
            d.digits[z + i]
        } else {
            '0'
        };
        let cb = if i < 57 {
            mstr[i]
        } else {
            '0'
        };
        assert(ca == a[i as int]);
        assert(cb == b[i as int]);
        if ca < cb {
            proof {
                lemma_digits_value_lex(a, b, i as int);
            }
            return true;
        }
        if ca > cb {
            proof {
                lemma_digits_value_lex(b, a, i as int);
            }
            return false;
        }
        i = i + 1;
    }
    assert(a =~= b);
    true
}

} // verus!
