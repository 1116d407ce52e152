//! Calibration tables typed or pasted as text: focus-ramp kerf measurements
//! (`z, width_x, width_y`) and power-curve samples (`power, depth`).
//!
//! Each line carries a fixed number of numeric fields, separated by commas
//! or, failing that, by whitespace. Reading is lenient: blank lines, `#`
//! comments, header rows and any line whose leading fields are not all
//! finite numbers are skipped; extra trailing columns are ignored. The
//! fields are handed back as the number texts read (trimmed), each one a
//! floating-point literal whose value is finite.
use crate::numeric::{
    all_digits, digit_value, digits_value, first_index, is_float_literal, lemma_digits_value_append,
    lemma_digits_value_bound, lemma_digits_value_lex, lemma_digits_value_lower,
    lemma_digits_value_zeros, lemma_pow10_add, lemma_pow10_mono, lemma_pow10_pos,
    lemma_zeros_value, plain_literal_decimal, pow10, signed_int_spec, DecimalView,
};
use crate::text::{ascii_lower_spec, is_ascii_digit, split_spec, trim_spec};
use crate::gcode_reader::{ws_scan, ws_words};
use crate::drill_writer::{lines_text, lemma_lines_text_push};
use crate::text::{is_ws, join_spec, lemma_split_join};
use vstd::prelude::*;

verus! {

// ---------------------------------------------------------------------------
// Finite numbers
// ---------------------------------------------------------------------------

/// The exact value of a floating-point literal that writes a number (not
/// `inf`, `infinity` or `nan`): its sign, the digits of its mantissa with the
/// point removed, and the exponent written less the number of fraction
/// digits.
pub open spec fn float_value(t: Seq<char>) -> Option<DecimalView> {
    if !is_float_literal(t) {
        None
    } else {
        let l = ascii_lower_spec(t);
        let neg = l.len() > 0 && l[0] == '-';
        let body = if l.len() > 0 && (l[0] == '+' || l[0] == '-') {
            l.drop_first()
        } else {
            l
        };
        if body == "inf"@ || body == "infinity"@ || body == "nan"@ {
            None
        } else {
            let k = first_index(body, 'e');
            let x: int = if k < body.len() {
                match signed_int_spec(body.skip(k + 1)) {
                    Some(v) => v,
                    None => 0,
                }
            } else {
                0
            };
            let m = plain_literal_decimal(body.take(k));
            Some(DecimalView { negative: neg, digits: m.digits, exponent: m.exponent + x })
        }
    }
}

/// The digits of the least magnitude an `f64` reading rounds to infinity:
/// `2^1024 - 2^970`, halfway between `f64::MAX` and `2^1024` (a tie rounds
/// to the even significand, that is, up).
pub open spec fn overflow_digits() -> Seq<char> {
    "179769313486231580793728971405303415079934132710037826936173778980444968292764750946649017977587207096330286416692887910946555547851940402630657488671505820681908902000708383676273854845817711531764475730270069855571366959622842914819860834936475292719074168444365510704342711559699508093042880177904174497792"@
}

/// The magnitude of `d` is below the overflow threshold.
pub open spec fn below_overflow(d: DecimalView) -> bool {
    let v = digits_value(d.digits);
    let t = digits_value(overflow_digits());
    if d.exponent >= 0 {
        v * pow10(d.exponent as nat) < t
    } else {
        v < t * pow10((-d.exponent) as nat)
    }
}

/// `t` reads as a finite `f64`: a literal writing a number whose magnitude
/// does not round to infinity.
pub open spec fn finite_literal(t: Seq<char>) -> bool {
    match float_value(t) {
        Some(d) => below_overflow(d),
        None => false,
    }
}

pub proof fn lemma_overflow_digits()
    ensures
        overflow_digits().len() == 309,
        all_digits(overflow_digits()),
        overflow_digits()[0] == '1',
        pow10(308) <= digits_value(overflow_digits()) < pow10(309),
{
    reveal_strlit("179769313486231580793728971405303415079934132710037826936173778980444968292764750946649017977587207096330286416692887910946555547851940402630657488671505820681908902000708383676273854845817711531764475730270069855571366959622842914819860834936475292719074168444365510704342711559699508093042880177904174497792");
    let m = overflow_digits();
    assert(all_digits(m)) by {
        assert forall|i: int| 0 <= i < m.len() implies is_ascii_digit(#[trigger] m[i]) by {
            reveal_strlit("179769313486231580793728971405303415079934132710037826936173778980444968292764750946649017977587207096330286416692887910946555547851940402630657488671505820681908902000708383676273854845817711531764475730270069855571366959622842914819860834936475292719074168444365510704342711559699508093042880177904174497792");
        }
    }
    lemma_digits_value_lower(m);
    lemma_digits_value_bound(m);
}

/// A cap on exponent magnitudes above every length a slice can have.
pub open spec fn exponent_cap() -> u128 {
    1_000_000_000_000_000_000_000u128
}

/// The value of the digit string `d`, if it does not exceed `cap`.
fn digits_value_upto_wide(d: &[char], cap: u128) -> (r: Option<u128>)
    requires
        all_digits(d@),
        cap >= 9,
    ensures
        match r {
            Some(v) => v == digits_value(d@) && v <= cap,
            None => digits_value(d@) > cap,
        },
{
    let mut acc: u128 = 0;
    let mut i: usize = 0;
    while i < d.len()
        invariant
            i <= d@.len(),
            all_digits(d@),
            cap >= 9,
            acc == digits_value(d@.take(i as int)),
            acc <= cap,
        decreases d@.len() - i,
    {
        let c = d[i];
        assert(is_ascii_digit(d@[i as int]));
        let dig = (c as u32 - 48) as u128;
        proof {
            assert(d@.take(i + 1).drop_last() =~= d@.take(i as int));
            assert(d@.take(i + 1).last() == c);
        }
        if acc > (cap - dig) / 10 {
            proof {
                assert(acc * 10 + dig > cap) by (nonlinear_arith)
                    requires
                        acc > (cap - dig) / 10,
                        dig <= 9,
                        cap >= 9,
                ;
                crate::numeric::lemma_digits_value_prefix(d@, i + 1, d@.len() as int);
                assert(d@.take(d@.len() as int) =~= d@);
            }
            return None;
        }
        proof {
            assert(acc * 10 + dig <= cap) by (nonlinear_arith)
                requires
                    acc <= (cap - dig) / 10,
                    dig <= 9,
            ;
        }
        acc = acc * 10 + dig;
        i = i + 1;
    }
    assert(d@.take(d@.len() as int) =~= d@);
    Some(acc)
}

/// `v * 10^e` is below the overflow threshold.
pub open spec fn below_threshold(v: nat, e: int) -> bool {
    let t = digits_value(overflow_digits());
    if e >= 0 {
        v * pow10(e as nat) < t
    } else {
        v < t * pow10((-e) as nat)
    }
}

/// A value of `l` digits whose order `l + e` is at most 308 is below the
/// threshold.
pub proof fn lemma_small_order(v: nat, l: nat, e: int)
    requires
        l >= 1,
        v < pow10(l),
        l + e <= 308,
    ensures
        below_threshold(v, e),
{
    lemma_overflow_digits();
    let t = digits_value(overflow_digits());
    if e >= 0 {
        let q = pow10(e as nat);
        lemma_pow10_add(l, e as nat);
        lemma_pow10_mono((l + e) as nat, 308);
        lemma_pow10_pos(e as nat);
        assert(v * q < pow10(l) * q) by (nonlinear_arith)
            requires
                v < pow10(l),
                q >= 1,
        ;
    } else {
        let f = (-e) as nat;
        let q = pow10(f);
        lemma_pow10_pos(f);
        lemma_pow10_pos(308);
        if f >= l {
            lemma_pow10_mono(l, f);
            assert(1 * q <= t * q) by (nonlinear_arith)
                requires
                    t >= 1,
                    q >= 1,
            ;
        } else {
            let r = (l - f) as nat;
            lemma_pow10_add(r, f);
            assert(r + f == l);
            lemma_pow10_mono(r, 308);
            assert(pow10(r) * q <= t * q) by (nonlinear_arith)
                requires
                    pow10(r) <= t,
                    q >= 1,
            ;
        }
    }
}

/// A value of `l` digits (no leading zero) whose order `l + e` is at least
/// 310 is not below the threshold.
pub proof fn lemma_large_order(v: nat, l: nat, e: int)
    requires
        l >= 1,
        v >= pow10((l - 1) as nat),
        l + e >= 310,
    ensures
        !below_threshold(v, e),
{
    lemma_overflow_digits();
    let t = digits_value(overflow_digits());
    if e >= 0 {
        let q = pow10(e as nat);
        lemma_pow10_add((l - 1) as nat, e as nat);
        lemma_pow10_mono(309, (l - 1 + e) as nat);
        assert(v * q >= pow10((l - 1) as nat) * q) by (nonlinear_arith)
            requires
                v >= pow10((l - 1) as nat),
                q >= 0,
        ;
    } else {
        let f = (-e) as nat;
        let q = pow10(f);
        let r = (l - 1 - f) as nat;
        lemma_pow10_add(r, f);
        assert(r + f == l - 1);
        lemma_pow10_mono(309, r);
        lemma_pow10_pos(f);
        assert(t * q <= pow10(r) * q) by (nonlinear_arith)
            requires
                t <= pow10(r),
                q >= 1,
        ;
    }
}

/// Is `v * 10^e` below the threshold, where `v` is the value of `digits`
/// and `e` is the exponent `x` (its sign and magnitude, `None` when the
/// magnitude exceeds [`exponent_cap`]) less `frac`?
fn below_overflow_exec(digits: &[char], frac: usize, xneg: bool, xmag: Option<u128>, Ghost(x): Ghost<int>) -> (b: bool)
    requires
        all_digits(digits@),
        match xmag {
            Some(m) => x == (if xneg { -(m as int) } else { m as int }) && m <= exponent_cap(),
            None => if xneg { x < -(exponent_cap() as int) } else { x > exponent_cap() as int },
        },
    ensures
        b == below_threshold(digits_value(digits@), x - frac),
{
    let ghost ds = digits@;
    let ghost e: int = x - frac;
    let n = digits.len();
    let mut z: usize = 0;
    while z < n && digits[z] == '0'
        invariant
            z <= n,
            n == ds.len(),
            ds == digits@,
            forall|j: int| 0 <= j < z ==> ds[j] == '0',
        decreases n - z,
    {
        z = z + 1;
    }
    let ghost sd = ds.skip(z as int);
    proof {
        assert(ds.take(z as int) =~= Seq::new(z as nat, |i: int| '0'));
        assert(ds.take(z as int) + sd =~= ds);
        lemma_digits_value_append(ds.take(z as int), sd);
        lemma_zeros_value(z as nat);
        assert(all_digits(sd)) by {
            assert forall|i: int| 0 <= i < sd.len() implies is_ascii_digit(#[trigger] sd[i]) by {
                assert(sd[i] == ds[i + z]);
            }
        }
        assert(0 * pow10(sd.len()) == 0);
    }
    let ghost v = digits_value(sd);
    assert(digits_value(ds) == v);
    proof {
        lemma_overflow_digits();
    }
    if z == n {
        proof {
            assert(sd.len() == 0);
            assert(v == 0);
            lemma_pow10_pos(if e >= 0 { e as nat } else { (-e) as nat });
            if e >= 0 {
                assert(0 * pow10(e as nat) == 0);
            } else {
                let t = digits_value(overflow_digits());
                assert(t * pow10((-e) as nat) >= 1) by (nonlinear_arith)
                    requires
                        t >= 1,
                        pow10((-e) as nat) >= 1,
                ;
            }
        }
        return true;
    }
    let l = n - z;
    proof {
        assert(sd.len() == l);
        assert(sd[0] != '0');
        lemma_digits_value_lower(sd);
        lemma_digits_value_bound(sd);
    }
    match xmag {
        None => {
            if xneg {
                proof {
                    lemma_small_order(v, l as nat, e);
                }
                return true;
            } else {
                proof {
                    lemma_large_order(v, l as nat, e);
                }
                return false;
            }
        },
        Some(m) => {
            let xi: i128 = if xneg { 0 - (m as i128) } else { m as i128 };
            let o: i128 = (l as i128) + xi - (frac as i128);
            assert(o == l + e);
            if o <= 308 {
                proof {
                    lemma_small_order(v, l as nat, e);
                }
                return true;
            }
            if o >= 310 {
                proof {
                    lemma_large_order(v, l as nat, e);
                }
                return false;
            }
            compare_at_order(digits, z, Ghost(e))
        },
    }
}

/// With `l + e == 309` (`l` the number of digits from `z` on, the first of
/// them not zero): is `v * 10^e` below the threshold? The digits and the
/// threshold's are compared after padding both with zeros to one length.
fn compare_at_order(digits: &[char], z: usize, Ghost(e): Ghost<int>) -> (b: bool)
    requires
        all_digits(digits@),
        z < digits@.len(),
        digits@[z as int] != '0',
        (digits@.len() - z) + e == 309,
    ensures
        b == below_threshold(digits_value(digits@.skip(z as int)), e),
{
    let ghost sd = digits@.skip(z as int);
    let dl = digits.len();
    let l = dl - z;
    let tc = crate::text::chars_of("179769313486231580793728971405303415079934132710037826936173778980444968292764750946649017977587207096330286416692887910946555547851940402630657488671505820681908902000708383676273854845817711531764475730270069855571366959622842914819860834936475292719074168444365510704342711559699508093042880177904174497792");
    proof {
        reveal_strlit("179769313486231580793728971405303415079934132710037826936173778980444968292764750946649017977587207096330286416692887910946555547851940402630657488671505820681908902000708383676273854845817711531764475730270069855571366959622842914819860834936475292719074168444365510704342711559699508093042880177904174497792");
        lemma_overflow_digits();
    }
    assert(tc@ == overflow_digits());
    let n: usize = if l > 309 { l } else { 309 };
    let ghost a = sd + Seq::new((n - l) as nat, |i: int| '0');
    let ghost bb = overflow_digits() + Seq::new((n - 309) as nat, |i: int| '0');
    proof {
        assert(all_digits(sd)) by {
            assert forall|i: int| 0 <= i < sd.len() implies is_ascii_digit(#[trigger] sd[i]) by {
                assert(sd[i] == digits@[i + z]);
            }
        }
        assert(all_digits(a)) by {
            assert forall|i: int| 0 <= i < a.len() implies is_ascii_digit(#[trigger] a[i]) by {
                if i < sd.len() {
                    assert(a[i] == sd[i]);
                }
            }
        }
        assert(all_digits(bb)) by {
            assert forall|i: int| 0 <= i < bb.len() implies is_ascii_digit(#[trigger] bb[i]) by {
                if i < 309 {
                    assert(bb[i] == overflow_digits()[i]);
                }
            }
        }
        lemma_digits_value_zeros(sd, (n - l) as nat);
        lemma_digits_value_zeros(overflow_digits(), (n - 309) as nat);
        let v = digits_value(sd);
        let t = digits_value(overflow_digits());
        if e >= 0 {
            assert(n == 309);
            assert(n - l == e);
            assert(digits_value(a) == v * pow10(e as nat));
            assert(pow10(0) == 1);
            assert(digits_value(bb) == t);
        } else {
            assert(n == l);
            assert(n - 309 == -e);
            assert(digits_value(a) == v * pow10(0));
            assert(pow10(0) == 1);
            assert(digits_value(bb) == t * pow10((-e) as nat));
        }
        assert(below_threshold(v, e) == (digits_value(a) < digits_value(bb)));
    }
    let mut j: usize = 0;
    while j < n
        invariant
            j <= n,
            n == a.len(),
            n == bb.len(),
            l == sd.len(),
            l == digits@.len() - z,
            dl == digits@.len(),
            l == dl - z,
            z < digits@.len(),
            sd == digits@.skip(z as int),
            tc@ == overflow_digits(),
            overflow_digits().len() == 309,
            n >= 309,
            n >= l,
            a == sd + Seq::new((n - l) as nat, |i: int| '0'),
            bb == overflow_digits() + Seq::new((n - 309) as nat, |i: int| '0'),
            all_digits(a),
            all_digits(bb),
            below_threshold(digits_value(sd), e) == (digits_value(a) < digits_value(bb)),
            forall|i: int| 0 <= i < j ==> a[i] == bb[i],
        decreases n - j,
    {
        let ca = if j < l {
            assert(z + j < digits@.len());
            digits[z + j]
        } else {
            '0'
        };
        let cb = if j < 309 { tc[j] } else { '0' };
        assert(ca == a[j as int]) by {
            if j < l {
                assert(a[j as int] == sd[j as int]);
            }
        }
        assert(cb == bb[j as int]) by {
            if j < 309 {
                assert(bb[j as int] == overflow_digits()[j as int]);
            }
        }
        if ca != cb {
            assert(is_ascii_digit(a[j as int]) && is_ascii_digit(bb[j as int]));
            if ca < cb {
                proof {
                    lemma_digits_value_lex(a, bb, j as int);
                }
                return true;
            } else {
                proof {
                    lemma_digits_value_lex(bb, a, j as int);
                }
                return false;
            }
        }
        j = j + 1;
    }
    assert(a =~= bb);
    false
}

/// The digits of a mantissa (`Digit* [. Digit*]`) with the point removed,
/// and the number of digits after the point.
fn mantissa_digits(m: &[char]) -> (r: (Vec<char>, usize))
    requires
        crate::numeric::float_mantissa(m@),
    ensures
        r.0@ == plain_literal_decimal(m@).digits,
        r.1 as int == -plain_literal_decimal(m@).exponent,
        all_digits(r.0@),
{
    proof {
        crate::numeric::lemma_first_index(m@, '.');
    }
    let kd = crate::numeric::find_char(m, '.');
    let mut digits = crate::text::slice_vec(m, 0, kd);
    let mut frac: usize = 0;
    let ghost d0 = digits@;
    assert(d0 =~= m@.take(kd as int));
    if kd < m.len() {
        let fr = crate::text::slice_vec(m, kd + 1, m.len());
        assert(fr@ =~= m@.skip(kd + 1));
        let mut i: usize = 0;
        while i < fr.len()
            invariant
                i <= fr@.len(),
                digits@ == d0 + fr@.take(i as int),
            decreases fr@.len() - i,
        {
            digits.push(fr[i]);
            i = i + 1;
            assert(digits@ =~= d0 + fr@.take(i as int));
        }
        assert(fr@.take(fr@.len() as int) =~= fr@);
        frac = fr.len();
    } else {
        assert(d0 + Seq::<char>::empty() =~= d0);
    }
    proof {
        let mv = m@;
        assert(!(mv.len() > 0 && (mv[0] == '+' || mv[0] == '-'))) by {
            if mv.len() > 0 {
                assert(is_ascii_digit(mv[0]) || mv[0] == '.');
            }
        }
        assert forall|i: int| 0 <= i < digits@.len() implies is_ascii_digit(#[trigger] digits@[i]) by {
            if i < kd {
                assert(digits@[i] == mv[i]);
                assert(mv[i] != '.');
                assert(is_ascii_digit(mv[i]) || mv[i] == '.');
            } else {
                assert(digits@[i] == mv[i + 1]);
                assert(mv[kd as int] == '.');
                assert(is_ascii_digit(mv[i + 1]) || mv[i + 1] == '.');
                assert(mv[i + 1] != '.');
            }
        }
    }
    (digits, frac)
}

/// Does `t` read as a finite `f64` (see [`finite_literal`])?
pub fn finite_number(t: &[char]) -> (b: bool)
    ensures
        b == finite_literal(t@),
{
    if !crate::numeric::is_float_lit(t) {
        return false;
    }
    let lw = crate::text::to_ascii_lower(t);
    let start: usize = if lw.len() > 0 && (lw[0] == '+' || lw[0] == '-') {
        1
    } else {
        0
    };
    let body = crate::text::slice_vec(&lw, start, lw.len());
    proof {
        if start == 1 {
            assert(body@ =~= lw@.drop_first());
        } else {
            assert(body@ =~= lw@);
        }
    }
    if crate::text::eq_text(&body, "inf") || crate::text::eq_text(&body, "infinity")
        || crate::text::eq_text(&body, "nan") {
        return false;
    }
    let ghost bv = body@;
    proof {
        crate::numeric::lemma_first_index(bv, 'e');
    }
    let k = crate::numeric::find_char(&body, 'e');
    let m = crate::text::slice_vec(&body, 0, k);
    assert(m@ =~= bv.take(k as int));
    assert(crate::numeric::float_body(bv));
    let (digits, frac) = mantissa_digits(&m);
    let ghost x: int = if k < bv.len() {
        match signed_int_spec(bv.skip(k + 1)) {
            Some(v) => v,
            None => 0,
        }
    } else {
        0
    };
    let cap: u128 = 1_000_000_000_000_000_000_000u128;
    let (xneg, xmag): (bool, Option<u128>) = if k < body.len() {
        let ex = crate::text::slice_vec(&body, k + 1, body.len());
        assert(ex@ =~= bv.skip(k + 1));
        assert(signed_int_spec(ex@) is Some);
        if ex[0] == '+' || ex[0] == '-' {
            let dg = crate::text::slice_vec(&ex, 1, ex.len());
            assert(dg@ =~= ex@.drop_first());
            (ex[0] == '-', digits_value_upto_wide(&dg, cap))
        } else {
            (false, digits_value_upto_wide(&ex, cap))
        }
    } else {
        (false, Some(0u128))
    };
    below_overflow_exec(&digits, frac, xneg, xmag, Ghost(x))
}

// ---------------------------------------------------------------------------
// Lines and tables
// ---------------------------------------------------------------------------

/// Taking fields from `toks[i..]` with `acc` taken so far: once `need`
/// fields are taken the rest is ignored; a token (trimmed) that is not a
/// finite number, or running out of tokens, fails.
pub open spec fn fields_from(toks: Seq<Seq<char>>, i: int, acc: Seq<Seq<char>>, need: nat) -> Option<
    Seq<Seq<char>>,
>
    decreases toks.len() - i,
{
    if acc.len() >= need {
        Some(acc)
    } else if i < 0 || i >= toks.len() {
        None
    } else if finite_literal(trim_spec(toks[i])) {
        fields_from(toks, i + 1, acc.push(trim_spec(toks[i])), need)
    } else {
        None
    }
}

/// The first `need` fields of a line: none for a blank line or a `#`
/// comment; else the comma-separated fields if they supply them, else the
/// whitespace-separated ones.
pub open spec fn line_fields(line: Seq<char>, need: nat) -> Option<Seq<Seq<char>>> {
    let t = trim_spec(line);
    if t.len() == 0 || t[0] == '#' {
        None
    } else {
        match fields_from(split_spec(t, ','), 0, Seq::<Seq<char>>::empty(), need) {
            Some(f) => Some(f),
            None => fields_from(ws_words(t), 0, Seq::<Seq<char>>::empty(), need),
        }
    }
}

/// The fields of the lines `ls[..n]` that supply them, in order.
pub open spec fn table_rows(ls: Seq<Seq<char>>, n: int, need: nat) -> Seq<Seq<Seq<char>>>
    decreases n,
{
    if n <= 0 || n > ls.len() {
        Seq::<Seq<Seq<char>>>::empty()
    } else {
        match line_fields(ls[n - 1], need) {
            Some(f) => table_rows(ls, n - 1, need).push(f),
            None => table_rows(ls, n - 1, need),
        }
    }
}

/// The rows of a table text.
pub open spec fn csv_rows(text: Seq<char>, need: nat) -> Seq<Seq<Seq<char>>> {
    let ls = split_spec(text, '\n');
    table_rows(ls, ls.len() as int, need)
}

pub open spec fn char_vecs(v: Seq<Vec<char>>) -> Seq<Seq<char>> {
    v.map_values(|x: Vec<char>| x@)
}

/// The first `need` finite numbers of `toks` (see [`fields_from`]).
fn take_fields(toks: &Vec<Vec<char>>, need: usize) -> (r: Option<Vec<Vec<char>>>)
    ensures
        match r {
            Some(f) => fields_from(char_vecs(toks@), 0, Seq::<Seq<char>>::empty(), need as nat)
                == Some(char_vecs(f@)),
            None => fields_from(char_vecs(toks@), 0, Seq::<Seq<char>>::empty(), need as nat) is None,
        },
{
    let ghost tv = char_vecs(toks@);
    let mut out: Vec<Vec<char>> = Vec::new();
    let mut i: usize = 0;
    assert(char_vecs(out@) =~= Seq::<Seq<char>>::empty());
    while i < toks.len()
        invariant
            i <= toks@.len(),
            tv == char_vecs(toks@),
            out@.len() <= need,
            fields_from(tv, i as int, char_vecs(out@), need as nat) == fields_from(
                tv,
                0,
                Seq::<Seq<char>>::empty(),
                need as nat,
            ),
        ensures
            i <= toks@.len(),
            out@.len() <= need,
            out@.len() == need || i == toks@.len(),
            fields_from(tv, i as int, char_vecs(out@), need as nat) == fields_from(
                tv,
                0,
                Seq::<Seq<char>>::empty(),
                need as nat,
            ),
        decreases toks@.len() - i,
    {
        if out.len() == need {
            break;
        }
        let f = crate::text::trim_vec(&toks[i]);
        assert(tv[i as int] == toks@[i as int]@);
        if !finite_number(&f) {
            return None;
        }
        let ghost before = char_vecs(out@);
        out.push(f);
        assert(char_vecs(out@) =~= before.push(f@));
        i = i + 1;
    }
    if out.len() == need {
        assert(fields_from(tv, i as int, char_vecs(out@), need as nat) == Some(char_vecs(out@)));
        Some(out)
    } else {
        assert(fields_from(tv, i as int, char_vecs(out@), need as nat) is None);
        None
    }
}

/// The first `need` fields of a line (see [`line_fields`]).
pub fn parse_fields(line: &[char], need: usize) -> (r: Option<Vec<Vec<char>>>)
    ensures
        match r {
            Some(f) => line_fields(line@, need as nat) == Some(char_vecs(f@)),
            None => line_fields(line@, need as nat) is None,
        },
{
    let t = crate::text::trim_vec(line);
    if t.len() == 0 || t[0] == '#' {
        return None;
    }
    let by_comma = crate::text::split_chars(&t, ',');
    assert(char_vecs(by_comma@) == split_spec(t@, ','));
    match take_fields(&by_comma, need) {
        Some(f) => Some(f),
        None => {
            let by_ws = crate::gcode_reader::split_ws(&t);
            assert(char_vecs(by_ws@) == ws_words(t@));
            take_fields(&by_ws, need)
        },
    }
}

/// The rows of a table text: for every line that supplies `need` fields,
/// those fields.
pub fn parse_rows(text: &str, need: usize) -> (r: Vec<Vec<Vec<char>>>)
    ensures
        r@.map_values(|row: Vec<Vec<char>>| char_vecs(row@)) == csv_rows(text@, need as nat),
{
    let chars = crate::text::chars_of(text);
    let lines = crate::text::split_chars(&chars, '\n');
    let ghost lv = lines@.map_values(|x: Vec<char>| x@);
    let mut out: Vec<Vec<Vec<char>>> = Vec::new();
    let mut i: usize = 0;
    while i < lines.len()
        invariant
            i <= lines@.len(),
            lv == lines@.map_values(|x: Vec<char>| x@),
            lv == split_spec(text@, '\n'),
            out@.map_values(|row: Vec<Vec<char>>| char_vecs(row@)) == table_rows(lv, i as int, need as nat),
        decreases lines@.len() - i,
    {
        assert(lv[i as int] == lines@[i as int]@);
        match parse_fields(&lines[i], need) {
            Some(f) => {
                let ghost before = out@.map_values(|row: Vec<Vec<char>>| char_vecs(row@));
                let ghost fv = char_vecs(f@);
                out.push(f);
                assert(out@.map_values(|row: Vec<Vec<char>>| char_vecs(row@)) =~= before.push(fv));
            },
            None => {},
        }
        i = i + 1;
    }
    out
}

pub proof fn lemma_fields_len(toks: Seq<Seq<char>>, i: int, acc: Seq<Seq<char>>, need: nat)
    requires
        acc.len() <= need,
    ensures
        fields_from(toks, i, acc, need) matches Some(f) ==> f.len() == need,
    decreases toks.len() - i,
{
    if acc.len() < need && 0 <= i < toks.len() && finite_literal(trim_spec(toks[i])) {
        lemma_fields_len(toks, i + 1, acc.push(trim_spec(toks[i])), need);
    }
}

pub proof fn lemma_rows_len(ls: Seq<Seq<char>>, n: int, need: nat)
    ensures
        forall|k: int| 0 <= k < table_rows(ls, n, need).len() ==> (#[trigger] table_rows(ls, n, need)[k]).len() == need,
    decreases n,
{
    if 0 < n <= ls.len() {
        lemma_rows_len(ls, n - 1, need);
        let t = trim_spec(ls[n - 1]);
        lemma_fields_len(split_spec(t, ','), 0, Seq::<Seq<char>>::empty(), need);
        lemma_fields_len(ws_words(t), 0, Seq::<Seq<char>>::empty(), need);
        let prev = table_rows(ls, n - 1, need);
        match line_fields(ls[n - 1], need) {
            Some(f) => {
                assert(f.len() == need);
                assert(table_rows(ls, n, need) == prev.push(f));
                assert forall|k: int| 0 <= k < prev.push(f).len() implies (#[trigger] prev.push(f)[k]).len() == need by {
                    if k < prev.len() {
                        assert(prev.push(f)[k] == prev[k]);
                    }
                }
            },
            None => {},
        }
    }
}

// ---------------------------------------------------------------------------
// Kerf and power tables
// ---------------------------------------------------------------------------

/// One kerf measurement: the focus height and the kerf widths along X and
/// Y, as the number texts read.
#[derive(Clone, Debug, PartialEq, Eq)]
pub struct KerfRow {
    pub z: String,
    pub width_x: String,
    pub width_y: String,
}

impl View for KerfRow {
    type V = (Seq<char>, Seq<char>, Seq<char>);

    open spec fn view(&self) -> (Seq<char>, Seq<char>, Seq<char>) {
        (self.z@, self.width_x@, self.width_y@)
    }
}

/// The kerf measurements of a table text: every line that supplies three
/// finite numbers (`z, width_x, width_y`).
pub open spec fn kerf_rows_spec(text: Seq<char>) -> Seq<(Seq<char>, Seq<char>, Seq<char>)> {
    csv_rows(text, 3).map_values(|f: Seq<Seq<char>>| (f[0], f[1], f[2]))
}

/// The power samples of a table text: every line that supplies two finite
/// numbers (`power, depth`).
pub open spec fn power_rows_spec(text: Seq<char>) -> Seq<(Seq<char>, Seq<char>)> {
    csv_rows(text, 2).map_values(|f: Seq<Seq<char>>| (f[0], f[1]))
}

/// Reads a kerf-measurement table (`z, width_x, width_y` per line, comma or
/// whitespace separated); blank, comment, header and malformed lines are
/// skipped.
pub fn parse_kerf_csv(text: &str) -> (r: Vec<KerfRow>)
    ensures
        r@.map_values(|k: KerfRow| k@) == kerf_rows_spec(text@),
{
    let rows = parse_rows(text, 3);
    let ghost rv = rows@.map_values(|row: Vec<Vec<char>>| char_vecs(row@));
    proof {
        let ls = split_spec(text@, '\n');
        lemma_rows_len(ls, ls.len() as int, 3);
    }
    let mut out: Vec<KerfRow> = Vec::new();
    let mut i: usize = 0;
    while i < rows.len()
        invariant
            i <= rows@.len(),
            rv == rows@.map_values(|row: Vec<Vec<char>>| char_vecs(row@)),
            rv == csv_rows(text@, 3),
            forall|k: int| 0 <= k < rv.len() ==> (#[trigger] rv[k]).len() == 3,
            out@.map_values(|k: KerfRow| k@) == rv.take(i as int).map_values(
                |f: Seq<Seq<char>>| (f[0], f[1], f[2]),
            ),
        decreases rows@.len() - i,
    {
        let row = &rows[i];
        assert(rv[i as int] == char_vecs(row@));
        assert(rv[i as int].len() == 3);
        let k = KerfRow {
            z: crate::text::string_from_chars(&row[0]),
            width_x: crate::text::string_from_chars(&row[1]),
            width_y: crate::text::string_from_chars(&row[2]),
        };
        let ghost before = out@.map_values(|k: KerfRow| k@);
        out.push(k);
        assert(out@.map_values(|k: KerfRow| k@) =~= before.push(k@));
        assert(rv.take(i + 1) =~= rv.take(i as int).push(rv[i as int]));
        assert(rv.take(i + 1).map_values(|f: Seq<Seq<char>>| (f[0], f[1], f[2])) =~= rv.take(i as int).map_values(
            |f: Seq<Seq<char>>| (f[0], f[1], f[2]),
        ).push((rv[i as int][0], rv[i as int][1], rv[i as int][2])));
        i = i + 1;
    }
    assert(rv.take(rv.len() as int) =~= rv);
    out
}

/// Reads a power-curve sample table (`power, depth` per line, comma or
/// whitespace separated); blank, comment, header and malformed lines are
/// skipped.
pub fn parse_power_csv(text: &str) -> (r: Vec<(String, String)>)
    ensures
        r@.map_values(|p: (String, String)| (p.0@, p.1@)) == power_rows_spec(text@),
{
    let rows = parse_rows(text, 2);
    let ghost rv = rows@.map_values(|row: Vec<Vec<char>>| char_vecs(row@));
    proof {
        let ls = split_spec(text@, '\n');
        lemma_rows_len(ls, ls.len() as int, 2);
    }
    let mut out: Vec<(String, String)> = Vec::new();
    let mut i: usize = 0;
    while i < rows.len()
        invariant
            i <= rows@.len(),
            rv == rows@.map_values(|row: Vec<Vec<char>>| char_vecs(row@)),
            rv == csv_rows(text@, 2),
            forall|k: int| 0 <= k < rv.len() ==> (#[trigger] rv[k]).len() == 2,
            out@.map_values(|p: (String, String)| (p.0@, p.1@)) == rv.take(i as int).map_values(
                |f: Seq<Seq<char>>| (f[0], f[1]),
            ),
        decreases rows@.len() - i,
    {
        let row = &rows[i];
        assert(rv[i as int] == char_vecs(row@));
        assert(rv[i as int].len() == 2);
        let p = (crate::text::string_from_chars(&row[0]), crate::text::string_from_chars(&row[1]));
        let ghost before = out@.map_values(|p: (String, String)| (p.0@, p.1@));
        out.push(p);
        assert(out@.map_values(|p: (String, String)| (p.0@, p.1@)) =~= before.push((p.0@, p.1@)));
        assert(rv.take(i + 1) =~= rv.take(i as int).push(rv[i as int]));
        assert(rv.take(i + 1).map_values(|f: Seq<Seq<char>>| (f[0], f[1])) =~= rv.take(i as int).map_values(
            |f: Seq<Seq<char>>| (f[0], f[1]),
        ).push((rv[i as int][0], rv[i as int][1])));
        i = i + 1;
    }
    assert(rv.take(rv.len() as int) =~= rv);
    out
}

// ---------------------------------------------------------------------------
// Writing a kerf table
// ---------------------------------------------------------------------------

/// `z,width_x,width_y` as one line.
pub open spec fn kerf_row_line(r: (Seq<char>, Seq<char>, Seq<char>)) -> Seq<char> {
    r.0 + seq![','] + r.1 + seq![','] + r.2
}

/// The lines of a kerf table: the header, then one line per measurement.
pub open spec fn kerf_csv_lines(rows: Seq<(Seq<char>, Seq<char>, Seq<char>)>) -> Seq<Seq<char>> {
    seq!["z,width_x,width_y"@] + rows.map_values(|r: (Seq<char>, Seq<char>, Seq<char>)| kerf_row_line(r))
}

/// Appends the characters of `s`.
fn append_text(out: &mut Vec<char>, s: &str)
    ensures
        final(out)@ == old(out)@ + s@,
{
    let cs = crate::text::chars_of(s);
    let ghost o = out@;
    let mut i: usize = 0;
    while i < cs.len()
        invariant
            i <= cs@.len(),
            out@ == o + cs@.take(i as int),
        decreases cs@.len() - i,
    {
        out.push(cs[i]);
        i = i + 1;
        assert(out@ =~= o + cs@.take(i as int));
    }
    assert(cs@.take(cs@.len() as int) =~= cs@);
}

/// A kerf table as text: the header `z,width_x,width_y`, then one line per
/// measurement with its three numbers (already rendered) separated by
/// commas; every line ends with a newline.
pub fn kerf_csv_text(rows: &Vec<KerfRow>) -> (s: String)
    ensures
        s@ == lines_text(kerf_csv_lines(rows@.map_values(|k: KerfRow| k@))),
{
    let ghost rv = rows@.map_values(|k: KerfRow| k@);
    let mut out: Vec<char> = Vec::new();
    append_text(&mut out, "z,width_x,width_y");
    out.push('\n');
    proof {
        reveal_strlit("z,width_x,width_y");
        lemma_lines_text_push(Seq::<Seq<char>>::empty(), "z,width_x,width_y"@);
        assert(out@ =~= lines_text(seq!["z,width_x,width_y"@]));
    }
    let mut i: usize = 0;
    while i < rows.len()
        invariant
            i <= rows@.len(),
            rv == rows@.map_values(|k: KerfRow| k@),
            out@ == lines_text(kerf_csv_lines(rv.take(i as int))),
        decreases rows@.len() - i,
    {
        let ghost o = out@;
        let r = &rows[i];
        append_text(&mut out, r.z.as_str());
        out.push(',');
        append_text(&mut out, r.width_x.as_str());
        out.push(',');
        append_text(&mut out, r.width_y.as_str());
        out.push('\n');
        proof {
            let l = kerf_row_line(rv[i as int]);
            assert(rv[i as int] == r@);
            assert(out@ =~= o + l + seq!['\n']);
            let a = kerf_csv_lines(rv.take(i as int));
            assert(kerf_csv_lines(rv.take(i + 1)) =~= a.push(l));
            lemma_lines_text_push(a, l);
        }
        i = i + 1;
    }
    assert(rv.take(rv.len() as int) =~= rv);
    crate::text::string_from_chars(&out)
}

// ---------------------------------------------------------------------------
// Reading back a written kerf table
// ---------------------------------------------------------------------------

/// A field the table can carry: a finite number without whitespace or
/// comma.
pub open spec fn csv_field(f: Seq<char>) -> bool {
    finite_literal(f) && forall|k: int| 0 <= k < f.len() ==> !is_ws(#[trigger] f[k]) && f[k] != ','
}

/// A text whose first character cannot start a literal (a sign, a digit, a
/// point, or the `i`/`n` of `inf`/`nan`) is not a literal.
pub proof fn lemma_not_literal(t: Seq<char>)
    requires
        t.len() > 0,
        !is_ascii_digit(t[0]),
        t[0] != '+' && t[0] != '-' && t[0] != '.',
        crate::text::ascii_lower(t[0]) != 'i',
        crate::text::ascii_lower(t[0]) != 'n',
    ensures
        !is_float_literal(t),
{
    reveal_strlit("inf");
    reveal_strlit("infinity");
    reveal_strlit("nan");
    let l = ascii_lower_spec(t);
    assert(l[0] == crate::text::ascii_lower(t[0]));
    assert(!is_ascii_digit(l[0]) && l[0] != '.' && l[0] != '+' && l[0] != '-');
    assert(l != "inf"@ && l != "infinity"@ && l != "nan"@);
    crate::numeric::lemma_first_index(l, 'e');
    let k = first_index(l, 'e');
    if k > 0 {
        assert(l.take(k)[0] == l[0]);
    } else {
        assert(l.take(k).len() == 0);
    }
}

/// A finite number does not start with `#`.
pub proof fn lemma_finite_not_comment(f: Seq<char>)
    requires
        finite_literal(f),
    ensures
        f.len() > 0,
        f[0] != '#',
{
    reveal_strlit("inf");
    reveal_strlit("infinity");
    reveal_strlit("nan");
    if f.len() == 0 {
        let l = ascii_lower_spec(f);
        assert(l.len() == 0);
        assert(first_index(l, 'e') == 0);
        assert(!crate::numeric::float_mantissa(l.take(0)));
    } else if f[0] == '#' {
        lemma_not_literal(f);
    }
}

/// A text without whitespace is one whitespace-separated piece.
pub proof fn lemma_ws_scan_plain(s: Seq<char>)
    requires
        forall|k: int| 0 <= k < s.len() ==> !is_ws(#[trigger] s[k]),
    ensures
        ws_scan(s) == (Seq::<Seq<char>>::empty(), s),
    decreases s.len(),
{
    if s.len() > 0 {
        lemma_ws_scan_plain(s.drop_last());
        assert(!is_ws(s[s.len() - 1]));
        assert(s.drop_last().push(s.last()) =~= s);
    }
}

/// The header line is skipped.
pub proof fn lemma_header_skipped(need: nat)
    requires
        need >= 1,
    ensures
        line_fields("z,width_x,width_y"@, need) is None,
{
    reveal_strlit("z,width_x,width_y");
    let h = "z,width_x,width_y"@;
    crate::drill_round_trip::lemma_trim_no_ws(h);
    let pieces = split_spec(h, ',');
    let p0 = seq!['z'];
    let p1 = seq!['w', 'i', 'd', 't', 'h', '_', 'x'];
    let p2 = seq!['w', 'i', 'd', 't', 'h', '_', 'y'];
    assert(seq![p0, p1].drop_last() =~= seq![p0]);
    assert(seq![p0, p1, p2].drop_last() =~= seq![p0, p1]);
    assert(join_spec(seq![p0], ',') == p0);
    assert(join_spec(seq![p0, p1], ',') == join_spec(seq![p0], ',').push(',') + p1);
    assert(join_spec(seq![p0, p1, p2], ',') == join_spec(seq![p0, p1], ',').push(',') + p2);
    assert(join_spec(seq![p0, p1, p2], ',') =~= h);
    assert(!p0.contains(','));
    assert(!p1.contains(',')) by {
        assert forall|k: int| 0 <= k < p1.len() implies p1[k] != ',' by {}
    }
    assert(!p2.contains(',')) by {
        assert forall|k: int| 0 <= k < p2.len() implies p2[k] != ',' by {}
    }
    lemma_split_join(seq![p0, p1, p2], ',');
    assert(pieces == seq![p0, p1, p2]);
    crate::drill_round_trip::lemma_trim_no_ws(p0);
    lemma_not_literal(p0);
    assert(!finite_literal(trim_spec(pieces[0])));
    lemma_ws_scan_plain(h);
    assert(ws_words(h) == seq![h]);
    lemma_not_literal(h);
}

/// A written measurement line reads as its three fields.
pub proof fn lemma_row_line(r: (Seq<char>, Seq<char>, Seq<char>))
    requires
        csv_field(r.0),
        csv_field(r.1),
        csv_field(r.2),
    ensures
        line_fields(kerf_row_line(r), 3) == Some(seq![r.0, r.1, r.2]),
{
    let l = kerf_row_line(r);
    let ps = seq![r.0, r.1, r.2];
    assert(seq![r.0, r.1].drop_last() =~= seq![r.0]);
    assert(ps.drop_last() =~= seq![r.0, r.1]);
    assert(join_spec(seq![r.0], ',') == r.0);
    assert(join_spec(seq![r.0, r.1], ',') == join_spec(seq![r.0], ',').push(',') + r.1);
    assert(join_spec(ps, ',') == join_spec(seq![r.0, r.1], ',').push(',') + r.2);
    assert(join_spec(ps, ',') =~= l);
    assert forall|i: int| 0 <= i < ps.len() implies !(#[trigger] ps[i]).contains(',') by {
        let p = ps[i];
        if p.contains(',') {
            let k = choose|k: int| 0 <= k < p.len() && p[k] == ',';
            assert(p[k] != ',');
        }
    }
    lemma_split_join(ps, ',');
    crate::drill_round_trip::lemma_trim_no_ws(r.0);
    crate::drill_round_trip::lemma_trim_no_ws(r.1);
    crate::drill_round_trip::lemma_trim_no_ws(r.2);
    assert forall|k: int| 0 <= k < l.len() implies !is_ws(#[trigger] l[k]) by {
        let a = r.0.len() as int;
        let b = a + 1 + r.1.len();
        if k < a {
            assert(l[k] == r.0[k]);
        } else if a < k < b {
            assert(l[k] == r.1[k - a - 1]);
        } else if k > b {
            assert(l[k] == r.2[k - b - 1]);
        }
    }
    crate::drill_round_trip::lemma_trim_no_ws(l);
    lemma_finite_not_comment(r.0);
    assert(l[0] == r.0[0]);
    let e = Seq::<Seq<char>>::empty();
    assert(fields_from(ps, 3, seq![r.0, r.1, r.2], 3) == Some(seq![r.0, r.1, r.2]));
    assert(seq![r.0, r.1].push(r.2) =~= seq![r.0, r.1, r.2]);
    assert(seq![r.0].push(r.1) =~= seq![r.0, r.1]);
    assert(e.push(r.0) =~= seq![r.0]);
    assert(fields_from(ps, 2, seq![r.0, r.1], 3) == fields_from(ps, 3, seq![r.0, r.1, r.2], 3));
    assert(fields_from(ps, 1, seq![r.0], 3) == fields_from(ps, 2, seq![r.0, r.1], 3));
    assert(fields_from(ps, 0, e, 3) == fields_from(ps, 1, seq![r.0], 3));
}

pub open spec fn row_fields(r: (Seq<char>, Seq<char>, Seq<char>)) -> Seq<Seq<char>> {
    seq![r.0, r.1, r.2]
}

/// The rows of the first `n` measurement lines (after the header).
pub proof fn lemma_kerf_rows(rows: Seq<(Seq<char>, Seq<char>, Seq<char>)>, n: int)
    requires
        0 <= n <= rows.len(),
        forall|i: int| 0 <= i < rows.len() ==> csv_field((#[trigger] rows[i]).0) && csv_field(rows[i].1) && csv_field(rows[i].2),
    ensures
        table_rows(kerf_csv_lines(rows).push(Seq::<char>::empty()), n + 1, 3)
            == rows.take(n).map_values(|r: (Seq<char>, Seq<char>, Seq<char>)| row_fields(r)),
    decreases n,
{
    let ls = kerf_csv_lines(rows).push(Seq::<char>::empty());
    if n == 0 {
        assert(ls[0] == "z,width_x,width_y"@);
        lemma_header_skipped(3);
        assert(table_rows(ls, 0, 3) == Seq::<Seq<Seq<char>>>::empty());
        assert(rows.take(0).map_values(|r: (Seq<char>, Seq<char>, Seq<char>)| row_fields(r)) =~= Seq::<Seq<Seq<char>>>::empty());
    } else {
        lemma_kerf_rows(rows, n - 1);
        assert(ls[n] == kerf_row_line(rows[n - 1]));
        lemma_row_line(rows[n - 1]);
        assert(rows.take(n).map_values(|r: (Seq<char>, Seq<char>, Seq<char>)| row_fields(r)) =~= rows.take(n - 1).map_values(
            |r: (Seq<char>, Seq<char>, Seq<char>)| row_fields(r),
        ).push(row_fields(rows[n - 1])));
    }
}

/// A kerf table written from measurements whose fields are finite numbers
/// (without whitespace or commas) reads back as those measurements, in
/// order: the header line is skipped and every measurement line gives its
/// three fields.
pub proof fn law_kerf_csv_reads_back(rows: Seq<(Seq<char>, Seq<char>, Seq<char>)>)
    requires
        forall|i: int| 0 <= i < rows.len() ==> csv_field((#[trigger] rows[i]).0) && csv_field(rows[i].1) && csv_field(rows[i].2),
    ensures
        kerf_rows_spec(lines_text(kerf_csv_lines(rows))) == rows,
{
    reveal_strlit("z,width_x,width_y");
    let ls = kerf_csv_lines(rows);
    assert forall|k: int| 0 <= k < ls.len() implies !(#[trigger] ls[k]).contains('\n') by {
        let l = ls[k];
        if l.contains('\n') {
            let j = choose|j: int| 0 <= j < l.len() && l[j] == '\n';
            if k == 0 {
                assert(l == "z,width_x,width_y"@);
            } else {
                let r = rows[k - 1];
                assert(l == kerf_row_line(r));
                let a = r.0.len() as int;
                let b = a + 1 + r.1.len();
                if j < a {
                    assert(l[j] == r.0[j]);
                    assert(!is_ws(r.0[j]));
                } else if a < j < b {
                    assert(l[j] == r.1[j - a - 1]);
                    assert(!is_ws(r.1[j - a - 1]));
                } else if j > b {
                    assert(l[j] == r.2[j - b - 1]);
                    assert(!is_ws(r.2[j - b - 1]));
                }
            }
        }
    }
    crate::drill_round_trip::lemma_split_lines_text(ls);
    let lp = ls.push(Seq::<char>::empty());
    lemma_kerf_rows(rows, rows.len() as int);
    assert(lp[lp.len() - 1] == Seq::<char>::empty());
    crate::drill_round_trip::lemma_trim_no_ws(Seq::<char>::empty());
    assert(line_fields(Seq::<char>::empty(), 3) is None);
    assert(table_rows(lp, lp.len() as int, 3) == table_rows(lp, rows.len() as int + 1, 3));
    assert(rows.take(rows.len() as int) =~= rows);
    let fr = rows.map_values(|r: (Seq<char>, Seq<char>, Seq<char>)| row_fields(r));
    assert(fr.map_values(|f: Seq<Seq<char>>| (f[0], f[1], f[2])) =~= rows);
}

} // verus!
