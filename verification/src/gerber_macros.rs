//! Gerber aperture macros (`AM`).
//!
//! A macro definition is the list of its primitive and variable statements
//! as written in the file; it is evaluated later, once per flash, with the
//! modifiers of the aperture that uses it.
//!
//! This module reads the statements: a statement starting with `0` is a
//! comment; `$n=<expr>` assigns a variable; anything else is a primitive, a
//! comma-separated list of expressions whose first one is the primitive code.
//! Expressions use numbers, variables `$n`, `+`, `-`, `x`/`X` (multiply),
//! `/` and parentheses, with the usual precedence; they are read into
//! [`MacroExpr`] trees, which the caller evaluates in floating point with the
//! modifiers of each flash.
use crate::numeric::{is_float_lit, is_float_literal, parse_usize, parse_usize_spec};
use crate::text::{is_ascii_digit, slice_vec, split_chars, split_spec, trim_spec, trim_vec};
use vstd::prelude::*;

verus! {

/// A parsed macro definition: the raw primitive statements, evaluated lazily
/// with the per-flash modifier values.
#[derive(Debug)]
pub struct MacroDef {
    statements: Vec<String>,
}

impl View for MacroDef {
    type V = Seq<Seq<char>>;

    closed spec fn view(&self) -> Seq<Seq<char>> {
        self.statements@.map_values(|s: String| s@)
    }
}

impl MacroDef {
    /// The macro made of `statements`, in order.
    pub fn new(statements: Vec<String>) -> (m: MacroDef)
        ensures
            m@ == statements@.map_values(|s: String| s@),
    {
        MacroDef { statements }
    }

    /// The statements of the macro, in order.
    pub fn statements(&self) -> (s: &Vec<String>)
        ensures
            s@.map_values(|t: String| t@) == self@,
    {
        &self.statements
    }

    /// A copy of the definition.
    pub fn copy(&self) -> (m: MacroDef)
        ensures
            m@ == self@,
    {
        let mut v: Vec<String> = Vec::new();
        let mut i: usize = 0;
        while i < self.statements.len()
            invariant
                i <= self.statements@.len(),
                v@.map_values(|s: String| s@) == self.statements@.take(i as int).map_values(
                    |s: String| s@,
                ),
            decreases self.statements@.len() - i,
        {
            let t = self.statements[i].clone();
            let ghost before = v@.map_values(|s: String| s@);
            v.push(t);
            i = i + 1;
            assert(v@.map_values(|s: String| s@) =~= self.statements@.take(i as int).map_values(
                |s: String| s@,
            )) by {
                assert(self.statements@.take(i as int).map_values(|s: String| s@) =~= before.push(
                    self.statements@[i - 1]@,
                ));
            }
        }
        assert(self.statements@.take(self.statements@.len() as int) =~= self.statements@);
        MacroDef { statements: v }
    }
}


// ---------------------------------------------------------------------------
// Expressions
// ---------------------------------------------------------------------------

/// A token of a macro expression.
#[derive(Debug)]
pub enum MacroTok {
    /// A number (its literal text; a run of digits and points that does not
    /// read as a number stands for `0`).
    Num(Vec<char>),
    /// A variable `$n`.
    Var(usize),
    Plus,
    Minus,
    Mul,
    Div,
    LParen,
    RParen,
}

/// The content of a [`MacroTok`].
pub enum TokView {
    Num(Seq<char>),
    Var(usize),
    Plus,
    Minus,
    Mul,
    Div,
    LParen,
    RParen,
}

impl View for MacroTok {
    type V = TokView;

    open spec fn view(&self) -> TokView {
        match self {
            MacroTok::Num(n) => TokView::Num(n@),
            MacroTok::Var(i) => TokView::Var(*i),
            MacroTok::Plus => TokView::Plus,
            MacroTok::Minus => TokView::Minus,
            MacroTok::Mul => TokView::Mul,
            MacroTok::Div => TokView::Div,
            MacroTok::LParen => TokView::LParen,
            MacroTok::RParen => TokView::RParen,
        }
    }
}

/// A macro expression. `Div` by a zero divisor leaves the dividend as it
/// is; `Zero` stands where an operand is missing.
#[derive(Debug)]
pub enum MacroExpr {
    Num(Vec<char>),
    Var(usize),
    Neg(Box<MacroExpr>),
    Add(Box<MacroExpr>, Box<MacroExpr>),
    Sub(Box<MacroExpr>, Box<MacroExpr>),
    Mul(Box<MacroExpr>, Box<MacroExpr>),
    Div(Box<MacroExpr>, Box<MacroExpr>),
    Zero,
}

/// The content of a [`MacroExpr`].
pub enum ExprView {
    Num(Seq<char>),
    Var(usize),
    Neg(Box<ExprView>),
    Add(Box<ExprView>, Box<ExprView>),
    Sub(Box<ExprView>, Box<ExprView>),
    Mul(Box<ExprView>, Box<ExprView>),
    Div(Box<ExprView>, Box<ExprView>),
    Zero,
}

impl View for MacroExpr {
    type V = ExprView;

    open spec fn view(&self) -> ExprView
        decreases self,
    {
        match self {
            MacroExpr::Num(n) => ExprView::Num(n@),
            MacroExpr::Var(i) => ExprView::Var(*i),
            MacroExpr::Neg(e) => ExprView::Neg(Box::new((**e).view())),
            MacroExpr::Add(a, b) => ExprView::Add(Box::new((**a).view()), Box::new((**b).view())),
            MacroExpr::Sub(a, b) => ExprView::Sub(Box::new((**a).view()), Box::new((**b).view())),
            MacroExpr::Mul(a, b) => ExprView::Mul(Box::new((**a).view()), Box::new((**b).view())),
            MacroExpr::Div(a, b) => ExprView::Div(Box::new((**a).view()), Box::new((**b).view())),
            MacroExpr::Zero => ExprView::Zero,
        }
    }
}

/// The end of the run of digits starting at `i`.
pub open spec fn digit_run_end(s: Seq<char>, i: int) -> int
    decreases s.len() - i,
{
    if i < 0 || i >= s.len() {
        if i < 0 {
            0
        } else {
            s.len() as int
        }
    } else if is_ascii_digit(s[i]) {
        digit_run_end(s, i + 1)
    } else {
        i
    }
}

/// The end of the run of digits and points starting at `i`.
pub open spec fn number_run_end(s: Seq<char>, i: int) -> int
    decreases s.len() - i,
{
    if i < 0 || i >= s.len() {
        if i < 0 {
            0
        } else {
            s.len() as int
        }
    } else if is_ascii_digit(s[i]) || s[i] == '.' {
        number_run_end(s, i + 1)
    } else {
        i
    }
}

pub proof fn lemma_run_ends(s: Seq<char>, i: int)
    requires
        0 <= i <= s.len(),
    ensures
        i <= digit_run_end(s, i) <= s.len(),
        i <= number_run_end(s, i) <= s.len(),
    decreases s.len() - i,
{
    if i < s.len() {
        lemma_run_ends(s, i + 1);
    }
}

/// The variable number of the digits `d` (`0` when they do not read).
pub open spec fn var_index(d: Seq<char>) -> usize {
    match parse_usize_spec(d) {
        Some(v) => v,
        None => 0,
    }
}

/// The tokens of `s` from position `i` on: blanks and tabs are skipped, as
/// is any character that is not part of a token.
pub open spec fn lex_from(s: Seq<char>, i: int) -> Seq<TokView>
    decreases s.len() - i,
{
    if i < 0 || i >= s.len() {
        Seq::<TokView>::empty()
    } else {
        let c = s[i];
        if c == '+' {
            seq![TokView::Plus] + lex_from(s, i + 1)
        } else if c == '-' {
            seq![TokView::Minus] + lex_from(s, i + 1)
        } else if c == 'x' || c == 'X' {
            seq![TokView::Mul] + lex_from(s, i + 1)
        } else if c == '/' {
            seq![TokView::Div] + lex_from(s, i + 1)
        } else if c == '(' {
            seq![TokView::LParen] + lex_from(s, i + 1)
        } else if c == ')' {
            seq![TokView::RParen] + lex_from(s, i + 1)
        } else if c == '$' {
            let e = digit_run_end(s, i + 1);
            proof {
                lemma_run_ends(s, i + 1);
            }
            seq![TokView::Var(var_index(s.subrange(i + 1, e)))] + lex_from(s, e)
        } else if is_ascii_digit(c) || c == '.' {
            let e = number_run_end(s, i + 1);
            proof {
                lemma_run_ends(s, i + 1);
            }
            let run = s.subrange(i, e);
            seq![
                TokView::Num(
                    if is_float_literal(run) {
                        run
                    } else {
                        seq!['0']
                    },
                ),
            ] + lex_from(s, e)
        } else {
            lex_from(s, i + 1)
        }
    }
}

/// A factor at `pos`: a number, a variable, a negated or plus-signed factor,
/// or a parenthesized expression (the closing parenthesis is optional); any
/// other token is consumed and stands for zero. Returns the position after
/// it.
pub open spec fn factor_spec(t: Seq<TokView>, pos: int) -> (ExprView, int)
    decreases t.len() - pos, 0int,
{
    if pos < 0 || pos >= t.len() {
        (ExprView::Zero, if pos < 0 { 0 } else { t.len() as int })
    } else {
        match t[pos] {
            TokView::Num(n) => (ExprView::Num(n), pos + 1),
            TokView::Var(i) => (ExprView::Var(i), pos + 1),
            TokView::Minus => {
                let (e, p) = factor_spec(t, pos + 1);
                (ExprView::Neg(Box::new(e)), p)
            },
            TokView::Plus => factor_spec(t, pos + 1),
            TokView::LParen => {
                let (e, p) = expr_spec(t, pos + 1);
                if 0 <= p < t.len() && t[p] is RParen {
                    (e, p + 1)
                } else {
                    (e, p)
                }
            },
            _ => (ExprView::Zero, pos + 1),
        }
    }
}

/// A term: factors joined by `x` and `/`, left to right.
pub open spec fn term_spec(t: Seq<TokView>, pos: int) -> (ExprView, int)
    decreases t.len() - pos, 1int,
{
    let (f, p) = factor_spec(t, pos);
    if pos < p <= t.len() {
        term_tail(t, p, f)
    } else {
        (f, p)
    }
}

pub open spec fn term_tail(t: Seq<TokView>, pos: int, acc: ExprView) -> (ExprView, int)
    decreases t.len() - pos, 2int,
{
    if 0 <= pos < t.len() && (t[pos] is Mul || t[pos] is Div) {
        let (f, p) = factor_spec(t, pos + 1);
        let acc2 = if t[pos] is Mul {
            ExprView::Mul(Box::new(acc), Box::new(f))
        } else {
            ExprView::Div(Box::new(acc), Box::new(f))
        };
        if pos < p <= t.len() {
            term_tail(t, p, acc2)
        } else {
            (acc2, p)
        }
    } else {
        (acc, pos)
    }
}

/// An expression: terms joined by `+` and `-`, left to right.
pub open spec fn expr_spec(t: Seq<TokView>, pos: int) -> (ExprView, int)
    decreases t.len() - pos, 3int,
{
    let (v, p) = term_spec(t, pos);
    if pos < p <= t.len() {
        expr_tail(t, p, v)
    } else {
        (v, p)
    }
}

pub open spec fn expr_tail(t: Seq<TokView>, pos: int, acc: ExprView) -> (ExprView, int)
    decreases t.len() - pos, 4int,
{
    if 0 <= pos < t.len() && (t[pos] is Plus || t[pos] is Minus) {
        let (v, p) = term_spec(t, pos + 1);
        let acc2 = if t[pos] is Plus {
            ExprView::Add(Box::new(acc), Box::new(v))
        } else {
            ExprView::Sub(Box::new(acc), Box::new(v))
        };
        if pos < p <= t.len() {
            expr_tail(t, p, acc2)
        } else {
            (acc2, p)
        }
    } else {
        (acc, pos)
    }
}

/// Binary minus subtracts the right term from the left one: when the tokens
/// from `pos` on are a term `a`, a `-`, and a term `b` that ends the
/// expression, they read as `a - b` (`Sub(a, b)`), not `b - a`; likewise `+`
/// reads as `a + b`.
pub proof fn law_binary_minus_left_minus_right(t: Seq<TokView>, pos: int)
    requires
        0 <= pos,
        pos < term_spec(t, pos).1 < t.len(),
        t[term_spec(t, pos).1] is Minus || t[term_spec(t, pos).1] is Plus,
        term_spec(t, pos).1 + 1 < term_spec(t, term_spec(t, pos).1 + 1).1 <= t.len(),
        ({
            let q = term_spec(t, term_spec(t, pos).1 + 1).1;
            q == t.len() || !(t[q] is Plus || t[q] is Minus)
        }),
    ensures
        ({
            let (a, p) = term_spec(t, pos);
            let (b, q) = term_spec(t, p + 1);
            &&& t[p] is Minus ==> expr_spec(t, pos) == (ExprView::Sub(Box::new(a), Box::new(b)), q)
            &&& t[p] is Plus ==> expr_spec(t, pos) == (ExprView::Add(Box::new(a), Box::new(b)), q)
        }),
{
    let (a, p) = term_spec(t, pos);
    let (b, q) = term_spec(t, p + 1);
    assert(expr_spec(t, pos) == expr_tail(t, p, a));
    let acc2 = if t[p] is Plus {
        ExprView::Add(Box::new(a), Box::new(b))
    } else {
        ExprView::Sub(Box::new(a), Box::new(b))
    };
    assert(expr_tail(t, p, a) == expr_tail(t, q, acc2));
    assert(expr_tail(t, q, acc2) == (acc2, q));
}

/// Products and quotients keep their operands in order: when the tokens from
/// `pos` on are a factor `a`, an `x` or `/`, and a factor `b` that ends the
/// term, they read as `a x b` (`Mul(a, b)`) or `a / b` (`Div(a, b)`), the
/// dividend first.
pub proof fn law_product_and_quotient_in_order(t: Seq<TokView>, pos: int)
    requires
        0 <= pos,
        pos < factor_spec(t, pos).1 < t.len(),
        t[factor_spec(t, pos).1] is Mul || t[factor_spec(t, pos).1] is Div,
        factor_spec(t, pos).1 + 1 < factor_spec(t, factor_spec(t, pos).1 + 1).1 <= t.len(),
        ({
            let q = factor_spec(t, factor_spec(t, pos).1 + 1).1;
            q == t.len() || !(t[q] is Mul || t[q] is Div)
        }),
    ensures
        ({
            let (a, p) = factor_spec(t, pos);
            let (b, q) = factor_spec(t, p + 1);
            &&& t[p] is Mul ==> term_spec(t, pos) == (ExprView::Mul(Box::new(a), Box::new(b)), q)
            &&& t[p] is Div ==> term_spec(t, pos) == (ExprView::Div(Box::new(a), Box::new(b)), q)
        }),
{
    let (a, p) = factor_spec(t, pos);
    let (b, q) = factor_spec(t, p + 1);
    assert(term_spec(t, pos) == term_tail(t, p, a));
    let acc2 = if t[p] is Mul {
        ExprView::Mul(Box::new(a), Box::new(b))
    } else {
        ExprView::Div(Box::new(a), Box::new(b))
    };
    assert(term_tail(t, p, a) == term_tail(t, q, acc2));
    assert(term_tail(t, q, acc2) == (acc2, q));
}

proof fn lemma_digit_run_end_at(s: Seq<char>, i: int, j: int)
    requires
        0 <= i <= j <= s.len(),
        forall|k: int| i <= k < j ==> is_ascii_digit(#[trigger] s[k]),
        j == s.len() || !is_ascii_digit(s[j]),
    ensures
        digit_run_end(s, i) == j,
    decreases j - i,
{
    if i < j {
        lemma_digit_run_end_at(s, i + 1, j);
    }
}

/// `$i-$j` reads as variable `i` minus variable `j`.
pub proof fn law_variable_difference(d1: Seq<char>, d2: Seq<char>)
    requires
        d1.len() > 0,
        d2.len() > 0,
        crate::numeric::all_digits(d1),
        crate::numeric::all_digits(d2),
    ensures
        parse_expr_spec(seq!['$'] + d1 + seq!['-', '$'] + d2) == ExprView::Sub(
            Box::new(ExprView::Var(var_index(d1))),
            Box::new(ExprView::Var(var_index(d2))),
        ),
{
    let s = seq!['$'] + d1 + seq!['-', '$'] + d2;
    let e1: int = d1.len() + 1int;
    let n = s.len() as int;
    assert(s[0] == '$');
    assert(s[e1] == '-');
    assert(s[e1 + 1] == '$');
    assert forall|k: int| 1 <= k < e1 implies is_ascii_digit(#[trigger] s[k]) by {
        assert(s[k] == d1[k - 1]);
    }
    assert forall|k: int| e1 + 2 <= k < n implies is_ascii_digit(#[trigger] s[k]) by {
        assert(s[k] == d2[k - e1 - 2]);
    }
    lemma_digit_run_end_at(s, 1, e1);
    lemma_digit_run_end_at(s, e1 + 2, n);
    assert(s.subrange(1, e1) =~= d1);
    assert(s.subrange(e1 + 2, n) =~= d2);
    let t2 = lex_from(s, e1 + 1);
    assert(lex_from(s, n) =~= Seq::<TokView>::empty());
    assert(t2 =~= seq![TokView::Var(var_index(d2))]);
    assert(lex_from(s, e1) =~= seq![TokView::Minus] + t2);
    let t = lex_from(s, 0);
    assert(t =~= seq![TokView::Var(var_index(d1)), TokView::Minus, TokView::Var(var_index(d2))]);
    assert(term_spec(t, 0) == (ExprView::Var(var_index(d1)), 1int));
    assert(term_spec(t, 2) == (ExprView::Var(var_index(d2)), 3int));
    law_binary_minus_left_minus_right(t, 0);
}

/// Differences chain to the left: `a - b - c` reads as `(a - b) - c`.
pub proof fn law_minus_chains_left(t: Seq<TokView>, pos: int)
    requires
        0 <= pos,
        pos < term_spec(t, pos).1 < t.len(),
        t[term_spec(t, pos).1] is Minus,
        term_spec(t, pos).1 + 1 < term_spec(t, term_spec(t, pos).1 + 1).1 < t.len(),
        t[term_spec(t, term_spec(t, pos).1 + 1).1] is Minus,
        ({
            let q = term_spec(t, term_spec(t, pos).1 + 1).1;
            &&& q + 1 < term_spec(t, q + 1).1 <= t.len()
            &&& term_spec(t, q + 1).1 == t.len() || !(t[term_spec(t, q + 1).1] is Plus
                || t[term_spec(t, q + 1).1] is Minus)
        }),
    ensures
        ({
            let (a, p) = term_spec(t, pos);
            let (b, q) = term_spec(t, p + 1);
            let (c, r) = term_spec(t, q + 1);
            expr_spec(t, pos) == (
                ExprView::Sub(Box::new(ExprView::Sub(Box::new(a), Box::new(b))), Box::new(c)),
                r,
            )
        }),
{
    let (a, p) = term_spec(t, pos);
    let (b, q) = term_spec(t, p + 1);
    let (c, r) = term_spec(t, q + 1);
    let ab = ExprView::Sub(Box::new(a), Box::new(b));
    assert(expr_spec(t, pos) == expr_tail(t, p, a));
    assert(expr_tail(t, p, a) == expr_tail(t, q, ab));
    assert(expr_tail(t, q, ab) == expr_tail(t, r, ExprView::Sub(Box::new(ab), Box::new(c))));
}

/// The expression written in `s` (tokens after it are ignored).
pub open spec fn parse_expr_spec(s: Seq<char>) -> ExprView {
    expr_spec(lex_from(s, 0), 0).0
}

pub open spec fn toks_view(t: Seq<MacroTok>) -> Seq<TokView> {
    t.map_values(|k: MacroTok| k@)
}

/// The tokens of `s`.
pub fn lex(s: &[char]) -> (toks: Vec<MacroTok>)
    ensures
        toks_view(toks@) == lex_from(s@, 0),
{
    let n = s.len();
    let mut toks: Vec<MacroTok> = Vec::new();
    let mut i: usize = 0;
    while i < n
        invariant
            n == s@.len(),
            i <= n,
            toks_view(toks@) + lex_from(s@, i as int) == lex_from(s@, 0),
        decreases n - i,
    {
        let ghost before = toks_view(toks@);
        let c = s[i];
        let ghost next_i: int;
        let tok: Option<MacroTok>;
        if c == '+' {
            tok = Some(MacroTok::Plus);
            i = i + 1;
        } else if c == '-' {
            tok = Some(MacroTok::Minus);
            i = i + 1;
        } else if c == 'x' || c == 'X' {
            tok = Some(MacroTok::Mul);
            i = i + 1;
        } else if c == '/' {
            tok = Some(MacroTok::Div);
            i = i + 1;
        } else if c == '(' {
            tok = Some(MacroTok::LParen);
            i = i + 1;
        } else if c == ')' {
            tok = Some(MacroTok::RParen);
            i = i + 1;
        } else if c == '$' {
            let start = i + 1;
            let mut e = start;
            proof {
                lemma_run_ends(s@, start as int);
            }
            while e < n && '0' <= s[e] && s[e] <= '9'
                invariant
                    start <= e <= n,
                    n == s@.len(),
                    digit_run_end(s@, e as int) == digit_run_end(s@, start as int),
                decreases n - e,
            {
                e = e + 1;
            }
            let d = slice_vec(s, start, e);
            let v = match parse_usize(&d) {
                Some(v) => v,
                None => 0,
            };
            tok = Some(MacroTok::Var(v));
            i = e;
        } else if ('0' <= c && c <= '9') || c == '.' {
            let start = i;
            let mut e = start + 1;
            proof {
                lemma_run_ends(s@, start + 1);
            }
            while e < n && (('0' <= s[e] && s[e] <= '9') || s[e] == '.')
                invariant
                    start + 1 <= e <= n,
                    n == s@.len(),
                    number_run_end(s@, e as int) == number_run_end(s@, start + 1),
                decreases n - e,
            {
                e = e + 1;
            }
            let run = slice_vec(s, start, e);
            let lit = if is_float_lit(&run) {
                run
            } else {
                let mut z: Vec<char> = Vec::new();
                z.push('0');
                assert(z@ =~= seq!['0']);
                z
            };
            tok = Some(MacroTok::Num(lit));
            i = e;
        } else {
            tok = None;
            i = i + 1;
        }
        match tok {
            Some(t) => {
                let ghost tv = t@;
                toks.push(t);
                assert(toks_view(toks@) =~= before.push(tv));
                assert(before.push(tv) + lex_from(s@, i as int) =~= before + (seq![tv] + lex_from(
                    s@,
                    i as int,
                )));
            },
            None => {},
        }
    }
    assert(toks_view(toks@) + lex_from(s@, i as int) =~= toks_view(toks@));
    toks
}

fn parse_factor(t: &Vec<MacroTok>, pos: usize) -> (r: (MacroExpr, usize))
    requires
        pos <= t@.len(),
    ensures
        (r.0@, r.1 as int) == factor_spec(toks_view(t@), pos as int),
        r.1 <= t@.len(),
    decreases t@.len() - pos, 0int,
{
    if pos >= t.len() {
        return (MacroExpr::Zero, t.len());
    }
    assert(toks_view(t@)[pos as int] == t@[pos as int]@);
    match &t[pos] {
        MacroTok::Num(n) => {
            let c = slice_vec(n, 0, n.len());
            assert(c@ =~= n@);
            (MacroExpr::Num(c), pos + 1)
        },
        MacroTok::Var(i) => (MacroExpr::Var(*i), pos + 1),
        MacroTok::Minus => {
            let (e, p) = parse_factor(t, pos + 1);
            (MacroExpr::Neg(Box::new(e)), p)
        },
        MacroTok::Plus => parse_factor(t, pos + 1),
        MacroTok::LParen => {
            let (e, p) = parse_expr_at(t, pos + 1);
            if p < t.len() {
                assert(toks_view(t@)[p as int] == t@[p as int]@);
                match &t[p] {
                    MacroTok::RParen => {
                        return (e, p + 1);
                    },
                    _ => {},
                }
            }
            (e, p)
        },
        _ => (MacroExpr::Zero, pos + 1),
    }
}

fn parse_term(t: &Vec<MacroTok>, pos: usize) -> (r: (MacroExpr, usize))
    requires
        pos <= t@.len(),
    ensures
        (r.0@, r.1 as int) == term_spec(toks_view(t@), pos as int),
        r.1 <= t@.len(),
    decreases t@.len() - pos, 1int,
{
    let (f, p) = parse_factor(t, pos);
    if pos < p {
        parse_term_tail(t, p, f)
    } else {
        (f, p)
    }
}

fn parse_term_tail(t: &Vec<MacroTok>, pos: usize, acc: MacroExpr) -> (r: (MacroExpr, usize))
    requires
        pos <= t@.len(),
    ensures
        (r.0@, r.1 as int) == term_tail(toks_view(t@), pos as int, acc@),
        r.1 <= t@.len(),
    decreases t@.len() - pos, 2int,
{
    if pos < t.len() {
        assert(toks_view(t@)[pos as int] == t@[pos as int]@);
        let is_mul = match &t[pos] {
            MacroTok::Mul => Some(true),
            MacroTok::Div => Some(false),
            _ => None,
        };
        match is_mul {
            Some(m) => {
                let (f, p) = parse_factor(t, pos + 1);
                let acc2 = if m {
                    MacroExpr::Mul(Box::new(acc), Box::new(f))
                } else {
                    MacroExpr::Div(Box::new(acc), Box::new(f))
                };
                if pos < p {
                    return parse_term_tail(t, p, acc2);
                } else {
                    return (acc2, p);
                }
            },
            None => {},
        }
    }
    (acc, pos)
}

fn parse_expr_at(t: &Vec<MacroTok>, pos: usize) -> (r: (MacroExpr, usize))
    requires
        pos <= t@.len(),
    ensures
        (r.0@, r.1 as int) == expr_spec(toks_view(t@), pos as int),
        r.1 <= t@.len(),
    decreases t@.len() - pos, 3int,
{
    let (v, p) = parse_term(t, pos);
    if pos < p {
        parse_expr_tail(t, p, v)
    } else {
        (v, p)
    }
}

fn parse_expr_tail(t: &Vec<MacroTok>, pos: usize, acc: MacroExpr) -> (r: (MacroExpr, usize))
    requires
        pos <= t@.len(),
    ensures
        (r.0@, r.1 as int) == expr_tail(toks_view(t@), pos as int, acc@),
        r.1 <= t@.len(),
    decreases t@.len() - pos, 4int,
{
    if pos < t.len() {
        assert(toks_view(t@)[pos as int] == t@[pos as int]@);
        let is_add = match &t[pos] {
            MacroTok::Plus => Some(true),
            MacroTok::Minus => Some(false),
            _ => None,
        };
        match is_add {
            Some(a) => {
                let (v, p) = parse_term(t, pos + 1);
                let acc2 = if a {
                    MacroExpr::Add(Box::new(acc), Box::new(v))
                } else {
                    MacroExpr::Sub(Box::new(acc), Box::new(v))
                };
                if pos < p {
                    return parse_expr_tail(t, p, acc2);
                } else {
                    return (acc2, p);
                }
            },
            None => {},
        }
    }
    (acc, pos)
}

/// The expression written in `s`.
pub fn parse_expr(s: &[char]) -> (e: MacroExpr)
    ensures
        e@ == parse_expr_spec(s@),
{
    let toks = lex(s);
    let (e, _p) = parse_expr_at(&toks, 0);
    e
}

// ---------------------------------------------------------------------------
// Statements
// ---------------------------------------------------------------------------

/// A statement of a macro.
#[derive(Debug)]
pub enum MacroStmt {
    /// `$n=<expr>`.
    Assign { var: usize, expr: MacroExpr },
    /// A primitive: its comma-separated expressions (the first one is the
    /// primitive code).
    Primitive { args: Vec<MacroExpr> },
}

/// The content of a [`MacroStmt`].
pub enum StmtView {
    Assign { var: usize, expr: ExprView },
    Primitive { args: Seq<ExprView> },
}

pub open spec fn exprs_view(v: Seq<MacroExpr>) -> Seq<ExprView> {
    v.map_values(|e: MacroExpr| e@)
}

impl View for MacroStmt {
    type V = StmtView;

    open spec fn view(&self) -> StmtView {
        match self {
            MacroStmt::Assign { var, expr } => StmtView::Assign { var: *var, expr: expr@ },
            MacroStmt::Primitive { args } => StmtView::Primitive { args: exprs_view(args@) },
        }
    }
}

/// The expressions of the comma-separated pieces `p[..n]`, each trimmed.
pub open spec fn args_spec(p: Seq<Seq<char>>, n: int) -> Seq<ExprView>
    decreases n,
{
    if n <= 0 || n > p.len() {
        Seq::<ExprView>::empty()
    } else {
        args_spec(p, n - 1).push(parse_expr_spec(trim_spec(p[n - 1])))
    }
}

/// A statement, trimmed: `None` for a blank or a comment (starting with
/// `0`); an assignment when it starts with `$` and holds a `=`; otherwise a
/// primitive.
pub open spec fn stmt_spec(stmt: Seq<char>) -> Option<StmtView> {
    let s = trim_spec(stmt);
    let eq = crate::numeric::first_index(s, '=');
    if s.len() == 0 || s[0] == '0' {
        None
    } else if eq < s.len() && s[0] == '$' {
        Some(
            StmtView::Assign {
                var: var_index(trim_spec(s.subrange(1, eq))),
                expr: parse_expr_spec(trim_spec(s.skip(eq + 1))),
            },
        )
    } else {
        let p = split_spec(s, ',');
        Some(StmtView::Primitive { args: args_spec(p, p.len() as int) })
    }
}

/// The statements of `stmts[..n]` that are not blanks or comments.
pub open spec fn program_spec(stmts: Seq<Seq<char>>, n: int) -> Seq<StmtView>
    decreases n,
{
    if n <= 0 || n > stmts.len() {
        Seq::<StmtView>::empty()
    } else {
        match stmt_spec(stmts[n - 1]) {
            Some(st) => program_spec(stmts, n - 1).push(st),
            None => program_spec(stmts, n - 1),
        }
    }
}

pub open spec fn stmts_view(v: Seq<MacroStmt>) -> Seq<StmtView> {
    v.map_values(|m: MacroStmt| m@)
}

/// One statement (see [`stmt_spec`]).
fn read_stmt(stmt: &[char]) -> (r: Option<MacroStmt>)
    ensures
        match r {
            Some(m) => stmt_spec(stmt@) == Some(m@),
            None => stmt_spec(stmt@) is None,
        },
{
    let s = trim_vec(stmt);
    if s.len() == 0 || s[0] == '0' {
        return None;
    }
    let eq = crate::numeric::find_char(&s, '=');
    if eq < s.len() && s[0] == '$' {
        let name = slice_vec(&s, 1, eq);
        let name = trim_vec(&name);
        let var = match parse_usize(&name) {
            Some(v) => v,
            None => 0,
        };
        let rhs = slice_vec(&s, eq + 1, s.len());
        assert(rhs@ =~= s@.skip(eq + 1));
        let rhs = trim_vec(&rhs);
        return Some(MacroStmt::Assign { var, expr: parse_expr(&rhs) });
    }
    let pieces = split_chars(&s, ',');
    let ghost pv = pieces@.map_values(|x: Vec<char>| x@);
    let mut args: Vec<MacroExpr> = Vec::new();
    let mut k: usize = 0;
    while k < pieces.len()
        invariant
            k <= pieces@.len(),
            pv == pieces@.map_values(|x: Vec<char>| x@),
            exprs_view(args@) == args_spec(pv, k as int),
        decreases pieces@.len() - k,
    {
        let a = trim_vec(&pieces[k]);
        let e = parse_expr(&a);
        let ghost before = exprs_view(args@);
        let ghost ev = e@;
        args.push(e);
        assert(exprs_view(args@) =~= before.push(ev));
        k = k + 1;
    }
    Some(MacroStmt::Primitive { args })
}

impl MacroDef {
    /// The statements of the macro that are not blanks or comments, read.
    pub fn program(&self) -> (p: Vec<MacroStmt>)
        ensures
            stmts_view(p@) == program_spec(self@, self@.len() as int),
    {
        let mut out: Vec<MacroStmt> = Vec::new();
        let mut i: usize = 0;
        while i < self.statements.len()
            invariant
                i <= self.statements@.len(),
                self@ == self.statements@.map_values(|s: String| s@),
                stmts_view(out@) == program_spec(self@, i as int),
            decreases self.statements@.len() - i,
        {
            let c = crate::text::chars_of(self.statements[i].as_str());
            assert(c@ == self@[i as int]);
            match read_stmt(&c) {
                Some(m) => {
                    let ghost before = stmts_view(out@);
                    let ghost mv = m@;
                    out.push(m);
                    assert(stmts_view(out@) =~= before.push(mv));
                },
                None => {},
            }
            i = i + 1;
        }
        out
    }
}

proof fn lemma_program_prefix(a: Seq<Seq<char>>, b: Seq<Seq<char>>, n: int)
    requires
        0 <= n <= a.len(),
        n <= b.len(),
        forall|k: int| 0 <= k < n ==> a[k] == b[k],
    ensures
        program_spec(a, n) == program_spec(b, n),
    decreases n,
{
    if n > 0 {
        lemma_program_prefix(a, b, n - 1);
    }
}

proof fn lemma_program_insert_comment(stmts: Seq<Seq<char>>, k: int, c: Seq<char>, n: int)
    requires
        0 <= k <= n <= stmts.len(),
        stmt_spec(c) is None,
    ensures
        program_spec(stmts.insert(k, c), n + 1) == program_spec(stmts, n),
    decreases n - k,
{
    let s2 = stmts.insert(k, c);
    stmts.insert_ensures(k, c);
    if n == k {
        assert(s2[k] == c);
        lemma_program_prefix(s2, stmts, k);
    } else {
        lemma_program_insert_comment(stmts, k, c, n - 1);
        assert(s2[n] == stmts[n - 1]);
    }
}

/// Blank statements and comments (primitive `0`) have no effect: inserting,
/// at any position of a macro body, a statement that is empty or starts with
/// `0` once trimmed leaves the program read from the body, and so what every
/// flash of the macro evaluates, unchanged.
pub proof fn law_macro_comments_change_nothing(stmts: Seq<Seq<char>>, k: int, c: Seq<char>)
    requires
        0 <= k <= stmts.len(),
        trim_spec(c).len() == 0 || trim_spec(c)[0] == '0',
    ensures
        program_spec(stmts.insert(k, c), stmts.len() + 1int) == program_spec(stmts, stmts.len() as int),
{
    lemma_program_insert_comment(stmts, k, c, stmts.len() as int);
}

} // verus!
