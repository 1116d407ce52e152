//! A minimal G-code reader: program text back to milling paths.
//!
//! The interpreter is line based and modal. `G20` selects inches, `G21`
//! millimetres (the default); `G0`/`G1` set the motion mode, which bare
//! coordinate lines reuse; `X`, `Y`, `Z` words update the position (a missing
//! axis keeps its value). A Z below zero means the tool is cutting: plunging
//! seeds a path with the current XY, every feed move with an XY word while
//! cutting extends it, and lifting the tool (or a rapid while not cutting)
//! ends it; a path is kept when it has at least two points. Lines starting
//! with `(`, `;` or `%` are ignored.
//!
//! Reading happens in two steps. [`gcode_words`] splits the text into the
//! words of each line: a letter (upper-cased) and the number after it, kept
//! only when the number is a floating-point literal. The caller reads each
//! number with `f64::from_str` and hands back its IEEE-754 bit pattern;
//! [`read_gcode`] then runs the interpreter on those bit patterns, comparing
//! them as `f64` values are compared (NaN unequal to everything, the two
//! zeros equal) and rounding G codes as `f64::round` followed by a
//! saturating conversion to `i64` does.
use crate::gcode::Units;
use crate::numeric::{is_float_lit, is_float_literal};
use crate::text::{ascii_upper, is_whitespace, is_ws, slice_vec, split_chars, split_spec, trim_spec, trim_vec};
use vstd::prelude::*;

verus! {

// ---------------------------------------------------------------------------
// Words of a program
// ---------------------------------------------------------------------------

/// The words and the run of non-whitespace text being built while `s` is
/// scanned from the start.
pub open spec fn ws_scan(s: Seq<char>) -> (Seq<Seq<char>>, Seq<char>)
    decreases s.len(),
{
    if s.len() == 0 {
        (Seq::<Seq<char>>::empty(), Seq::<char>::empty())
    } else {
        let (w, c) = ws_scan(s.drop_last());
        if is_ws(s.last()) {
            if c.len() > 0 {
                (w.push(c), Seq::<char>::empty())
            } else {
                (w, Seq::<char>::empty())
            }
        } else {
            (w, c.push(s.last()))
        }
    }
}

/// The whitespace-separated pieces of `s` (as `str::split_whitespace`).
pub open spec fn ws_words(s: Seq<char>) -> Seq<Seq<char>> {
    let (w, c) = ws_scan(s);
    if c.len() > 0 {
        w.push(c)
    } else {
        w
    }
}

pub open spec fn is_ascii_alpha(c: char) -> bool {
    ('a' <= c && c <= 'z') || ('A' <= c && c <= 'Z')
}

/// A word `X12.3`: its letter (upper-cased), when it is an ASCII letter, and
/// the number after it, when it reads as an `f64`.
pub open spec fn split_word_spec(w: Seq<char>) -> Option<(char, Seq<char>)> {
    if w.len() == 0 {
        None
    } else {
        let letter = ascii_upper(w[0]);
        if is_ascii_alpha(letter) && is_float_literal(w.skip(1)) {
            Some((letter, w.skip(1)))
        } else {
            None
        }
    }
}

/// The words of `pieces[..n]` that read.
pub open spec fn read_words(pieces: Seq<Seq<char>>, n: int) -> Seq<(char, Seq<char>)>
    decreases n,
{
    if n <= 0 || n > pieces.len() {
        Seq::<(char, Seq<char>)>::empty()
    } else {
        match split_word_spec(pieces[n - 1]) {
            Some(w) => read_words(pieces, n - 1).push(w),
            None => read_words(pieces, n - 1),
        }
    }
}

/// A line that the reader skips: blank, or starting with `(`, `;` or `%`.
pub open spec fn skipped_line(l: Seq<char>) -> bool {
    l.len() == 0 || l[0] == '(' || l[0] == ';' || l[0] == '%'
}

/// The words of every line of `lines[..n]` (trimmed) that is not skipped.
pub open spec fn program_words(lines: Seq<Seq<char>>, n: int) -> Seq<Seq<(char, Seq<char>)>>
    decreases n,
{
    if n <= 0 || n > lines.len() {
        Seq::<Seq<(char, Seq<char>)>>::empty()
    } else {
        let l = trim_spec(lines[n - 1]);
        if skipped_line(l) {
            program_words(lines, n - 1)
        } else {
            let pieces = ws_words(l);
            program_words(lines, n - 1).push(read_words(pieces, pieces.len() as int))
        }
    }
}

/// The words of each line of a program.
pub open spec fn gcode_words_spec(text: Seq<char>) -> Seq<Seq<(char, Seq<char>)>> {
    let lines = split_spec(text, '\n');
    program_words(lines, lines.len() as int)
}

/// The whitespace-separated pieces of `s`.
pub(crate) fn split_ws(s: &[char]) -> (r: Vec<Vec<char>>)
    ensures
        r@.map_values(|p: Vec<char>| p@) == ws_words(s@),
{
    let mut r: Vec<Vec<char>> = Vec::new();
    let mut cur: Vec<char> = Vec::new();
    let mut i: usize = 0;
    while i < s.len()
        invariant
            i <= s@.len(),
            (r@.map_values(|p: Vec<char>| p@), cur@) == ws_scan(s@.take(i as int)),
        decreases s@.len() - i,
    {
        let c = s[i];
        proof {
            assert(s@.take(i + 1).drop_last() =~= s@.take(i as int));
            assert(s@.take(i + 1).last() == c);
        }
        if is_whitespace(c) {
            if cur.len() > 0 {
                let ghost before = r@.map_values(|p: Vec<char>| p@);
                let ghost cv = cur@;
                r.push(cur);
                cur = Vec::new();
                assert(r@.map_values(|p: Vec<char>| p@) =~= before.push(cv));
                assert(cur@ =~= Seq::<char>::empty());
            } else {
                assert(cur@ =~= Seq::<char>::empty());
            }
        } else {
            cur.push(c);
        }
        i = i + 1;
    }
    assert(s@.take(s@.len() as int) =~= s@);
    if cur.len() > 0 {
        let ghost before = r@.map_values(|p: Vec<char>| p@);
        let ghost cv = cur@;
        r.push(cur);
        assert(r@.map_values(|p: Vec<char>| p@) =~= before.push(cv));
    }
    r
}

/// A word's letter and number, if it reads (see [`split_word_spec`]).
fn split_word(w: &[char]) -> (r: Option<(char, Vec<char>)>)
    ensures
        match r {
            Some((c, v)) => split_word_spec(w@) == Some((c, v@)),
            None => split_word_spec(w@) is None,
        },
{
    if w.len() == 0 {
        return None;
    }
    let c0 = w[0];
    let letter = if 'a' <= c0 && c0 <= 'z' {
        crate::text::ascii_char((c0 as u32) - 32)
    } else {
        c0
    };
    if !(('a' <= letter && letter <= 'z') || ('A' <= letter && letter <= 'Z')) {
        return None;
    }
    let rest = slice_vec(w, 1, w.len());
    assert(rest@ =~= w@.skip(1));
    if !is_float_lit(&rest) {
        return None;
    }
    Some((letter, rest))
}

pub open spec fn words_view(v: Seq<(char, Vec<char>)>) -> Seq<(char, Seq<char>)> {
    v.map_values(|e: (char, Vec<char>)| (e.0, e.1@))
}

pub open spec fn lines_words_view(v: Seq<Vec<(char, Vec<char>)>>) -> Seq<Seq<(char, Seq<char>)>> {
    v.map_values(|l: Vec<(char, Vec<char>)>| words_view(l@))
}

/// Splits a program into the words of each line that is not skipped: for
/// each word, its letter (upper-cased) and the floating-point literal after
/// it; words that do not read are left out.
pub fn gcode_words(text: &str) -> (r: Vec<Vec<(char, Vec<char>)>>)
    ensures
        lines_words_view(r@) == gcode_words_spec(text@),
{
    let chars = crate::text::chars_of(text);
    let lines = split_chars(&chars, '\n');
    let ghost lv = lines@.map_values(|x: Vec<char>| x@);
    let mut out: Vec<Vec<(char, Vec<char>)>> = Vec::new();
    let mut i: usize = 0;
    while i < lines.len()
        invariant
            i <= lines@.len(),
            lv == lines@.map_values(|x: Vec<char>| x@),
            lv == split_spec(text@, '\n'),
            lines_words_view(out@) == program_words(lv, i as int),
        decreases lines@.len() - i,
    {
        let l = trim_vec(&lines[i]);
        assert(l@ == trim_spec(lv[i as int]));
        if !(l.len() == 0 || l[0] == '(' || l[0] == ';' || l[0] == '%') {
            let pieces = split_ws(&l);
            let ghost pv = pieces@.map_values(|p: Vec<char>| p@);
            let mut ws: Vec<(char, Vec<char>)> = Vec::new();
            let mut k: usize = 0;
            while k < pieces.len()
                invariant
                    k <= pieces@.len(),
                    pv == pieces@.map_values(|p: Vec<char>| p@),
                    words_view(ws@) == read_words(pv, k as int),
                decreases pieces@.len() - k,
            {
                match split_word(&pieces[k]) {
                    Some((c, v)) => {
                        let ghost before = words_view(ws@);
                        let ghost vv = v@;
                        ws.push((c, v));
                        assert(words_view(ws@) =~= before.push((c, vv)));
                    },
                    None => {},
                }
                k = k + 1;
            }
            let ghost before = lines_words_view(out@);
            let ghost wv = words_view(ws@);
            out.push(ws);
            assert(lines_words_view(out@) =~= before.push(wv));
        }
        i = i + 1;
    }
    assert(lv.len() == lines@.len());
    out
}

// ---------------------------------------------------------------------------
// IEEE-754 comparisons on bit patterns
// ---------------------------------------------------------------------------

/// The sign bit of the `f64` with bits `b`.
pub open spec fn f64_sign(b: u64) -> bool {
    b >= 0x8000_0000_0000_0000
}

/// The bits of `b` without the sign.
pub open spec fn f64_magnitude(b: u64) -> u64 {
    (b % 0x8000_0000_0000_0000) as u64
}

/// Not a number: all exponent bits set and a non-zero fraction.
pub open spec fn f64_is_nan(b: u64) -> bool {
    f64_magnitude(b) > 0x7FF0_0000_0000_0000
}

/// Plus or minus zero.
pub open spec fn f64_is_zero(b: u64) -> bool {
    f64_magnitude(b) == 0
}

/// `a == b` on `f64` values: never for a NaN; the two zeros are equal.
pub open spec fn f64_eq(a: u64, b: u64) -> bool {
    !f64_is_nan(a) && !f64_is_nan(b) && (a == b || (f64_is_zero(a) && f64_is_zero(b)))
}

/// `v < 0.0` on an `f64` value.
pub open spec fn f64_below_zero(b: u64) -> bool {
    f64_sign(b) && !f64_is_nan(b) && !f64_is_zero(b)
}

/// The bits of 0.5, 1.5, 19.5, 20.5 and 21.5.
pub open spec fn half() -> u64 {
    0x3FE0_0000_0000_0000
}

pub open spec fn one_and_half() -> u64 {
    0x3FF8_0000_0000_0000
}

pub open spec fn nineteen_and_half() -> u64 {
    0x4033_8000_0000_0000
}

pub open spec fn twenty_and_half() -> u64 {
    0x4034_8000_0000_0000
}

pub open spec fn twenty_one_and_half() -> u64 {
    0x4035_8000_0000_0000
}

/// What a `G` word with value bits `b` does: `round(v) as i64` is 0 (rapid;
/// also for a NaN, which converts to 0), 1 (feed), 20 (inches) or 21
/// (millimetres); any other code does nothing.
#[derive(Clone, Copy, Debug, PartialEq, Eq, Structural)]
pub enum GAction {
    Rapid,
    Feed,
    Inch,
    Mm,
    Nothing,
}

pub open spec fn g_action(b: u64) -> GAction {
    let m = f64_magnitude(b);
    if f64_is_nan(b) || m < half() {
        GAction::Rapid
    } else if f64_sign(b) {
        GAction::Nothing
    } else if m < one_and_half() {
        GAction::Feed
    } else if m < nineteen_and_half() {
        GAction::Nothing
    } else if m < twenty_and_half() {
        GAction::Inch
    } else if m < twenty_one_and_half() {
        GAction::Mm
    } else {
        GAction::Nothing
    }
}

fn g_action_exec(b: u64) -> (a: GAction)
    ensures
        a == g_action(b),
{
    let m = b % 0x8000_0000_0000_0000;
    if m > 0x7FF0_0000_0000_0000 || m < 0x3FE0_0000_0000_0000 {
        GAction::Rapid
    } else if b >= 0x8000_0000_0000_0000 {
        GAction::Nothing
    } else if m < 0x3FF8_0000_0000_0000 {
        GAction::Feed
    } else if m < 0x4033_8000_0000_0000 {
        GAction::Nothing
    } else if m < 0x4034_8000_0000_0000 {
        GAction::Inch
    } else if m < 0x4035_8000_0000_0000 {
        GAction::Mm
    } else {
        GAction::Nothing
    }
}

pub(crate) fn eq_f64_bits(a: u64, b: u64) -> (r: bool)
    ensures
        r == f64_eq(a, b),
{
    let ma = a % 0x8000_0000_0000_0000;
    let mb = b % 0x8000_0000_0000_0000;
    ma <= 0x7FF0_0000_0000_0000 && mb <= 0x7FF0_0000_0000_0000 && (a == b || (ma == 0 && mb == 0))
}

fn below_zero_bits(b: u64) -> (r: bool)
    ensures
        r == f64_below_zero(b),
{
    let m = b % 0x8000_0000_0000_0000;
    b >= 0x8000_0000_0000_0000 && m <= 0x7FF0_0000_0000_0000 && m != 0
}

// ---------------------------------------------------------------------------
// The interpreter
// ---------------------------------------------------------------------------

/// Modal motion mode.
#[derive(Clone, Copy, Debug, PartialEq, Eq, Structural)]
pub enum Motion {
    /// `G0`: rapid positioning.
    Rapid,
    /// `G1`: linear feed move.
    Feed,
}

/// The interpreter state between lines (coordinates as `f64` bits).
pub struct ReadState {
    pub units: Units,
    pub motion: Motion,
    pub x: u64,
    pub y: u64,
    pub z: u64,
    pub cutting: bool,
    pub current: Seq<(u64, u64)>,
    pub paths: Seq<Seq<(u64, u64)>>,
}

/// Units millimetres, rapid mode, at the origin, not cutting, no path.
pub open spec fn read_initial() -> ReadState {
    ReadState {
        units: Units::Mm,
        motion: Motion::Rapid,
        x: 0,
        y: 0,
        z: 0,
        cutting: false,
        current: Seq::<(u64, u64)>::empty(),
        paths: Seq::<Seq<(u64, u64)>>::empty(),
    }
}

/// Ends the path in progress: kept when it has at least two points.
pub open spec fn finish(st: ReadState) -> ReadState {
    if st.current.len() >= 2 {
        ReadState { paths: st.paths.push(st.current), current: Seq::<(u64, u64)>::empty(), ..st }
    } else {
        ReadState { current: Seq::<(u64, u64)>::empty(), ..st }
    }
}

/// The `G` words of `words[..n]` applied to the units and motion mode.
pub open spec fn apply_g(st: ReadState, words: Seq<(char, u64)>, n: int) -> ReadState
    decreases n,
{
    if n <= 0 || n > words.len() {
        st
    } else {
        let s = apply_g(st, words, n - 1);
        let (c, v) = words[n - 1];
        if c == 'G' {
            match g_action(v) {
                GAction::Rapid => ReadState { motion: Motion::Rapid, ..s },
                GAction::Feed => ReadState { motion: Motion::Feed, ..s },
                GAction::Inch => ReadState { units: Units::Inch, ..s },
                GAction::Mm => ReadState { units: Units::Mm, ..s },
                GAction::Nothing => s,
            }
        } else {
            s
        }
    }
}

/// The axis words of `words[..n]` applied to the position; the flag tells
/// whether an `X` or `Y` word was seen.
pub open spec fn apply_axes(st: ReadState, words: Seq<(char, u64)>, n: int) -> (ReadState, bool)
    decreases n,
{
    if n <= 0 || n > words.len() {
        (st, false)
    } else {
        let (s, saw) = apply_axes(st, words, n - 1);
        let (c, v) = words[n - 1];
        if c == 'X' {
            (ReadState { x: v, ..s }, true)
        } else if c == 'Y' {
            (ReadState { y: v, ..s }, true)
        } else if c == 'Z' {
            (ReadState { z: v, ..s }, saw)
        } else {
            (s, saw)
        }
    }
}

pub proof fn lemma_apply_g_keeps(st: ReadState, words: Seq<(char, u64)>, n: int)
    ensures
        ({
            let s = apply_g(st, words, n);
            s.x == st.x && s.y == st.y && s.z == st.z && s.cutting == st.cutting && s.current
                == st.current && s.paths == st.paths
        }),
    decreases n,
{
    if !(n <= 0 || n > words.len()) {
        lemma_apply_g_keeps(st, words, n - 1);
    }
}

pub proof fn lemma_apply_axes_keeps(st: ReadState, words: Seq<(char, u64)>, n: int)
    ensures
        ({
            let s = apply_axes(st, words, n).0;
            s.units == st.units && s.motion == st.motion && s.cutting == st.cutting && s.current
                == st.current && s.paths == st.paths
        }),
    decreases n,
{
    if !(n <= 0 || n > words.len()) {
        lemma_apply_axes_keeps(st, words, n - 1);
    }
}

/// One line: first its `G` words, then its axis words; a change of Z
/// starts (plunge below zero) or ends (lift) the cut; then a rapid while not
/// cutting ends any path, and a feed move with an XY word while cutting
/// extends it.
pub open spec fn read_line(st: ReadState, words: Seq<(char, u64)>) -> ReadState {
    let s1 = apply_g(st, words, words.len() as int);
    let (s2, saw_xy) = apply_axes(s1, words, words.len() as int);
    let s3 = if !f64_eq(s2.z, st.z) {
        let now = f64_below_zero(s2.z);
        let s = if now && !s2.cutting {
            ReadState { current: seq![(s2.x, s2.y)], ..s2 }
        } else if !now && s2.cutting {
            finish(s2)
        } else {
            s2
        };
        ReadState { cutting: now, ..s }
    } else {
        s2
    };
    match s3.motion {
        Motion::Rapid => if !s3.cutting {
            finish(s3)
        } else {
            s3
        },
        Motion::Feed => if s3.cutting && saw_xy {
            ReadState { current: s3.current.push((s3.x, s3.y)), ..s3 }
        } else {
            s3
        },
    }
}

/// The lines `lines[..n]`, in order.
pub open spec fn read_lines(lines: Seq<Seq<(char, u64)>>, n: int) -> ReadState
    decreases n,
{
    if n <= 0 || n > lines.len() {
        read_initial()
    } else {
        read_line(read_lines(lines, n - 1), lines[n - 1])
    }
}

/// A program read back: its units and its milling paths (points as `f64`
/// bit patterns).
pub struct GcodeRead {
    pub units: Units,
    pub paths: Vec<Vec<(u64, u64)>>,
}

pub open spec fn paths_view(p: Seq<Vec<(u64, u64)>>) -> Seq<Seq<(u64, u64)>> {
    p.map_values(|v: Vec<(u64, u64)>| v@)
}

/// The reading of a whole program: every line, then the path still open is
/// ended.
pub open spec fn read_spec(lines: Seq<Seq<(char, u64)>>) -> (Units, Seq<Seq<(u64, u64)>>) {
    let f = finish(read_lines(lines, lines.len() as int));
    (f.units, f.paths)
}

pub open spec fn bit_lines_view(v: Seq<Vec<(char, u64)>>) -> Seq<Seq<(char, u64)>> {
    v.map_values(|l: Vec<(char, u64)>| l@)
}

/// The interpreter over exec state.
struct Reader {
    units: Units,
    motion: Motion,
    x: u64,
    y: u64,
    z: u64,
    cutting: bool,
    current: Vec<(u64, u64)>,
    paths: Vec<Vec<(u64, u64)>>,
}

impl Reader {
    spec fn state(&self) -> ReadState {
        ReadState {
            units: self.units,
            motion: self.motion,
            x: self.x,
            y: self.y,
            z: self.z,
            cutting: self.cutting,
            current: self.current@,
            paths: paths_view(self.paths@),
        }
    }

    fn finish(&mut self)
        ensures
            final(self).state() == finish(old(self).state()),
    {
        if self.current.len() >= 2 {
            let ghost before = paths_view(self.paths@);
            let ghost cv = self.current@;
            let mut done: Vec<(u64, u64)> = Vec::new();
            std::mem::swap(&mut done, &mut self.current);
            self.paths.push(done);
            assert(paths_view(self.paths@) =~= before.push(cv));
            assert(self.current@ =~= Seq::<(u64, u64)>::empty());
        } else {
            self.current = Vec::new();
            assert(self.current@ =~= Seq::<(u64, u64)>::empty());
        }
    }

    fn line(&mut self, words: &Vec<(char, u64)>)
        ensures
            final(self).state() == read_line(old(self).state(), words@),
    {
        let ghost st0 = self.state();
        let mut k: usize = 0;
        while k < words.len()
            invariant
                k <= words@.len(),
                self.state() == apply_g(st0, words@, k as int),
            decreases words@.len() - k,
        {
            let (c, v) = words[k];
            if c == 'G' {
                match g_action_exec(v) {
                    GAction::Rapid => {
                        self.motion = Motion::Rapid;
                    },
                    GAction::Feed => {
                        self.motion = Motion::Feed;
                    },
                    GAction::Inch => {
                        self.units = Units::Inch;
                    },
                    GAction::Mm => {
                        self.units = Units::Mm;
                    },
                    GAction::Nothing => {},
                }
            }
            k = k + 1;
        }
        let ghost s1 = self.state();
        proof {
            lemma_apply_g_keeps(st0, words@, words@.len() as int);
            lemma_apply_axes_keeps(s1, words@, words@.len() as int);
        }
        let prev_z = self.z;
        let mut saw_xy = false;
        let mut k: usize = 0;
        while k < words.len()
            invariant
                k <= words@.len(),
                (self.state(), saw_xy) == apply_axes(s1, words@, k as int),
            decreases words@.len() - k,
        {
            let (c, v) = words[k];
            if c == 'X' {
                self.x = v;
                saw_xy = true;
            } else if c == 'Y' {
                self.y = v;
                saw_xy = true;
            } else if c == 'Z' {
                self.z = v;
            }
            k = k + 1;
        }
        if !eq_f64_bits(self.z, prev_z) {
            let now = below_zero_bits(self.z);
            if now && !self.cutting {
                self.current = Vec::new();
                self.current.push((self.x, self.y));
                assert(self.current@ =~= seq![(self.x, self.y)]);
            } else if !now && self.cutting {
                self.finish();
            }
            self.cutting = now;
        }
        match self.motion {
            Motion::Rapid => {
                if !self.cutting {
                    self.finish();
                }
            },
            Motion::Feed => {
                if self.cutting && saw_xy {
                    self.current.push((self.x, self.y));
                }
            },
        }
    }
}

/// Runs the interpreter over the words of each line (numbers as `f64` bit
/// patterns) and ends the path still open.
pub fn read_gcode(lines: &Vec<Vec<(char, u64)>>) -> (r: GcodeRead)
    ensures
        (r.units, paths_view(r.paths@)) == read_spec(bit_lines_view(lines@)),
{
    let ghost lv = bit_lines_view(lines@);
    let mut rd = Reader {
        units: Units::Mm,
        motion: Motion::Rapid,
        x: 0,
        y: 0,
        z: 0,
        cutting: false,
        current: Vec::new(),
        paths: Vec::new(),
    };
    assert(rd.current@ =~= Seq::<(u64, u64)>::empty());
    assert(paths_view(rd.paths@) =~= Seq::<Seq<(u64, u64)>>::empty());
    let mut i: usize = 0;
    while i < lines.len()
        invariant
            i <= lines@.len(),
            lv == bit_lines_view(lines@),
            rd.state() == read_lines(lv, i as int),
        decreases lines@.len() - i,
    {
        rd.line(&lines[i]);
        i = i + 1;
    }
    rd.finish();
    GcodeRead { units: rd.units, paths: rd.paths }
}

} // verus!
