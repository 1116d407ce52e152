//! RS-274X (Gerber) reader: the command layer.
//!
//! A Gerber file is a stream of extended commands (`%FSLAX24Y24*%`, `%MOMM*%`,
//! `%ADD10C,1.0*%`, aperture macros, level polarity) and function-code words
//! (`D10*`, `X0Y0D03*`, `G36*`, ...). This module tokenizes the stream, keeps
//! the modal state of the reader (format, units, current aperture,
//! interpolation mode, position, polarity, region mode) and turns the drawing
//! commands into an ordered list of [`GerberOp`]s: flashes, traced paths,
//! filled regions and the points at which the dark and clear layers built so
//! far are merged.
//!
//! Coordinates are decoded exactly ([`Decimal`]) from the format specification;
//! aperture modifiers are kept as the floating-point literals that the file
//! writes. Turning the operations into polygons (circles, buffered paths,
//! arcs, boolean union and difference) is floating-point geometry and is done
//! by the caller.
use crate::numeric::{
    all_digits, digits_value, digits_value_upto, is_float_lit, is_float_literal, keep_digits,
    only_digits, leading_digits, lemma_leading_digits, parse_i32, parse_i32_spec, parse_u8, parse_u8_spec, Decimal, DecimalView,
    zero_spec,
};
use crate::gerber_macros::MacroDef;
use crate::text::{
    contains_chars, contains_spec, is_ascii_digit, is_whitespace, is_ws, slice_vec, split_chars,
    split_spec, starts_with_chars, starts_with_spec, trim_spec, trim_vec,
};
use vstd::prelude::*;

verus! {

// ---------------------------------------------------------------------------
// Tokenizer
// ---------------------------------------------------------------------------

/// One command of a Gerber stream.
#[derive(Debug)]
pub enum GerberCmd {
    /// The `*`-separated statements of a `%...%` block, trimmed, empty ones
    /// left out.
    Extended(Vec<Vec<char>>),
    /// A function-code word (the text before its `*`), whitespace removed.
    Word(Vec<char>),
}

/// The content of a [`GerberCmd`].
pub enum CmdView {
    Extended(Seq<Seq<char>>),
    Word(Seq<char>),
}

impl View for GerberCmd {
    type V = CmdView;

    open spec fn view(&self) -> CmdView {
        match self {
            GerberCmd::Extended(parts) => CmdView::Extended(char_vecs_view(parts@)),
            GerberCmd::Word(w) => CmdView::Word(w@),
        }
    }
}

/// The first index `j >= i` holding `%`, or `s.len()`.
pub open spec fn percent_end(s: Seq<char>, i: int) -> int
    decreases s.len() - i,
{
    if i >= s.len() {
        s.len() as int
    } else if s[i] == '%' {
        i
    } else {
        percent_end(s, i + 1)
    }
}

/// The first index `j >= i` holding `*` or `%`, or `s.len()`.
pub open spec fn word_end(s: Seq<char>, i: int) -> int
    decreases s.len() - i,
{
    if i >= s.len() {
        s.len() as int
    } else if s[i] == '*' || s[i] == '%' {
        i
    } else {
        word_end(s, i + 1)
    }
}

pub proof fn lemma_percent_end(s: Seq<char>, i: int)
    requires
        0 <= i <= s.len(),
    ensures
        i <= percent_end(s, i) <= s.len(),
        percent_end(s, i) < s.len() ==> s[percent_end(s, i)] == '%',
        forall|k: int| i <= k < percent_end(s, i) ==> s[k] != '%',
    decreases s.len() - i,
{
    if i < s.len() && s[i] != '%' {
        lemma_percent_end(s, i + 1);
    }
}

pub proof fn lemma_word_end(s: Seq<char>, i: int)
    requires
        0 <= i <= s.len(),
    ensures
        i <= word_end(s, i) <= s.len(),
        word_end(s, i) < s.len() ==> (s[word_end(s, i)] == '*' || s[word_end(s, i)] == '%'),
        forall|k: int| i <= k < word_end(s, i) ==> s[k] != '*' && s[k] != '%',
    decreases s.len() - i,
{
    if i < s.len() && s[i] != '*' && s[i] != '%' {
        lemma_word_end(s, i + 1);
    }
}

/// `t` with every whitespace character removed.
pub open spec fn without_ws(t: Seq<char>) -> Seq<char>
    decreases t.len(),
{
    if t.len() == 0 {
        t
    } else if is_ws(t.last()) {
        without_ws(t.drop_last())
    } else {
        without_ws(t.drop_last()).push(t.last())
    }
}

/// The pieces of `parts`, trimmed, with the empty ones left out.
pub open spec fn nonempty_trimmed(parts: Seq<Seq<char>>) -> Seq<Seq<char>>
    decreases parts.len(),
{
    if parts.len() == 0 {
        Seq::<Seq<char>>::empty()
    } else if trim_spec(parts.last()).len() > 0 {
        nonempty_trimmed(parts.drop_last()).push(trim_spec(parts.last()))
    } else {
        nonempty_trimmed(parts.drop_last())
    }
}

/// The statements of the extended block whose text is `inner`.
pub open spec fn extended_parts(inner: Seq<char>) -> Seq<Seq<char>> {
    nonempty_trimmed(split_spec(inner, '*'))
}

/// The commands of `s` from position `i` on: whitespace between commands is
/// skipped; `%` opens an extended block that runs to the next `%` (or the
/// end); any other text is a word that runs to the next `*` (consumed) or `%`
/// (not consumed). Empty blocks and empty words produce no command.
pub open spec fn tokens_from(s: Seq<char>, i: int) -> Seq<CmdView>
    decreases s.len() - i,
{
    if i < 0 || i >= s.len() {
        Seq::<CmdView>::empty()
    } else if is_ws(s[i]) {
        tokens_from(s, i + 1)
    } else if s[i] == '%' {
        let e = percent_end(s, i + 1);
        proof {
            lemma_percent_end(s, i + 1);
        }
        let parts = extended_parts(s.subrange(i + 1, e));
        let rest = tokens_from(s, if e < s.len() { e + 1 } else { e });
        if parts.len() > 0 {
            seq![CmdView::Extended(parts)] + rest
        } else {
            rest
        }
    } else {
        let e = word_end(s, i);
        proof {
            lemma_word_end(s, i);
        }
        let w = without_ws(s.subrange(i, e));
        let next = if e < s.len() && s[e] == '*' {
            e + 1
        } else {
            e
        };
        let rest = tokens_from(s, next);
        if w.len() > 0 {
            seq![CmdView::Word(w)] + rest
        } else {
            rest
        }
    }
}

/// The commands of a Gerber stream.
pub open spec fn tokenize_spec(s: Seq<char>) -> Seq<CmdView> {
    tokens_from(s, 0)
}

/// The statements of an extended block, trimmed, empty ones left out.
fn extended_statements(inner: &[char]) -> (parts: Vec<Vec<char>>)
    ensures
        char_vecs_view(parts@) == extended_parts(inner@),
{
    let pieces = split_chars(inner, '*');
    let ghost pv = pieces@.map_values(|x: Vec<char>| x@);
    let mut parts: Vec<Vec<char>> = Vec::new();
    let mut k: usize = 0;
    while k < pieces.len()
        invariant
            k <= pieces@.len(),
            pv == pieces@.map_values(|x: Vec<char>| x@),
            pv == split_spec(inner@, '*'),
            char_vecs_view(parts@) == nonempty_trimmed(pv.take(k as int)),
        decreases pieces@.len() - k,
    {
        let t = trim_vec(&pieces[k]);
        proof {
            assert(pv.take(k + 1).drop_last() =~= pv.take(k as int));
            assert(pv.take(k + 1).last() == pieces@[k as int]@);
        }
        if t.len() > 0 {
            let ghost before = char_vecs_view(parts@);
            parts.push(t);
            assert(char_vecs_view(parts@) =~= before.push(t@));
        }
        k = k + 1;
    }
    assert(pv.take(pieces@.len() as int) =~= pv);
    parts
}

/// Splits a Gerber stream into its commands.
pub fn tokenize(content: &[char]) -> (cmds: Vec<GerberCmd>)
    ensures
        cmds@.map_values(|c: GerberCmd| c@) == tokenize_spec(content@),
{
    let s = content;
    let n = s.len();
    let mut cmds: Vec<GerberCmd> = Vec::new();
    let mut i: usize = 0;
    while i < n
        invariant
            n == s@.len(),
            i <= n,
            cmds@.map_values(|c: GerberCmd| c@) + tokens_from(s@, i as int) == tokenize_spec(s@),
        decreases n - i,
    {
        let ghost before = cmds@.map_values(|c: GerberCmd| c@);
        let c = s[i];
        if is_whitespace(c) {
            i = i + 1;
        } else if c == '%' {
            let mut e = i + 1;
            proof {
                lemma_percent_end(s@, i + 1);
            }
            while e < n && s[e] != '%'
                invariant
                    i + 1 <= e <= n,
                    n == s@.len(),
                    percent_end(s@, e as int) == percent_end(s@, i + 1),
                decreases n - e,
            {
                e = e + 1;
            }
            let inner = slice_vec(s, i + 1, e);
            let parts = extended_statements(&inner);
            let ghost pv = char_vecs_view(parts@);
            let next = if e < n {
                e + 1
            } else {
                e
            };
            if parts.len() > 0 {
                let cmd = GerberCmd::Extended(parts);
                cmds.push(cmd);
                assert(cmds@.map_values(|c: GerberCmd| c@) =~= before.push(CmdView::Extended(pv)));
                assert(before.push(CmdView::Extended(pv)) + tokens_from(s@, next as int) =~= before + (
                seq![CmdView::Extended(pv)] + tokens_from(s@, next as int)));
            }
            i = next;
        } else {
            let mut word: Vec<char> = Vec::new();
            let mut e = i;
            proof {
                lemma_word_end(s@, i as int);
            }
            while e < n && s[e] != '*' && s[e] != '%'
                invariant
                    i <= e <= n,
                    n == s@.len(),
                    word_end(s@, e as int) == word_end(s@, i as int),
                    word@ == without_ws(s@.subrange(i as int, e as int)),
                decreases n - e,
            {
                let d = s[e];
                proof {
                    assert(s@.subrange(i as int, e + 1).drop_last() =~= s@.subrange(
                        i as int,
                        e as int,
                    ));
                }
                if !is_whitespace(d) {
                    word.push(d);
                }
                e = e + 1;
            }
            let next = if e < n && s[e] == '*' {
                e + 1
            } else {
                e
            };
            if word.len() > 0 {
                let ghost wv = word@;
                cmds.push(GerberCmd::Word(word));
                assert(cmds@.map_values(|c: GerberCmd| c@) =~= before.push(CmdView::Word(wv)));
                assert(before.push(CmdView::Word(wv)) + tokens_from(s@, next as int) =~= before + (
                seq![CmdView::Word(wv)] + tokens_from(s@, next as int)));
            }
            i = next;
        }
    }
    assert(cmds@.map_values(|c: GerberCmd| c@) + tokens_from(s@, i as int) =~= cmds@.map_values(
        |c: GerberCmd| c@,
    ));
    cmds
}

// ---------------------------------------------------------------------------
// Coordinate blocks
// ---------------------------------------------------------------------------

/// A character that continues a coordinate value: a digit or a sign.
pub open spec fn is_value_char(c: char) -> bool {
    is_ascii_digit(c) || c == '-' || c == '+'
}

/// The end of the value run that starts at `i`.
pub open spec fn value_end(s: Seq<char>, i: int) -> int
    decreases s.len() - i,
{
    if i >= s.len() {
        s.len() as int
    } else if is_value_char(s[i]) {
        value_end(s, i + 1)
    } else {
        i
    }
}

pub proof fn lemma_value_end(s: Seq<char>, i: int)
    requires
        0 <= i <= s.len(),
    ensures
        i <= value_end(s, i) <= s.len(),
        value_end(s, i) < s.len() ==> !is_value_char(s[value_end(s, i)]),
        forall|k: int| i <= k < value_end(s, i) ==> is_value_char(s[k]),
    decreases s.len() - i,
{
    if i < s.len() && is_value_char(s[i]) {
        lemma_value_end(s, i + 1);
    }
}

/// The coordinate words of a block: the values of `X`, `Y`, `I`, `J` (text)
/// and the `D` operation code (read as a `u8`; `None` when it does not read).
#[derive(Debug)]
pub struct CoordWords {
    pub x: Option<Vec<char>>,
    pub y: Option<Vec<char>>,
    pub i: Option<Vec<char>>,
    pub j: Option<Vec<char>>,
    pub d: Option<u8>,
}

/// The content of [`CoordWords`].
pub struct CoordWordsView {
    pub x: Option<Seq<char>>,
    pub y: Option<Seq<char>>,
    pub i: Option<Seq<char>>,
    pub j: Option<Seq<char>>,
    pub d: Option<u8>,
}

pub open spec fn opt_view(o: Option<Vec<char>>) -> Option<Seq<char>> {
    match o {
        Some(v) => Some(v@),
        None => None,
    }
}

impl View for CoordWords {
    type V = CoordWordsView;

    open spec fn view(&self) -> CoordWordsView {
        CoordWordsView {
            x: opt_view(self.x),
            y: opt_view(self.y),
            i: opt_view(self.i),
            j: opt_view(self.j),
            d: self.d,
        }
    }
}

/// Scanning a block from position `i` with the words found so far in `acc`:
/// each of `X`, `Y`, `I`, `J`, `D` takes the run of digits and signs after it
/// (a later occurrence replaces an earlier one); other characters are
/// skipped.
pub open spec fn coords_from(s: Seq<char>, i: int, acc: CoordWordsView) -> CoordWordsView
    decreases s.len() - i,
{
    if i < 0 || i >= s.len() {
        acc
    } else {
        let c = s[i];
        if c == 'X' || c == 'Y' || c == 'I' || c == 'J' || c == 'D' {
            let e = value_end(s, i + 1);
            proof {
                lemma_value_end(s, i + 1);
            }
            let v = s.subrange(i + 1, e);
            let acc2 = if c == 'X' {
                CoordWordsView { x: Some(v), ..acc }
            } else if c == 'Y' {
                CoordWordsView { y: Some(v), ..acc }
            } else if c == 'I' {
                CoordWordsView { i: Some(v), ..acc }
            } else if c == 'J' {
                CoordWordsView { j: Some(v), ..acc }
            } else {
                CoordWordsView { d: parse_u8_spec(v), ..acc }
            };
            coords_from(s, e, acc2)
        } else {
            coords_from(s, i + 1, acc)
        }
    }
}

/// The coordinate words of the block `s`.
pub open spec fn split_coords_spec(s: Seq<char>) -> CoordWordsView {
    coords_from(
        s,
        0,
        CoordWordsView { x: None, y: None, i: None, j: None, d: None },
    )
}

/// Extracts the `X`, `Y`, `I`, `J` values and the `D` operation of a block.
pub fn split_coords(s: &[char]) -> (w: CoordWords)
    ensures
        w@ == split_coords_spec(s@),
{
    let n = s.len();
    let mut w = CoordWords { x: None, y: None, i: None, j: None, d: None };
    let mut idx: usize = 0;
    while idx < n
        invariant
            n == s@.len(),
            idx <= n,
            coords_from(s@, idx as int, w@) == split_coords_spec(s@),
        decreases n - idx,
    {
        let c = s[idx];
        if c == 'X' || c == 'Y' || c == 'I' || c == 'J' || c == 'D' {
            let start = idx + 1;
            let mut end = start;
            proof {
                lemma_value_end(s@, start as int);
            }
            while end < n && (('0' <= s[end] && s[end] <= '9') || s[end] == '-' || s[end] == '+')
                invariant
                    start <= end <= n,
                    n == s@.len(),
                    value_end(s@, end as int) == value_end(s@, start as int),
                decreases n - end,
            {
                end = end + 1;
            }
            let val = slice_vec(s, start, end);
            if c == 'X' {
                w.x = Some(val);
            } else if c == 'Y' {
                w.y = Some(val);
            } else if c == 'I' {
                w.i = Some(val);
            } else if c == 'J' {
                w.j = Some(val);
            } else {
                w.d = parse_u8(&val);
            }
            idx = end;
        } else {
            idx = idx + 1;
        }
    }
    w
}


// ---------------------------------------------------------------------------
// Reader state, apertures and operations
// ---------------------------------------------------------------------------

/// Units of a Gerber file (`%MOIN*%`, `%MOMM*%`, `G70`, `G71`).
#[derive(Clone, Copy, Debug, PartialEq, Eq, Structural)]
pub enum Units {
    Inch,
    Mm,
}

/// Why a Gerber stream was refused.
#[derive(Clone, Copy, Debug, PartialEq, Eq, Structural)]
pub enum GerberError {
    /// Coordinate data came before any format specification (`FS`).
    NoFormat,
}

/// The text of a [`GerberError`].
pub open spec fn gerber_error_text(e: GerberError) -> Seq<char> {
    match e {
        GerberError::NoFormat => "no format specification (FS) found before coordinate data"@,
    }
}

impl GerberError {
    /// The message describing the error.
    pub fn message(&self) -> (m: &'static str)
        ensures
            m@ == gerber_error_text(*self),
    {
        match self {
            GerberError::NoFormat => "no format specification (FS) found before coordinate data",
        }
    }
}

/// Zero suppression of the coordinate format (`FSL`, `FST`, or neither).
#[derive(Clone, Copy, Debug, PartialEq, Eq, Structural)]
pub enum Zeros {
    /// `L`: leading zeros omitted; the value is scaled by the fraction digits.
    Leading,
    /// `T`: trailing zeros omitted; the digits are aligned on the integer part.
    Trailing,
    /// Neither letter: no suppression; scaled like `L`.
    Kept,
}

/// The standard aperture templates, and macros.
#[derive(Clone, Copy, Debug, PartialEq, Eq, Structural)]
pub enum ApertureKind {
    /// `C`: circle (diameter).
    Circle,
    /// `R`: rectangle (width, height).
    Rectangle,
    /// `O`: obround (width, height).
    Obround,
    /// `P`: regular polygon (outer diameter, vertices, rotation).
    Polygon,
    /// Any other template name: an aperture macro of that name.
    Macro,
}

/// An aperture definition (`%ADD<code><template>[,<m1>X<m2>...]*%`).
#[derive(Debug)]
pub struct Aperture {
    /// The template kind.
    pub kind: ApertureKind,
    /// The template name as written (`C`, `R`, `O`, `P` or a macro name).
    pub template: Vec<char>,
    /// The modifiers that read as floating-point literals, trimmed, in order.
    pub mods: Vec<Vec<char>>,
}

/// The content of an [`Aperture`].
pub struct ApertureView {
    pub kind: ApertureKind,
    pub template: Seq<char>,
    pub mods: Seq<Seq<char>>,
}

pub open spec fn char_vecs_view(v: Seq<Vec<char>>) -> Seq<Seq<char>> {
    v.map_values(|p: Vec<char>| p@)
}

impl View for Aperture {
    type V = ApertureView;

    open spec fn view(&self) -> ApertureView {
        ApertureView { kind: self.kind, template: self.template@, mods: char_vecs_view(self.mods@) }
    }
}

/// One piece of a drawn path.
#[derive(Debug)]
pub enum PathSeg {
    /// A straight draw to `(x, y)` (`G01`).
    Line { x: Decimal, y: Decimal },
    /// A circular draw from `(from_x, from_y)` to `(x, y)` with centre offset
    /// `(i, j)` (`G02` clockwise, `G03` counter-clockwise), in multi-quadrant
    /// (`G75`) or single-quadrant (`G74`) mode.
    Arc {
        from_x: Decimal,
        from_y: Decimal,
        x: Decimal,
        y: Decimal,
        i: Decimal,
        j: Decimal,
        clockwise: bool,
        multi_quadrant: bool,
    },
}

/// The content of a [`PathSeg`].
pub enum SegView {
    Line { x: DecimalView, y: DecimalView },
    Arc {
        from_x: DecimalView,
        from_y: DecimalView,
        x: DecimalView,
        y: DecimalView,
        i: DecimalView,
        j: DecimalView,
        clockwise: bool,
        multi_quadrant: bool,
    },
}

impl View for PathSeg {
    type V = SegView;

    open spec fn view(&self) -> SegView {
        match self {
            PathSeg::Line { x, y } => SegView::Line { x: x@, y: y@ },
            PathSeg::Arc { from_x, from_y, x, y, i, j, clockwise, multi_quadrant } => SegView::Arc {
                from_x: from_x@,
                from_y: from_y@,
                x: x@,
                y: y@,
                i: i@,
                j: j@,
                clockwise: *clockwise,
                multi_quadrant: *multi_quadrant,
            },
        }
    }
}

/// A drawn path: its start point and its pieces.
#[derive(Debug)]
pub struct GerberPath {
    pub start_x: Decimal,
    pub start_y: Decimal,
    pub segments: Vec<PathSeg>,
}

/// The content of a [`GerberPath`].
pub struct PathView {
    pub start_x: DecimalView,
    pub start_y: DecimalView,
    pub segments: Seq<SegView>,
}

impl View for GerberPath {
    type V = PathView;

    open spec fn view(&self) -> PathView {
        PathView {
            start_x: self.start_x@,
            start_y: self.start_y@,
            segments: self.segments@.map_values(|g: PathSeg| g@),
        }
    }
}

/// A drawing operation of a Gerber file, in file order.
#[derive(Debug)]
pub enum GerberOp {
    /// A flash (`D03`) at `(x, y)`: the aperture selected at that moment (if
    /// it is defined) and, for a macro aperture, the macro definition of that
    /// name at that moment (if there is one).
    Flash { aperture: Option<Aperture>, macro_def: Option<MacroDef>, x: Decimal, y: Decimal, dark: bool },
    /// A path drawn with the aperture it was started with (its definition at
    /// the time the path ended, if defined).
    Trace { aperture: Option<Aperture>, path: GerberPath, dark: bool },
    /// A region (`G36` ... `G37`) outlined by a path; a region of fewer than
    /// three points fills nothing.
    Region { path: GerberPath, dark: bool },
    /// The dark shapes collected since the last merge are united with the
    /// image, then the clear ones are cut out of it (at a level polarity
    /// change and at the end of the file).
    Merge,
}

/// The content of a [`GerberOp`].
pub enum OpView {
    Flash {
        aperture: Option<ApertureView>,
        macro_def: Option<Seq<Seq<char>>>,
        x: DecimalView,
        y: DecimalView,
        dark: bool,
    },
    Trace { aperture: Option<ApertureView>, path: PathView, dark: bool },
    Region { path: PathView, dark: bool },
    Merge,
}

pub open spec fn opt_aperture_view(a: Option<Aperture>) -> Option<ApertureView> {
    match a {
        Some(ap) => Some(ap@),
        None => None,
    }
}

pub open spec fn opt_macro_view(m: Option<MacroDef>) -> Option<Seq<Seq<char>>> {
    match m {
        Some(d) => Some(d@),
        None => None,
    }
}

impl View for GerberOp {
    type V = OpView;

    open spec fn view(&self) -> OpView {
        match self {
            GerberOp::Flash { aperture, macro_def, x, y, dark } => OpView::Flash {
                aperture: opt_aperture_view(*aperture),
                macro_def: opt_macro_view(*macro_def),
                x: x@,
                y: y@,
                dark: *dark,
            },
            GerberOp::Trace { aperture, path, dark } => OpView::Trace {
                aperture: opt_aperture_view(*aperture),
                path: path@,
                dark: *dark,
            },
            GerberOp::Region { path, dark } => OpView::Region { path: path@, dark: *dark },
            GerberOp::Merge => OpView::Merge,
        }
    }
}

/// A read Gerber file.
#[derive(Debug)]
pub struct Gerber {
    /// The units in force at the end of the file.
    pub units: Units,
    /// The aperture definitions by D-code, in order of first definition (a
    /// redefinition replaces the definition in place).
    pub apertures: Vec<(i32, Aperture)>,
    /// The drawing operations, in file order.
    pub ops: Vec<GerberOp>,
}

/// The content of a [`Gerber`].
pub struct GerberView {
    pub units: Units,
    pub apertures: Seq<(i32, ApertureView)>,
    pub ops: Seq<OpView>,
}

pub open spec fn apertures_view(a: Seq<(i32, Aperture)>) -> Seq<(i32, ApertureView)> {
    a.map_values(|e: (i32, Aperture)| (e.0, e.1@))
}

pub open spec fn macros_view(m: Seq<(Vec<char>, MacroDef)>) -> Seq<(Seq<char>, Seq<Seq<char>>)> {
    m.map_values(|e: (Vec<char>, MacroDef)| (e.0@, e.1@))
}

pub open spec fn ops_view(o: Seq<GerberOp>) -> Seq<OpView> {
    o.map_values(|g: GerberOp| g@)
}

impl View for Gerber {
    type V = GerberView;

    open spec fn view(&self) -> GerberView {
        GerberView {
            units: self.units,
            apertures: apertures_view(self.apertures@),
            ops: ops_view(self.ops@),
        }
    }
}

/// The modal state of the reader.
pub struct ReaderState {
    pub units: Units,
    pub int_digits: int,
    pub frac_digits: int,
    pub zeros: Zeros,
    pub have_format: bool,
    pub apertures: Seq<(i32, ApertureView)>,
    pub macros: Seq<(Seq<char>, Seq<Seq<char>>)>,
    pub cur_aperture: i32,
    pub last_path_aperture: i32,
    pub interp: u8,
    pub quadrant_multi: bool,
    pub x: DecimalView,
    pub y: DecimalView,
    pub dark: bool,
    pub region: bool,
    pub path: Option<PathView>,
    pub ops: Seq<OpView>,
}

/// The state of a reader before the first command: inches, format 3.4 with
/// leading zeros omitted (until an `FS` is read), no aperture selected,
/// linear multi-quadrant interpolation at the origin, dark polarity.
pub open spec fn initial_state() -> ReaderState {
    ReaderState {
        units: Units::Inch,
        int_digits: 3,
        frac_digits: 4,
        zeros: Zeros::Leading,
        have_format: false,
        apertures: Seq::<(i32, ApertureView)>::empty(),
        macros: Seq::<(Seq<char>, Seq<Seq<char>>)>::empty(),
        cur_aperture: -1i32,
        last_path_aperture: -1i32,
        interp: 1,
        quadrant_multi: true,
        x: zero_spec(),
        y: zero_spec(),
        dark: true,
        region: false,
        path: None,
        ops: Seq::<OpView>::empty(),
    }
}

// ----- lookups in the aperture and macro tables -----

/// Index of the entry for D-code `code`, or the table length.
pub open spec fn aperture_index(t: Seq<(i32, ApertureView)>, code: i32) -> int
    decreases t.len(),
{
    if t.len() == 0 {
        0
    } else if t[0].0 == code {
        0
    } else {
        1 + aperture_index(t.drop_first(), code)
    }
}

pub proof fn lemma_aperture_index(t: Seq<(i32, ApertureView)>, code: i32)
    ensures
        0 <= aperture_index(t, code) <= t.len(),
        aperture_index(t, code) < t.len() ==> t[aperture_index(t, code)].0 == code,
        forall|k: int| 0 <= k < aperture_index(t, code) ==> t[k].0 != code,
    decreases t.len(),
{
    if t.len() > 0 && t[0].0 != code {
        lemma_aperture_index(t.drop_first(), code);
        assert forall|k: int| 0 <= k < aperture_index(t, code) implies t[k].0 != code by {
            if k > 0 {
                assert(t[k] == t.drop_first()[k - 1]);
            }
        }
    }
}

/// The definition of D-code `code`.
pub open spec fn aperture_lookup(t: Seq<(i32, ApertureView)>, code: i32) -> Option<ApertureView> {
    let k = aperture_index(t, code);
    if k < t.len() {
        Some(t[k].1)
    } else {
        None
    }
}

/// The table with D-code `code` defined as `ap`.
pub open spec fn aperture_insert(t: Seq<(i32, ApertureView)>, code: i32, ap: ApertureView) -> Seq<
    (i32, ApertureView),
> {
    let k = aperture_index(t, code);
    if k < t.len() {
        t.update(k, (code, ap))
    } else {
        t.push((code, ap))
    }
}

/// Index of the macro named `name`, or the table length.
pub open spec fn macro_index(t: Seq<(Seq<char>, Seq<Seq<char>>)>, name: Seq<char>) -> int
    decreases t.len(),
{
    if t.len() == 0 {
        0
    } else if t[0].0 == name {
        0
    } else {
        1 + macro_index(t.drop_first(), name)
    }
}

pub proof fn lemma_macro_index(t: Seq<(Seq<char>, Seq<Seq<char>>)>, name: Seq<char>)
    ensures
        0 <= macro_index(t, name) <= t.len(),
        macro_index(t, name) < t.len() ==> t[macro_index(t, name)].0 == name,
        forall|k: int| 0 <= k < macro_index(t, name) ==> t[k].0 != name,
    decreases t.len(),
{
    if t.len() > 0 && t[0].0 != name {
        lemma_macro_index(t.drop_first(), name);
        assert forall|k: int| 0 <= k < macro_index(t, name) implies t[k].0 != name by {
            if k > 0 {
                assert(t[k] == t.drop_first()[k - 1]);
            }
        }
    }
}

/// The macro named `name`.
pub open spec fn macro_lookup(t: Seq<(Seq<char>, Seq<Seq<char>>)>, name: Seq<char>) -> Option<
    Seq<Seq<char>>,
> {
    let k = macro_index(t, name);
    if k < t.len() {
        Some(t[k].1)
    } else {
        None
    }
}

/// The table with the macro `name` defined as `body`.
pub open spec fn macro_insert(
    t: Seq<(Seq<char>, Seq<Seq<char>>)>,
    name: Seq<char>,
    body: Seq<Seq<char>>,
) -> Seq<(Seq<char>, Seq<Seq<char>>)> {
    let k = macro_index(t, name);
    if k < t.len() {
        t.update(k, (name, body))
    } else {
        t.push((name, body))
    }
}

// ----- path bookkeeping -----

/// Ends the path being drawn: outside a region it becomes a trace drawn with
/// the aperture it was started with; inside a region it is kept for the
/// region outline.
pub open spec fn flush_path_spec(st: ReaderState) -> ReaderState {
    match st.path {
        None => st,
        Some(p) => if st.region {
            st
        } else {
            ReaderState {
                path: None,
                ops: st.ops.push(
                    OpView::Trace {
                        aperture: aperture_lookup(st.apertures, st.last_path_aperture),
                        path: p,
                        dark: st.dark,
                    },
                ),
                ..st
            }
        },
    }
}

/// Closes the region being outlined (`G37`).
pub open spec fn finish_region_spec(st: ReaderState) -> ReaderState {
    match st.path {
        None => st,
        Some(p) => ReaderState {
            path: None,
            ops: st.ops.push(OpView::Region { path: p, dark: st.dark }),
            ..st
        },
    }
}

/// Marks a merge of the dark and clear shapes collected so far.
pub open spec fn merge_spec(st: ReaderState) -> ReaderState {
    ReaderState { ops: st.ops.push(OpView::Merge), ..st }
}

// ----- extended commands -----

/// `%FS...*%`: zero suppression from `FSL`/`FST`, and the integer and
/// fraction digit counts from the two digits after the first `X`.
pub open spec fn parse_fs_spec(st: ReaderState, s: Seq<char>) -> ReaderState {
    let zeros = if contains_spec(s, "FSL"@) {
        Zeros::Leading
    } else if contains_spec(s, "FST"@) {
        Zeros::Trailing
    } else {
        Zeros::Kept
    };
    let k = crate::numeric::first_index(s, 'X');
    let digits_ok = k + 2 < s.len() && is_ascii_digit(s[k + 1]) && is_ascii_digit(s[k + 2]);
    ReaderState {
        zeros,
        int_digits: if digits_ok {
            crate::numeric::digit_value(s[k + 1]) as int
        } else {
            st.int_digits
        },
        frac_digits: if digits_ok {
            crate::numeric::digit_value(s[k + 2]) as int
        } else {
            st.frac_digits
        },
        have_format: true,
        ..st
    }
}

/// `%MO...*%`: `MM` selects millimetres, otherwise `IN` selects inches.
pub open spec fn parse_mo_spec(st: ReaderState, s: Seq<char>) -> ReaderState {
    if contains_spec(s, "MM"@) {
        ReaderState { units: Units::Mm, ..st }
    } else if contains_spec(s, "IN"@) {
        ReaderState { units: Units::Inch, ..st }
    } else {
        st
    }
}

/// The kind of aperture a template name selects.
pub open spec fn kind_of(t: Seq<char>) -> ApertureKind {
    if t == "C"@ {
        ApertureKind::Circle
    } else if t == "R"@ {
        ApertureKind::Rectangle
    } else if t == "O"@ {
        ApertureKind::Obround
    } else if t == "P"@ {
        ApertureKind::Polygon
    } else {
        ApertureKind::Macro
    }
}

/// The pieces of `parts`, trimmed, that read as floating-point literals.
pub open spec fn float_literals(parts: Seq<Seq<char>>) -> Seq<Seq<char>>
    decreases parts.len(),
{
    if parts.len() == 0 {
        Seq::<Seq<char>>::empty()
    } else if is_float_literal(trim_spec(parts.last())) {
        float_literals(parts.drop_last()).push(trim_spec(parts.last()))
    } else {
        float_literals(parts.drop_last())
    }
}

/// The definition read from an `AD` statement `s` (`ADD<code><template>` with
/// optional `,<m1>X<m2>...`), if its code has at least one digit. A code
/// that does not fit an `i32` is stored as -1.
pub open spec fn aperture_def_spec(s: Seq<char>) -> Option<(i32, ApertureView)> {
    let body = s.skip(3);
    let n = leading_digits(body);
    if n == 0 {
        None
    } else {
        let code = match parse_i32_spec(body.take(n)) {
            Some(c) => c,
            None => -1i32,
        };
        let rest = body.skip(n);
        let k = crate::numeric::first_index(rest, ',');
        let template = rest.take(k);
        let mods_text = if k < rest.len() {
            rest.skip(k + 1)
        } else {
            Seq::<char>::empty()
        };
        Some(
            (
                code,
                ApertureView {
                    kind: kind_of(template),
                    template,
                    mods: float_literals(split_spec(mods_text, 'X')),
                },
            ),
        )
    }
}

/// `%AD...*%`: defines (or redefines) an aperture.
pub open spec fn parse_ad_spec(st: ReaderState, s: Seq<char>) -> ReaderState {
    match aperture_def_spec(s) {
        None => st,
        Some((code, ap)) => ReaderState { apertures: aperture_insert(st.apertures, code, ap), ..st },
    }
}

/// An `AD` statement that the reader can slice: at least three characters,
/// the third one ASCII.
pub open spec fn ad_sliceable(s: Seq<char>) -> bool {
    s.len() >= 3 && (s[2] as u32) < 0x80
}

/// The statements of an extended block from index `i` on. `FS`, `MO`, `AD`
/// and `LP` statements act on the state; `AM<name>` defines a macro made of
/// all the statements after it in the block; anything else is ignored.
pub open spec fn extended_from(st: ReaderState, parts: Seq<Seq<char>>, i: int) -> ReaderState
    decreases parts.len() - i,
{
    if i < 0 || i >= parts.len() {
        st
    } else {
        let s = trim_spec(parts[i]);
        if starts_with_spec(s, "FS"@) {
            extended_from(parse_fs_spec(st, s), parts, i + 1)
        } else if starts_with_spec(s, "MO"@) {
            extended_from(parse_mo_spec(st, s), parts, i + 1)
        } else if starts_with_spec(s, "AD"@) {
            extended_from(parse_ad_spec(st, s), parts, i + 1)
        } else if starts_with_spec(s, "AM"@) {
            ReaderState {
                macros: macro_insert(st.macros, trim_spec(s.skip(2)), parts.skip(i + 1)),
                ..st
            }
        } else if starts_with_spec(s, "LP"@) {
            let st2 = merge_spec(flush_path_spec(st));
            extended_from(ReaderState { dark: !contains_spec(s, "C"@), ..st2 }, parts, i + 1)
        } else {
            extended_from(st, parts, i + 1)
        }
    }
}

// ----- coordinate decoding -----

/// The exact value of the coordinate text `s` under the format: its digits
/// (every other character ignored; a value beyond `i64` reads as 0) scaled by
/// the fraction digits, or, with trailing zeros omitted, aligned on the
/// integer digits. A leading `-` makes it negative; no digits at all read as
/// zero.
pub open spec fn decode_spec(zeros: Zeros, int_digits: int, frac_digits: int, s: Seq<char>) -> DecimalView {
    let d = only_digits(s);
    if d.len() == 0 {
        zero_spec()
    } else {
        DecimalView {
            negative: s.len() > 0 && s[0] == '-',
            digits: if digits_value(d) <= i64::MAX {
                d
            } else {
                seq!['0']
            },
            exponent: if zeros == Zeros::Trailing {
                int_digits - d.len()
            } else {
                -frac_digits
            },
        }
    }
}

/// A coordinate reads as its digits with the decimal point placed by the
/// zero suppression of the format: with trailing zeros omitted (`FST`) the
/// first digits are the integer digits, so the point stands after them (2.4:
/// `0125` reads one and a quarter); with leading zeros omitted (`FSL`) or
/// none omitted the last digits are the fraction digits, so the point stands
/// before them (2.4: `125` reads 125 ten-thousandths). A leading `-` makes it negative; the value is the
/// digits times ten to the exponent.
pub proof fn law_coordinate_by_zero_suppression(zeros: Zeros, int_digits: int, frac_digits: int, s: Seq<char>)
    requires
        only_digits(s).len() > 0,
        digits_value(only_digits(s)) <= i64::MAX,
    ensures
        decode_spec(zeros, int_digits, frac_digits, s).digits == only_digits(s),
        decode_spec(zeros, int_digits, frac_digits, s).negative == (s[0] == '-'),
        zeros == Zeros::Trailing ==> decode_spec(zeros, int_digits, frac_digits, s).exponent
            + only_digits(s).len() == int_digits,
        zeros != Zeros::Trailing ==> decode_spec(zeros, int_digits, frac_digits, s).exponent
            == -frac_digits,
{
}

/// The kind of an aperture follows its template: `C` a circle, `R` a
/// rectangle, `O` an obround, `P` a regular polygon; any other name is a
/// macro.
pub proof fn law_aperture_kind_follows_template(s: Seq<char>)
    requires
        aperture_def_spec(s) is Some,
    ensures
        ({
            let ap = (aperture_def_spec(s)->0).1;
            &&& ap.template == seq!['C'] <==> ap.kind == ApertureKind::Circle
            &&& ap.template == seq!['R'] <==> ap.kind == ApertureKind::Rectangle
            &&& ap.template == seq!['O'] <==> ap.kind == ApertureKind::Obround
            &&& ap.template == seq!['P'] <==> ap.kind == ApertureKind::Polygon
        }),
{
    reveal_strlit("C");
    reveal_strlit("R");
    reveal_strlit("O");
    reveal_strlit("P");
    let ap = (aperture_def_spec(s)->0).1;
    assert("C"@ =~= seq!['C']);
    assert("R"@ =~= seq!['R']);
    assert("O"@ =~= seq!['O']);
    assert("P"@ =~= seq!['P']);
    assert(ap.kind == kind_of(ap.template));
    assert(seq!['C'] != seq!['R']) by {
        assert(seq!['C'][0] != seq!['R'][0]);
    }
    assert(seq!['C'] != seq!['O']) by {
        assert(seq!['C'][0] != seq!['O'][0]);
    }
    assert(seq!['C'] != seq!['P']) by {
        assert(seq!['C'][0] != seq!['P'][0]);
    }
    assert(seq!['R'] != seq!['O']) by {
        assert(seq!['R'][0] != seq!['O'][0]);
    }
    assert(seq!['R'] != seq!['P']) by {
        assert(seq!['R'][0] != seq!['P'][0]);
    }
    assert(seq!['O'] != seq!['P']) by {
        assert(seq!['O'][0] != seq!['P'][0]);
    }
}

/// [`decode_spec`] under the format of `st`.
pub open spec fn decode_in(st: ReaderState, s: Seq<char>) -> DecimalView {
    decode_spec(st.zeros, st.int_digits, st.frac_digits, s)
}

// ----- function-code words -----

/// An interpolation code at the start of a coordinate block, and the rest of
/// the block.
pub open spec fn strip_interp(w: Seq<char>) -> (Option<u8>, Seq<char>) {
    if starts_with_spec(w, "G01"@) {
        (Some(1u8), w.skip(3))
    } else if starts_with_spec(w, "G02"@) {
        (Some(2u8), w.skip(3))
    } else if starts_with_spec(w, "G03"@) {
        (Some(3u8), w.skip(3))
    } else if starts_with_spec(w, "G1"@) {
        (Some(1u8), w.skip(2))
    } else if starts_with_spec(w, "G2"@) {
        (Some(2u8), w.skip(2))
    } else if starts_with_spec(w, "G3"@) {
        (Some(3u8), w.skip(2))
    } else {
        (None, w)
    }
}

/// A draw (`D01`) from the current point to `(nx, ny)`.
pub open spec fn draw_spec(st: ReaderState, nx: DecimalView, ny: DecimalView, cw: CoordWordsView) -> ReaderState {
    let seg = if st.interp == 1 {
        SegView::Line { x: nx, y: ny }
    } else {
        SegView::Arc {
            from_x: st.x,
            from_y: st.y,
            x: nx,
            y: ny,
            i: match cw.i {
                Some(t) => decode_in(st, t),
                None => zero_spec(),
            },
            j: match cw.j {
                Some(t) => decode_in(st, t),
                None => zero_spec(),
            },
            clockwise: st.interp == 2,
            multi_quadrant: st.quadrant_multi,
        }
    };
    let (path, last) = match st.path {
        Some(p) => (PathView { segments: p.segments.push(seg), ..p }, st.last_path_aperture),
        None => (
            PathView { start_x: st.x, start_y: st.y, segments: seq![seg] },
            st.cur_aperture,
        ),
    };
    ReaderState { path: Some(path), last_path_aperture: last, x: nx, y: ny, ..st }
}

/// A coordinate block: an optional interpolation code, then coordinates and
/// an operation (`D01` draw, `D02` move, `D03` flash; without a `D` code a
/// circular interpolation draws and a linear one does nothing).
pub open spec fn coord_block_spec(st0: ReaderState, w: Seq<char>) -> Result<ReaderState, GerberError> {
    let (g, s) = strip_interp(w);
    let st = match g {
        Some(m) => ReaderState { interp: m, ..st0 },
        None => st0,
    };
    let cw = split_coords_spec(s);
    if cw.d is None && cw.x is None && cw.y is None {
        Ok(st)
    } else if !st.have_format {
        Err(GerberError::NoFormat)
    } else {
        let nx = match cw.x {
            Some(t) => decode_in(st, t),
            None => st.x,
        };
        let ny = match cw.y {
            Some(t) => decode_in(st, t),
            None => st.y,
        };
        let op: int = match cw.d {
            Some(d) => d as int,
            None => if st.interp >= 2 {
                1
            } else {
                0
            },
        };
        if op == 1 {
            Ok(draw_spec(st, nx, ny, cw))
        } else if op == 2 {
            Ok(ReaderState { x: nx, y: ny, ..flush_path_spec(st) })
        } else if op == 3 {
            let st2 = ReaderState { x: nx, y: ny, ..flush_path_spec(st) };
            let ap = aperture_lookup(st2.apertures, st2.cur_aperture);
            let mac = match ap {
                Some(a) => if a.kind == ApertureKind::Macro {
                    macro_lookup(st2.macros, a.template)
                } else {
                    None
                },
                None => None,
            };
            Ok(
                ReaderState {
                    ops: st2.ops.push(
                        OpView::Flash { aperture: ap, macro_def: mac, x: nx, y: ny, dark: st2.dark },
                    ),
                    ..st2
                },
            )
        } else {
            Ok(st)
        }
    }
}

/// The D-code of an aperture selection word (`D<n>` or `G54D<n>` with
/// `n >= 10`).
pub open spec fn aperture_select(w: Seq<char>) -> Option<i32> {
    let core = if starts_with_spec(w, "G54"@) {
        w.skip(3)
    } else {
        w
    };
    if core.len() > 0 && core[0] == 'D' {
        match parse_i32_spec(core.drop_first()) {
            Some(code) => if code >= 10 {
                Some(code)
            } else {
                None
            },
            None => None,
        }
    } else {
        None
    }
}

/// A function-code word.
pub open spec fn word_spec(st: ReaderState, w0: Seq<char>) -> Result<ReaderState, GerberError> {
    let w = trim_spec(w0);
    if w.len() == 0 || starts_with_spec(w, "G04"@) || starts_with_spec(w, "G4"@) {
        Ok(st)
    } else if w == "G36"@ {
        Ok(ReaderState { region: true, ..flush_path_spec(st) })
    } else if w == "G37"@ {
        Ok(ReaderState { region: false, ..finish_region_spec(st) })
    } else if w == "G01"@ || w == "G1"@ {
        Ok(ReaderState { interp: 1, ..st })
    } else if w == "G02"@ || w == "G2"@ {
        Ok(ReaderState { interp: 2, ..st })
    } else if w == "G03"@ || w == "G3"@ {
        Ok(ReaderState { interp: 3, ..st })
    } else if w == "G74"@ {
        Ok(ReaderState { quadrant_multi: false, ..st })
    } else if w == "G75"@ {
        Ok(ReaderState { quadrant_multi: true, ..st })
    } else if starts_with_spec(w, "G70"@) {
        Ok(ReaderState { units: Units::Inch, ..st })
    } else if starts_with_spec(w, "G71"@) {
        Ok(ReaderState { units: Units::Mm, ..st })
    } else if starts_with_spec(w, "M02"@) || starts_with_spec(w, "M0"@) {
        Ok(st)
    } else {
        match aperture_select(w) {
            Some(code) => Ok(ReaderState { cur_aperture: code, ..flush_path_spec(st) }),
            None => coord_block_spec(st, w),
        }
    }
}

/// The commands `cmds[i..]` applied to `st`; the first refused word stops the
/// reading.
pub open spec fn run_from(st: ReaderState, cmds: Seq<CmdView>, i: int) -> Result<ReaderState, GerberError>
    decreases cmds.len() - i,
{
    if i < 0 || i >= cmds.len() {
        Ok(st)
    } else {
        match cmds[i] {
            CmdView::Extended(parts) => run_from(extended_from(st, parts, 0), cmds, i + 1),
            CmdView::Word(w) => match word_spec(st, w) {
                Ok(st2) => run_from(st2, cmds, i + 1),
                Err(e) => Err(e),
            },
        }
    }
}

/// The reading of a whole Gerber stream: every command, then the path still
/// open is ended and a final merge is made.
pub open spec fn parse_spec(content: Seq<char>) -> Result<GerberView, GerberError> {
    match run_from(initial_state(), tokenize_spec(content), 0) {
        Ok(st) => {
            let f = merge_spec(flush_path_spec(st));
            Ok(GerberView { units: f.units, apertures: f.apertures, ops: f.ops })
        },
        Err(e) => Err(e),
    }
}

/// A statement that starts with `FS` or `MO` starts neither with `AD` nor with
/// `AM`.
proof fn lemma_keyword_prefixes_differ(s: Seq<char>)
    ensures
        starts_with_spec(s, "FS"@) || starts_with_spec(s, "MO"@) ==> !starts_with_spec(s, "AD"@)
            && !starts_with_spec(s, "AM"@),
{
    reveal_strlit("FS");
    reveal_strlit("MO");
    reveal_strlit("AD");
    reveal_strlit("AM");
    if starts_with_spec(s, "FS"@) || starts_with_spec(s, "MO"@) {
        if starts_with_spec(s, "AD"@) || starts_with_spec(s, "AM"@) {
            assert(s.subrange(0, 2)[0] == s[0]);
            assert(false);
        }
    }
}

/// Every `AD` statement that the reader reaches in an extended block, from
/// index `i` on, can be sliced (see [`ad_sliceable`]). The reader stops at the
/// first `AM` statement: what follows it is the macro's body, kept unread.
pub open spec fn parts_reached_sliceable(parts: Seq<Seq<char>>, i: int) -> bool
    decreases parts.len() - i,
{
    if i < 0 || i >= parts.len() {
        true
    } else {
        let s = trim_spec(parts[i]);
        if starts_with_spec(s, "AD"@) {
            ad_sliceable(s) && parts_reached_sliceable(parts, i + 1)
        } else if starts_with_spec(s, "AM"@) {
            true
        } else {
            parts_reached_sliceable(parts, i + 1)
        }
    }
}

/// Every `AD` statement that the reader reaches in `cmds[i..]`, starting from
/// `st`, can be sliced: in each extended block those before its first `AM`,
/// and only in the commands before the first refused word.
pub open spec fn ads_reached_sliceable(st: ReaderState, cmds: Seq<CmdView>, i: int) -> bool
    decreases cmds.len() - i,
{
    if i < 0 || i >= cmds.len() {
        true
    } else {
        match cmds[i] {
            CmdView::Extended(parts) => parts_reached_sliceable(parts, 0)
                && ads_reached_sliceable(extended_from(st, parts, 0), cmds, i + 1),
            CmdView::Word(w) => match word_spec(st, w) {
                Ok(st2) => ads_reached_sliceable(st2, cmds, i + 1),
                Err(_) => true,
            },
        }
    }
}

/// Every `AD` statement of the stream that the reader reaches can be sliced.
pub open spec fn ad_statements_sliceable(content: Seq<char>) -> bool {
    ads_reached_sliceable(initial_state(), tokenize_spec(content), 0)
}

// ---------------------------------------------------------------------------
// The reader
// ---------------------------------------------------------------------------

/// A copy of the character vectors `v`.
fn copy_char_vecs(v: &Vec<Vec<char>>) -> (r: Vec<Vec<char>>)
    ensures
        char_vecs_view(r@) == char_vecs_view(v@),
{
    let mut r: Vec<Vec<char>> = Vec::new();
    let mut i: usize = 0;
    while i < v.len()
        invariant
            i <= v@.len(),
            char_vecs_view(r@) == char_vecs_view(v@.take(i as int)),
        decreases v@.len() - i,
    {
        let c = slice_vec(&v[i], 0, v[i].len());
        let ghost before = char_vecs_view(r@);
        r.push(c);
        i = i + 1;
        assert(v[i - 1]@.subrange(0, v[i - 1]@.len() as int) =~= v[i - 1]@);
        assert(char_vecs_view(r@) =~= char_vecs_view(v@.take(i as int))) by {
            assert(char_vecs_view(v@.take(i as int)) =~= before.push(v@[i - 1]@));
        }
    }
    assert(v@.take(v@.len() as int) =~= v@);
    r
}

impl Aperture {
    /// A copy of the definition.
    pub fn copy(&self) -> (a: Aperture)
        ensures
            a@ == self@,
    {
        let t = slice_vec(&self.template, 0, self.template.len());
        assert(self.template@.subrange(0, self.template@.len() as int) =~= self.template@);
        Aperture { kind: self.kind, template: t, mods: copy_char_vecs(&self.mods) }
    }
}

/// The kind of aperture a template name selects.
fn template_kind(t: &[char]) -> (k: ApertureKind)
    ensures
        k == kind_of(t@),
{
    if crate::text::eq_text(t, "C") {
        ApertureKind::Circle
    } else if crate::text::eq_text(t, "R") {
        ApertureKind::Rectangle
    } else if crate::text::eq_text(t, "O") {
        ApertureKind::Obround
    } else if crate::text::eq_text(t, "P") {
        ApertureKind::Polygon
    } else {
        ApertureKind::Macro
    }
}

/// The exact value of a coordinate text (see [`decode_spec`]).
fn decode(zeros: Zeros, int_digits: u8, frac_digits: u8, s: &[char]) -> (d: Decimal)
    ensures
        d@ == decode_spec(zeros, int_digits as int, frac_digits as int, s@),
{
    let digits = keep_digits(s);
    if digits.len() == 0 {
        return Decimal::zero();
    }
    proof {
        assert(only_digits(s@).len() <= s@.len()) by {
            s@.lemma_filter_len(|c: char| is_ascii_digit(c));
        }
    }
    let neg = s.len() > 0 && s[0] == '-';
    let exponent: i128 = match zeros {
        Zeros::Trailing => (int_digits as i128) - (digits.len() as i128),
        _ => 0 - (frac_digits as i128),
    };
    match digits_value_upto(&digits, 9223372036854775807) {
        Some(_) => Decimal { negative: neg, digits, exponent },
        None => {
            let mut z: Vec<char> = Vec::new();
            z.push('0');
            assert(z@ =~= seq!['0']);
            Decimal { negative: neg, digits: z, exponent }
        },
    }
}

/// Does `s` contain the text `lit`?
fn contains_lit(s: &[char], lit: &str) -> (b: bool)
    ensures
        b == contains_spec(s@, lit@),
{
    let l = crate::text::chars_of(lit);
    contains_chars(s, &l)
}

/// Does `s` start with the text `lit`?
fn starts_with_lit(s: &[char], lit: &str) -> (b: bool)
    ensures
        b == starts_with_spec(s@, lit@),
{
    let l = crate::text::chars_of(lit);
    starts_with_chars(s, &l)
}

/// The interpolation code at the start of a coordinate block, and the rest.
fn strip_interp_prefix(w: &[char]) -> (r: (Option<u8>, Vec<char>))
    ensures
        r.0 == strip_interp(w@).0,
        r.1@ == strip_interp(w@).1,
{
    proof {
        reveal_strlit("G01");
        reveal_strlit("G02");
        reveal_strlit("G03");
        reveal_strlit("G1");
        reveal_strlit("G2");
        reveal_strlit("G3");
    }
    let (g, from): (Option<u8>, usize) = if starts_with_lit(w, "G01") {
        (Some(1), 3)
    } else if starts_with_lit(w, "G02") {
        (Some(2), 3)
    } else if starts_with_lit(w, "G03") {
        (Some(3), 3)
    } else if starts_with_lit(w, "G1") {
        (Some(1), 2)
    } else if starts_with_lit(w, "G2") {
        (Some(2), 2)
    } else if starts_with_lit(w, "G3") {
        (Some(3), 2)
    } else {
        (None, 0)
    };
    let s = slice_vec(w, from, w.len());
    assert(s@ =~= strip_interp(w@).1);
    (g, s)
}

/// The reader: modal state, tables, and the operations read so far.
struct Parser {
    units: Units,
    int_digits: u8,
    frac_digits: u8,
    zeros: Zeros,
    have_format: bool,
    apertures: Vec<(i32, Aperture)>,
    macros: Vec<(Vec<char>, MacroDef)>,
    cur_aperture: i32,
    last_path_aperture: i32,
    interp: u8,
    quadrant_multi: bool,
    x: Decimal,
    y: Decimal,
    polarity_dark: bool,
    making_region: bool,
    path: Option<GerberPath>,
    ops: Vec<GerberOp>,
}

pub open spec fn opt_path_view(p: Option<GerberPath>) -> Option<PathView> {
    match p {
        Some(q) => Some(q@),
        None => None,
    }
}

impl Parser {
    spec fn state(&self) -> ReaderState {
        ReaderState {
            units: self.units,
            int_digits: self.int_digits as int,
            frac_digits: self.frac_digits as int,
            zeros: self.zeros,
            have_format: self.have_format,
            apertures: apertures_view(self.apertures@),
            macros: macros_view(self.macros@),
            cur_aperture: self.cur_aperture,
            last_path_aperture: self.last_path_aperture,
            interp: self.interp,
            quadrant_multi: self.quadrant_multi,
            x: self.x@,
            y: self.y@,
            dark: self.polarity_dark,
            region: self.making_region,
            path: opt_path_view(self.path),
            ops: ops_view(self.ops@),
        }
    }

    spec fn wf(&self) -> bool {
        self.int_digits <= 9 && self.frac_digits <= 9
    }

    fn new() -> (p: Parser)
        ensures
            p.state() == initial_state(),
            p.wf(),
    {
        let p = Parser {
            units: Units::Inch,
            int_digits: 3,
            frac_digits: 4,
            zeros: Zeros::Leading,
            have_format: false,
            apertures: Vec::new(),
            macros: Vec::new(),
            cur_aperture: -1,
            last_path_aperture: -1,
            interp: 1,
            quadrant_multi: true,
            x: Decimal::zero(),
            y: Decimal::zero(),
            polarity_dark: true,
            making_region: false,
            path: None,
            ops: Vec::new(),
        };
        assert(apertures_view(p.apertures@) =~= Seq::<(i32, ApertureView)>::empty());
        assert(macros_view(p.macros@) =~= Seq::<(Seq<char>, Seq<Seq<char>>)>::empty());
        assert(ops_view(p.ops@) =~= Seq::<OpView>::empty());
        p
    }

    /// Index of the definition of `code`, or the table length.
    fn aperture_pos(&self, code: i32) -> (k: usize)
        ensures
            k == aperture_index(self.state().apertures, code),
    {
        let ghost t = apertures_view(self.apertures@);
        proof {
            lemma_aperture_index(t, code);
        }
        let mut k: usize = 0;
        while k < self.apertures.len() && self.apertures[k].0 != code
            invariant
                k <= self.apertures@.len(),
                t == apertures_view(self.apertures@),
                t.len() == self.apertures@.len(),
                forall|j: int| 0 <= j < k ==> t[j].0 != code,
                0 <= aperture_index(t, code) <= t.len(),
                aperture_index(t, code) < t.len() ==> t[aperture_index(t, code)].0 == code,
                forall|j: int| 0 <= j < aperture_index(t, code) ==> t[j].0 != code,
            decreases self.apertures@.len() - k,
        {
            assert(t[k as int].0 == self.apertures@[k as int].0);
            k = k + 1;
        }
        if k < self.apertures.len() {
            assert(t[k as int].0 == self.apertures@[k as int].0);
        }
        k
    }

    /// A copy of the definition of `code`.
    fn lookup_aperture(&self, code: i32) -> (r: Option<Aperture>)
        ensures
            opt_aperture_view(r) == aperture_lookup(self.state().apertures, code),
    {
        let k = self.aperture_pos(code);
        if k < self.apertures.len() {
            Some(self.apertures[k].1.copy())
        } else {
            None
        }
    }

    /// A copy of the macro named `name`.
    fn lookup_macro(&self, name: &[char]) -> (r: Option<MacroDef>)
        ensures
            opt_macro_view(r) == macro_lookup(self.state().macros, name@),
    {
        let ghost t = macros_view(self.macros@);
        proof {
            lemma_macro_index(t, name@);
        }
        let mut k: usize = 0;
        while k < self.macros.len() && !crate::text::eq_chars(&self.macros[k].0, name)
            invariant
                k <= self.macros@.len(),
                t == macros_view(self.macros@),
                t.len() == self.macros@.len(),
                forall|j: int| 0 <= j < k ==> t[j].0 != name@,
                0 <= macro_index(t, name@) <= t.len(),
                macro_index(t, name@) < t.len() ==> t[macro_index(t, name@)].0 == name@,
                forall|j: int| 0 <= j < macro_index(t, name@) ==> t[j].0 != name@,
            decreases self.macros@.len() - k,
        {
            assert(t[k as int].0 == self.macros@[k as int].0@);
            k = k + 1;
        }
        if k < self.macros.len() {
            assert(t[k as int].0 == self.macros@[k as int].0@);
            Some(self.macros[k].1.copy())
        } else {
            None
        }
    }

    fn insert_aperture(&mut self, code: i32, ap: Aperture)
        ensures
            final(self).state() == (ReaderState {
                apertures: aperture_insert(old(self).state().apertures, code, ap@),
                ..old(self).state()
            }),
    {
        let k = self.aperture_pos(code);
        let ghost t = apertures_view(self.apertures@);
        let ghost av = ap@;
        if k < self.apertures.len() {
            self.apertures[k] = (code, ap);
            assert(apertures_view(self.apertures@) =~= t.update(k as int, (code, av)));
        } else {
            self.apertures.push((code, ap));
            assert(apertures_view(self.apertures@) =~= t.push((code, av)));
        }
    }

    fn insert_macro(&mut self, name: Vec<char>, def: MacroDef)
        ensures
            final(self).state() == (ReaderState {
                macros: macro_insert(old(self).state().macros, name@, def@),
                ..old(self).state()
            }),
    {
        let ghost t = macros_view(self.macros@);
        let ghost nv = name@;
        let ghost dv = def@;
        proof {
            lemma_macro_index(t, name@);
        }
        let mut k: usize = 0;
        while k < self.macros.len() && !crate::text::eq_chars(&self.macros[k].0, &name)
            invariant
                k <= self.macros@.len(),
                t == macros_view(self.macros@),
                t.len() == self.macros@.len(),
                nv == name@,
                forall|j: int| 0 <= j < k ==> t[j].0 != nv,
                0 <= macro_index(t, nv) <= t.len(),
                macro_index(t, nv) < t.len() ==> t[macro_index(t, nv)].0 == nv,
                forall|j: int| 0 <= j < macro_index(t, nv) ==> t[j].0 != nv,
            decreases self.macros@.len() - k,
        {
            assert(t[k as int].0 == self.macros@[k as int].0@);
            k = k + 1;
        }
        if k < self.macros.len() {
            assert(t[k as int].0 == self.macros@[k as int].0@);
            self.macros[k] = (name, def);
            assert(macros_view(self.macros@) =~= t.update(k as int, (nv, dv)));
        } else {
            self.macros.push((name, def));
            assert(macros_view(self.macros@) =~= t.push((nv, dv)));
        }
    }

    fn flush_path(&mut self)
        ensures
            final(self).state() == flush_path_spec(old(self).state()),
            final(self).wf() == old(self).wf(),
    {
        if self.making_region {
            return;
        }
        match self.path.take() {
            None => {},
            Some(p) => {
                let ap = self.lookup_aperture(self.last_path_aperture);
                let ghost before = ops_view(self.ops@);
                let op = GerberOp::Trace { aperture: ap, path: p, dark: self.polarity_dark };
                let ghost ov = op@;
                self.ops.push(op);
                assert(ops_view(self.ops@) =~= before.push(ov));
            },
        }
    }

    fn finish_region(&mut self)
        ensures
            final(self).state() == finish_region_spec(old(self).state()),
            final(self).wf() == old(self).wf(),
    {
        match self.path.take() {
            None => {},
            Some(p) => {
                let ghost before = ops_view(self.ops@);
                let op = GerberOp::Region { path: p, dark: self.polarity_dark };
                let ghost ov = op@;
                self.ops.push(op);
                assert(ops_view(self.ops@) =~= before.push(ov));
            },
        }
    }

    fn merge(&mut self)
        ensures
            final(self).state() == merge_spec(old(self).state()),
            final(self).wf() == old(self).wf(),
    {
        let ghost before = ops_view(self.ops@);
        self.ops.push(GerberOp::Merge);
        assert(ops_view(self.ops@) =~= before.push(OpView::Merge));
    }

    fn parse_fs(&mut self, s: &[char])
        requires
            old(self).wf(),
        ensures
            final(self).state() == parse_fs_spec(old(self).state(), s@),
            final(self).wf(),
    {
        self.zeros = if contains_lit(s, "FSL") {
            Zeros::Leading
        } else if contains_lit(s, "FST") {
            Zeros::Trailing
        } else {
            Zeros::Kept
        };
        let k = crate::numeric::find_char(s, 'X');
        if k < s.len() && s.len() - k > 2 {
            let a = s[k + 1];
            let b = s[k + 2];
            if '0' <= a && a <= '9' && '0' <= b && b <= '9' {
                self.int_digits = (a as u32 - 48) as u8;
                self.frac_digits = (b as u32 - 48) as u8;
            }
        }
        self.have_format = true;
    }

    fn parse_mo(&mut self, s: &[char])
        ensures
            final(self).state() == parse_mo_spec(old(self).state(), s@),
            final(self).wf() == old(self).wf(),
    {
        if contains_lit(s, "MM") {
            self.units = Units::Mm;
        } else if contains_lit(s, "IN") {
            self.units = Units::Inch;
        }
    }

    fn parse_ad(&mut self, s: &[char])
        requires
            ad_sliceable(s@),
        ensures
            final(self).state() == parse_ad_spec(old(self).state(), s@),
            final(self).wf() == old(self).wf(),
    {
        let body = slice_vec(s, 3, s.len());
        assert(body@ =~= s@.skip(3));
        proof {
            lemma_leading_digits(body@);
        }
        let mut n: usize = 0;
        while n < body.len() && '0' <= body[n] && body[n] <= '9'
            invariant
                n <= body@.len(),
                forall|k: int| 0 <= k < n ==> is_ascii_digit(#[trigger] body@[k]),
                0 <= leading_digits(body@) <= body@.len(),
                forall|k: int| 0 <= k < leading_digits(body@) ==> is_ascii_digit(#[trigger] body@[k]),
                leading_digits(body@) < body@.len() ==> !is_ascii_digit(body@[leading_digits(body@)]),
            decreases body@.len() - n,
        {
            n = n + 1;
        }
        assert(n == leading_digits(body@));
        if n == 0 {
            return;
        }
        let code_text = slice_vec(&body, 0, n);
        assert(code_text@ =~= body@.take(n as int));
        let code: i32 = match parse_i32(&code_text) {
            Some(c) => c,
            None => -1,
        };
        let rest = slice_vec(&body, n, body.len());
        assert(rest@ =~= body@.skip(n as int));
        let k = crate::numeric::find_char(&rest, ',');
        let template = slice_vec(&rest, 0, k);
        assert(template@ =~= rest@.take(k as int));
        let mods_text = if k < rest.len() {
            let m = slice_vec(&rest, k + 1, rest.len());
            assert(m@ =~= rest@.skip(k + 1));
            m
        } else {
            let m: Vec<char> = Vec::new();
            assert(m@ =~= Seq::<char>::empty());
            m
        };
        let pieces = split_chars(&mods_text, 'X');
        let ghost pv = pieces@.map_values(|x: Vec<char>| x@);
        let mut mods: Vec<Vec<char>> = Vec::new();
        let mut i: usize = 0;
        while i < pieces.len()
            invariant
                i <= pieces@.len(),
                pv == pieces@.map_values(|x: Vec<char>| x@),
                char_vecs_view(mods@) == float_literals(pv.take(i as int)),
            decreases pieces@.len() - i,
        {
            let t = trim_vec(&pieces[i]);
            proof {
                assert(pv.take(i + 1).drop_last() =~= pv.take(i as int));
                assert(pv.take(i + 1).last() == pieces@[i as int]@);
            }
            if is_float_lit(&t) {
                let ghost before = char_vecs_view(mods@);
                mods.push(t);
                assert(char_vecs_view(mods@) =~= before.push(t@));
            }
            i = i + 1;
        }
        assert(pv.take(pieces@.len() as int) =~= pv);
        let kind = template_kind(&template);
        let ap = Aperture { kind, template, mods };
        self.insert_aperture(code, ap);
    }

    fn handle_extended(&mut self, parts: &Vec<Vec<char>>)
        requires
            old(self).wf(),
            parts_reached_sliceable(char_vecs_view(parts@), 0),
        ensures
            final(self).state() == extended_from(old(self).state(), char_vecs_view(parts@), 0),
            final(self).wf(),
    {
        let ghost pv = char_vecs_view(parts@);
        let mut i: usize = 0;
        while i < parts.len()
            invariant
                i <= parts@.len(),
                pv == char_vecs_view(parts@),
                self.wf(),
                parts_reached_sliceable(pv, i as int),
                extended_from(self.state(), pv, i as int) == extended_from(
                    old(self).state(),
                    pv,
                    0,
                ),
            decreases parts@.len() - i,
        {
            let s = trim_vec(&parts[i]);
            assert(s@ == trim_spec(pv[i as int]));
            proof {
                lemma_keyword_prefixes_differ(s@);
            }
            if starts_with_lit(&s, "FS") {
                self.parse_fs(&s);
            } else if starts_with_lit(&s, "MO") {
                self.parse_mo(&s);
            } else if starts_with_lit(&s, "AD") {
                self.parse_ad(&s);
            } else if starts_with_lit(&s, "AM") {
                proof {
                    reveal_strlit("AM");
                }
                let name_text = slice_vec(&s, 2, s.len());
                assert(name_text@ =~= s@.skip(2));
                let name = trim_vec(&name_text);
                let mut body: Vec<String> = Vec::new();
                let mut k: usize = i + 1;
                while k < parts.len()
                    invariant
                        i + 1 <= k <= parts@.len(),
                        pv == char_vecs_view(parts@),
                        body@.map_values(|t: String| t@) == pv.subrange(i + 1, k as int),
                    decreases parts@.len() - k,
                {
                    let t = crate::text::string_from_chars(&parts[k]);
                    let ghost before = body@.map_values(|t: String| t@);
                    body.push(t);
                    k = k + 1;
                    assert(body@.map_values(|t: String| t@) =~= pv.subrange(i + 1, k as int)) by {
                        assert(pv.subrange(i + 1, k as int) =~= before.push(pv[k - 1]));
                    }
                }
                assert(pv.subrange(i + 1, parts@.len() as int) =~= pv.skip(i + 1));
                let def = MacroDef::new(body);
                self.insert_macro(name, def);
                return;
            } else if starts_with_lit(&s, "LP") {
                self.flush_path();
                self.merge();
                self.polarity_dark = !contains_lit(&s, "C");
            }
            i = i + 1;
        }
    }

    /// A coordinate block.
    #[verifier::spinoff_prover]
    #[verifier::rlimit(40)]
    fn coord_block(&mut self, w: &[char]) -> (r: Result<(), GerberError>)
        requires
            old(self).wf(),
        ensures
            final(self).wf(),
            match coord_block_spec(old(self).state(), w@) {
                Ok(st) => r is Ok && final(self).state() == st,
                Err(e) => r == Err::<(), GerberError>(e),
            },
    {
        let (g, s) = strip_interp_prefix(w);
        match g {
            Some(m) => {
                self.interp = m;
            },
            None => {},
        }
        let cw = split_coords(&s);
        if cw.d.is_none() && cw.x.is_none() && cw.y.is_none() {
            return Ok(());
        }
        if !self.have_format {
            return Err(GerberError::NoFormat);
        }
        let nx = match &cw.x {
            Some(t) => decode(self.zeros, self.int_digits, self.frac_digits, t),
            None => self.x.copy(),
        };
        let ny = match &cw.y {
            Some(t) => decode(self.zeros, self.int_digits, self.frac_digits, t),
            None => self.y.copy(),
        };
        let op: u8 = match cw.d {
            Some(d) => d,
            None => if self.interp >= 2 {
                1
            } else {
                0
            },
        };
        if op == 1 {
            self.draw(nx, ny, &cw);
        } else if op == 2 {
            self.flush_path();
            self.x = nx;
            self.y = ny;
        } else if op == 3 {
            self.flash(nx, ny);
        }
        Ok(())
    }

    /// A flash at `(nx, ny)`.
    fn flash(&mut self, nx: Decimal, ny: Decimal)
        ensures
            ({
                let st2 = ReaderState { x: nx@, y: ny@, ..flush_path_spec(old(self).state()) };
                let ap = aperture_lookup(st2.apertures, st2.cur_aperture);
                let mac = match ap {
                    Some(a) => if a.kind == ApertureKind::Macro {
                        macro_lookup(st2.macros, a.template)
                    } else {
                        None
                    },
                    None => None,
                };
                final(self).state() == ReaderState {
                    ops: st2.ops.push(
                        OpView::Flash { aperture: ap, macro_def: mac, x: nx@, y: ny@, dark: st2.dark },
                    ),
                    ..st2
                }
            }),
            final(self).wf() == old(self).wf(),
    {
        self.flush_path();
        self.x = nx.copy();
        self.y = ny.copy();
        let ap = self.lookup_aperture(self.cur_aperture);
        let mac = match &ap {
            Some(a) => if a.kind == ApertureKind::Macro {
                self.lookup_macro(&a.template)
            } else {
                None
            },
            None => None,
        };
        let ghost before = ops_view(self.ops@);
        let f = GerberOp::Flash { aperture: ap, macro_def: mac, x: nx, y: ny, dark: self.polarity_dark };
        let ghost fv = f@;
        self.ops.push(f);
        assert(ops_view(self.ops@) =~= before.push(fv));
    }

    /// A draw to `(nx, ny)`.
    fn draw(&mut self, nx: Decimal, ny: Decimal, cw: &CoordWords)
        ensures
            final(self).state() == draw_spec(old(self).state(), nx@, ny@, cw@),
            final(self).wf() == old(self).wf(),
    {
        let seg = if self.interp == 1 {
            PathSeg::Line { x: nx.copy(), y: ny.copy() }
        } else {
            let i = match &cw.i {
                Some(t) => decode(self.zeros, self.int_digits, self.frac_digits, t),
                None => Decimal::zero(),
            };
            let j = match &cw.j {
                Some(t) => decode(self.zeros, self.int_digits, self.frac_digits, t),
                None => Decimal::zero(),
            };
            PathSeg::Arc {
                from_x: self.x.copy(),
                from_y: self.y.copy(),
                x: nx.copy(),
                y: ny.copy(),
                i,
                j,
                clockwise: self.interp == 2,
                multi_quadrant: self.quadrant_multi,
            }
        };
        let ghost sv = seg@;
        match self.path.take() {
            Some(p) => {
                let mut p = p;
                let ghost before = p@;
                p.segments.push(seg);
                assert(p@.segments =~= before.segments.push(sv));
                self.path = Some(p);
            },
            None => {
                let mut segs: Vec<PathSeg> = Vec::new();
                segs.push(seg);
                let p = GerberPath { start_x: self.x.copy(), start_y: self.y.copy(), segments: segs };
                assert(p@.segments =~= seq![sv]);
                self.path = Some(p);
                self.last_path_aperture = self.cur_aperture;
            },
        }
        self.x = nx;
        self.y = ny;
    }

    /// A function-code word.
    #[verifier::spinoff_prover]
    #[verifier::rlimit(40)]
    fn handle_word(&mut self, w0: &[char]) -> (r: Result<(), GerberError>)
        requires
            old(self).wf(),
        ensures
            final(self).wf(),
            match word_spec(old(self).state(), w0@) {
                Ok(st) => r is Ok && final(self).state() == st,
                Err(e) => r == Err::<(), GerberError>(e),
            },
    {
        let w = trim_vec(w0);
        if w.len() == 0 || starts_with_lit(&w, "G04") || starts_with_lit(&w, "G4") {
            return Ok(());
        }
        if crate::text::eq_text(&w, "G36") {
            self.flush_path();
            self.making_region = true;
            return Ok(());
        }
        if crate::text::eq_text(&w, "G37") {
            self.finish_region();
            self.making_region = false;
            return Ok(());
        }
        if crate::text::eq_text(&w, "G01") || crate::text::eq_text(&w, "G1") {
            self.interp = 1;
            return Ok(());
        }
        if crate::text::eq_text(&w, "G02") || crate::text::eq_text(&w, "G2") {
            self.interp = 2;
            return Ok(());
        }
        if crate::text::eq_text(&w, "G03") || crate::text::eq_text(&w, "G3") {
            self.interp = 3;
            return Ok(());
        }
        if crate::text::eq_text(&w, "G74") {
            self.quadrant_multi = false;
            return Ok(());
        }
        if crate::text::eq_text(&w, "G75") {
            self.quadrant_multi = true;
            return Ok(());
        }
        if starts_with_lit(&w, "G70") {
            self.units = Units::Inch;
            return Ok(());
        }
        if starts_with_lit(&w, "G71") {
            self.units = Units::Mm;
            return Ok(());
        }
        if starts_with_lit(&w, "M02") || starts_with_lit(&w, "M0") {
            return Ok(());
        }
        proof {
            reveal_strlit("G54");
        }
        let core = if starts_with_lit(&w, "G54") {
            let c = slice_vec(&w, 3, w.len());
            assert(c@ =~= w@.skip(3));
            c
        } else {
            let c = slice_vec(&w, 0, w.len());
            assert(c@ =~= w@);
            c
        };
        if core.len() > 0 && core[0] == 'D' {
            let rest = slice_vec(&core, 1, core.len());
            assert(rest@ =~= core@.drop_first());
            match parse_i32(&rest) {
                Some(code) => {
                    if code >= 10 {
                        self.flush_path();
                        self.cur_aperture = code;
                        return Ok(());
                    }
                },
                None => {},
            }
        }
        self.coord_block(&w)
    }
}

/// Can the reader slice every `AD` statement that it reaches in an extended
/// block (see [`parts_reached_sliceable`])?
fn parts_reached_ok(parts: &Vec<Vec<char>>) -> (b: bool)
    ensures
        b == parts_reached_sliceable(char_vecs_view(parts@), 0),
{
    let ghost pv = char_vecs_view(parts@);
    let mut j: usize = 0;
    while j < parts.len()
        invariant
            j <= parts@.len(),
            pv == char_vecs_view(parts@),
            parts_reached_sliceable(pv, j as int) == parts_reached_sliceable(pv, 0),
        decreases parts@.len() - j,
    {
        let t = trim_vec(&parts[j]);
        assert(pv[j as int] == parts@[j as int]@);
        assert(t@ == trim_spec(pv[j as int]));
        if starts_with_lit(&t, "AD") {
            if !(t.len() >= 3 && (t[2] as u32) < 0x80) {
                return false;
            }
        } else if starts_with_lit(&t, "AM") {
            return true;
        }
        j = j + 1;
    }
    true
}

/// Can the reader slice every `AD` statement of the stream that it reaches
/// (see [`ad_statements_sliceable`])? A stream for which this is false makes
/// the reader fail on a too-short or non-ASCII `AD` statement.
pub fn ad_statements_ok(content: &str) -> (b: bool)
    ensures
        b == ad_statements_sliceable(content@),
{
    let chars = crate::text::chars_of(content);
    let cmds = tokenize(&chars);
    let ghost cv = cmds@.map_values(|c: GerberCmd| c@);
    let mut p = Parser::new();
    let mut i: usize = 0;
    while i < cmds.len()
        invariant
            i <= cmds@.len(),
            cv == cmds@.map_values(|c: GerberCmd| c@),
            cv == tokenize_spec(content@),
            p.wf(),
            ads_reached_sliceable(p.state(), cv, i as int) == ad_statements_sliceable(content@),
        decreases cmds@.len() - i,
    {
        match &cmds[i] {
            GerberCmd::Extended(parts) => {
                assert(cv[i as int] == CmdView::Extended(char_vecs_view(parts@)));
                if !parts_reached_ok(parts) {
                    return false;
                }
                p.handle_extended(parts);
            },
            GerberCmd::Word(w) => {
                match p.handle_word(w) {
                    Ok(()) => {},
                    Err(_) => {
                        return true;
                    },
                }
            },
        }
        i = i + 1;
    }
    true
}

/// Reads a Gerber stream: every command in order, then the path still open
/// is ended and a final merge is made. A coordinate before any format
/// specification is refused.
pub fn parse(content: &str) -> (r: Result<Gerber, GerberError>)
    requires
        ad_statements_sliceable(content@),
    ensures
        match r {
            Ok(g) => parse_spec(content@) == Ok::<GerberView, GerberError>(g@),
            Err(e) => parse_spec(content@) == Err::<GerberView, GerberError>(e),
        },
{
    let chars = crate::text::chars_of(content);
    let cmds = tokenize(&chars);
    let ghost cv = cmds@.map_values(|c: GerberCmd| c@);
    let mut p = Parser::new();
    let mut i: usize = 0;
    while i < cmds.len()
        invariant
            i <= cmds@.len(),
            cv == cmds@.map_values(|c: GerberCmd| c@),
            cv == tokenize_spec(content@),
            ads_reached_sliceable(p.state(), cv, i as int),
            p.wf(),
            run_from(p.state(), cv, i as int) == run_from(initial_state(), cv, 0),
        decreases cmds@.len() - i,
    {
        match &cmds[i] {
            GerberCmd::Extended(parts) => {
                p.handle_extended(parts);
            },
            GerberCmd::Word(w) => {
                match p.handle_word(w) {
                    Ok(()) => {},
                    Err(e) => {
                        return Err(e);
                    },
                }
            },
        }
        i = i + 1;
    }
    p.flush_path();
    p.merge();
    Ok(Gerber { units: p.units, apertures: p.apertures, ops: p.ops })
}

} // verus!
