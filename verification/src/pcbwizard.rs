//! PcbWizard drill import: a `.DRL` data file read against its `.INF`
//! legend.
//!
//! The `.DRL` holds `Tnn` tool selections and `Xnnn Ynnn` hits whose integer
//! coordinates use an implied format; the `.INF` maps each tool code to a
//! diameter and states the units and that format.
//!
//! The `.INF` is read line by line, case-insensitively for the directives:
//! `Units, MM` / `Units, INCH` (also a bare `METRIC`, `MM` or `INCH`) set the
//! units (inch when unstated); `Format, 3.3` gives the number of fraction
//! digits of the implied format (the digits after the point; 4 for inch and
//! 3 for mm when unstated); a line `T<digits>` followed by an optional
//! diameter (`T01 0.8mm`, `T01,0.8mm`, `T01 = 0.032in`, `T01 0.032`) defines
//! a tool. A `mm`, `in`/`inch` or `mil` suffix on the diameter is converted
//! into the file's units; without one the value is in the file's units. Any
//! other line is ignored.
//!
//! In the `.DRL`, `Tnn` selects a tool, which the legend must define; a line
//! holding `X` or `Y` is a hit for the current tool. A coordinate written
//! with a decimal point is taken literally; an integer one is scaled by the
//! fraction digits of the implied format.
use crate::excellon::{
    ensure_tool, ensure_tool_exec, extract_coord_chars, extract_coord_spec, push_drill,
    set_diameter, sorted_keys, diameters_wf, tool_lookup, tool_pos, tools_view, update_tool,
    with_diameter, with_drill, DiaConversion, Diameter, DiameterView, Excellon, ExcellonError,
    ExcellonView, ErrorView, Point, PointView, ToolView, Tool, Units,
};
use crate::numeric::{
    all_digits, first_index, keep_digits, leading_digits, lemma_leading_digits, literal_decimal,
    literal_value, only_digits, parse_i32, parse_i32_spec, plain_chars, Decimal, DecimalView,
    zero_spec,
};
use crate::text::{
    ascii_lower_spec, contains_chars, contains_spec, is_ascii_digit, is_whitespace, is_ws,
    slice_vec, split_chars, split_spec, starts_with_chars, starts_with_spec, to_ascii_lower,
    trim_spec, trim_vec,
};
use vstd::prelude::*;

verus! {

// ---------------------------------------------------------------------------
// The legend
// ---------------------------------------------------------------------------

/// The unit suffix of a legend diameter.
#[derive(Clone, Copy, Debug, PartialEq, Eq, Structural)]
pub enum DiaUnit {
    Mm,
    Inch,
    Mil,
}

/// Units and implied coordinate format learned from the legend.
pub struct Format {
    pub units: Units,
    /// Fraction digit count of the implied integer coordinate format.
    pub frac: i32,
    pub format_seen: bool,
}

/// The fraction digits used when the legend states no format: 4 for inch
/// (format 2.4), 3 for millimetres (format 3.3).
pub open spec fn default_frac(units: Units) -> int {
    match units {
        Units::Inch => 4,
        Units::Mm => 3,
    }
}

impl Format {
    /// The fraction digits used when the legend states no format.
    pub fn default_for_unit(units: Units) -> (f: i32)
        ensures
            f == default_frac(units),
    {
        match units {
            Units::Inch => 4,
            Units::Mm => 3,
        }
    }
}

/// `s` without the separators (`,`, `=`, space, tab) at its start.
pub open spec fn strip_separators(s: Seq<char>) -> Seq<char>
    decreases s.len(),
{
    if s.len() > 0 && (s[0] == ',' || s[0] == '=' || s[0] == ' ' || s[0] == '\t') {
        strip_separators(s.drop_first())
    } else {
        s
    }
}

/// The number of digits, points and signs at the start of `s`.
pub open spec fn number_prefix(s: Seq<char>) -> int
    decreases s.len(),
{
    if s.len() > 0 && (is_ascii_digit(s[0]) || s[0] == '.' || s[0] == '-' || s[0] == '+') {
        1 + number_prefix(s.drop_first())
    } else {
        0
    }
}

/// The diameter after a tool code (`0.8mm`, `,0.032in`, `= 0.5`,
/// `31.5mil`): its value, and its unit suffix if any.
pub open spec fn parse_diameter_spec(s: Seq<char>) -> Option<(DecimalView, Option<DiaUnit>)> {
    let t = trim_spec(strip_separators(s));
    if t.len() == 0 {
        None
    } else {
        let n = number_prefix(t);
        match literal_value(t.take(n)) {
            None => None,
            Some(v) => {
                let rest = ascii_lower_spec(trim_spec(t.skip(n)));
                let unit = if starts_with_spec(rest, "mm"@) {
                    Some(DiaUnit::Mm)
                } else if starts_with_spec(rest, "mil"@) {
                    Some(DiaUnit::Mil)
                } else if starts_with_spec(rest, "in"@) {
                    Some(DiaUnit::Inch)
                } else {
                    None
                };
                Some((v, unit))
            },
        }
    }
}

/// How a diameter with unit suffix `unit` is brought into `file` units.
pub open spec fn conversion_of(unit: Option<DiaUnit>, file: Units) -> DiaConversion {
    match unit {
        Some(DiaUnit::Mm) => if file == Units::Mm {
            DiaConversion::Same
        } else {
            DiaConversion::MmToInch
        },
        Some(DiaUnit::Inch) => if file == Units::Inch {
            DiaConversion::Same
        } else {
            DiaConversion::InchToMm
        },
        Some(DiaUnit::Mil) => if file == Units::Inch {
            DiaConversion::MilToInch
        } else {
            DiaConversion::MilToMm
        },
        None => DiaConversion::Same,
    }
}

/// The legend read so far: units, format, tools, and the diameters captured
/// (converted once the units are known).
pub struct InfState {
    pub units: Units,
    pub frac: int,
    pub format_seen: bool,
    pub tools: Seq<(i32, ToolView)>,
    pub raw: Seq<(i32, DecimalView, Option<DiaUnit>)>,
}

pub open spec fn inf_initial() -> InfState {
    InfState {
        units: Units::Inch,
        frac: 4,
        format_seen: false,
        tools: Seq::<(i32, ToolView)>::empty(),
        raw: Seq::<(i32, DecimalView, Option<DiaUnit>)>::empty(),
    }
}

/// The number of whitespace characters at the start of `s`.
pub open spec fn leading_ws(s: Seq<char>) -> int
    decreases s.len(),
{
    if s.len() > 0 && is_ws(s[0]) {
        1 + leading_ws(s.drop_first())
    } else {
        0
    }
}

/// A `Format` directive: the digits right after the first `.` (after any
/// whitespace), when they read as a positive `i32`.
pub open spec fn format_frac(line: Seq<char>) -> Option<int> {
    let dot = first_index(line, '.');
    if dot < line.len() {
        let after = line.skip(dot + 1);
        let a2 = after.skip(leading_ws(after));
        match parse_i32_spec(a2.take(leading_digits(a2))) {
            Some(f) => if f > 0 {
                Some(f as int)
            } else {
                None
            },
            None => None,
        }
    } else {
        None
    }
}

/// The text of the error for an unreadable tool code in a legend line.
pub open spec fn bad_tool_text(line: Seq<char>) -> Seq<char> {
    "bad tool code in .INF: "@ + line
}

/// One trimmed legend line.
pub open spec fn inf_line(st: InfState, line: Seq<char>) -> Result<InfState, ErrorView> {
    let lower = ascii_lower_spec(line);
    if line.len() == 0 || starts_with_spec(line, ";"@) {
        Ok(st)
    } else if starts_with_spec(lower, "units"@) || lower == "metric"@ || lower == "mm"@ || lower
        == "inch"@ {
        if contains_spec(lower, "mm"@) || contains_spec(lower, "metric"@) {
            Ok(InfState { units: Units::Mm, ..st })
        } else if contains_spec(lower, "inch"@) || contains_spec(lower, "in"@) {
            Ok(InfState { units: Units::Inch, ..st })
        } else {
            Ok(st)
        }
    } else if starts_with_spec(lower, "format"@) {
        match format_frac(line) {
            Some(f) => Ok(InfState { frac: f, format_seen: true, ..st }),
            None => Ok(st),
        }
    } else if line.len() > 1 && (line[0] == 'T' || line[0] == 't') && is_ascii_digit(line[1]) {
        let rest = line.skip(1);
        let ds = rest.take(leading_digits(rest));
        match parse_i32_spec(ds) {
            None => Err(ErrorView::Parse(bad_tool_text(line))),
            Some(num) => {
                let st2 = InfState { tools: ensure_tool(st.tools, num), ..st };
                match parse_diameter_spec(line.skip(1 + ds.len() as int)) {
                    Some((v, u)) => Ok(InfState { raw: st2.raw.push((num, v, u)), ..st2 }),
                    None => Ok(st2),
                }
            },
        }
    } else {
        Ok(st)
    }
}

/// The legend lines `lines[i..]`, each trimmed; the first unreadable tool
/// code stops the reading.
pub open spec fn inf_lines(st: InfState, lines: Seq<Seq<char>>, i: int) -> Result<InfState, ErrorView>
    decreases lines.len() - i,
{
    if i < 0 || i >= lines.len() {
        Ok(st)
    } else {
        match inf_line(st, trim_spec(lines[i])) {
            Ok(st2) => inf_lines(st2, lines, i + 1),
            Err(e) => Err(e),
        }
    }
}

/// The captured diameters `raw[..n]`, converted into `units`, set on their
/// tools in order.
pub open spec fn apply_diameters(
    t: Seq<(i32, ToolView)>,
    raw: Seq<(i32, DecimalView, Option<DiaUnit>)>,
    units: Units,
    n: int,
) -> Seq<(i32, ToolView)>
    decreases n,
{
    if n <= 0 || n > raw.len() {
        t
    } else {
        let r = raw[n - 1];
        update_tool(
            apply_diameters(t, raw, units, n - 1),
            r.0,
            with_diameter(DiameterView { value: r.1, conversion: conversion_of(r.2, units) }),
        )
    }
}

// ---------------------------------------------------------------------------
// The drill data
// ---------------------------------------------------------------------------

/// The drill file read so far.
pub struct DrlState {
    pub cur: Option<i32>,
    pub x: DecimalView,
    pub y: DecimalView,
    pub tools: Seq<(i32, ToolView)>,
}

/// A coordinate: a literal with a decimal point (zero when it does not
/// read), or its digits scaled by `frac` fraction digits (a leading `-`
/// makes it negative; no digits read as zero).
pub open spec fn pw_decode(s0: Seq<char>, frac: int) -> DecimalView {
    let s = trim_spec(s0);
    if contains_spec(s, "."@) {
        match literal_value(s) {
            Some(d) => d,
            None => zero_spec(),
        }
    } else {
        let d = only_digits(s);
        if d.len() == 0 {
            zero_spec()
        } else {
            DecimalView { negative: s.len() > 0 && s[0] == '-', digits: d, exponent: -frac }
        }
    }
}

/// One trimmed line of the drill file.
pub open spec fn drl_line(st: DrlState, line: Seq<char>, frac: int) -> Result<DrlState, ErrorView> {
    if line.len() == 0 || starts_with_spec(line, ";"@) {
        Ok(st)
    } else if line[0] == 'T' || line[0] == 't' {
        let rest = line.skip(1);
        let ds = rest.take(leading_digits(rest));
        match parse_i32_spec(ds) {
            Some(num) => if tool_lookup(st.tools, num) is None {
                Err(ErrorView::UnknownTool("T"@ + ds))
            } else {
                Ok(DrlState { cur: Some(num), ..st })
            },
            None => Ok(st),
        }
    } else if starts_with_spec(line, "M"@) || starts_with_spec(line, "%"@) || starts_with_spec(
        line,
        "G90"@,
    ) || starts_with_spec(line, "G91"@) || starts_with_spec(line, "INCH"@) || starts_with_spec(
        line,
        "METRIC"@,
    ) || starts_with_spec(line, "FMAT"@) {
        Ok(st)
    } else if contains_spec(line, "X"@) || contains_spec(line, "Y"@) {
        let x = match extract_coord_spec(line, 'X') {
            Some(t) => pw_decode(t, frac),
            None => st.x,
        };
        let y = match extract_coord_spec(line, 'Y') {
            Some(t) => pw_decode(t, frac),
            None => st.y,
        };
        match st.cur {
            Some(t) => Ok(DrlState { x, y, tools: update_tool(st.tools, t, with_drill((x, y))), ..st }),
            None => Ok(DrlState { x, y, ..st }),
        }
    } else {
        Ok(st)
    }
}

/// The drill lines `lines[i..]`, each trimmed; the first unknown tool stops
/// the reading.
pub open spec fn drl_lines(st: DrlState, lines: Seq<Seq<char>>, i: int, frac: int) -> Result<
    DrlState,
    ErrorView,
>
    decreases lines.len() - i,
{
    if i < 0 || i >= lines.len() {
        Ok(st)
    } else {
        match drl_line(st, trim_spec(lines[i]), frac) {
            Ok(st2) => drl_lines(st2, lines, i + 1, frac),
            Err(e) => Err(e),
        }
    }
}

/// The legend read from `inf`: the tools with their converted diameters,
/// the units, the fraction digits of the implied format (the default for
/// the units when unstated), and whether a format was stated.
pub open spec fn parse_inf_spec(inf: Seq<char>) -> Result<
    (Seq<(i32, ToolView)>, Units, int, bool),
    ErrorView,
> {
    match inf_lines(inf_initial(), split_spec(inf, '\n'), 0) {
        Err(e) => Err(e),
        Ok(st) => Ok(
            (
                apply_diameters(st.tools, st.raw, st.units, st.raw.len() as int),
                st.units,
                if st.format_seen {
                    st.frac
                } else {
                    default_frac(st.units)
                },
                st.format_seen,
            ),
        ),
    }
}

/// A drill coordinate written without a decimal point reads as its digits
/// with the last `frac` of them after the point (the fraction digits of the
/// legend's format, trailing zeros kept); a leading `-` makes it negative.
/// With the inch default of four fraction digits, `012345` reads as
/// 12345 ten-thousandths.
pub proof fn law_drill_coordinate_scaled_by_format(s: Seq<char>, frac: int)
    requires
        !contains_spec(trim_spec(s), "."@),
        only_digits(trim_spec(s)).len() > 0,
    ensures
        pw_decode(s, frac).digits == only_digits(trim_spec(s)),
        pw_decode(s, frac).exponent == -frac,
        pw_decode(s, frac).negative == (trim_spec(s)[0] == '-'),
{
}

/// A legend that states no format implies 2.4 for inch and 3.3 for
/// millimetres: four fraction digits for inch units, three for mm. A stated
/// format is kept as stated.
pub proof fn law_unstated_format_defaults(inf: Seq<char>)
    requires
        parse_inf_spec(inf) is Ok,
    ensures
        ({
            let (_tools, units, frac, seen) = parse_inf_spec(inf)->Ok_0;
            &&& !seen && units == Units::Inch ==> frac == 4
            &&& !seen && units == Units::Mm ==> frac == 3
            &&& seen ==> frac > 0
        }),
{
    lemma_inf_lines_frac(inf_initial(), split_spec(inf, '\n'), 0);
}

proof fn lemma_inf_lines_frac(st: InfState, lines: Seq<Seq<char>>, i: int)
    requires
        st.format_seen ==> st.frac > 0,
    ensures
        inf_lines(st, lines, i) matches Ok(r) ==> (r.format_seen ==> r.frac > 0),
    decreases lines.len() - i,
{
    if 0 <= i < lines.len() {
        if let Ok(st2) = inf_line(st, trim_spec(lines[i])) {
            lemma_inf_lines_frac(st2, lines, i + 1);
        }
    }
}

/// The reading of a `.DRL`/`.INF` pair: refused when both are blank; the
/// legend first, then the drill lines against it.
pub open spec fn parse_pcbwizard_spec(drl: Seq<char>, inf: Seq<char>) -> Result<ExcellonView, ErrorView> {
    if trim_spec(drl).len() == 0 && trim_spec(inf).len() == 0 {
        Err(ErrorView::Empty)
    } else {
        match parse_inf_spec(inf) {
            Err(e) => Err(e),
            Ok((tools, units, frac, _seen)) => match drl_lines(
                DrlState { cur: None, x: zero_spec(), y: zero_spec(), tools },
                split_spec(drl, '\n'),
                0,
                frac,
            ) {
                Err(e) => Err(e),
                Ok(d) => Ok(ExcellonView { units, tools: d.tools }),
            },
        }
    }
}


// ---------------------------------------------------------------------------
// Reading
// ---------------------------------------------------------------------------

/// Does `s` contain the text `lit`?
fn has_lit(s: &[char], lit: &str) -> (b: bool)
    ensures
        b == contains_spec(s@, lit@),
{
    let l = crate::text::chars_of(lit);
    contains_chars(s, &l)
}

/// Does `s` start with the text `lit`?
fn begins(s: &[char], lit: &str) -> (b: bool)
    ensures
        b == starts_with_spec(s@, lit@),
{
    let l = crate::text::chars_of(lit);
    starts_with_chars(s, &l)
}

/// The number of leading ASCII digits of `s`.
fn count_leading_digits(s: &[char]) -> (n: usize)
    ensures
        n == leading_digits(s@),
        n <= s@.len(),
{
    proof {
        lemma_leading_digits(s@);
    }
    let mut n: usize = 0;
    while n < s.len() && '0' <= s[n] && s[n] <= '9'
        invariant
            n <= s@.len(),
            forall|k: int| 0 <= k < n ==> is_ascii_digit(#[trigger] s@[k]),
            0 <= leading_digits(s@) <= s@.len(),
            forall|k: int| 0 <= k < leading_digits(s@) ==> is_ascii_digit(#[trigger] s@[k]),
            leading_digits(s@) < s@.len() ==> !is_ascii_digit(s@[leading_digits(s@)]),
        decreases s@.len() - n,
    {
        n = n + 1;
    }
    n
}

pub proof fn lemma_leading_ws(s: Seq<char>)
    ensures
        0 <= leading_ws(s) <= s.len(),
        forall|k: int| 0 <= k < leading_ws(s) ==> is_ws(#[trigger] s[k]),
        leading_ws(s) < s.len() ==> !is_ws(s[leading_ws(s)]),
    decreases s.len(),
{
    if s.len() > 0 && is_ws(s[0]) {
        lemma_leading_ws(s.drop_first());
        assert forall|k: int| 0 <= k < leading_ws(s) implies is_ws(#[trigger] s[k]) by {
            if k > 0 {
                assert(s[k] == s.drop_first()[k - 1]);
            }
        }
    }
}

/// The fraction digits of a `Format` directive (see [`format_frac`]).
fn format_frac_exec(line: &[char]) -> (r: Option<i32>)
    ensures
        match r {
            Some(f) => format_frac(line@) == Some(f as int),
            None => format_frac(line@) is None,
        },
{
    let dot = crate::numeric::find_char(line, '.');
    if dot >= line.len() {
        return None;
    }
    let after = slice_vec(line, dot + 1, line.len());
    assert(after@ =~= line@.skip(dot + 1));
    proof {
        lemma_leading_ws(after@);
    }
    let mut w: usize = 0;
    while w < after.len() && is_whitespace(after[w])
        invariant
            w <= after@.len(),
            forall|k: int| 0 <= k < w ==> is_ws(#[trigger] after@[k]),
            0 <= leading_ws(after@) <= after@.len(),
            forall|k: int| 0 <= k < leading_ws(after@) ==> is_ws(#[trigger] after@[k]),
            leading_ws(after@) < after@.len() ==> !is_ws(after@[leading_ws(after@)]),
        decreases after@.len() - w,
    {
        w = w + 1;
    }
    assert(w == leading_ws(after@));
    let a2 = slice_vec(&after, w, after.len());
    assert(a2@ =~= after@.skip(w as int));
    let n = count_leading_digits(&a2);
    let ds = slice_vec(&a2, 0, n);
    assert(ds@ =~= a2@.take(n as int));
    match parse_i32(&ds) {
        Some(f) => if f > 0 {
            Some(f)
        } else {
            None
        },
        None => None,
    }
}

/// The diameter after a tool code (see [`parse_diameter_spec`]).
pub fn parse_diameter(s: &[char]) -> (r: Option<(Decimal, Option<DiaUnit>)>)
    ensures
        match r {
            Some((v, u)) => parse_diameter_spec(s@) == Some((v@, u)),
            None => parse_diameter_spec(s@) is None,
        },
{
    let mut i: usize = 0;
    assert(s@.skip(0) =~= s@);
    while i < s.len() && (s[i] == ',' || s[i] == '=' || s[i] == ' ' || s[i] == '\t')
        invariant
            i <= s@.len(),
            strip_separators(s@.skip(i as int)) == strip_separators(s@),
        decreases s@.len() - i,
    {
        assert(s@.skip(i as int).drop_first() =~= s@.skip(i + 1));
        i = i + 1;
    }
    let t0 = slice_vec(s, i, s.len());
    assert(t0@ =~= s@.skip(i as int));
    assert(strip_separators(t0@) == t0@);
    let t = trim_vec(&t0);
    if t.len() == 0 {
        return None;
    }
    let mut n: usize = 0;
    assert(t@.skip(0) =~= t@);
    while n < t.len() && (('0' <= t[n] && t[n] <= '9') || t[n] == '.' || t[n] == '-' || t[n] == '+')
        invariant
            n <= t@.len(),
            number_prefix(t@) == n + number_prefix(t@.skip(n as int)),
        decreases t@.len() - n,
    {
        assert(t@.skip(n as int).drop_first() =~= t@.skip(n + 1));
        n = n + 1;
    }
    let num = slice_vec(&t, 0, n);
    assert(num@ =~= t@.take(n as int));
    let v = match literal_decimal(&num) {
        Some(v) => v,
        None => {
            return None;
        },
    };
    let rest0 = slice_vec(&t, n, t.len());
    assert(rest0@ =~= t@.skip(n as int));
    let rest1 = trim_vec(&rest0);
    let rest = to_ascii_lower(&rest1);
    let unit = if begins(&rest, "mm") {
        Some(DiaUnit::Mm)
    } else if begins(&rest, "mil") {
        Some(DiaUnit::Mil)
    } else if begins(&rest, "in") {
        Some(DiaUnit::Inch)
    } else {
        None
    };
    Some((v, unit))
}

/// How a diameter with suffix `unit` is brought into `file` units.
pub fn conversion(unit: Option<DiaUnit>, file: Units) -> (c: DiaConversion)
    ensures
        c == conversion_of(unit, file),
{
    match unit {
        Some(DiaUnit::Mm) => if file == Units::Mm {
            DiaConversion::Same
        } else {
            DiaConversion::MmToInch
        },
        Some(DiaUnit::Inch) => if file == Units::Inch {
            DiaConversion::Same
        } else {
            DiaConversion::InchToMm
        },
        Some(DiaUnit::Mil) => if file == Units::Inch {
            DiaConversion::MilToInch
        } else {
            DiaConversion::MilToMm
        },
        None => DiaConversion::Same,
    }
}

/// The legend reader.
struct InfReader {
    units: Units,
    frac: i32,
    format_seen: bool,
    tools: Vec<(i32, Tool)>,
    raw: Vec<(i32, Decimal, Option<DiaUnit>)>,
}

pub open spec fn raw_view(r: Seq<(i32, Decimal, Option<DiaUnit>)>) -> Seq<(i32, DecimalView, Option<DiaUnit>)> {
    r.map_values(|e: (i32, Decimal, Option<DiaUnit>)| (e.0, e.1@, e.2))
}

impl InfReader {
    spec fn state(&self) -> InfState {
        InfState {
            units: self.units,
            frac: self.frac as int,
            format_seen: self.format_seen,
            tools: tools_view(self.tools@),
            raw: raw_view(self.raw@),
        }
    }

    #[verifier::spinoff_prover]
    #[verifier::rlimit(40)]
    fn line(&mut self, line: &[char]) -> (r: Result<(), ExcellonError>)
        requires
            sorted_keys(tools_view(old(self).tools@)),
        ensures
            sorted_keys(tools_view(final(self).tools@)),
            match inf_line(old(self).state(), line@) {
                Ok(st) => r is Ok && final(self).state() == st,
                Err(e) => r matches Err(e2) && e2@ == e,
            },
    {
        if line.len() == 0 || begins(line, ";") {
            return Ok(());
        }
        let lower = to_ascii_lower(line);
        if begins(&lower, "units") || crate::text::eq_text(&lower, "metric") || crate::text::eq_text(
            &lower,
            "mm",
        ) || crate::text::eq_text(&lower, "inch") {
            if has_lit(&lower, "mm") || has_lit(&lower, "metric") {
                self.units = Units::Mm;
            } else if has_lit(&lower, "inch") || has_lit(&lower, "in") {
                self.units = Units::Inch;
            }
            return Ok(());
        }
        if begins(&lower, "format") {
            match format_frac_exec(line) {
                Some(f) => {
                    self.frac = f;
                    self.format_seen = true;
                },
                None => {},
            }
            return Ok(());
        }
        if line.len() > 1 && (line[0] == 'T' || line[0] == 't') && '0' <= line[1] && line[1] <= '9' {
            let rest = slice_vec(line, 1, line.len());
            assert(rest@ =~= line@.skip(1));
            let n = count_leading_digits(&rest);
            let ds = slice_vec(&rest, 0, n);
            assert(ds@ =~= rest@.take(n as int));
            match parse_i32(&ds) {
                None => {
                    let mut m = crate::text::owned_str("bad tool code in .INF: ");
                    let l = crate::text::string_from_chars(line);
                    crate::text::push_str(&mut m, l.as_str());
                    return Err(ExcellonError::Parse(m));
                },
                Some(num) => {
                    ensure_tool_exec(&mut self.tools, num);
                    let after = slice_vec(line, 1 + n, line.len());
                    assert(after@ =~= line@.skip(1 + n));
                    match parse_diameter(&after) {
                        Some((v, u)) => {
                            let ghost before = raw_view(self.raw@);
                            let ghost vv = v@;
                            self.raw.push((num, v, u));
                            assert(raw_view(self.raw@) =~= before.push((num, vv, u)));
                        },
                        None => {},
                    }
                    return Ok(());
                },
            }
        }
        Ok(())
    }
}

/// Reads a `.INF` legend: the tools with their diameters converted into the
/// file's units, and the units and implied format. A tool code that does
/// not read as an `i32` is refused.
pub fn parse_inf(inf: &str) -> (r: Result<(Vec<(i32, Tool)>, Format), ExcellonError>)
    ensures
        match r {
            Ok((tools, f)) => sorted_keys(tools_view(tools@)) && parse_inf_spec(inf@) == Ok::<
                (Seq<(i32, ToolView)>, Units, int, bool),
                ErrorView,
            >((tools_view(tools@), f.units, f.frac as int, f.format_seen)),
            Err(e) => parse_inf_spec(inf@) == Err::<(Seq<(i32, ToolView)>, Units, int, bool), ErrorView>(
                e@,
            ),
        },
{
    let chars = crate::text::chars_of(inf);
    let lines = split_chars(&chars, '\n');
    let ghost lv = lines@.map_values(|x: Vec<char>| x@);
    let mut rd = InfReader {
        units: Units::Inch,
        frac: 4,
        format_seen: false,
        tools: Vec::new(),
        raw: Vec::new(),
    };
    assert(tools_view(rd.tools@) =~= Seq::<(i32, ToolView)>::empty());
    assert(raw_view(rd.raw@) =~= Seq::<(i32, DecimalView, Option<DiaUnit>)>::empty());
    let mut i: usize = 0;
    while i < lines.len()
        invariant
            i <= lines@.len(),
            lv == lines@.map_values(|x: Vec<char>| x@),
            lv == split_spec(inf@, '\n'),
            sorted_keys(tools_view(rd.tools@)),
            inf_lines(rd.state(), lv, i as int) == inf_lines(inf_initial(), lv, 0),
        decreases lines@.len() - i,
    {
        let l = trim_vec(&lines[i]);
        assert(l@ == trim_spec(lv[i as int]));
        match rd.line(&l) {
            Ok(()) => {},
            Err(e) => {
                return Err(e);
            },
        }
        i = i + 1;
    }
    let ghost st = rd.state();
    let units = rd.units;
    let mut tools = rd.tools;
    let raw = rd.raw;
    let mut k: usize = 0;
    while k < raw.len()
        invariant
            k <= raw@.len(),
            raw_view(raw@) == st.raw,
            units == st.units,
            sorted_keys(tools_view(tools@)),
            tools_view(tools@) == apply_diameters(st.tools, st.raw, st.units, k as int),
        decreases raw@.len() - k,
    {
        let num = raw[k].0;
        let v = raw[k].1.copy();
        let c = conversion(raw[k].2, units);
        assert(st.raw[k as int] == (num, v@, raw@[k as int].2));
        set_diameter(&mut tools, num, Diameter { value: v, conversion: c });
        k = k + 1;
    }
    let frac = if rd.format_seen {
        rd.frac
    } else {
        Format::default_for_unit(units)
    };
    Ok((tools, Format { units, frac, format_seen: rd.format_seen }))
}

/// A coordinate of the drill file (see [`pw_decode`]).
fn decode(s0: &[char], frac: i32) -> (d: Decimal)
    ensures
        d@ == pw_decode(s0@, frac as int),
{
    let s = trim_vec(s0);
    if has_lit(&s, ".") {
        return match literal_decimal(&s) {
            Some(d) => d,
            None => Decimal::zero(),
        };
    }
    let digits = keep_digits(&s);
    if digits.len() == 0 {
        return Decimal::zero();
    }
    let neg = s.len() > 0 && s[0] == '-';
    Decimal { negative: neg, digits, exponent: 0 - (frac as i128) }
}

/// The drill-file reader.
struct DrlReader {
    cur: Option<i32>,
    x: Decimal,
    y: Decimal,
    tools: Vec<(i32, Tool)>,
}

impl DrlReader {
    spec fn state(&self) -> DrlState {
        DrlState { cur: self.cur, x: self.x@, y: self.y@, tools: tools_view(self.tools@) }
    }

    #[verifier::spinoff_prover]
    #[verifier::rlimit(40)]
    fn line(&mut self, line: &[char], frac: i32) -> (r: Result<(), ExcellonError>)
        requires
            sorted_keys(tools_view(old(self).tools@)),
        ensures
            sorted_keys(tools_view(final(self).tools@)),
            match drl_line(old(self).state(), line@, frac as int) {
                Ok(st) => r is Ok && final(self).state() == st,
                Err(e) => r matches Err(e2) && e2@ == e,
            },
    {
        if line.len() == 0 || begins(line, ";") {
            return Ok(());
        }
        if line[0] == 'T' || line[0] == 't' {
            let rest = slice_vec(line, 1, line.len());
            assert(rest@ =~= line@.skip(1));
            let n = count_leading_digits(&rest);
            let ds = slice_vec(&rest, 0, n);
            assert(ds@ =~= rest@.take(n as int));
            match parse_i32(&ds) {
                Some(num) => {
                    let p = tool_pos(&self.tools, num);
                    if !(p < self.tools.len() && self.tools[p].0 == num) {
                        let mut m = crate::text::owned_str("T");
                        let d = crate::text::string_from_chars(&ds);
                        crate::text::push_str(&mut m, d.as_str());
                        return Err(ExcellonError::UnknownTool(m));
                    }
                    self.cur = Some(num);
                },
                None => {},
            }
            return Ok(());
        }
        if begins(line, "M") || begins(line, "%") || begins(line, "G90") || begins(line, "G91")
            || begins(line, "INCH") || begins(line, "METRIC") || begins(line, "FMAT") {
            return Ok(());
        }
        if has_lit(line, "X") || has_lit(line, "Y") {
            match extract_coord_chars(line, 'X') {
                Some(t) => {
                    self.x = decode(&t, frac);
                },
                None => {},
            }
            match extract_coord_chars(line, 'Y') {
                Some(t) => {
                    self.y = decode(&t, frac);
                },
                None => {},
            }
            match self.cur {
                Some(t) => {
                    push_drill(&mut self.tools, t, (self.x.copy(), self.y.copy()));
                },
                None => {},
            }
        }
        Ok(())
    }
}

/// Reads a PcbWizard `.DRL` + `.INF` pair into an [`Excellon`]. Both files
/// blank is refused; a tool code the legend cannot read, or a drill file
/// selecting a tool the legend does not define, is refused.
pub fn parse_pcbwizard(drl: &str, inf: &str) -> (r: Result<Excellon, ExcellonError>)
    ensures
        match r {
            Ok(e) => parse_pcbwizard_spec(drl@, inf@) == Ok::<ExcellonView, ErrorView>(e@)
                && sorted_keys(e@.tools),
            Err(e) => parse_pcbwizard_spec(drl@, inf@) == Err::<ExcellonView, ErrorView>(e@),
        },
{
    let dchars = crate::text::chars_of(drl);
    let ichars = crate::text::chars_of(inf);
    if trim_vec(&dchars).len() == 0 && trim_vec(&ichars).len() == 0 {
        return Err(ExcellonError::Empty);
    }
    let (tools, fmt) = match parse_inf(inf) {
        Ok(v) => v,
        Err(e) => {
            return Err(e);
        },
    };
    let lines = split_chars(&dchars, '\n');
    let ghost lv = lines@.map_values(|x: Vec<char>| x@);
    let ghost spec_tools = tools_view(tools@);
    let ghost start = DrlState { cur: None, x: zero_spec(), y: zero_spec(), tools: spec_tools };
    assert(parse_inf_spec(inf@) == Ok::<(Seq<(i32, ToolView)>, Units, int, bool), ErrorView>(
        (spec_tools, fmt.units, fmt.frac as int, fmt.format_seen),
    ));
    assert(parse_pcbwizard_spec(drl@, inf@) == (match drl_lines(start, lv, 0, fmt.frac as int) {
        Err(e) => Err(e),
        Ok(d) => Ok(ExcellonView { units: fmt.units, tools: d.tools }),
    }));
    let mut rd = DrlReader { cur: None, x: Decimal::zero(), y: Decimal::zero(), tools };
    let mut i: usize = 0;
    while i < lines.len()
        invariant
            i <= lines@.len(),
            lv == lines@.map_values(|x: Vec<char>| x@),
            lv == split_spec(drl@, '\n'),
            sorted_keys(tools_view(rd.tools@)),
            drl_lines(rd.state(), lv, i as int, fmt.frac as int) == drl_lines(
                start,
                lv,
                0,
                fmt.frac as int,
            ),
            parse_inf_spec(inf@) == Ok::<(Seq<(i32, ToolView)>, Units, int, bool), ErrorView>(
                (spec_tools, fmt.units, fmt.frac as int, fmt.format_seen),
            ),
            parse_pcbwizard_spec(drl@, inf@) == (match drl_lines(start, lv, 0, fmt.frac as int) {
                Err(e) => Err(e),
                Ok(d) => Ok(ExcellonView { units: fmt.units, tools: d.tools }),
            }),
        decreases lines@.len() - i,
    {
        let l = trim_vec(&lines[i]);
        assert(l@ == trim_spec(lv[i as int]));
        match rd.line(&l, fmt.frac) {
            Ok(()) => {},
            Err(e) => {
                assert(drl_lines(start, lv, 0, fmt.frac as int) == Err::<DrlState, ErrorView>(e@));
                return Err(e);
            },
        }
        i = i + 1;
    }
    Ok(Excellon { units: fmt.units, tools: rd.tools })
}

} // verus!
