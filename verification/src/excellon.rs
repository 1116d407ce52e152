//! Excellon (drill and route) reader.
//!
//! Handles the header (`M48` ... `%`/`M95`), units and zero suppression
//! (`INCH`/`METRIC`, `LZ`/`TZ`, an inline format such as `METRIC,000.000`),
//! tool definitions (`Tnn C...`), tool selection, plain drill hits
//! (`X... Y...`), `G85` slots and `G00`/`G01` routed slots.
//!
//! Coordinates are decoded exactly: a value written with a decimal point is
//! taken literally; an integer value is scaled by the implied format (with
//! leading zeros kept, the digits are aligned on the integer part; with
//! trailing zeros kept, they are scaled by the fraction digits).
use crate::numeric::{
    all_digits, digits_value, first_index, is_float_lit, is_float_literal, keep_digits,
    only_digits, parse_i32, parse_i32_spec, plain_literal_decimal, literal_value, literal_decimal, Decimal, DecimalView,
    zero_spec,
};
use crate::text::{
    contains_chars, contains_spec, is_ascii_digit, occurs_at, slice_vec, split_chars, split_spec,
    starts_with_chars, starts_with_spec, trim_spec, trim_vec,
};
use vstd::prelude::*;

verus! {

// ---------------------------------------------------------------------------
// Results
// ---------------------------------------------------------------------------

/// Units of a drill file.
#[derive(Clone, Copy, Debug, PartialEq, Eq, Structural)]
pub enum Units {
    Inch,
    Mm,
}

/// Why a drill file was refused.
#[derive(Clone, Debug, PartialEq, Eq)]
pub enum ExcellonError {
    /// The file (or both files of a pair) holds nothing but whitespace.
    Empty,
    /// A drill program selects a tool that its legend does not define; the
    /// text is the tool word (`T` and its digits).
    UnknownTool(String),
    /// A legend line could not be read; the text says which.
    Parse(String),
}

/// The content of an [`ExcellonError`].
pub enum ErrorView {
    Empty,
    UnknownTool(Seq<char>),
    Parse(Seq<char>),
}

impl View for ExcellonError {
    type V = ErrorView;

    open spec fn view(&self) -> ErrorView {
        match self {
            ExcellonError::Empty => ErrorView::Empty,
            ExcellonError::UnknownTool(t) => ErrorView::UnknownTool(t@),
            ExcellonError::Parse(t) => ErrorView::Parse(t@),
        }
    }
}

/// The text of an [`ExcellonError`].
pub open spec fn excellon_error_text(e: ExcellonError) -> Seq<char> {
    match e {
        ExcellonError::Empty => "empty drill file"@,
        ExcellonError::UnknownTool(t) => "unknown tool "@ + t@,
        ExcellonError::Parse(t) => "parse error: "@ + t@,
    }
}

impl ExcellonError {
    /// The message describing the error.
    pub fn message(&self) -> (m: String)
        ensures
            m@ == excellon_error_text(*self),
    {
        match self {
            ExcellonError::Empty => crate::text::owned_str("empty drill file"),
            ExcellonError::UnknownTool(t) => {
                let mut m = crate::text::owned_str("unknown tool ");
                crate::text::push_str(&mut m, t.as_str());
                m
            },
            ExcellonError::Parse(t) => {
                let mut m = crate::text::owned_str("parse error: ");
                crate::text::push_str(&mut m, t.as_str());
                m
            },
        }
    }
}

/// How a tool diameter read from a legend is brought into the file's units.
#[derive(Clone, Copy, Debug, PartialEq, Eq, Structural)]
pub enum DiaConversion {
    /// Already in the file's units.
    Same,
    /// Millimetres into inches: divided by 25.4.
    MmToInch,
    /// Inches into millimetres: multiplied by 25.4.
    InchToMm,
    /// Mils into inches: divided by 1000.
    MilToInch,
    /// Mils into millimetres: divided by 1000, then multiplied by 25.4.
    MilToMm,
}

/// A tool diameter: the value written, and the conversion into file units.
#[derive(Debug)]
pub struct Diameter {
    pub value: Decimal,
    pub conversion: DiaConversion,
}

/// The content of a [`Diameter`].
pub struct DiameterView {
    pub value: DecimalView,
    pub conversion: DiaConversion,
}

impl View for Diameter {
    type V = DiameterView;

    open spec fn view(&self) -> DiameterView {
        DiameterView { value: self.value@, conversion: self.conversion }
    }
}

/// A point `(x, y)`.
pub type Point = (Decimal, Decimal);

pub type PointView = (DecimalView, DecimalView);

pub open spec fn point_view(p: Point) -> PointView {
    (p.0@, p.1@)
}

/// A drilling tool and its hits.
#[derive(Debug)]
pub struct Tool {
    /// Its diameter (zero until defined).
    pub diameter: Diameter,
    /// Drill hits, in file order.
    pub drills: Vec<Point>,
    /// Slots (start, end), in file order.
    pub slots: Vec<(Point, Point)>,
}

/// The content of a [`Tool`].
pub struct ToolView {
    pub diameter: DiameterView,
    pub drills: Seq<PointView>,
    pub slots: Seq<(PointView, PointView)>,
}

impl View for Tool {
    type V = ToolView;

    open spec fn view(&self) -> ToolView {
        ToolView {
            diameter: self.diameter@,
            drills: self.drills@.map_values(|p: Point| point_view(p)),
            slots: self.slots@.map_values(|s: (Point, Point)| (point_view(s.0), point_view(s.1))),
        }
    }
}

/// A tool with a zero diameter and no hits.
pub open spec fn default_tool() -> ToolView {
    ToolView {
        diameter: DiameterView { value: zero_spec(), conversion: DiaConversion::Same },
        drills: Seq::<PointView>::empty(),
        slots: Seq::<(PointView, PointView)>::empty(),
    }
}

impl Tool {
    /// A tool with a zero diameter and no hits.
    pub fn new() -> (t: Tool)
        ensures
            t@ == default_tool(),
    {
        let t = Tool {
            diameter: Diameter { value: Decimal::zero(), conversion: DiaConversion::Same },
            drills: Vec::new(),
            slots: Vec::new(),
        };
        assert(t@.drills =~= Seq::<PointView>::empty());
        assert(t@.slots =~= Seq::<(PointView, PointView)>::empty());
        t
    }
}

/// A read drill file.
#[derive(Debug)]
pub struct Excellon {
    /// The units of the coordinates and diameters.
    pub units: Units,
    /// The tools by number, in increasing order of number.
    pub tools: Vec<(i32, Tool)>,
}

/// The content of an [`Excellon`].
pub struct ExcellonView {
    pub units: Units,
    pub tools: Seq<(i32, ToolView)>,
}

pub open spec fn tools_view(t: Seq<(i32, Tool)>) -> Seq<(i32, ToolView)> {
    t.map_values(|e: (i32, Tool)| (e.0, e.1@))
}

impl View for Excellon {
    type V = ExcellonView;

    open spec fn view(&self) -> ExcellonView {
        ExcellonView { units: self.units, tools: tools_view(self.tools@) }
    }
}

/// The total number of drill hits of `t[..n]`.
pub open spec fn drills_total(t: Seq<(i32, ToolView)>, n: int) -> nat
    decreases n,
{
    if n <= 0 || n > t.len() {
        0
    } else {
        drills_total(t, n - 1) + t[n - 1].1.drills.len()
    }
}

impl Excellon {
    /// Total number of drill hits across all tools.
    pub fn drill_count(&self) -> (n: usize)
        requires
            drills_total(self@.tools, self@.tools.len() as int) <= usize::MAX,
        ensures
            n == drills_total(self@.tools, self@.tools.len() as int),
    {
        let ghost t = self@.tools;
        let mut n: usize = 0;
        let mut i: usize = 0;
        while i < self.tools.len()
            invariant
                i <= self.tools@.len(),
                t == self@.tools,
                t.len() == self.tools@.len(),
                n == drills_total(t, i as int),
                drills_total(t, t.len() as int) <= usize::MAX,
            decreases self.tools@.len() - i,
        {
            proof {
                lemma_drills_total_mono(t, i + 1, t.len() as int);
                assert(t[i as int].1.drills.len() == self.tools@[i as int].1.drills@.len());
            }
            n = n + self.tools[i].1.drills.len();
            i = i + 1;
        }
        n
    }

    /// The tool numbered `code`.
    pub fn tool(&self, code: i32) -> (r: Option<&Tool>)
        requires
            sorted_keys(self@.tools),
        ensures
            match r {
                Some(t) => tool_lookup(self@.tools, code) == Some(t@),
                None => tool_lookup(self@.tools, code) is None,
            },
    {
        let k = tool_pos(&self.tools, code);
        if k < self.tools.len() && self.tools[k].0 == code {
            Some(&self.tools[k].1)
        } else {
            None
        }
    }
}

pub proof fn lemma_drills_total_mono(t: Seq<(i32, ToolView)>, a: int, b: int)
    requires
        0 <= a <= b <= t.len(),
    ensures
        drills_total(t, a) <= drills_total(t, b),
    decreases b - a,
{
    if a < b {
        lemma_drills_total_mono(t, a, b - 1);
    }
}

// ---------------------------------------------------------------------------
// The tool table: entries in increasing order of tool number
// ---------------------------------------------------------------------------

/// Tool numbers strictly increase along the table.
pub open spec fn sorted_keys(t: Seq<(i32, ToolView)>) -> bool {
    forall|a: int, b: int| 0 <= a < b < t.len() ==> #[trigger] t[a].0 < #[trigger] t[b].0
}

/// The position of tool `k`: the number of entries with a smaller number.
pub open spec fn tool_index(t: Seq<(i32, ToolView)>, k: i32) -> int
    decreases t.len(),
{
    if t.len() == 0 {
        0
    } else if t[0].0 >= k {
        0
    } else {
        1 + tool_index(t.drop_first(), k)
    }
}

pub proof fn lemma_tool_index(t: Seq<(i32, ToolView)>, k: i32)
    requires
        sorted_keys(t),
    ensures
        0 <= tool_index(t, k) <= t.len(),
        forall|j: int| 0 <= j < tool_index(t, k) ==> t[j].0 < k,
        forall|j: int| tool_index(t, k) <= j < t.len() ==> t[j].0 >= k,
    decreases t.len(),
{
    if t.len() > 0 && t[0].0 < k {
        let u = t.drop_first();
        assert(sorted_keys(u)) by {
            assert forall|a: int, b: int| 0 <= a < b < u.len() implies #[trigger] u[a].0
                < #[trigger] u[b].0 by {
                assert(u[a] == t[a + 1] && u[b] == t[b + 1]);
            }
        }
        lemma_tool_index(u, k);
        assert forall|j: int| 0 <= j < tool_index(t, k) implies t[j].0 < k by {
            if j > 0 {
                assert(t[j] == u[j - 1]);
            }
        }
        assert forall|j: int| tool_index(t, k) <= j < t.len() implies t[j].0 >= k by {
            assert(t[j] == u[j - 1]);
        }
    } else if t.len() > 0 {
        assert forall|j: int| 0 <= j < t.len() implies t[j].0 >= k by {
            if j > 0 {
                assert(t[0].0 < t[j].0);
            }
        }
    }
}

/// The entry of tool `k`.
pub open spec fn tool_lookup(t: Seq<(i32, ToolView)>, k: i32) -> Option<ToolView> {
    let p = tool_index(t, k);
    if p < t.len() && t[p].0 == k {
        Some(t[p].1)
    } else {
        None
    }
}

/// The table with tool `k` present (a new tool is empty).
pub open spec fn ensure_tool(t: Seq<(i32, ToolView)>, k: i32) -> Seq<(i32, ToolView)> {
    let p = tool_index(t, k);
    if p < t.len() && t[p].0 == k {
        t
    } else {
        t.insert(p, (k, default_tool()))
    }
}

/// The table with the entry of tool `k` (present) changed by `f`.
pub open spec fn update_tool(
    t: Seq<(i32, ToolView)>,
    k: i32,
    f: spec_fn(ToolView) -> ToolView,
) -> Seq<(i32, ToolView)> {
    let t2 = ensure_tool(t, k);
    let p = tool_index(t2, k);
    t2.update(p, (k, f(t2[p].1)))
}

pub open spec fn with_diameter(d: DiameterView) -> spec_fn(ToolView) -> ToolView {
    |tv: ToolView| ToolView { diameter: d, ..tv }
}

pub open spec fn with_drill(p: PointView) -> spec_fn(ToolView) -> ToolView {
    |tv: ToolView| ToolView { drills: tv.drills.push(p), ..tv }
}

pub open spec fn with_slot(a: PointView, b: PointView) -> spec_fn(ToolView) -> ToolView {
    |tv: ToolView| ToolView { slots: tv.slots.push((a, b)), ..tv }
}

/// Position of tool `k` in the table `t` (see [`tool_index`]).
pub fn tool_pos(t: &Vec<(i32, Tool)>, k: i32) -> (p: usize)
    requires
        sorted_keys(tools_view(t@)),
    ensures
        p == tool_index(tools_view(t@), k),
{
    let ghost tv = tools_view(t@);
    proof {
        lemma_tool_index(tv, k);
    }
    let mut p: usize = 0;
    while p < t.len() && t[p].0 < k
        invariant
            p <= t@.len(),
            tv == tools_view(t@),
            tv.len() == t@.len(),
            forall|j: int| 0 <= j < p ==> tv[j].0 < k,
            0 <= tool_index(tv, k) <= tv.len(),
            forall|j: int| 0 <= j < tool_index(tv, k) ==> tv[j].0 < k,
            forall|j: int| tool_index(tv, k) <= j < tv.len() ==> tv[j].0 >= k,
        decreases t@.len() - p,
    {
        assert(tv[p as int].0 == t@[p as int].0);
        p = p + 1;
    }
    if p < t.len() {
        assert(tv[p as int].0 == t@[p as int].0);
    }
    proof {
        let ti = tool_index(tv, k);
        if ti < p {
            assert(tv[ti].0 < k);
        }
    }
    p
}

/// Makes tool `k` present; returns its position.
pub(crate) fn ensure_tool_exec(t: &mut Vec<(i32, Tool)>, k: i32) -> (p: usize)
    requires
        sorted_keys(tools_view(old(t)@)),
    ensures
        sorted_keys(tools_view(final(t)@)),
        diameters_wf(tools_view(old(t)@)) ==> diameters_wf(tools_view(final(t)@)),
        tools_view(final(t)@) == ensure_tool(tools_view(old(t)@), k),
        p == tool_index(tools_view(final(t)@), k),
        p < final(t)@.len(),
        final(t)@[p as int].0 == k,
{
    let ghost tv = tools_view(t@);
    proof {
        lemma_tool_index(tv, k);
    }
    let p = tool_pos(t, k);
    if p < t.len() && t[p].0 == k {
        assert(tv[p as int].0 == t@[p as int].0);
        return p;
    }
    if p < t.len() {
        assert(tv[p as int].0 == t@[p as int].0);
    }
    let nt = Tool::new();
    t.insert(p, (k, nt));
    let ghost tv2 = tools_view(t@);
    assert(tv2 =~= tv.insert(p as int, (k, default_tool())));
    assert(sorted_keys(tv2)) by {
        assert forall|a: int, b: int| 0 <= a < b < tv2.len() implies #[trigger] tv2[a].0
            < #[trigger] tv2[b].0 by {
            if b < p {
                assert(tv2[a] == tv[a] && tv2[b] == tv[b]);
            } else if b == p {
                assert(tv2[a] == tv[a]);
            } else if a < p {
                assert(tv2[a] == tv[a] && tv2[b] == tv[b - 1]);
            } else if a == p {
                assert(tv2[b] == tv[b - 1]);
            } else {
                assert(tv2[a] == tv[a - 1] && tv2[b] == tv[b - 1]);
            }
        }
    }
    assert(diameters_wf(tv) ==> diameters_wf(tv2)) by {
        if diameters_wf(tv) {
            assert forall|i: int| 0 <= i < tv2.len() implies all_digits(
                #[trigger] tv2[i].1.diameter.value.digits,
            ) by {
                if i < p {
                    assert(tv2[i] == tv[i]);
                } else if i == p {
                    assert(tv2[i].1 == default_tool());
                } else {
                    assert(tv2[i] == tv[i - 1]);
                }
            }
        }
    }
    proof {
        lemma_tool_index(tv2, k);
        if tool_index(tv2, k) < p {
            assert(tv2[tool_index(tv2, k)] == tv[tool_index(tv2, k)]);
        }
        if tool_index(tv2, k) > p {
            assert(tv2[p as int].0 == k);
        }
    }
    p
}


/// Sets the diameter of tool `k` (adding the tool if needed).
pub(crate) fn set_diameter(t: &mut Vec<(i32, Tool)>, k: i32, d: Diameter)
    requires
        sorted_keys(tools_view(old(t)@)),
    ensures
        diameters_wf(tools_view(old(t)@)) && all_digits(d.value.digits@) ==> diameters_wf(
            tools_view(final(t)@),
        ),
        sorted_keys(tools_view(final(t)@)),
        tools_view(final(t)@) == update_tool(tools_view(old(t)@), k, with_diameter(d@)),
{
    let p = ensure_tool_exec(t, k);
    let ghost t2 = tools_view(t@);
    let ghost dv = d@;
    let (key, mut tool) = t.remove(p);
    tool.diameter = d;
    t.insert(p, (key, tool));
    assert(tools_view(t@) =~= t2.update(p as int, (k, (with_diameter(dv))(t2[p as int].1))));
    assert(diameters_wf(tools_view(old(t)@)) && all_digits(dv.value.digits) ==> diameters_wf(
        tools_view(t@),
    )) by {
        assert forall|i: int|
            0 <= i < tools_view(t@).len() && diameters_wf(t2) && all_digits(
                dv.value.digits,
            ) implies all_digits(#[trigger] tools_view(t@)[i].1.diameter.value.digits) by {
            if i != p {
                assert(tools_view(t@)[i] == t2[i]);
            }
        }
    }
    assert(sorted_keys(tools_view(t@))) by {
        assert forall|a: int, b: int| 0 <= a < b < tools_view(t@).len() implies #[trigger] tools_view(
            t@,
        )[a].0 < #[trigger] tools_view(t@)[b].0 by {
            assert(t2[a].0 < t2[b].0);
        }
    }
}

/// Appends a drill hit to tool `k` (adding the tool if needed).
pub(crate) fn push_drill(t: &mut Vec<(i32, Tool)>, k: i32, pt: Point)
    requires
        sorted_keys(tools_view(old(t)@)),
    ensures
        diameters_wf(tools_view(old(t)@)) ==> diameters_wf(tools_view(final(t)@)),
        sorted_keys(tools_view(final(t)@)),
        tools_view(final(t)@) == update_tool(tools_view(old(t)@), k, with_drill(point_view(pt))),
{
    let p = ensure_tool_exec(t, k);
    let ghost t2 = tools_view(t@);
    let ghost pv = point_view(pt);
    let (key, mut tool) = t.remove(p);
    let ghost before = tool@;
    tool.drills.push(pt);
    assert(tool@.drills =~= before.drills.push(pv));
    t.insert(p, (key, tool));
    assert(tools_view(t@) =~= t2.update(p as int, (k, (with_drill(pv))(t2[p as int].1))));
    assert(diameters_wf(tools_view(old(t)@)) ==> diameters_wf(tools_view(t@))) by {
        assert forall|i: int| 0 <= i < tools_view(t@).len() && diameters_wf(t2) implies all_digits(
            #[trigger] tools_view(t@)[i].1.diameter.value.digits,
        ) by {
            if i != p {
                assert(tools_view(t@)[i] == t2[i]);
            } else {
                assert(tools_view(t@)[i].1.diameter == t2[i].1.diameter);
            }
        }
    }
    assert(sorted_keys(tools_view(t@))) by {
        assert forall|a: int, b: int| 0 <= a < b < tools_view(t@).len() implies #[trigger] tools_view(
            t@,
        )[a].0 < #[trigger] tools_view(t@)[b].0 by {
            assert(t2[a].0 < t2[b].0);
        }
    }
}

/// Appends a slot to tool `k` (adding the tool if needed).
fn push_slot(t: &mut Vec<(i32, Tool)>, k: i32, a: Point, b: Point)
    requires
        sorted_keys(tools_view(old(t)@)),
    ensures
        diameters_wf(tools_view(old(t)@)) ==> diameters_wf(tools_view(final(t)@)),
        sorted_keys(tools_view(final(t)@)),
        tools_view(final(t)@) == update_tool(
            tools_view(old(t)@),
            k,
            with_slot(point_view(a), point_view(b)),
        ),
{
    let p = ensure_tool_exec(t, k);
    let ghost t2 = tools_view(t@);
    let ghost av = point_view(a);
    let ghost bv = point_view(b);
    let (key, mut tool) = t.remove(p);
    let ghost before = tool@;
    tool.slots.push((a, b));
    assert(tool@.slots =~= before.slots.push((av, bv)));
    t.insert(p, (key, tool));
    assert(tools_view(t@) =~= t2.update(p as int, (k, (with_slot(av, bv))(t2[p as int].1))));
    assert(diameters_wf(tools_view(old(t)@)) ==> diameters_wf(tools_view(t@))) by {
        assert forall|i: int| 0 <= i < tools_view(t@).len() && diameters_wf(t2) implies all_digits(
            #[trigger] tools_view(t@)[i].1.diameter.value.digits,
        ) by {
            if i != p {
                assert(tools_view(t@)[i] == t2[i]);
            } else {
                assert(tools_view(t@)[i].1.diameter == t2[i].1.diameter);
            }
        }
    }
    assert(sorted_keys(tools_view(t@))) by {
        assert forall|x: int, y: int| 0 <= x < y < tools_view(t@).len() implies #[trigger] tools_view(
            t@,
        )[x].0 < #[trigger] tools_view(t@)[y].0 by {
            assert(t2[x].0 < t2[y].0);
        }
    }
}

// ---------------------------------------------------------------------------
// Values in a line
// ---------------------------------------------------------------------------

/// A character of a coordinate value: a digit, a sign or a decimal point.
pub open spec fn is_coord_char(c: char) -> bool {
    is_ascii_digit(c) || c == '-' || c == '+' || c == '.'
}

/// The end of the run of coordinate characters starting at `i`.
pub open spec fn coord_run_end(s: Seq<char>, i: int) -> int
    decreases s.len() - i,
{
    if i < 0 || i >= s.len() {
        if i < 0 {
            0
        } else {
            s.len() as int
        }
    } else if is_coord_char(s[i]) {
        coord_run_end(s, i + 1)
    } else {
        i
    }
}

pub proof fn lemma_coord_run_end(s: Seq<char>, i: int)
    requires
        0 <= i <= s.len(),
    ensures
        i <= coord_run_end(s, i) <= s.len(),
        coord_run_end(s, i) < s.len() ==> !is_coord_char(s[coord_run_end(s, i)]),
    decreases s.len() - i,
{
    if i < s.len() && is_coord_char(s[i]) {
        lemma_coord_run_end(s, i + 1);
    }
}

/// The value text after the first `key` of `l`: the run of digits, signs and
/// points that follows it, if not empty.
pub open spec fn extract_coord_spec(l: Seq<char>, key: char) -> Option<Seq<char>> {
    let pos = first_index(l, key);
    if pos >= l.len() {
        None
    } else {
        let e = coord_run_end(l, pos + 1);
        if e <= pos + 1 {
            None
        } else {
            Some(l.subrange(pos + 1, e))
        }
    }
}

/// The value text after the first `key` (see [`extract_coord_spec`]).
pub(crate) fn extract_coord_chars(l: &[char], key: char) -> (r: Option<Vec<char>>)
    ensures
        match r {
            Some(v) => extract_coord_spec(l@, key) == Some(v@),
            None => extract_coord_spec(l@, key) is None,
        },
{
    let pos = crate::numeric::find_char(l, key);
    if pos >= l.len() {
        return None;
    }
    let mut e = pos + 1;
    proof {
        lemma_coord_run_end(l@, pos + 1);
    }
    while e < l.len() && (('0' <= l[e] && l[e] <= '9') || l[e] == '-' || l[e] == '+' || l[e] == '.')
        invariant
            pos + 1 <= e <= l@.len(),
            coord_run_end(l@, e as int) == coord_run_end(l@, pos + 1),
        decreases l@.len() - e,
    {
        e = e + 1;
    }
    if e == pos + 1 {
        return None;
    }
    Some(slice_vec(l, pos + 1, e))
}

/// The value text following the first `key` of the line `l`: the run of
/// digits, signs and decimal points after it, or `None` when `key` does not
/// occur or nothing follows it.
pub fn extract_coord(l: &str, key: char) -> (r: Option<String>)
    ensures
        match r {
            Some(v) => extract_coord_spec(l@, key) == Some(v@),
            None => extract_coord_spec(l@, key) is None,
        },
{
    let chars = crate::text::chars_of(l);
    match extract_coord_chars(&chars, key) {
        Some(v) => Some(crate::text::string_from_chars(&v)),
        None => None,
    }
}

// ---------------------------------------------------------------------------
// The reader
// ---------------------------------------------------------------------------

/// Zero suppression of integer coordinates.
#[derive(Clone, Copy, Debug, PartialEq, Eq, Structural)]
pub enum Zeros {
    /// `LZ`: leading zeros kept, trailing zeros may be omitted.
    Leading,
    /// `TZ`: trailing zeros kept, leading zeros may be omitted.
    Trailing,
}

/// The state of the reader between lines.
pub struct ExcState {
    pub units: Units,
    pub zeros: Zeros,
    pub int_in: int,
    pub frac_in: int,
    pub int_mm: int,
    pub frac_mm: int,
    pub units_seen: bool,
    pub tools: Seq<(i32, ToolView)>,
    pub cur_tool: i32,
    pub x: DecimalView,
    pub y: DecimalView,
    pub routing: bool,
    pub slot_start: PointView,
}

/// Before the first line: inches, leading zeros kept, formats 2.4 (inch)
/// and 3.3 (mm), no tool selected, at the origin.
pub open spec fn exc_initial() -> ExcState {
    ExcState {
        units: Units::Inch,
        zeros: Zeros::Leading,
        int_in: 2,
        frac_in: 4,
        int_mm: 3,
        frac_mm: 3,
        units_seen: false,
        tools: Seq::<(i32, ToolView)>::empty(),
        cur_tool: 0,
        x: zero_spec(),
        y: zero_spec(),
        routing: false,
        slot_start: (zero_spec(), zero_spec()),
    }
}

/// The exact value of a coordinate text: with a decimal point, the literal
/// itself (zero if it does not read as a number); otherwise the digits
/// (every other character ignored; none read as zero), aligned on the
/// integer digits of the format with leading zeros kept, or scaled by its
/// fraction digits with trailing zeros kept; a leading `-` makes it negative.
pub open spec fn exc_decode(st: ExcState, s: Seq<char>) -> DecimalView {
    if contains_spec(s, "."@) {
        match literal_value(s) {
            Some(d) => d,
            None => zero_spec(),
        }
    } else {
        let d = only_digits(s);
        if d.len() == 0 {
            zero_spec()
        } else {
            let upper = if st.units == Units::Mm {
                st.int_mm
            } else {
                st.int_in
            };
            let frac = if st.units == Units::Mm {
                st.frac_mm
            } else {
                st.frac_in
            };
            DecimalView {
                negative: s.len() > 0 && s[0] == '-',
                digits: d,
                exponent: if st.zeros == Zeros::Leading {
                    upper - d.len()
                } else {
                    -frac
                },
            }
        }
    }
}

/// A coordinate written without a decimal point reads as its digits with the
/// decimal point placed by the zero mode: with leading zeros kept (`LZ`) the
/// first digits are the integer digits of the format, so the point stands
/// after them (format 2.4: `0125` reads one and a quarter); with trailing
/// zeros kept (`TZ`) the last digits are the fraction digits of the format, so
/// the point stands before them (format 3.3: `125` reads one eighth). A leading `-` makes it
/// negative. The value is the digits times ten to the exponent.
pub proof fn law_integer_coordinate_by_zero_mode(st: ExcState, s: Seq<char>)
    requires
        !contains_spec(s, "."@),
        only_digits(s).len() > 0,
    ensures
        exc_decode(st, s).digits == only_digits(s),
        exc_decode(st, s).negative == (s[0] == '-'),
        st.zeros == Zeros::Leading ==> exc_decode(st, s).exponent + only_digits(s).len() == (
        if st.units == Units::Mm {
            st.int_mm
        } else {
            st.int_in
        }),
        st.zeros == Zeros::Trailing ==> exc_decode(st, s).exponent == -(if st.units == Units::Mm {
            st.frac_mm
        } else {
            st.frac_in
        }),
{
}

/// The X and Y of a line; a missing one keeps the current value.
pub open spec fn exc_coords(st: ExcState, l: Seq<char>) -> PointView {
    (
        match extract_coord_spec(l, 'X') {
            Some(t) => exc_decode(st, t),
            None => st.x,
        },
        match extract_coord_spec(l, 'Y') {
            Some(t) => exc_decode(st, t),
            None => st.y,
        },
    )
}

/// Index of the first piece that contains a `.`, or the number of pieces.
pub open spec fn first_with_point(p: Seq<Seq<char>>) -> int
    decreases p.len(),
{
    if p.len() == 0 {
        0
    } else if first_index(p[0], '.') < p[0].len() {
        0
    } else {
        1 + first_with_point(p.drop_first())
    }
}

/// The inline format of a units line (`METRIC,TZ,000.000`): in the first
/// comma-separated field after the first comma that holds a `.`, the
/// numbers of digits before and after the point, unless both are zero.
pub open spec fn inline_format(l: Seq<char>) -> Option<(int, int)> {
    let c = first_index(l, ',');
    if c >= l.len() {
        None
    } else {
        let pieces = split_spec(l.skip(c + 1), ',');
        let f = first_with_point(pieces);
        if f >= pieces.len() {
            None
        } else {
            let fmt = pieces[f];
            let dot = first_index(fmt, '.');
            let upper = only_digits(fmt.take(dot)).len() as int;
            let lower = only_digits(fmt.skip(dot + 1)).len() as int;
            if upper + lower > 0 {
                Some((upper, lower))
            } else {
                None
            }
        }
    }
}

/// A units line (`INCH...` or `METRIC...`): units, zero suppression, and the
/// inline format of those units.
pub open spec fn units_line(st: ExcState, l: Seq<char>) -> ExcState {
    let units = if starts_with_spec(l, "METRIC"@) {
        Units::Mm
    } else {
        Units::Inch
    };
    let zeros = if contains_spec(l, "TZ"@) {
        Zeros::Trailing
    } else if contains_spec(l, "LZ"@) {
        Zeros::Leading
    } else {
        st.zeros
    };
    let st2 = ExcState { units, zeros, units_seen: true, ..st };
    match inline_format(l) {
        None => st2,
        Some((u, f)) => if units == Units::Mm {
            ExcState { int_mm: u, frac_mm: f, ..st2 }
        } else {
            ExcState { int_in: u, frac_in: f, ..st2 }
        },
    }
}

/// The diameter after the first `C` of a line, if it reads as a number.
pub open spec fn diameter_after_c(l: Seq<char>) -> Option<DecimalView> {
    match extract_coord_spec(l, 'C') {
        Some(t) => literal_value(t),
        None => None,
    }
}

/// A tool line `T<num>[C<dia>]...`: with a diameter it defines the tool,
/// without one it selects it (and ends routing). A number that does not
/// read as an `i32` makes the line a no-op.
pub open spec fn tool_line(st: ExcState, l: Seq<char>) -> ExcState {
    let rest = l.skip(1);
    match parse_i32_spec(rest.take(crate::numeric::leading_digits(rest))) {
        None => st,
        Some(num) => match diameter_after_c(l) {
            Some(d) => ExcState {
                tools: update_tool(
                    st.tools,
                    num,
                    with_diameter(DiameterView { value: d, conversion: DiaConversion::Same }),
                ),
                ..st
            },
            None => ExcState {
                tools: ensure_tool(st.tools, num),
                cur_tool: num,
                routing: false,
                ..st
            },
        },
    }
}

/// A slot for the current tool (none when no tool is selected).
pub open spec fn add_slot(st: ExcState, a: PointView, b: PointView) -> ExcState {
    if st.cur_tool != 0 {
        ExcState { tools: update_tool(st.tools, st.cur_tool, with_slot(a, b)), ..st }
    } else {
        st
    }
}

/// Index of the first occurrence of `n` in `s`, or `s.len()`.
pub open spec fn find_sub(s: Seq<char>, n: Seq<char>, i: int) -> int
    decreases s.len() - i,
{
    if i < 0 || i >= s.len() || i + n.len() > s.len() {
        s.len() as int
    } else if occurs_at(s, n, i) {
        i
    } else {
        find_sub(s, n, i + 1)
    }
}

pub proof fn lemma_find_sub(s: Seq<char>, n: Seq<char>, i: int)
    ensures
        find_sub(s, n, i) <= s.len(),
        find_sub(s, n, i) < s.len() ==> occurs_at(s, n, find_sub(s, n, i)),
    decreases s.len() - i,
{
    if !(i < 0 || i >= s.len() || i + n.len() > s.len()) && !occurs_at(s, n, i) {
        lemma_find_sub(s, n, i + 1);
    }
}

/// A coordinate line: a `G85` slot (`X..Y..G85X..Y..`) or a drill hit for
/// the current tool.
pub open spec fn coord_line(st: ExcState, l: Seq<char>) -> ExcState {
    let k = find_sub(l, "G85"@, 0);
    if k < l.len() {
        let a = exc_coords(st, l.take(k));
        let b = exc_coords(st, l.skip(k + 3));
        add_slot(ExcState { x: b.0, y: b.1, ..st }, a, b)
    } else {
        let p = exc_coords(st, l);
        let st2 = ExcState { x: p.0, y: p.1, ..st };
        if st.cur_tool != 0 {
            ExcState { tools: update_tool(st2.tools, st.cur_tool, with_drill(p)), ..st2 }
        } else {
            st2
        }
    }
}

/// One trimmed line of a drill file.
pub open spec fn line_spec(st: ExcState, l: Seq<char>) -> ExcState {
    if l.len() == 0 || starts_with_spec(l, ";"@) || l == "M48"@ || l == "%"@ || l == "M95"@ {
        st
    } else if starts_with_spec(l, "INCH"@) || starts_with_spec(l, "METRIC"@) {
        units_line(st, l)
    } else if l == "M71"@ {
        ExcState { units: Units::Mm, units_seen: true, ..st }
    } else if l == "M72"@ {
        ExcState { units: Units::Inch, units_seen: true, ..st }
    } else if starts_with_spec(l, "FMAT"@) || l == "M30"@ || starts_with_spec(l, "G90"@)
        || starts_with_spec(l, "G91"@) || starts_with_spec(l, "G05"@) {
        st
    } else if starts_with_spec(l, "T"@) {
        tool_line(st, l)
    } else if starts_with_spec(l, "G00"@) {
        let p = exc_coords(st, l);
        ExcState { routing: true, x: p.0, y: p.1, slot_start: p, ..st }
    } else if starts_with_spec(l, "G01"@) {
        if st.routing {
            let p = exc_coords(st, l);
            add_slot(ExcState { x: p.0, y: p.1, slot_start: p, ..st }, st.slot_start, p)
        } else {
            st
        }
    } else if contains_spec(l, "X"@) || contains_spec(l, "Y"@) {
        coord_line(st, l)
    } else {
        st
    }
}

/// The lines `lines[i..]`, each trimmed, applied to `st`.
pub open spec fn lines_from(st: ExcState, lines: Seq<Seq<char>>, i: int) -> ExcState
    decreases lines.len() - i,
{
    if i < 0 || i >= lines.len() {
        st
    } else {
        lines_from(line_spec(st, trim_spec(lines[i])), lines, i + 1)
    }
}

/// The number of tools among `t[..n]` whose diameter, as an `f64`, is at most
/// 0.1.
pub open spec fn small_tools(t: Seq<(i32, ToolView)>, n: int) -> nat
    decreases n,
{
    if n <= 0 || n > t.len() {
        0
    } else {
        small_tools(t, n - 1) + if crate::numeric::f64_at_most_tenth(t[n - 1].1.diameter.value) {
            1nat
        } else {
            0nat
        }
    }
}

/// The units of a file that never states them: inches when tools of at
/// most 0.1 outnumber the others, millimetres otherwise.
pub open spec fn inferred_units(st: ExcState) -> Units {
    if st.units_seen {
        st.units
    } else {
        let small = small_tools(st.tools, st.tools.len() as int);
        if small > st.tools.len() - small {
            Units::Inch
        } else {
            Units::Mm
        }
    }
}

/// The reading of a whole drill file: refused when blank, else every line
/// in order, the units inferred when never stated.
pub open spec fn parse_spec(content: Seq<char>) -> Result<ExcellonView, ErrorView> {
    if trim_spec(content).len() == 0 {
        Err(ErrorView::Empty)
    } else {
        let st = lines_from(exc_initial(), split_spec(content, '\n'), 0);
        Ok(ExcellonView { units: inferred_units(st), tools: st.tools })
    }
}


/// Every tool diameter of the table is written with digits only.
pub open spec fn diameters_wf(t: Seq<(i32, ToolView)>) -> bool {
    forall|i: int| 0 <= i < t.len() ==> all_digits(#[trigger] t[i].1.diameter.value.digits)
}

/// The reader of a drill file.
struct ExcParser {
    units: Units,
    zeros: Zeros,
    int_in: usize,
    frac_in: usize,
    int_mm: usize,
    frac_mm: usize,
    units_seen: bool,
    tools: Vec<(i32, Tool)>,
    cur_tool: i32,
    x: Decimal,
    y: Decimal,
    routing: bool,
    slot_start: Point,
}

/// Does `s` contain the text `lit`?
fn has_lit(s: &[char], lit: &str) -> (b: bool)
    ensures
        b == contains_spec(s@, lit@),
{
    let l = crate::text::chars_of(lit);
    contains_chars(s, &l)
}

/// Does `s` start with the text `lit`?
fn begins(s: &[char], lit: &str) -> (b: bool)
    ensures
        b == starts_with_spec(s@, lit@),
{
    let l = crate::text::chars_of(lit);
    starts_with_chars(s, &l)
}

/// The position of the first piece holding a `.`.
pub proof fn lemma_first_with_point(p: Seq<Seq<char>>)
    ensures
        0 <= first_with_point(p) <= p.len(),
        first_with_point(p) < p.len() ==> first_index(p[first_with_point(p)], '.') < p[first_with_point(p)].len(),
        forall|j: int| 0 <= j < first_with_point(p) ==> first_index(#[trigger] p[j], '.') >= p[j].len(),
    decreases p.len(),
{
    if p.len() > 0 && first_index(p[0], '.') >= p[0].len() {
        lemma_first_with_point(p.drop_first());
        assert forall|j: int| 0 <= j < first_with_point(p) implies first_index(#[trigger] p[j], '.')
            >= p[j].len() by {
            if j > 0 {
                assert(p[j] == p.drop_first()[j - 1]);
            }
        }
    }
}

/// The inline format of a units line (see [`inline_format`]).
fn inline_format_exec(l: &[char]) -> (r: Option<(usize, usize)>)
    ensures
        match r {
            Some((u, f)) => inline_format(l@) == Some((u as int, f as int)),
            None => inline_format(l@) is None,
        },
{
    let c = crate::numeric::find_char(l, ',');
    if c >= l.len() {
        return None;
    }
    let rest = slice_vec(l, c + 1, l.len());
    assert(rest@ =~= l@.skip(c + 1));
    let pieces = split_chars(&rest, ',');
    let ghost pv = pieces@.map_values(|x: Vec<char>| x@);
    proof {
        lemma_first_with_point(pv);
    }
    let mut f: usize = 0;
    while f < pieces.len() && crate::numeric::find_char(&pieces[f], '.') >= pieces[f].len()
        invariant
            f <= pieces@.len(),
            pv == pieces@.map_values(|x: Vec<char>| x@),
            pv.len() == pieces@.len(),
            forall|j: int| 0 <= j < f ==> first_index(#[trigger] pv[j], '.') >= pv[j].len(),
            0 <= first_with_point(pv) <= pv.len(),
            first_with_point(pv) < pv.len() ==> first_index(pv[first_with_point(pv)], '.')
                < pv[first_with_point(pv)].len(),
            forall|j: int| 0 <= j < first_with_point(pv) ==> first_index(#[trigger] pv[j], '.')
                >= pv[j].len(),
        decreases pieces@.len() - f,
    {
        assert(pv[f as int] == pieces@[f as int]@);
        f = f + 1;
    }
    proof {
        if f < pieces@.len() {
            assert(pv[f as int] == pieces@[f as int]@);
        }
        let w = first_with_point(pv);
        if w < f {
            assert(first_index(pv[w], '.') >= pv[w].len());
        }
    }
    if f >= pieces.len() {
        return None;
    }
    let fmt = &pieces[f];
    assert(fmt@ == pv[f as int]);
    let dot = crate::numeric::find_char(fmt, '.');
    let before = slice_vec(fmt, 0, dot);
    assert(before@ =~= fmt@.take(dot as int));
    let after = slice_vec(fmt, dot + 1, fmt.len());
    assert(after@ =~= fmt@.skip(dot + 1));
    let upper = keep_digits(&before).len();
    let lower = keep_digits(&after).len();
    if upper == 0 && lower == 0 {
        return None;
    }
    Some((upper, lower))
}

/// Index of the first `G85` in `l`, or `l.len()`.
fn find_g85(l: &[char]) -> (k: usize)
    ensures
        k == find_sub(l@, "G85"@, 0),
        k <= l@.len(),
{
    let g = crate::text::chars_of("G85");
    proof {
        reveal_strlit("G85");
    }
    let mut i: usize = 0;
    while i < l.len() && l.len() - i >= 3
        invariant
            i <= l@.len(),
            g@ == "G85"@,
            g@.len() == 3,
            find_sub(l@, "G85"@, i as int) == find_sub(l@, "G85"@, 0),
        decreases l@.len() - i,
    {
        if crate::text::matches_at(l, &g, i) {
            return i;
        }
        i = i + 1;
    }
    l.len()
}

impl ExcParser {
    spec fn state(&self) -> ExcState {
        ExcState {
            units: self.units,
            zeros: self.zeros,
            int_in: self.int_in as int,
            frac_in: self.frac_in as int,
            int_mm: self.int_mm as int,
            frac_mm: self.frac_mm as int,
            units_seen: self.units_seen,
            tools: tools_view(self.tools@),
            cur_tool: self.cur_tool,
            x: self.x@,
            y: self.y@,
            routing: self.routing,
            slot_start: point_view(self.slot_start),
        }
    }

    spec fn wf(&self) -> bool {
        sorted_keys(tools_view(self.tools@)) && diameters_wf(tools_view(self.tools@))
    }

    fn new() -> (p: ExcParser)
        ensures
            p.state() == exc_initial(),
            p.wf(),
    {
        let p = ExcParser {
            units: Units::Inch,
            zeros: Zeros::Leading,
            int_in: 2,
            frac_in: 4,
            int_mm: 3,
            frac_mm: 3,
            units_seen: false,
            tools: Vec::new(),
            cur_tool: 0,
            x: Decimal::zero(),
            y: Decimal::zero(),
            routing: false,
            slot_start: (Decimal::zero(), Decimal::zero()),
        };
        assert(tools_view(p.tools@) =~= Seq::<(i32, ToolView)>::empty());
        p
    }

    fn decode(&self, s: &[char]) -> (d: Decimal)
        ensures
            d@ == exc_decode(self.state(), s@),
    {
        if has_lit(s, ".") {
            return match literal_decimal(s) {
                Some(d) => d,
                None => Decimal::zero(),
            };
        }
        let digits = keep_digits(s);
        if digits.len() == 0 {
            return Decimal::zero();
        }
        let neg = s.len() > 0 && s[0] == '-';
        let (upper, frac) = if self.units == Units::Mm {
            (self.int_mm, self.frac_mm)
        } else {
            (self.int_in, self.frac_in)
        };
        let exponent: i128 = if self.zeros == Zeros::Leading {
            (upper as i128) - (digits.len() as i128)
        } else {
            0 - (frac as i128)
        };
        Decimal { negative: neg, digits, exponent }
    }

    fn coords(&self, l: &[char]) -> (p: Point)
        ensures
            point_view(p) == exc_coords(self.state(), l@),
    {
        let x = match extract_coord_chars(l, 'X') {
            Some(t) => self.decode(&t),
            None => self.x.copy(),
        };
        let y = match extract_coord_chars(l, 'Y') {
            Some(t) => self.decode(&t),
            None => self.y.copy(),
        };
        (x, y)
    }

    fn units_line(&mut self, l: &[char])
        ensures
            final(self).state() == units_line(old(self).state(), l@),
            final(self).tools@ == old(self).tools@,
    {
        self.units = if begins(l, "METRIC") {
            Units::Mm
        } else {
            Units::Inch
        };
        self.units_seen = true;
        if has_lit(l, "TZ") {
            self.zeros = Zeros::Trailing;
        } else if has_lit(l, "LZ") {
            self.zeros = Zeros::Leading;
        }
        match inline_format_exec(l) {
            None => {},
            Some((u, f)) => {
                if self.units == Units::Mm {
                    self.int_mm = u;
                    self.frac_mm = f;
                } else {
                    self.int_in = u;
                    self.frac_in = f;
                }
            },
        }
    }

    fn add_slot(&mut self, a: Point, b: Point)
        requires
            old(self).wf(),
        ensures
            final(self).wf(),
            final(self).state() == add_slot(old(self).state(), point_view(a), point_view(b)),
    {
        if self.cur_tool != 0 {
            push_slot(&mut self.tools, self.cur_tool, a, b);
        }
    }

    fn tool_line(&mut self, l: &[char])
        requires
            old(self).wf(),
            l@.len() >= 1,
        ensures
            final(self).wf(),
            final(self).state() == tool_line(old(self).state(), l@),
    {
        let rest = slice_vec(l, 1, l.len());
        assert(rest@ =~= l@.skip(1));
        proof {
            crate::numeric::lemma_leading_digits(rest@);
        }
        let mut n: usize = 0;
        while n < rest.len() && '0' <= rest[n] && rest[n] <= '9'
            invariant
                n <= rest@.len(),
                forall|k: int| 0 <= k < n ==> is_ascii_digit(#[trigger] rest@[k]),
                0 <= crate::numeric::leading_digits(rest@) <= rest@.len(),
                forall|k: int|
                    0 <= k < crate::numeric::leading_digits(rest@) ==> is_ascii_digit(
                        #[trigger] rest@[k],
                    ),
                crate::numeric::leading_digits(rest@) < rest@.len() ==> !is_ascii_digit(
                    rest@[crate::numeric::leading_digits(rest@)],
                ),
            decreases rest@.len() - n,
        {
            n = n + 1;
        }
        let num_text = slice_vec(&rest, 0, n);
        assert(num_text@ =~= rest@.take(crate::numeric::leading_digits(rest@)));
        let num = match parse_i32(&num_text) {
            Some(v) => v,
            None => {
                return;
            },
        };
        let dia = match extract_coord_chars(l, 'C') {
            Some(t) => {
                proof {
                    lemma_extract_plain(l@, 'C', t@);
                }
                literal_decimal(&t)
            },
            None => None,
        };
        match dia {
            Some(d) => {
                assert(all_digits(d.digits@));
                set_diameter(
                    &mut self.tools,
                    num,
                    Diameter { value: d, conversion: DiaConversion::Same },
                );
            },
            None => {
                let _p = ensure_tool_exec(&mut self.tools, num);
                self.cur_tool = num;
                self.routing = false;
            },
        }
    }

    fn coord_line(&mut self, l: &[char])
        requires
            old(self).wf(),
        ensures
            final(self).wf(),
            final(self).state() == coord_line(old(self).state(), l@),
    {
        let k = find_g85(l);
        proof {
            lemma_find_sub(l@, "G85"@, 0);
            reveal_strlit("G85");
        }
        if k < l.len() {
            let head = slice_vec(l, 0, k);
            assert(head@ =~= l@.take(k as int));
            proof {
                reveal_strlit("G85");
            }
            let tail = slice_vec(l, k + 3, l.len());
            assert(tail@ =~= l@.skip(k + 3));
            let a = self.coords(&head);
            let b = self.coords(&tail);
            self.x = b.0.copy();
            self.y = b.1.copy();
            self.add_slot(a, b);
        } else {
            let p = self.coords(l);
            self.x = p.0.copy();
            self.y = p.1.copy();
            if self.cur_tool != 0 {
                push_drill(&mut self.tools, self.cur_tool, p);
            }
        }
    }

    #[verifier::spinoff_prover]
    #[verifier::rlimit(40)]
    fn line(&mut self, l: &[char])
        requires
            old(self).wf(),
        ensures
            final(self).wf(),
            final(self).state() == line_spec(old(self).state(), l@),
    {
        if l.len() == 0 || begins(l, ";") || crate::text::eq_text(l, "M48") || crate::text::eq_text(
            l,
            "%",
        ) || crate::text::eq_text(l, "M95") {
            return;
        }
        if begins(l, "INCH") || begins(l, "METRIC") {
            self.units_line(l);
            return;
        }
        if crate::text::eq_text(l, "M71") {
            self.units = Units::Mm;
            self.units_seen = true;
            return;
        }
        if crate::text::eq_text(l, "M72") {
            self.units = Units::Inch;
            self.units_seen = true;
            return;
        }
        if begins(l, "FMAT") || crate::text::eq_text(l, "M30") || begins(l, "G90") || begins(l, "G91")
            || begins(l, "G05") {
            return;
        }
        if begins(l, "T") {
            self.tool_line(l);
            return;
        }
        if begins(l, "G00") {
            let p = self.coords(l);
            self.routing = true;
            self.x = p.0.copy();
            self.y = p.1.copy();
            self.slot_start = p;
            return;
        }
        if begins(l, "G01") {
            if self.routing {
                let p = self.coords(l);
                self.x = p.0.copy();
                self.y = p.1.copy();
                let mut start = (p.0.copy(), p.1.copy());
                std::mem::swap(&mut start, &mut self.slot_start);
                self.add_slot(start, p);
            }
            return;
        }
        if has_lit(l, "X") || has_lit(l, "Y") {
            self.coord_line(l);
        }
    }
}

/// The text after the first `key` is made of digits, signs and points.
pub proof fn lemma_extract_plain(l: Seq<char>, key: char, t: Seq<char>)
    requires
        extract_coord_spec(l, key) == Some(t),
    ensures
        crate::numeric::plain_chars(t),
{
    let pos = first_index(l, key);
    crate::numeric::lemma_first_index(l, key);
    let e = coord_run_end(l, pos + 1);
    lemma_coord_run_end(l, pos + 1);
    lemma_coord_run_all(l, pos + 1);
    assert(t =~= l.subrange(pos + 1, e));
    assert forall|i: int| 0 <= i < t.len() implies (is_ascii_digit(#[trigger] t[i]) || t[i] == '+'
        || t[i] == '-' || t[i] == '.') by {
        assert(t[i] == l[pos + 1 + i]);
    }
}

pub proof fn lemma_coord_run_all(s: Seq<char>, i: int)
    requires
        0 <= i <= s.len(),
    ensures
        forall|k: int| i <= k < coord_run_end(s, i) ==> is_coord_char(#[trigger] s[k]),
    decreases s.len() - i,
{
    if i < s.len() && is_coord_char(s[i]) {
        lemma_coord_run_all(s, i + 1);
    }
}


/// The units of the file: those stated, or those inferred from the tool
/// diameters (see [`inferred_units`]).
fn infer_units(p: &ExcParser) -> (u: Units)
    requires
        p.wf(),
    ensures
        u == inferred_units(p.state()),
{
    if p.units_seen {
        return p.units;
    }
    let ghost t = tools_view(p.tools@);
    let mut small: usize = 0;
    let mut i: usize = 0;
    while i < p.tools.len()
        invariant
            i <= p.tools@.len(),
            t == tools_view(p.tools@),
            t.len() == p.tools@.len(),
            diameters_wf(t),
            small == small_tools(t, i as int),
            small <= i,
        decreases p.tools@.len() - i,
    {
        assert(t[i as int].1.diameter.value == p.tools@[i as int].1.diameter.value@);
        assert(all_digits(t[i as int].1.diameter.value.digits));
        if crate::numeric::at_most_tenth(&p.tools[i].1.diameter.value) {
            small = small + 1;
        }
        i = i + 1;
    }
    let large = p.tools.len() - small;
    if small > large {
        Units::Inch
    } else {
        Units::Mm
    }
}

/// Reads a drill file. A file that holds nothing but whitespace is refused.
pub fn parse(content: &str) -> (r: Result<Excellon, ExcellonError>)
    ensures
        match r {
            Ok(e) => parse_spec(content@) == Ok::<ExcellonView, ErrorView>(e@) && sorted_keys(
                e@.tools,
            ),
            Err(e) => parse_spec(content@) == Err::<ExcellonView, ErrorView>(e@),
        },
{
    let chars = crate::text::chars_of(content);
    let t = trim_vec(&chars);
    if t.len() == 0 {
        return Err(ExcellonError::Empty);
    }
    let lines = split_chars(&chars, '\n');
    let ghost lv = lines@.map_values(|x: Vec<char>| x@);
    let mut p = ExcParser::new();
    let mut i: usize = 0;
    while i < lines.len()
        invariant
            i <= lines@.len(),
            lv == lines@.map_values(|x: Vec<char>| x@),
            lv == split_spec(content@, '\n'),
            p.wf(),
            lines_from(p.state(), lv, i as int) == lines_from(exc_initial(), lv, 0),
        decreases lines@.len() - i,
    {
        let l = trim_vec(&lines[i]);
        assert(l@ == trim_spec(lv[i as int]));
        p.line(&l);
        i = i + 1;
    }
    let units = infer_units(&p);
    Ok(Excellon { units, tools: p.tools })
}

} // verus!
