//! Excellon writer: a drill table back to drill-file text.
//!
//! The program is minimal but reads back: an `M48` header declaring the
//! units with leading zeros kept (`LZ`), one `T<n>C<dia>` definition per tool
//! in table order, the `%` header end, then for each tool its `T<n>`
//! selection followed by its `X<x>Y<y>` hits and `X..Y..G85X..Y..` slots, and
//! finally `M30`. Every line ends with a newline.
//!
//! The numbers are handed over as text (the diameters and coordinates
//! already rendered with three decimals), so that written with a decimal
//! point they read back as exactly those literals.
use crate::excellon::{Units, DiaConversion, DiameterView, ToolView};
use crate::numeric::{int_text, plain_literal_decimal, DecimalView};
use vstd::prelude::*;

verus! {

// ---------------------------------------------------------------------------
// The table handed to the writer
// ---------------------------------------------------------------------------

/// A point as text `(x, y)`.
pub type PointText = (String, String);

/// A tool whose numbers are already rendered as text.
#[derive(Debug)]
pub struct ToolText {
    /// The diameter.
    pub diameter: String,
    /// Drill hits, in order.
    pub drills: Vec<PointText>,
    /// Slots `(start, end)`, in order.
    pub slots: Vec<(PointText, PointText)>,
}

pub type PointTextView = (Seq<char>, Seq<char>);

/// The content of a [`ToolText`].
pub struct ToolTextView {
    pub diameter: Seq<char>,
    pub drills: Seq<PointTextView>,
    pub slots: Seq<(PointTextView, PointTextView)>,
}

pub open spec fn point_text_view(p: PointText) -> PointTextView {
    (p.0@, p.1@)
}

impl View for ToolText {
    type V = ToolTextView;

    open spec fn view(&self) -> ToolTextView {
        ToolTextView {
            diameter: self.diameter@,
            drills: self.drills@.map_values(|p: PointText| point_text_view(p)),
            slots: self.slots@.map_values(
                |s: (PointText, PointText)| (point_text_view(s.0), point_text_view(s.1)),
            ),
        }
    }
}

pub open spec fn table_text_view(t: Seq<(i32, ToolText)>) -> Seq<(i32, ToolTextView)> {
    t.map_values(|e: (i32, ToolText)| (e.0, e.1@))
}

// ---------------------------------------------------------------------------
// The lines written
// ---------------------------------------------------------------------------

/// The units declaration.
pub open spec fn units_header(u: Units) -> Seq<char> {
    match u {
        Units::Mm => "METRIC,LZ"@,
        Units::Inch => "INCH,LZ"@,
    }
}

/// `T<n>C<dia>`: the definition of a tool.
pub open spec fn def_line(n: i32, dia: Seq<char>) -> Seq<char> {
    "T"@ + int_text(n as int) + "C"@ + dia
}

/// `T<n>`: the selection of a tool.
pub open spec fn select_line(n: i32) -> Seq<char> {
    "T"@ + int_text(n as int)
}

/// `X<x>Y<y>`: a drill hit.
pub open spec fn hit_line(p: PointTextView) -> Seq<char> {
    "X"@ + p.0 + "Y"@ + p.1
}

/// `X<x>Y<y>G85X<x>Y<y>`: a slot.
pub open spec fn slot_line(s: (PointTextView, PointTextView)) -> Seq<char> {
    hit_line(s.0) + "G85"@ + hit_line(s.1)
}

/// The tool definitions of the header, one per tool.
pub open spec fn def_lines(t: Seq<(i32, ToolTextView)>) -> Seq<Seq<char>>
    decreases t.len(),
{
    if t.len() == 0 {
        Seq::<Seq<char>>::empty()
    } else {
        def_lines(t.drop_last()).push(def_line(t.last().0, t.last().1.diameter))
    }
}

/// The lines of one tool: its selection, its hits, its slots.
pub open spec fn tool_block(n: i32, tv: ToolTextView) -> Seq<Seq<char>> {
    seq![select_line(n)] + tv.drills.map_values(|p: PointTextView| hit_line(p))
        + tv.slots.map_values(|s: (PointTextView, PointTextView)| slot_line(s))
}

/// The blocks of all tools, in table order.
pub open spec fn body_lines(t: Seq<(i32, ToolTextView)>) -> Seq<Seq<char>>
    decreases t.len(),
{
    if t.len() == 0 {
        Seq::<Seq<char>>::empty()
    } else {
        body_lines(t.drop_last()) + tool_block(t.last().0, t.last().1)
    }
}

/// Every line of the program, in order.
pub open spec fn drill_file_lines(u: Units, t: Seq<(i32, ToolTextView)>) -> Seq<Seq<char>> {
    seq!["M48"@, units_header(u)] + def_lines(t) + seq!["%"@] + body_lines(t) + seq!["M30"@]
}

/// The lines, each followed by a newline.
pub open spec fn lines_text(ls: Seq<Seq<char>>) -> Seq<char>
    decreases ls.len(),
{
    if ls.len() == 0 {
        Seq::<char>::empty()
    } else {
        lines_text(ls.drop_last()) + ls.last() + seq!['\n']
    }
}

pub proof fn lemma_lines_text_push(a: Seq<Seq<char>>, l: Seq<char>)
    ensures
        lines_text(a.push(l)) == lines_text(a) + l + seq!['\n'],
        lines_text(seq![l]) == l + seq!['\n'],
{
    assert(a.push(l).drop_last() =~= a);
    assert(seq![l].drop_last() =~= Seq::<Seq<char>>::empty());
    assert(lines_text(Seq::<Seq<char>>::empty()) == Seq::<char>::empty());
    assert(Seq::<char>::empty() + l + seq!['\n'] =~= l + seq!['\n']);
}

pub proof fn lemma_lines_text_append(a: Seq<Seq<char>>, b: Seq<Seq<char>>)
    ensures
        lines_text(a + b) == lines_text(a) + lines_text(b),
    decreases b.len(),
{
    if b.len() == 0 {
        assert(a + b =~= a);
    } else {
        lemma_lines_text_append(a, b.drop_last());
        assert((a + b).drop_last() =~= a + b.drop_last());
        assert((a + b).last() == b.last());
    }
}

// ---------------------------------------------------------------------------
// Writing
// ---------------------------------------------------------------------------

/// Appends the characters of `s`.
fn append_str(out: &mut Vec<char>, s: &str)
    ensures
        final(out)@ == old(out)@ + s@,
{
    let cs = crate::text::chars_of(s);
    let ghost o = out@;
    let mut i: usize = 0;
    while i < cs.len()
        invariant
            i <= cs@.len(),
            out@ == o + cs@.take(i as int),
        decreases cs@.len() - i,
    {
        out.push(cs[i]);
        i = i + 1;
        assert(out@ =~= o + cs@.take(i as int));
    }
    assert(cs@.take(cs@.len() as int) =~= cs@);
}

/// Appends the decimal text of `n`.
fn append_int(out: &mut Vec<char>, n: i32)
    ensures
        final(out)@ == old(out)@ + int_text(n as int),
{
    if n < 0 {
        out.push('-');
        let ghost o = out@;
        let m: i64 = 0 - (n as i64);
        crate::text::push_decimal(out, m as u64);
        assert(out@ =~= old(out)@ + int_text(n as int));
    } else {
        crate::text::push_decimal(out, n as u64);
    }
}

/// Appends `X<x>Y<y>`.
fn append_hit(out: &mut Vec<char>, p: &PointText)
    ensures
        final(out)@ == old(out)@ + hit_line(point_text_view(*p)),
{
    out.push('X');
    append_str(out, p.0.as_str());
    out.push('Y');
    append_str(out, p.1.as_str());
    proof {
        reveal_strlit("X");
        reveal_strlit("Y");
    }
    assert(out@ =~= old(out)@ + hit_line(point_text_view(*p)));
}

/// Appends the block of tool `n`.
fn append_block(out: &mut Vec<char>, n: i32, tool: &ToolText)
    ensures
        final(out)@ == old(out)@ + lines_text(tool_block(n, tool@)),
{
    let ghost tv = tool@;
    proof {
        reveal_strlit("T");
        reveal_strlit("G85");
    }
    out.push('T');
    append_int(out, n);
    out.push('\n');
    let ghost head = seq![select_line(n)];
    proof {
        lemma_lines_text_push(Seq::<Seq<char>>::empty(), select_line(n));
    }
    assert(out@ =~= old(out)@ + lines_text(head));
    let mut i: usize = 0;
    while i < tool.drills.len()
        invariant
            i <= tool.drills@.len(),
            tv == tool@,
            out@ == old(out)@ + lines_text(
                head + tv.drills.take(i as int).map_values(|p: PointTextView| hit_line(p)),
            ),
        decreases tool.drills@.len() - i,
    {
        let ghost before = head + tv.drills.take(i as int).map_values(|p: PointTextView| hit_line(p));
        append_hit(out, &tool.drills[i]);
        out.push('\n');
        let ghost after = head + tv.drills.take(i + 1).map_values(|p: PointTextView| hit_line(p));
        assert(tv.drills[i as int] == point_text_view(tool.drills@[i as int]));
        assert(after.drop_last() =~= before);
        assert(after.last() == hit_line(tv.drills[i as int]));
        i = i + 1;
        assert(out@ =~= old(out)@ + lines_text(after));
    }
    let ghost mid = head + tv.drills.map_values(|p: PointTextView| hit_line(p));
    assert(tv.drills.take(tv.drills.len() as int) =~= tv.drills);
    assert(out@ == old(out)@ + lines_text(mid));
    let mut j: usize = 0;
    while j < tool.slots.len()
        invariant
            j <= tool.slots@.len(),
            tv == tool@,
            out@ == old(out)@ + lines_text(
                mid + tv.slots.take(j as int).map_values(
                    |s: (PointTextView, PointTextView)| slot_line(s),
                ),
            ),
        decreases tool.slots@.len() - j,
    {
        let ghost before = mid + tv.slots.take(j as int).map_values(
            |s: (PointTextView, PointTextView)| slot_line(s),
        );
        let ghost o = out@;
        append_hit(out, &tool.slots[j].0);
        append_str(out, "G85");
        append_hit(out, &tool.slots[j].1);
        out.push('\n');
        let ghost after = mid + tv.slots.take(j + 1).map_values(
            |s: (PointTextView, PointTextView)| slot_line(s),
        );
        assert(tv.slots[j as int] == (
            point_text_view(tool.slots@[j as int].0),
            point_text_view(tool.slots@[j as int].1),
        ));
        assert(after.drop_last() =~= before);
        assert(after.last() == slot_line(tv.slots[j as int]));
        j = j + 1;
        assert(out@ =~= o + slot_line(tv.slots[j - 1]) + seq!['\n']);
        assert(out@ =~= old(out)@ + lines_text(after));
    }
    assert(tv.slots.take(tv.slots.len() as int) =~= tv.slots);
    assert(mid + tv.slots.map_values(|s: (PointTextView, PointTextView)| slot_line(s))
        =~= tool_block(n, tv));
}

/// The drill program of a table: the tools' numbers with their diameters,
/// hits and slots already rendered as text, written in the order given.
pub fn write_excellon(units: Units, tools: &Vec<(i32, ToolText)>) -> (s: String)
    ensures
        s@ == lines_text(drill_file_lines(units, table_text_view(tools@))),
{
    let ghost t = table_text_view(tools@);
    let mut out: Vec<char> = Vec::new();
    append_str(&mut out, "M48\n");
    match units {
        Units::Mm => append_str(&mut out, "METRIC,LZ\n"),
        Units::Inch => append_str(&mut out, "INCH,LZ\n"),
    }
    proof {
        reveal_strlit("M48\n");
        reveal_strlit("M48");
        reveal_strlit("METRIC,LZ\n");
        reveal_strlit("METRIC,LZ");
        reveal_strlit("INCH,LZ\n");
        reveal_strlit("INCH,LZ");
        reveal_strlit("T");
        reveal_strlit("C");
    }
    let ghost head = seq!["M48"@, units_header(units)];
    assert(lines_text(head) =~= out@) by {
        lemma_lines_text_push(Seq::<Seq<char>>::empty(), "M48"@);
        assert(seq!["M48"@].push(units_header(units)) =~= head);
        lemma_lines_text_push(seq!["M48"@], units_header(units));
    }
    let mut i: usize = 0;
    while i < tools.len()
        invariant
            i <= tools@.len(),
            t == table_text_view(tools@),
            out@ == lines_text(head + def_lines(t.take(i as int))),
        decreases tools@.len() - i,
    {
        let ghost before = head + def_lines(t.take(i as int));
        let ghost o = out@;
        proof {
            reveal_strlit("T");
            reveal_strlit("C");
        }
        out.push('T');
        append_int(&mut out, tools[i].0);
        out.push('C');
        append_str(&mut out, tools[i].1.diameter.as_str());
        out.push('\n');
        proof {
            assert(t.take(i + 1).drop_last() =~= t.take(i as int));
            assert(t[i as int] == (tools@[i as int].0, tools@[i as int].1@));
            let after = head + def_lines(t.take(i + 1));
            assert(after.drop_last() =~= before);
            assert(after.last() == def_line(tools@[i as int].0, tools@[i as int].1.diameter@));
            assert(after =~= before.push(after.last()));
            lemma_lines_text_push(before, after.last());
            assert(out@ =~= o + def_line(tools@[i as int].0, tools@[i as int].1.diameter@) + seq!['\n']);
        }
        i = i + 1;
        assert(out@ =~= lines_text(head + def_lines(t.take(i as int))));
    }
    assert(t.take(t.len() as int) =~= t);
    append_str(&mut out, "%\n");
    proof {
        reveal_strlit("%\n");
        reveal_strlit("%");
        let a = head + def_lines(t);
        assert((a + seq!["%"@]).drop_last() =~= a);
    }
    let ghost pre = head + def_lines(t) + seq!["%"@];
    assert(out@ =~= lines_text(pre));
    let mut k: usize = 0;
    while k < tools.len()
        invariant
            k <= tools@.len(),
            t == table_text_view(tools@),
            out@ == lines_text(pre + body_lines(t.take(k as int))),
        decreases tools@.len() - k,
    {
        let ghost o = out@;
        append_block(&mut out, tools[k].0, &tools[k].1);
        proof {
            assert(t.take(k + 1).drop_last() =~= t.take(k as int));
            assert(t[k as int] == (tools@[k as int].0, tools@[k as int].1@));
            lemma_lines_text_append(pre + body_lines(t.take(k as int)), tool_block(tools@[k as int].0, tools@[k as int].1@));
            assert(pre + body_lines(t.take(k + 1)) =~= pre + body_lines(t.take(k as int)) + tool_block(tools@[k as int].0, tools@[k as int].1@));
        }
        k = k + 1;
    }
    append_str(&mut out, "M30\n");
    proof {
        reveal_strlit("M30\n");
        reveal_strlit("M30");
        let a = pre + body_lines(t);
        assert((a + seq!["M30"@]).drop_last() =~= a);
        assert(a + seq!["M30"@] =~= drill_file_lines(units, t));
    }
    crate::text::string_from_chars(&out)
}

} // verus!
