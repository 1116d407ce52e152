//! Gerber (RS-274X) writer: solid polygons back to Gerber text.
//!
//! The file is minimal but valid: a fixed `34` coordinate format (absolute,
//! leading zeros omitted), the chosen unit, one tiny circular aperture, and
//! one filled region (`G36`..`G37`) per polygon exterior; the holes of a
//! polygon follow as clear-polarity regions (`%LPC*%` .. `%LPD*%`).
//!
//! Each vertex carries its coordinates twice: as the bit patterns of the
//! `f64` values (a closing vertex equal to the first is left out, `==` on
//! `f64`), and as the `34`-format codes already computed from them (the
//! value times 10^4, rounded).
use crate::drill_writer::{lines_text, lemma_lines_text_push, lemma_lines_text_append};
use crate::gcode_reader::f64_eq;
use crate::numeric::int_text;
use vstd::prelude::*;

verus! {

/// A vertex of a ring.
#[derive(Clone, Copy, Debug, PartialEq, Eq, Structural)]
pub struct RingPoint {
    /// The bits of the `f64` x coordinate.
    pub x_bits: u64,
    /// The bits of the `f64` y coordinate.
    pub y_bits: u64,
    /// The `34`-format code of x.
    pub x: i64,
    /// The `34`-format code of y.
    pub y: i64,
}

/// A polygon: its exterior ring and its holes.
#[derive(Clone, Debug)]
pub struct PolygonRings {
    pub exterior: Vec<RingPoint>,
    pub interiors: Vec<Vec<RingPoint>>,
}

/// The content of a [`PolygonRings`].
pub struct PolygonView {
    pub exterior: Seq<RingPoint>,
    pub interiors: Seq<Seq<RingPoint>>,
}

impl View for PolygonRings {
    type V = PolygonView;

    open spec fn view(&self) -> PolygonView {
        PolygonView {
            exterior: self.exterior@,
            interiors: self.interiors@.map_values(|h: Vec<RingPoint>| h@),
        }
    }
}

pub open spec fn polygons_view(p: Seq<PolygonRings>) -> Seq<PolygonView> {
    p.map_values(|q: PolygonRings| q@)
}

// ---------------------------------------------------------------------------
// The lines written
// ---------------------------------------------------------------------------

/// Two vertices at the same place (`==` on both `f64` coordinates).
pub open spec fn same_place(a: RingPoint, b: RingPoint) -> bool {
    f64_eq(a.x_bits, b.x_bits) && f64_eq(a.y_bits, b.y_bits)
}

/// The vertices written: a closing vertex equal to the first is dropped.
pub open spec fn ring_vertices(r: Seq<RingPoint>) -> Seq<RingPoint> {
    if r.len() >= 2 && same_place(r[0], r.last()) {
        r.drop_last()
    } else {
        r
    }
}

/// `X<x>Y<y>D02*` (move) or `X<x>Y<y>D01*` (draw).
pub open spec fn vertex_line(p: RingPoint, first: bool) -> Seq<char> {
    "X"@ + int_text(p.x as int) + "Y"@ + int_text(p.y as int) + if first {
        "D02*"@
    } else {
        "D01*"@
    }
}

/// The vertex lines of `c[..n]`: a move to the first, draws to the others.
pub open spec fn vertex_lines(c: Seq<RingPoint>, n: int) -> Seq<Seq<char>>
    decreases n,
{
    if n <= 0 || n > c.len() {
        Seq::<Seq<char>>::empty()
    } else {
        vertex_lines(c, n - 1).push(vertex_line(c[n - 1], n == 1))
    }
}

/// A ring as a region; nothing for a ring of fewer than three vertices.
pub open spec fn ring_lines(r: Seq<RingPoint>) -> Seq<Seq<char>> {
    let c = ring_vertices(r);
    if c.len() < 3 {
        Seq::<Seq<char>>::empty()
    } else {
        seq!["G36*"@] + vertex_lines(c, c.len() as int) + seq!["G37*"@]
    }
}

/// The regions of the rings `hs[..n]`, in order.
pub open spec fn rings_lines(hs: Seq<Seq<RingPoint>>, n: int) -> Seq<Seq<char>>
    decreases n,
{
    if n <= 0 || n > hs.len() {
        Seq::<Seq<char>>::empty()
    } else {
        rings_lines(hs, n - 1) + ring_lines(hs[n - 1])
    }
}

/// A polygon: its exterior as a dark region, then its holes as clear
/// regions between a polarity switch and its undoing.
pub open spec fn polygon_lines(p: PolygonView) -> Seq<Seq<char>> {
    ring_lines(p.exterior) + if p.interiors.len() > 0 {
        seq!["%LPC*%"@] + rings_lines(p.interiors, p.interiors.len() as int) + seq!["%LPD*%"@]
    } else {
        Seq::<Seq<char>>::empty()
    }
}

/// The polygons `ps[..n]`, in order.
pub open spec fn polygons_lines(ps: Seq<PolygonView>, n: int) -> Seq<Seq<char>>
    decreases n,
{
    if n <= 0 || n > ps.len() {
        Seq::<Seq<char>>::empty()
    } else {
        polygons_lines(ps, n - 1) + polygon_lines(ps[n - 1])
    }
}

/// The header: format, units, the aperture and its selection.
pub open spec fn gerber_header(metric: bool) -> Seq<Seq<char>> {
    seq![
        "%FSLAX34Y34*%"@,
        if metric {
            "%MOMM*%"@
        } else {
            "%MOIN*%"@
        },
        "%ADD10C,0.00100*%"@,
        "D10*"@,
    ]
}

/// Every line of the file.
pub open spec fn gerber_file_lines(ps: Seq<PolygonView>, metric: bool) -> Seq<Seq<char>> {
    gerber_header(metric) + polygons_lines(ps, ps.len() as int) + seq!["M02*"@]
}

// ---------------------------------------------------------------------------
// Writing
// ---------------------------------------------------------------------------

/// Appends the characters of `s` and a newline.
fn append_line(out: &mut Vec<char>, s: &str)
    ensures
        final(out)@ == old(out)@ + s@ + seq!['\n'],
{
    let cs = crate::text::chars_of(s);
    let ghost o = out@;
    let mut i: usize = 0;
    while i < cs.len()
        invariant
            i <= cs@.len(),
            out@ == o + cs@.take(i as int),
        decreases cs@.len() - i,
    {
        out.push(cs[i]);
        i = i + 1;
        assert(out@ =~= o + cs@.take(i as int));
    }
    assert(cs@.take(cs@.len() as int) =~= cs@);
    out.push('\n');
}

/// Appends the decimal text of `n`.
fn append_i64(out: &mut Vec<char>, n: i64)
    ensures
        final(out)@ == old(out)@ + int_text(n as int),
{
    if n < 0 {
        out.push('-');
        let m: i128 = 0 - (n as i128);
        crate::text::push_decimal(out, m as u64);
        assert(out@ =~= old(out)@ + int_text(n as int));
    } else {
        crate::text::push_decimal(out, n as u64);
    }
}

/// Appends a vertex line and a newline.
fn append_vertex(out: &mut Vec<char>, p: RingPoint, first: bool)
    ensures
        final(out)@ == old(out)@ + vertex_line(p, first) + seq!['\n'],
{
    proof {
        reveal_strlit("X");
        reveal_strlit("Y");
        reveal_strlit("D01*");
        reveal_strlit("D02*");
    }
    out.push('X');
    append_i64(out, p.x);
    out.push('Y');
    append_i64(out, p.y);
    let ghost od = out@;
    out.push('D');
    out.push('0');
    if first {
        out.push('2');
    } else {
        out.push('1');
    }
    out.push('*');
    assert(out@ =~= od + (if first { "D02*"@ } else { "D01*"@ }));
    assert(od =~= old(out)@ + "X"@ + int_text(p.x as int) + "Y"@ + int_text(p.y as int));
    out.push('\n');
    assert(out@ =~= old(out)@ + vertex_line(p, first) + seq!['\n']);
}

/// Appends the region of a ring (nothing for fewer than three vertices).
fn append_ring(out: &mut Vec<char>, r: &Vec<RingPoint>)
    ensures
        final(out)@ == old(out)@ + lines_text(ring_lines(r@)),
{
    let mut n = r.len();
    if n >= 2 {
        let a = r[0];
        let b = r[n - 1];
        if crate::gcode_reader::eq_f64_bits(a.x_bits, b.x_bits)
            && crate::gcode_reader::eq_f64_bits(a.y_bits, b.y_bits) {
            n = n - 1;
        }
    }
    let ghost c = ring_vertices(r@);
    assert(c.len() == n);
    assert(forall|k: int| 0 <= k < n ==> c[k] == r@[k]);
    if n < 3 {
        assert(lines_text(Seq::<Seq<char>>::empty()) == Seq::<char>::empty());
        assert(old(out)@ + Seq::<char>::empty() =~= old(out)@);
        return;
    }
    proof {
        reveal_strlit("G36*");
        reveal_strlit("G37*");
        reveal_strlit("X");
        reveal_strlit("Y");
        reveal_strlit("D01*");
        reveal_strlit("D02*");
    }
    append_line(out, "G36*");
    proof {
        lemma_lines_text_push(Seq::<Seq<char>>::empty(), "G36*"@);
    }
    let ghost o = old(out)@;
    let ghost head = seq!["G36*"@];
    let mut i: usize = 0;
    while i < n
        invariant
            n == c.len(),
            3 <= n <= r@.len(),
            i <= n,
            forall|k: int| 0 <= k < n ==> c[k] == r@[k],
            out@ == o + lines_text(head + vertex_lines(c, i as int)),
        decreases n - i,
    {
        let ghost before = head + vertex_lines(c, i as int);
        append_vertex(out, r[i], i == 0);
        proof {
            let l = vertex_line(c[i as int], i == 0);
            assert(vertex_lines(c, i + 1) == vertex_lines(c, i as int).push(l));
            assert(head + vertex_lines(c, i + 1) =~= before.push(l));
            lemma_lines_text_push(before, l);
        }
        i = i + 1;
        assert(out@ =~= o + lines_text(head + vertex_lines(c, i as int)));
    }
    append_line(out, "G37*");
    proof {
        let a = head + vertex_lines(c, n as int);
        lemma_lines_text_push(a, "G37*"@);
        assert(a.push("G37*"@) =~= ring_lines(r@));
    }
}

/// Appends the regions of the rings `hs`, in order.
fn append_rings(out: &mut Vec<char>, hs: &Vec<Vec<RingPoint>>)
    ensures
        final(out)@ == old(out)@ + lines_text(
            rings_lines(hs@.map_values(|h: Vec<RingPoint>| h@), hs@.len() as int),
        ),
{
    let ghost v = hs@.map_values(|h: Vec<RingPoint>| h@);
    let mut i: usize = 0;
    assert(lines_text(Seq::<Seq<char>>::empty()) == Seq::<char>::empty());
    assert(out@ =~= old(out)@ + lines_text(rings_lines(v, 0)));
    while i < hs.len()
        invariant
            i <= hs@.len(),
            v == hs@.map_values(|h: Vec<RingPoint>| h@),
            out@ == old(out)@ + lines_text(rings_lines(v, i as int)),
        decreases hs@.len() - i,
    {
        append_ring(out, &hs[i]);
        proof {
            assert(v[i as int] == hs@[i as int]@);
            lemma_lines_text_append(rings_lines(v, i as int), ring_lines(v[i as int]));
        }
        i = i + 1;
    }
}

/// Appends a polygon: its exterior, then its holes between polarity switches.
fn append_polygon(out: &mut Vec<char>, p: &PolygonRings)
    ensures
        final(out)@ == old(out)@ + lines_text(polygon_lines(p@)),
{
    proof {
        reveal_strlit("%LPC*%");
        reveal_strlit("%LPD*%");
    }
    append_ring(out, &p.exterior);
    let ghost o1 = out@;
    let ghost pv = p@;
    let ghost tail = if pv.interiors.len() > 0 {
        seq!["%LPC*%"@] + rings_lines(pv.interiors, pv.interiors.len() as int) + seq!["%LPD*%"@]
    } else {
        Seq::<Seq<char>>::empty()
    };
    if p.interiors.len() > 0 {
        append_line(out, "%LPC*%");
        let ghost o2 = out@;
        append_rings(out, &p.interiors);
        let ghost o3 = out@;
        append_line(out, "%LPD*%");
        proof {
            let hl = rings_lines(pv.interiors, pv.interiors.len() as int);
            lemma_lines_text_push(Seq::<Seq<char>>::empty(), "%LPC*%"@);
            lemma_lines_text_append(seq!["%LPC*%"@], hl);
            lemma_lines_text_push(seq!["%LPC*%"@] + hl, "%LPD*%"@);
            assert((seq!["%LPC*%"@] + hl).push("%LPD*%"@) =~= tail);
            assert(o2 =~= o1 + lines_text(seq!["%LPC*%"@]));
            assert(o3 =~= o2 + lines_text(hl));
            assert(out@ =~= o1 + lines_text(tail));
        }
    } else {
        assert(lines_text(Seq::<Seq<char>>::empty()) == Seq::<char>::empty());
        assert(out@ =~= o1 + lines_text(tail));
    }
    proof {
        lemma_lines_text_append(ring_lines(pv.exterior), tail);
    }
}

/// Gerber text for solid polygons: millimetres when `metric`, else inches.
/// Each polygon's exterior is a dark region and each of its holes a clear
/// one.
pub fn write_gerber(polys: &Vec<PolygonRings>, metric: bool) -> (s: String)
    ensures
        s@ == lines_text(gerber_file_lines(polygons_view(polys@), metric)),
{
    let ghost ps = polygons_view(polys@);
    proof {
        reveal_strlit("%FSLAX34Y34*%");
        reveal_strlit("%MOMM*%");
        reveal_strlit("%MOIN*%");
        reveal_strlit("%ADD10C,0.00100*%");
        reveal_strlit("D10*");
        reveal_strlit("%LPC*%");
        reveal_strlit("%LPD*%");
        reveal_strlit("M02*");
    }
    let mut out: Vec<char> = Vec::new();
    append_line(&mut out, "%FSLAX34Y34*%");
    if metric {
        append_line(&mut out, "%MOMM*%");
    } else {
        append_line(&mut out, "%MOIN*%");
    }
    append_line(&mut out, "%ADD10C,0.00100*%");
    append_line(&mut out, "D10*");
    let ghost h = gerber_header(metric);
    proof {
        let e = Seq::<Seq<char>>::empty();
        lemma_lines_text_push(e, h[0]);
        lemma_lines_text_push(seq![h[0]], h[1]);
        lemma_lines_text_push(seq![h[0], h[1]], h[2]);
        lemma_lines_text_push(seq![h[0], h[1], h[2]], h[3]);
        assert(seq![h[0]].push(h[1]) =~= seq![h[0], h[1]]);
        assert(seq![h[0], h[1]].push(h[2]) =~= seq![h[0], h[1], h[2]]);
        assert(seq![h[0], h[1], h[2]].push(h[3]) =~= h);
        assert(out@ =~= lines_text(h));
    }
    let mut i: usize = 0;
    while i < polys.len()
        invariant
            i <= polys@.len(),
            ps == polygons_view(polys@),
            out@ == lines_text(h + polygons_lines(ps, i as int)),
        decreases polys@.len() - i,
    {
        append_polygon(&mut out, &polys[i]);
        proof {
            assert(ps[i as int] == polys@[i as int]@);
            lemma_lines_text_append(h + polygons_lines(ps, i as int), polygon_lines(ps[i as int]));
            assert(h + polygons_lines(ps, i + 1) =~= h + polygons_lines(ps, i as int) + polygon_lines(ps[i as int]));
        }
        i = i + 1;
    }
    append_line(&mut out, "M02*");
    proof {
        lemma_lines_text_push(h + polygons_lines(ps, ps.len() as int), "M02*"@);
        assert((h + polygons_lines(ps, ps.len() as int)).push("M02*"@) =~= gerber_file_lines(ps, metric));
    }
    crate::text::string_from_chars(&out)
}

} // verus!
