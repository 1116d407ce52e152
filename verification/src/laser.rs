//! GRBL laser-mode programs for power-compensated paths.
//!
//! Each path of at least two points is traced with the laser on: a rapid to
//! its first point with the laser off, the laser-on word (`M4` in dynamic
//! mode, `M3` in constant mode), one `G1` per further point carrying that
//! point's `S` value, and `M5` after the path. Paths of fewer than two points
//! are skipped. The numbers are rendered by the caller: the coordinates, the
//! `S` value of each point (its power factor times the maximum spindle value,
//! rounded) and the feed.
use crate::drill_writer::{lemma_lines_text_push, lines_text};
use crate::gcode::{units_word, units_word_spec, Units};
use crate::text::push_str;
use vstd::prelude::*;

verus! {

/// A point as written: X, Y and its `S` value.
pub type LaserPointText = (Seq<char>, Seq<char>, Seq<char>);

/// The texts of a list of rendered points.
pub open spec fn laser_points_view(v: Seq<(String, String, String)>) -> Seq<LaserPointText> {
    v.map_values(|p: (String, String, String)| (p.0@, p.1@, p.2@))
}

/// The texts of a list of rendered paths.
pub open spec fn laser_paths_view(v: Seq<Vec<(String, String, String)>>) -> Seq<Seq<LaserPointText>> {
    v.map_values(|p: Vec<(String, String, String)>| laser_points_view(p@))
}

/// `G90`, the units word, laser off.
pub open spec fn laser_header_lines(u: Units) -> Seq<Seq<char>> {
    seq!["G90"@, units_word_spec(u), "M5"@]
}

/// The laser-on word.
pub open spec fn laser_on_word(dynamic: bool) -> Seq<char> {
    if dynamic {
        "M4"@
    } else {
        "M3"@
    }
}

/// `G0 X<x> Y<y>`.
pub open spec fn laser_rapid_line(p: LaserPointText) -> Seq<char> {
    "G0 X"@ + p.0 + " Y"@ + p.1
}

/// `G1 X<x> Y<y> S<s> F<feed>`.
pub open spec fn laser_burn_line(p: LaserPointText, feed: Seq<char>) -> Seq<char> {
    "G1 X"@ + p.0 + " Y"@ + p.1 + " S"@ + p.2 + " F"@ + feed
}

/// The burns to the points `pts`.
pub open spec fn laser_burn_lines(pts: Seq<LaserPointText>, feed: Seq<char>) -> Seq<Seq<char>> {
    pts.map_values(|p: LaserPointText| laser_burn_line(p, feed))
}

/// One path: rapid to its start, laser on, the burns, laser off.
pub open spec fn laser_path_lines(path: Seq<LaserPointText>, feed: Seq<char>, dynamic: bool) -> Seq<Seq<char>> {
    seq![laser_rapid_line(path[0]), laser_on_word(dynamic)] + laser_burn_lines(path.drop_first(), feed) + seq![
        "M5"@,
    ]
}

/// The paths of at least two points, in order.
pub open spec fn laser_paths_lines(paths: Seq<Seq<LaserPointText>>, feed: Seq<char>, dynamic: bool) -> Seq<
    Seq<char>,
>
    decreases paths.len(),
{
    if paths.len() == 0 {
        Seq::<Seq<char>>::empty()
    } else if paths.last().len() < 2 {
        laser_paths_lines(paths.drop_last(), feed, dynamic)
    } else {
        laser_paths_lines(paths.drop_last(), feed, dynamic) + laser_path_lines(paths.last(), feed, dynamic)
    }
}

/// The whole program: header, paths, `M5`, `M2`.
pub open spec fn laser_program_lines(
    paths: Seq<Seq<LaserPointText>>,
    u: Units,
    feed: Seq<char>,
    dynamic: bool,
) -> Seq<Seq<char>> {
    laser_header_lines(u) + laser_paths_lines(paths, feed, dynamic) + seq!["M5"@, "M2"@]
}

/// Appends the line `l` (already in `g`'s tail) and a newline.
fn end_line(g: &mut String, Ghost(before): Ghost<Seq<Seq<char>>>, Ghost(l): Ghost<Seq<char>>)
    requires
        old(g)@ == lines_text(before) + l,
    ensures
        final(g)@ == lines_text(before.push(l)),
{
    push_str(g, "\n");
    proof {
        reveal_strlit("\n");
        lemma_lines_text_push(before, l);
        assert(final(g)@ =~= lines_text(before.push(l)));
    }
}

/// Appends one whole line held in `s`.
fn put_line(g: &mut String, s: &str, Ghost(before): Ghost<Seq<Seq<char>>>)
    requires
        old(g)@ == lines_text(before),
    ensures
        final(g)@ == lines_text(before.push(s@)),
{
    push_str(g, s);
    end_line(g, Ghost(before), Ghost(s@));
}

/// The GRBL laser-mode program of `paths` (points as rendered texts), in
/// `units`, with the feed `feed`; `dynamic` selects `M4` over `M3`.
pub fn laser_gcode(paths: &Vec<Vec<(String, String, String)>>, units: Units, feed: &str, dynamic: bool) -> (r:
    String)
    ensures
        r@ == lines_text(laser_program_lines(laser_paths_view(paths@), units, feed@, dynamic)),
{
    let ghost pv = laser_paths_view(paths@);
    let mut g = String::new();
    let ghost e = Seq::<Seq<char>>::empty();
    assert(g@ == lines_text(e));
    put_line(&mut g, "G90", Ghost(e));
    put_line(&mut g, units_word(units), Ghost(e.push("G90"@)));
    put_line(&mut g, "M5", Ghost(e.push("G90"@).push(units_word_spec(units))));
    let ghost head = laser_header_lines(units);
    assert(e.push("G90"@).push(units_word_spec(units)).push("M5"@) =~= head);
    let on = if dynamic {
        "M4"
    } else {
        "M3"
    };
    let mut i: usize = 0;
    assert(pv.take(0) =~= Seq::<Seq<LaserPointText>>::empty());
    while i < paths.len()
        invariant
            i <= paths@.len(),
            pv == laser_paths_view(paths@),
            on@ == laser_on_word(dynamic),
            g@ == lines_text(head + laser_paths_lines(pv.take(i as int), feed@, dynamic)),
        decreases paths@.len() - i,
    {
        let path = &paths[i];
        let ghost before = head + laser_paths_lines(pv.take(i as int), feed@, dynamic);
        assert(pv.take(i + 1).drop_last() =~= pv.take(i as int));
        assert(pv.take(i + 1).last() == pv[i as int]);
        let ghost pp = pv[i as int];
        assert(pp == laser_points_view(path@));
        if path.len() >= 2 {
            // Rapid to the start.
            push_str(&mut g, "G0 X");
            push_str(&mut g, path[0].0.as_str());
            push_str(&mut g, " Y");
            push_str(&mut g, path[0].1.as_str());
            assert(g@ =~= lines_text(before) + laser_rapid_line(pp[0]));
            end_line(&mut g, Ghost(before), Ghost(laser_rapid_line(pp[0])));
            put_line(&mut g, on, Ghost(before.push(laser_rapid_line(pp[0]))));
            let ghost start = before.push(laser_rapid_line(pp[0])).push(laser_on_word(dynamic));
            let ghost rest = pp.drop_first();
            let mut j: usize = 1;
            assert(rest.take(0) =~= Seq::<LaserPointText>::empty());
            assert(start + laser_burn_lines(rest.take(0), feed@) =~= start);
            while j < path.len()
                invariant
                    1 <= j <= path@.len(),
                    pp == laser_points_view(path@),
                    rest == pp.drop_first(),
                    g@ == lines_text(start + laser_burn_lines(rest.take(j - 1), feed@)),
                decreases path@.len() - j,
            {
                let ghost b2 = start + laser_burn_lines(rest.take(j - 1), feed@);
                let ghost p = pp[j as int];
                push_str(&mut g, "G1 X");
                push_str(&mut g, path[j].0.as_str());
                push_str(&mut g, " Y");
                push_str(&mut g, path[j].1.as_str());
                push_str(&mut g, " S");
                push_str(&mut g, path[j].2.as_str());
                push_str(&mut g, " F");
                push_str(&mut g, feed);
                assert(g@ =~= lines_text(b2) + laser_burn_line(p, feed@));
                end_line(&mut g, Ghost(b2), Ghost(laser_burn_line(p, feed@)));
                assert(rest[j - 1] == p);
                assert(rest.take(j as int).drop_last() =~= rest.take(j - 1));
                assert(laser_burn_lines(rest.take(j as int), feed@) =~= laser_burn_lines(rest.take(j - 1), feed@).push(
                    laser_burn_line(p, feed@),
                ));
                assert(b2.push(laser_burn_line(p, feed@)) =~= start + laser_burn_lines(rest.take(j as int), feed@));
                j = j + 1;
            }
            assert(rest.take(path@.len() - 1) =~= rest);
            let ghost b3 = start + laser_burn_lines(rest, feed@);
            put_line(&mut g, "M5", Ghost(b3));
            assert(b3.push("M5"@) =~= before + laser_path_lines(pp, feed@, dynamic));
            assert(before + laser_path_lines(pp, feed@, dynamic) =~= head + laser_paths_lines(
                pv.take(i + 1),
                feed@,
                dynamic,
            ));
        } else {
            assert(head + laser_paths_lines(pv.take(i + 1), feed@, dynamic) == before);
        }
        i = i + 1;
    }
    assert(pv.take(paths@.len() as int) =~= pv);
    let ghost body = head + laser_paths_lines(pv, feed@, dynamic);
    put_line(&mut g, "M5", Ghost(body));
    put_line(&mut g, "M2", Ghost(body.push("M5"@)));
    assert(body.push("M5"@).push("M2"@) =~= laser_program_lines(pv, units, feed@, dynamic));
    g
}

} // verus!
