//! What the HPGL reader makes of a milling program written in the HPGL
//! dialect: one stroke per pass of every polyline of at least two points,
//! through exactly the coordinate texts written.
//!
//! The HPGL dialect writes one command per line, each ended by `;`: `IN`,
//! `SP1`, `PU` to start; per pass `PU`, `PA<x>,<y>` to its first point, `PD`
//! and `PA<x>,<y>` to each further point; `PU` after each path; `PU`,
//! `PA0,0`, `SP0` to end.
use crate::drill_writer::{lemma_lines_text_append, lemma_lines_text_push, lines_text};
use crate::gcode::{
    footer_text, header_text, linear_text, linears_text, mill_text, pass_text, passes_text, plunge_text,
    rapid_xy_text, rapid_z_text, Dialect, JobWordsView, PointText,
};
use crate::hpgl::{
    h_command, h_commands, h_coords, h_flush, h_initial, h_move, h_moves, hpgl_parse_spec, alpha_prefix,
    coord_tokens, lemma_alpha_prefix, CoordMode, HState, HpglErrorView, MoveView,
};
use crate::text::{is_ws, join_spec, split_spec, trim_end_spec, trim_spec, trim_start_spec};
use vstd::prelude::*;

verus! {

/// `PA<x>,<y>`.
pub open spec fn hp_pa(x: Seq<char>, y: Seq<char>) -> Seq<char> {
    "PA"@ + x + ","@ + y
}

/// Each command ended by `;`.
pub open spec fn hp_lines(cs: Seq<Seq<char>>) -> Seq<Seq<char>> {
    cs.map_values(|c: Seq<char>| c + ";"@)
}

pub open spec fn hp_header_cmds() -> Seq<Seq<char>> {
    seq!["IN"@, "SP1"@, "PU"@]
}

pub open spec fn hp_footer_cmds() -> Seq<Seq<char>> {
    seq!["PU"@, "PA0,0"@, "SP0"@]
}

/// The moves to the points `pts`.
pub open spec fn hp_cut_cmds(pts: Seq<PointText>) -> Seq<Seq<char>> {
    pts.map_values(|p: PointText| hp_pa(p.0, p.1))
}

/// One pass of `path`: pen up, to its first point, pen down, along.
pub open spec fn hp_pass_cmds(path: Seq<PointText>) -> Seq<Seq<char>> {
    seq!["PU"@, hp_pa(path[0].0, path[0].1), "PD"@] + hp_cut_cmds(path.drop_first())
}

/// `n` passes of `path`.
pub open spec fn hp_passes_cmds(path: Seq<PointText>, n: nat) -> Seq<Seq<char>>
    decreases n,
{
    if n == 0 {
        Seq::<Seq<char>>::empty()
    } else {
        hp_passes_cmds(path, (n - 1) as nat) + hp_pass_cmds(path)
    }
}

/// The paths of at least two points, each with `n` passes and a final pen
/// up.
pub open spec fn hp_mill_cmds(paths: Seq<Seq<PointText>>, n: nat) -> Seq<Seq<char>>
    decreases paths.len(),
{
    if paths.len() == 0 {
        Seq::<Seq<char>>::empty()
    } else if paths.last().len() < 2 {
        hp_mill_cmds(paths.drop_last(), n)
    } else {
        hp_mill_cmds(paths.drop_last(), n) + hp_passes_cmds(paths.last(), n) + seq!["PU"@]
    }
}

/// The whole program's commands.
pub open spec fn hp_program_cmds(paths: Seq<Seq<PointText>>, n: nat) -> Seq<Seq<char>> {
    hp_header_cmds() + hp_mill_cmds(paths, n) + hp_footer_cmds()
}

// ---------------------------------------------------------------------------
// The program text is the commands' lines
// ---------------------------------------------------------------------------

/// The command literals with their `;`.
pub proof fn lemma_hp_literals()
    ensures
        "IN;"@ == "IN"@ + ";"@,
        "SP1;"@ == "SP1"@ + ";"@,
        "PU;"@ == "PU"@ + ";"@,
        "PD;"@ == "PD"@ + ";"@,
        "PA0,0;"@ == "PA0,0"@ + ";"@,
        "SP0;"@ == "SP0"@ + ";"@,
{
    reveal_strlit("IN;");
    reveal_strlit("IN");
    reveal_strlit("SP1;");
    reveal_strlit("SP1");
    reveal_strlit("PU;");
    reveal_strlit("PU");
    reveal_strlit("PD;");
    reveal_strlit("PD");
    reveal_strlit("PA0,0;");
    reveal_strlit("PA0,0");
    reveal_strlit("SP0;");
    reveal_strlit("SP0");
    reveal_strlit(";");
    assert("IN;"@ =~= "IN"@ + ";"@);
    assert("SP1;"@ =~= "SP1"@ + ";"@);
    assert("PU;"@ =~= "PU"@ + ";"@);
    assert("PD;"@ =~= "PD"@ + ";"@);
    assert("PA0,0;"@ =~= "PA0,0"@ + ";"@);
    assert("SP0;"@ =~= "SP0"@ + ";"@);
}

pub proof fn lemma_hp_lines_append(a: Seq<Seq<char>>, b: Seq<Seq<char>>)
    ensures
        hp_lines(a + b) == hp_lines(a) + hp_lines(b),
        lines_text(hp_lines(a + b)) == lines_text(hp_lines(a)) + lines_text(hp_lines(b)),
{
    assert(hp_lines(a + b) =~= hp_lines(a) + hp_lines(b));
    lemma_lines_text_append(hp_lines(a), hp_lines(b));
}

pub proof fn lemma_hp_lines_push(a: Seq<Seq<char>>, c: Seq<char>)
    ensures
        lines_text(hp_lines(a.push(c))) == lines_text(hp_lines(a)) + (c + ";"@) + seq!['\n'],
{
    assert(hp_lines(a.push(c)) =~= hp_lines(a).push(c + ";"@));
    lemma_lines_text_push(hp_lines(a), c + ";"@);
}

/// `base` followed by one line `c;`.
pub proof fn lemma_hp_base_push(base: Seq<char>, a: Seq<Seq<char>>, c: Seq<char>)
    ensures
        base + lines_text(hp_lines(a)) + (c + ";"@).push('\n') == base + lines_text(hp_lines(a.push(c))),
{
    lemma_hp_lines_push(a, c);
    assert((c + ";"@).push('\n') =~= (c + ";"@) + seq!['\n']);
    assert(base + lines_text(hp_lines(a)) + ((c + ";"@) + seq!['\n']) =~= base + (lines_text(hp_lines(a)) + (c
        + ";"@) + seq!['\n']));
}

pub proof fn lemma_hp_base_append(base: Seq<char>, a: Seq<Seq<char>>, b: Seq<Seq<char>>)
    ensures
        base + lines_text(hp_lines(a)) + lines_text(hp_lines(b)) == base + lines_text(hp_lines(a + b)),
{
    lemma_hp_lines_append(a, b);
    assert(base + lines_text(hp_lines(a)) + lines_text(hp_lines(b)) =~= base + (lines_text(hp_lines(a))
        + lines_text(hp_lines(b))));
}

pub proof fn lemma_hp_linears_text(base: Seq<char>, pts: Seq<PointText>, w: JobWordsView)
    ensures
        linears_text(base, Dialect::Hpgl, pts, w) == base + lines_text(hp_lines(hp_cut_cmds(pts))),
    decreases pts.len(),
{
    if pts.len() == 0 {
        assert(hp_lines(hp_cut_cmds(pts)) =~= Seq::<Seq<char>>::empty());
        assert(base + Seq::<char>::empty() =~= base);
    } else {
        let q = pts.drop_last();
        let p = pts.last();
        lemma_hp_linears_text(base, q, w);
        assert(hp_cut_cmds(pts) =~= hp_cut_cmds(q).push(hp_pa(p.0, p.1)));
        lemma_hp_base_push(base, hp_cut_cmds(q), hp_pa(p.0, p.1));
    }
}

pub proof fn lemma_hp_pass_text(base: Seq<char>, path: Seq<PointText>, z: Seq<char>, w: JobWordsView)
    requires
        path.len() >= 1,
    ensures
        pass_text(base, Dialect::Hpgl, path, z, w) == base + lines_text(hp_lines(hp_pass_cmds(path))),
{
    lemma_hp_literals();
    let e = Seq::<Seq<char>>::empty();
    let c1 = hp_pa(path[0].0, path[0].1);
    let a = seq!["PU"@, c1, "PD"@];
    assert(e.push("PU"@) =~= seq!["PU"@]);
    assert(e.push("PU"@).push(c1) =~= seq!["PU"@, c1]);
    assert(e.push("PU"@).push(c1).push("PD"@) =~= a);
    assert(base + lines_text(hp_lines(e)) =~= base);
    lemma_hp_base_push(base, e, "PU"@);
    lemma_hp_base_push(base, e.push("PU"@), c1);
    lemma_hp_base_push(base, e.push("PU"@).push(c1), "PD"@);
    let b0 = plunge_text(
        rapid_xy_text(rapid_z_text(base, Dialect::Hpgl, w.travel_z), Dialect::Hpgl, path[0].0, path[0].1),
        Dialect::Hpgl,
        z,
        w,
    );
    assert(b0 == base + lines_text(hp_lines(a)));
    lemma_hp_linears_text(b0, path.drop_first(), w);
    lemma_hp_base_append(base, a, hp_cut_cmds(path.drop_first()));
}

pub proof fn lemma_hp_passes_text(base: Seq<char>, path: Seq<PointText>, depths: Seq<Seq<char>>, w: JobWordsView)
    requires
        path.len() >= 1,
    ensures
        passes_text(base, Dialect::Hpgl, path, depths, w) == base + lines_text(
            hp_lines(hp_passes_cmds(path, depths.len())),
        ),
    decreases depths.len(),
{
    if depths.len() == 0 {
        assert(base + Seq::<char>::empty() =~= base);
    } else {
        let dd = depths.drop_last();
        lemma_hp_passes_text(base, path, dd, w);
        let a = hp_passes_cmds(path, dd.len());
        lemma_hp_pass_text(base + lines_text(hp_lines(a)), path, depths.last(), w);
        lemma_hp_base_append(base, a, hp_pass_cmds(path));
        assert(hp_passes_cmds(path, depths.len()) == a + hp_pass_cmds(path));
    }
}

pub proof fn lemma_hp_mill_text(base: Seq<char>, paths: Seq<Seq<PointText>>, depths: Seq<Seq<char>>, w: JobWordsView)
    ensures
        mill_text(base, Dialect::Hpgl, paths, depths, w) == base + lines_text(
            hp_lines(hp_mill_cmds(paths, depths.len())),
        ),
    decreases paths.len(),
{
    if paths.len() == 0 {
        assert(base + Seq::<char>::empty() =~= base);
    } else {
        let pp = paths.drop_last();
        lemma_hp_mill_text(base, pp, depths, w);
        if paths.last().len() >= 2 {
            lemma_hp_literals();
            let a = hp_mill_cmds(pp, depths.len());
            let p = hp_passes_cmds(paths.last(), depths.len());
            lemma_hp_passes_text(base + lines_text(hp_lines(a)), paths.last(), depths, w);
            lemma_hp_base_append(base, a, p);
            lemma_hp_base_push(base, a + p, "PU"@);
            assert((a + p).push("PU"@) =~= a + p + seq!["PU"@]);
        }
    }
}

/// The program text of an HPGL milling job is the lines of its commands.
pub proof fn lemma_hp_program_text(paths: Seq<Seq<PointText>>, depths: Seq<Seq<char>>, w: JobWordsView)
    ensures
        footer_text(
            mill_text(header_text(Seq::<char>::empty(), Dialect::Hpgl, w), Dialect::Hpgl, paths, depths, w),
            Dialect::Hpgl,
            w,
        ) == lines_text(hp_lines(hp_program_cmds(paths, depths.len()))),
{
    lemma_hp_literals();
    let e = Seq::<char>::empty();
    let z = Seq::<Seq<char>>::empty();
    let h = hp_header_cmds();
    let f = hp_footer_cmds();
    let m = hp_mill_cmds(paths, depths.len());
    assert(e + lines_text(hp_lines(z)) =~= e);
    lemma_hp_base_push(e, z, "IN"@);
    lemma_hp_base_push(e, z.push("IN"@), "SP1"@);
    lemma_hp_base_push(e, z.push("IN"@).push("SP1"@), "PU"@);
    assert(z.push("IN"@).push("SP1"@).push("PU"@) =~= h);
    assert(header_text(e, Dialect::Hpgl, w) == e + lines_text(hp_lines(h)));
    assert(e + lines_text(hp_lines(h)) =~= lines_text(hp_lines(h)));
    lemma_hp_mill_text(lines_text(hp_lines(h)), paths, depths, w);
    lemma_hp_base_append(e, h, m);
    assert(e + lines_text(hp_lines(h + m)) =~= lines_text(hp_lines(h + m)));
    let hm = lines_text(hp_lines(h + m));
    assert(lines_text(hp_lines(h)) + lines_text(hp_lines(m)) == hm) by {
        lemma_hp_lines_append(h, m);
    }
    lemma_hp_base_push(hm, z, "PU"@);
    lemma_hp_base_push(hm, z.push("PU"@), "PA0,0"@);
    lemma_hp_base_push(hm, z.push("PU"@).push("PA0,0"@), "SP0"@);
    assert(z.push("PU"@).push("PA0,0"@).push("SP0"@) =~= f);
    assert(hm + lines_text(hp_lines(z)) =~= hm);
    lemma_hp_lines_append(h + m, f);
}

// ---------------------------------------------------------------------------
// The commands as the reader splits them
// ---------------------------------------------------------------------------

/// The pieces between the `;` of the program: the first command, then each
/// further command after the line break before it, then the line break
/// after the last `;`.
pub open spec fn hp_pieces(cs: Seq<Seq<char>>) -> Seq<Seq<char>>
    decreases cs.len(),
{
    if cs.len() == 0 {
        seq![Seq::<char>::empty()]
    } else {
        let p = hp_pieces(cs.drop_last());
        p.update(p.len() - 1, p.last() + cs.last()).push(seq!['\n'])
    }
}

pub proof fn lemma_hp_pieces_shape(cs: Seq<Seq<char>>)
    ensures
        hp_pieces(cs).len() == cs.len() + 1,
        hp_pieces(cs).last() == (if cs.len() == 0 {
            Seq::<char>::empty()
        } else {
            seq!['\n']
        }),
    decreases cs.len(),
{
    if cs.len() > 0 {
        lemma_hp_pieces_shape(cs.drop_last());
    }
}

/// Commands without `;`.
pub open spec fn no_semicolons(cs: Seq<Seq<char>>) -> bool {
    forall|i: int| 0 <= i < cs.len() ==> !(#[trigger] cs[i]).contains(';')
}

/// Splitting the program text on `;` gives its pieces.
pub proof fn lemma_hp_split(cs: Seq<Seq<char>>)
    requires
        no_semicolons(cs),
    ensures
        split_spec(lines_text(hp_lines(cs)), ';') == hp_pieces(cs),
    decreases cs.len(),
{
    reveal_strlit(";");
    if cs.len() == 0 {
        assert(hp_lines(cs) =~= Seq::<Seq<char>>::empty());
        assert(lines_text(hp_lines(cs)) == Seq::<char>::empty());
    } else {
        let a = cs.drop_last();
        let c = cs.last();
        assert(c == cs[cs.len() - 1]);
        assert(no_semicolons(a)) by {
            assert forall|i: int| 0 <= i < a.len() implies !(#[trigger] a[i]).contains(';') by {
                assert(a[i] == cs[i]);
            }
        }
        lemma_hp_split(a);
        assert(a.push(c) =~= cs);
        lemma_hp_lines_push(a, c);
        let t = lines_text(hp_lines(a));
        let t1 = t + c;
        let t2 = t1.push(';');
        let t3 = t2 + seq!['\n'];
        assert(lines_text(hp_lines(cs)) =~= t3);
        crate::text::lemma_split_append_free(t, c, ';');
        assert(t2.drop_last() =~= t1);
        assert(split_spec(t2, ';') == split_spec(t1, ';').push(Seq::<char>::empty()));
        assert(!seq!['\n'].contains(';')) by {
            assert(seq!['\n'][0] != ';');
        }
        crate::text::lemma_split_append_free(t2, seq!['\n'], ';');
        crate::text::lemma_split_nonempty(t1, ';');
        let p1 = split_spec(t1, ';');
        assert(p1.push(Seq::<char>::empty()).update(p1.len() as int, Seq::<char>::empty() + seq!['\n'])
            =~= p1.push(seq!['\n']));
    }
}

/// The commands `cs` read in order from `st`; the first error stops.
pub open spec fn hp_fold(st: HState, cs: Seq<Seq<char>>) -> Result<HState, HpglErrorView>
    decreases cs.len(),
{
    if cs.len() == 0 {
        Ok(st)
    } else {
        match hp_fold(st, cs.drop_last()) {
            Err(e) => Err(e),
            Ok(s) => h_command(s, cs.last()),
        }
    }
}

pub proof fn lemma_hp_fold_push(st: HState, cs: Seq<Seq<char>>, c: Seq<char>)
    ensures
        hp_fold(st, cs.push(c)) == (match hp_fold(st, cs) {
            Err(e) => Err(e),
            Ok(s) => h_command(s, c),
        }),
        hp_fold(st, Seq::<Seq<char>>::empty()) == Ok::<HState, HpglErrorView>(st),
{
    assert(cs.push(c).drop_last() =~= cs);
    assert(cs.push(c).last() == c);
}

pub proof fn lemma_hp_fold_append(st: HState, a: Seq<Seq<char>>, b: Seq<Seq<char>>)
    ensures
        hp_fold(st, a + b) == (match hp_fold(st, a) {
            Err(e) => Err(e),
            Ok(s) => hp_fold(s, b),
        }),
    decreases b.len(),
{
    if b.len() == 0 {
        assert(a + b =~= a);
    } else {
        lemma_hp_fold_append(st, a, b.drop_last());
        assert((a + b).drop_last() =~= a + b.drop_last());
        assert((a + b).last() == b.last());
    }
}

pub proof fn lemma_h_commands_prefix(a: Seq<Seq<char>>, b: Seq<Seq<char>>, n: int)
    requires
        0 <= n <= a.len(),
        n <= b.len(),
        forall|k: int| 0 <= k < n ==> a[k] == b[k],
    ensures
        h_commands(a, n) == h_commands(b, n),
    decreases n,
{
    if n > 0 {
        lemma_h_commands_prefix(a, b, n - 1);
    }
}

/// A command its own trim, also after a line break.
pub open spec fn bare_cmd(c: Seq<char>) -> bool {
    c.len() > 0 && !is_ws(c[0]) && !is_ws(c[c.len() - 1]) && !c.contains(';')
}

pub proof fn lemma_bare_trim(c: Seq<char>)
    requires
        bare_cmd(c),
    ensures
        trim_spec(c) == c,
        trim_spec(seq!['\n'] + c) == c,
        trim_spec(Seq::<char>::empty() + c) == c,
{
    crate::gcode_round_trip::lemma_trim_ends(c);
    let l = seq!['\n'] + c;
    assert(is_ws('\n'));
    assert(l.drop_first() =~= c);
    assert(trim_start_spec(l) == trim_start_spec(c));
    assert(trim_start_spec(c) == c);
    assert(Seq::<char>::empty() + c =~= c);
}

pub proof fn lemma_trim_blank()
    ensures
        trim_spec(Seq::<char>::empty()) == Seq::<char>::empty(),
        trim_spec(seq!['\n']) == Seq::<char>::empty(),
{
    let l = seq!['\n'];
    let e = Seq::<char>::empty();
    assert(is_ws('\n'));
    assert(l[0] == '\n');
    assert(l.drop_first() =~= e);
    assert(trim_start_spec(e) == e);
    assert(trim_start_spec(l) == trim_start_spec(l.drop_first()));
    assert(trim_start_spec(l) == e);
    assert(trim_end_spec(e) == e);
}

/// Reading the pieces of the program is reading its commands in order.
pub proof fn lemma_hp_read_pieces(cs: Seq<Seq<char>>)
    requires
        forall|i: int| 0 <= i < cs.len() ==> bare_cmd(#[trigger] cs[i]),
    ensures
        h_commands(hp_pieces(cs), hp_pieces(cs).len() as int) == hp_fold(h_initial(), cs),
    decreases cs.len(),
{
    lemma_trim_blank();
    lemma_hp_pieces_shape(cs);
    if cs.len() > 0 {
        let a = cs.drop_last();
        let c = cs.last();
        assert(c == cs[cs.len() - 1]);
        assert forall|i: int| 0 <= i < a.len() implies bare_cmd(#[trigger] a[i]) by {
            assert(a[i] == cs[i]);
        }
        lemma_hp_read_pieces(a);
        lemma_hp_pieces_shape(a);
        let p = hp_pieces(a);
        let k = p.len() - 1;
        let q = hp_pieces(cs);
        assert(q == p.update(k, p[k] + c).push(seq!['\n']));
        lemma_h_commands_prefix(q, p, k);
        lemma_bare_trim(c);
        assert(trim_spec(q[k]) == c);
        assert(trim_spec(q[k + 1]) == Seq::<char>::empty());
        assert(trim_spec(p[k]) == Seq::<char>::empty());
        assert(h_commands(p, k + 1) == h_commands(p, k));
        assert(h_commands(q, k + 2) == h_commands(q, k + 1));
        assert(h_commands(q, k) == hp_fold(h_initial(), a));
        assert(h_commands(q, k + 1) == hp_fold(h_initial(), cs));
    } else {
        let q = hp_pieces(cs);
        assert(q =~= seq![Seq::<char>::empty()]);
        assert(h_commands(q, 0) == Ok::<HState, HpglErrorView>(h_initial()));
        assert(h_command(h_initial(), Seq::<char>::empty()) == Ok::<HState, HpglErrorView>(h_initial()));
        assert(h_commands(q, 1) == Ok::<HState, HpglErrorView>(h_initial()));
    }
}

// ---------------------------------------------------------------------------
// Reading each command
// ---------------------------------------------------------------------------

/// A coordinate as written: a number text without `,` or `;`.
pub open spec fn hp_coord(t: Seq<char>) -> bool {
    &&& crate::gcode_round_trip::num_text(t)
    &&& t.len() > 0
    &&& !t.contains(',')
    &&& !t.contains(';')
}

/// The two-letter mnemonics the reader knows.
pub proof fn lemma_mnemonics()
    ensures
        "IN"@ =~= seq!['I', 'N'],
        "PA"@ =~= seq!['P', 'A'],
        "PR"@ =~= seq!['P', 'R'],
        "PU"@ =~= seq!['P', 'U'],
        "PD"@ =~= seq!['P', 'D'],
{
    reveal_strlit("IN");
    reveal_strlit("PA");
    reveal_strlit("PR");
    reveal_strlit("PU");
    reveal_strlit("PD");
}

/// A command starting with two upper-case letters: its mnemonic is those
/// letters, and the rest follows.
pub proof fn lemma_two_letters(cmd: Seq<char>)
    requires
        cmd.len() >= 2,
        'A' <= cmd[0] <= 'Z',
        'A' <= cmd[1] <= 'Z',
    ensures
        alpha_prefix(cmd) >= 2,
        crate::text::ascii_upper_spec(cmd.take(2)) =~= seq![cmd[0], cmd[1]],
{
    let d = cmd.drop_first();
    assert(d[0] == cmd[1]);
    lemma_alpha_prefix(d.drop_first());
    assert(crate::gcode_reader::is_ascii_alpha(cmd[0]));
    assert(crate::gcode_reader::is_ascii_alpha(d[0]));
    assert(alpha_prefix(d) == 1 + alpha_prefix(d.drop_first()));
    assert(crate::text::ascii_upper(cmd[0]) == cmd[0]);
    assert(crate::text::ascii_upper(cmd[1]) == cmd[1]);
}

/// `IN`: the stroke in progress ends, pen up, absolute mode, no position.
pub proof fn lemma_cmd_in(st: HState)
    ensures
        h_command(st, "IN"@) == Ok::<HState, HpglErrorView>(
            HState { pen_down: false, mode: CoordMode::Absolute, last: None, ..h_flush(st) },
        ),
{
    lemma_mnemonics();
    lemma_two_letters("IN"@);
}

/// `PU`: pen up, the stroke in progress ends.
pub proof fn lemma_cmd_pu(st: HState)
    ensures
        h_command(st, "PU"@) == Ok::<HState, HpglErrorView>(h_flush(HState { pen_down: false, ..st })),
{
    lemma_mnemonics();
    lemma_two_letters("PU"@);
    assert(("PU"@).skip(2) =~= Seq::<char>::empty());
    assert(trim_spec(Seq::<char>::empty()) == Seq::<char>::empty()) by {
        lemma_trim_blank();
    }
}

/// `PD`: pen down.
pub proof fn lemma_cmd_pd(st: HState)
    ensures
        h_command(st, "PD"@) == Ok::<HState, HpglErrorView>(HState { pen_down: true, ..st }),
{
    lemma_mnemonics();
    lemma_two_letters("PD"@);
    assert(("PD"@).skip(2) =~= Seq::<char>::empty());
    assert(trim_spec(Seq::<char>::empty()) == Seq::<char>::empty()) by {
        lemma_trim_blank();
    }
}

/// `SP<d>`: pen selection, no effect.
pub proof fn lemma_cmd_sp(st: HState, d: char)
    requires
        '0' <= d <= '9',
    ensures
        h_command(st, seq!['S', 'P', d]) == Ok::<HState, HpglErrorView>(st),
{
    lemma_mnemonics();
    let c = seq!['S', 'P', d];
    let t = c.drop_first().drop_first();
    assert(t[0] == d);
    assert(!crate::gcode_reader::is_ascii_alpha(d));
    assert(alpha_prefix(t) == 0);
    lemma_two_letters(c);
    let d1 = c.drop_first();
    assert(d1.drop_first() =~= t);
    assert(d1[0] == 'P');
    assert(crate::gcode_reader::is_ascii_alpha(d1[0]));
    assert(alpha_prefix(d1) == 1 + alpha_prefix(t));
    assert(crate::gcode_reader::is_ascii_alpha(c[0]));
    assert(alpha_prefix(c) == 1 + alpha_prefix(d1));
    assert(alpha_prefix(c) == 2);
}

/// `PA<x>,<y>`: absolute mode, then a move to `(x, y)`.
pub proof fn lemma_cmd_pa(st: HState, x: Seq<char>, y: Seq<char>)
    requires
        hp_coord(x),
        hp_coord(y),
    ensures
        h_command(st, hp_pa(x, y)) == Ok::<HState, HpglErrorView>(
            h_move(HState { mode: CoordMode::Absolute, ..st }, x, y),
        ),
{
    reveal_strlit(",");
    lemma_mnemonics();
    let cmd = hp_pa(x, y);
    let rest = x + ","@ + y;
    assert(cmd =~= seq!['P', 'A'] + rest);
    lemma_two_letters(cmd);
    assert(cmd.skip(2) =~= rest);
    assert(rest[0] == x[0]);
    assert(rest[rest.len() - 1] == y[y.len() - 1]);
    crate::gcode_round_trip::lemma_trim_ends(rest);
    // The two coordinates.
    assert(join_spec(seq![x], ',') == x);
    assert(seq![x, y].drop_last() =~= seq![x]);
    assert(join_spec(seq![x, y], ',') =~= rest);
    let pieces = seq![x, y];
    assert forall|i: int| 0 <= i < pieces.len() implies !(#[trigger] pieces[i]).contains(',') by {
        if i == 0 {
            assert(pieces[i] == x);
        } else {
            assert(pieces[i] == y);
        }
    }
    crate::text::lemma_split_join(pieces, ',');
    crate::gcode_round_trip::lemma_trim_ends(x);
    crate::gcode_round_trip::lemma_trim_ends(y);
    assert(coord_tokens(pieces, 0) == Ok::<Seq<Seq<char>>, Seq<char>>(Seq::<Seq<char>>::empty()));
    assert(coord_tokens(pieces, 1) == Ok::<Seq<Seq<char>>, Seq<char>>(seq![x]));
    assert(pieces[1] == y);
    assert(seq![x].push(y) =~= seq![x, y]);
    assert(coord_tokens(pieces, 2) == Ok::<Seq<Seq<char>>, Seq<char>>(seq![x, y]));
    let s1 = HState { mode: CoordMode::Absolute, ..st };
    assert(h_moves(s1, seq![x, y], 0) == s1);
    assert(h_moves(s1, seq![x, y], 1) == h_move(s1, x, y));
}

// ---------------------------------------------------------------------------
// The reader's state along the program
// ---------------------------------------------------------------------------

/// The point a move reaches (the offsets of a relative move).
pub open spec fn move_point(m: MoveView) -> PointText {
    match m {
        MoveView::Absolute { x, y } => (x, y),
        MoveView::Relative { dx, dy, .. } => (dx, dy),
    }
}

/// The points of a stroke, by the moves it joins.
pub open spec fn stroke_points(moves: Seq<MoveView>, pl: Seq<nat>) -> Seq<PointText> {
    pl.map_values(|i: nat| move_point(moves[i as int]))
}

/// The points of each stroke.
pub open spec fn strokes_points(moves: Seq<MoveView>, pls: Seq<Seq<nat>>) -> Seq<Seq<PointText>> {
    pls.map_values(|pl: Seq<nat>| stroke_points(moves, pl))
}

/// Move numbers below `n`.
pub open spec fn indices_below(pl: Seq<nat>, n: nat) -> bool {
    forall|i: int| 0 <= i < pl.len() ==> pl[i] < n
}

/// Absolute mode, only absolute moves, and every move number in use refers
/// to a move.
pub open spec fn hp_wf(st: HState) -> bool {
    &&& st.mode == CoordMode::Absolute
    &&& forall|i: int| 0 <= i < st.moves.len() ==> (#[trigger] st.moves[i]) is Absolute
    &&& indices_below(st.current, st.moves.len())
    &&& forall|j: int| 0 <= j < st.polylines.len() ==> indices_below(#[trigger] st.polylines[j], st.moves.len())
    &&& match st.last {
        Some(k) => k < st.moves.len(),
        None => true,
    }
}

/// The strokes kept once the stroke in progress ends.
pub open spec fn hp_kept(st: HState) -> Seq<Seq<PointText>> {
    strokes_points(h_flush(st).moves, h_flush(st).polylines)
}

/// Pen up, no stroke in progress, the strokes `k` kept.
pub open spec fn hp_up(st: HState, k: Seq<Seq<PointText>>) -> bool {
    &&& hp_wf(st)
    &&& !st.pen_down
    &&& st.current.len() == 0
    &&& strokes_points(st.moves, st.polylines) == k
}

/// Pen down, the strokes `k` kept, and the stroke in progress through the
/// points `cur` (just its start point while no second point has come).
pub open spec fn hp_pen(st: HState, k: Seq<Seq<PointText>>, cur: Seq<PointText>) -> bool {
    &&& hp_wf(st)
    &&& st.pen_down
    &&& strokes_points(st.moves, st.polylines) == k
    &&& cur.len() >= 1
    &&& {
        ||| (cur.len() == 1 && st.current.len() == 0 && st.last is Some && move_point(
            st.moves[st.last->0 as int],
        ) == cur[0])
        ||| (st.current.len() >= 1 && stroke_points(st.moves, st.current) == cur && st.last == Some(
            st.current.last(),
        ))
    }
}

pub proof fn lemma_stroke_push(moves: Seq<MoveView>, pl: Seq<nat>, m: MoveView)
    requires
        indices_below(pl, moves.len()),
    ensures
        stroke_points(moves.push(m), pl) == stroke_points(moves, pl),
{
    assert(stroke_points(moves.push(m), pl) =~= stroke_points(moves, pl)) by {
        assert forall|i: int| 0 <= i < pl.len() implies stroke_points(moves.push(m), pl)[i] == stroke_points(
            moves,
            pl,
        )[i] by {
            assert(pl[i] < moves.len());
            assert(moves.push(m)[pl[i] as int] == moves[pl[i] as int]);
        }
    }
}

pub proof fn lemma_strokes_push(moves: Seq<MoveView>, pls: Seq<Seq<nat>>, m: MoveView)
    requires
        forall|j: int| 0 <= j < pls.len() ==> indices_below(#[trigger] pls[j], moves.len()),
    ensures
        strokes_points(moves.push(m), pls) == strokes_points(moves, pls),
{
    assert(strokes_points(moves.push(m), pls) =~= strokes_points(moves, pls)) by {
        assert forall|j: int| 0 <= j < pls.len() implies strokes_points(moves.push(m), pls)[j] == strokes_points(
            moves,
            pls,
        )[j] by {
            lemma_stroke_push(moves, pls[j], m);
        }
    }
}

/// `PU` from any reachable state: pen up, the stroke in progress kept.
pub proof fn lemma_step_pu(st: HState)
    requires
        hp_wf(st),
    ensures
        h_command(st, "PU"@) matches Ok(r) && hp_up(r, hp_kept(st)) && hp_kept(r) == hp_kept(st),
{
    lemma_cmd_pu(st);
    let r = h_flush(HState { pen_down: false, ..st });
    assert(h_flush(st).polylines == r.polylines);
    assert(h_flush(st).moves == r.moves);
    assert(h_flush(r).polylines == r.polylines);
    assert forall|j: int| 0 <= j < r.polylines.len() implies indices_below(#[trigger] r.polylines[j], r.moves.len()) by {
        if j < st.polylines.len() {
            assert(r.polylines[j] == st.polylines[j]);
        } else {
            assert(r.polylines[j] == st.current);
        }
    }
}

/// `PA<x>,<y>` with the pen up: the position moves, the kept strokes stay.
pub proof fn lemma_step_pa_up(st: HState, k: Seq<Seq<PointText>>, x: Seq<char>, y: Seq<char>)
    requires
        hp_up(st, k),
        hp_coord(x),
        hp_coord(y),
    ensures
        h_command(st, hp_pa(x, y)) is Ok,
        hp_up(h_command(st, hp_pa(x, y))->Ok_0, k),
        h_command(st, hp_pa(x, y))->Ok_0.last is Some,
        move_point(
            h_command(st, hp_pa(x, y))->Ok_0.moves[h_command(st, hp_pa(x, y))->Ok_0.last->0 as int],
        ) == (x, y),
{
    lemma_cmd_pa(st, x, y);
    let s1 = HState { mode: CoordMode::Absolute, ..st };
    assert(s1 == st);
    let m = MoveView::Absolute { x, y };
    let r = h_move(st, x, y);
    assert(r.moves == st.moves.push(m));
    assert(h_flush(st).polylines == st.polylines);
    lemma_strokes_push(st.moves, st.polylines, m);
    assert forall|j: int| 0 <= j < r.polylines.len() implies indices_below(#[trigger] r.polylines[j], r.moves.len()) by {
        assert(r.polylines[j] == st.polylines[j]);
        assert(indices_below(st.polylines[j], st.moves.len()));
    }
    assert forall|i: int| 0 <= i < r.moves.len() implies (#[trigger] r.moves[i]) is Absolute by {
        if i < st.moves.len() {
            assert(r.moves[i] == st.moves[i]);
        }
    }
}

/// `PD` after a position: the pen goes down at that point.
pub proof fn lemma_step_pd(st: HState, k: Seq<Seq<PointText>>, p: PointText)
    requires
        hp_up(st, k),
        st.last is Some,
        move_point(st.moves[st.last->0 as int]) == p,
    ensures
        h_command(st, "PD"@) matches Ok(r) && hp_pen(r, k, seq![p]),
{
    lemma_cmd_pd(st);
}

/// `PA<x>,<y>` with the pen down: the stroke in progress reaches `(x, y)`.
pub proof fn lemma_step_pa_down(st: HState, k: Seq<Seq<PointText>>, cur: Seq<PointText>, x: Seq<char>, y: Seq<char>)
    requires
        hp_pen(st, k, cur),
        hp_coord(x),
        hp_coord(y),
    ensures
        h_command(st, hp_pa(x, y)) matches Ok(r) && hp_pen(r, k, cur.push((x, y))),
{
    lemma_cmd_pa(st, x, y);
    let s1 = HState { mode: CoordMode::Absolute, ..st };
    assert(s1 == st);
    let m = MoveView::Absolute { x, y };
    let n = st.moves.len();
    let r = h_move(st, x, y);
    let mv = st.moves.push(m);
    assert(r.moves == mv);
    lemma_strokes_push(st.moves, st.polylines, m);
    assert forall|j: int| 0 <= j < r.polylines.len() implies indices_below(#[trigger] r.polylines[j], r.moves.len()) by {
        assert(r.polylines[j] == st.polylines[j]);
        assert(indices_below(st.polylines[j], st.moves.len()));
    }
    assert forall|i: int| 0 <= i < r.moves.len() implies (#[trigger] r.moves[i]) is Absolute by {
        if i < st.moves.len() {
            assert(r.moves[i] == st.moves[i]);
        }
    }
    assert(mv[n as int] == m);
    if st.current.len() == 0 {
        let b = st.last->0;
        assert(r.current == seq![b, n]);
        assert(mv[b as int] == st.moves[b as int]);
        assert(stroke_points(mv, seq![b, n]) =~= cur.push((x, y)));
    } else {
        assert(r.current == st.current.push(n));
        lemma_stroke_push(st.moves, st.current, m);
        assert(stroke_points(mv, st.current.push(n)) =~= stroke_points(mv, st.current).push((x, y)));
        assert(r.current.last() == n);
    }
}

/// The points as plain coordinate texts.
pub open spec fn hp_points_ok(pts: Seq<PointText>) -> bool {
    forall|i: int| 0 <= i < pts.len() ==> hp_coord((#[trigger] pts[i]).0) && hp_coord(pts[i].1)
}

/// The moves to `pts` with the pen down extend the stroke in progress.
pub proof fn lemma_hp_cuts(st: HState, k: Seq<Seq<PointText>>, cur: Seq<PointText>, pts: Seq<PointText>)
    requires
        hp_pen(st, k, cur),
        hp_points_ok(pts),
    ensures
        hp_fold(st, hp_cut_cmds(pts)) matches Ok(r) && hp_pen(r, k, cur + pts),
    decreases pts.len(),
{
    if pts.len() == 0 {
        assert(cur + pts =~= cur);
        assert(hp_cut_cmds(pts) =~= Seq::<Seq<char>>::empty());
    } else {
        let p = pts.drop_last();
        let q = pts.last();
        assert(q == pts[pts.len() - 1]);
        assert(hp_points_ok(p)) by {
            assert forall|i: int| 0 <= i < p.len() implies hp_coord((#[trigger] p[i]).0) && hp_coord(p[i].1) by {
                assert(p[i] == pts[i]);
            }
        }
        lemma_hp_cuts(st, k, cur, p);
        let cs = hp_cut_cmds(pts);
        assert(cs.drop_last() =~= hp_cut_cmds(p));
        assert(cs.last() == hp_pa(q.0, q.1));
        let s = hp_fold(st, hp_cut_cmds(p))->Ok_0;
        lemma_step_pa_down(s, k, cur + p, q.0, q.1);
        assert((cur + p).push((q.0, q.1)) =~= cur + pts);
    }
}

/// One pass: the stroke in progress is kept and a stroke through `path` is
/// in progress.
pub proof fn lemma_hp_pass(st: HState, path: Seq<PointText>)
    requires
        hp_wf(st),
        path.len() >= 2,
        hp_points_ok(path),
    ensures
        hp_fold(st, hp_pass_cmds(path)) matches Ok(r) && hp_pen(r, hp_kept(st), path),
{
    let k = hp_kept(st);
    let p0 = path[0];
    assert(hp_coord(p0.0) && hp_coord(p0.1));
    let c1 = hp_pa(p0.0, p0.1);
    let head = seq!["PU"@, c1, "PD"@];
    let rest = path.drop_first();
    assert(hp_points_ok(rest)) by {
        assert forall|i: int| 0 <= i < rest.len() implies hp_coord((#[trigger] rest[i]).0) && hp_coord(rest[i].1) by {
            assert(rest[i] == path[i + 1]);
        }
    }
    lemma_hp_fold_append(st, head, hp_cut_cmds(rest));
    let e = Seq::<Seq<char>>::empty();
    assert(e.push("PU"@).push(c1).push("PD"@) =~= head);
    lemma_hp_fold_push(st, e, "PU"@);
    lemma_hp_fold_push(st, e.push("PU"@), c1);
    lemma_hp_fold_push(st, e.push("PU"@).push(c1), "PD"@);
    lemma_step_pu(st);
    let s1 = h_command(st, "PU"@)->Ok_0;
    assert(hp_fold(st, e.push("PU"@)) == h_command(st, "PU"@));
    lemma_step_pa_up(s1, k, p0.0, p0.1);
    let s2 = h_command(s1, c1)->Ok_0;
    assert(hp_fold(st, e.push("PU"@).push(c1)) == h_command(s1, c1));
    lemma_step_pd(s2, k, (p0.0, p0.1));
    let s3 = h_command(s2, "PD"@)->Ok_0;
    assert(hp_fold(st, head) == h_command(s2, "PD"@));
    lemma_hp_cuts(s3, k, seq![(p0.0, p0.1)], rest);
    assert(seq![(p0.0, p0.1)] + rest =~= path);
}

/// `n` copies of the points of `p`.
pub open spec fn hp_copies(p: Seq<PointText>, n: nat) -> Seq<Seq<PointText>> {
    Seq::new(n, |i: int| p)
}

/// A pen-down state through at least two points keeps that stroke.
pub proof fn lemma_pen_kept(st: HState, k: Seq<Seq<PointText>>, cur: Seq<PointText>)
    requires
        hp_pen(st, k, cur),
        cur.len() >= 2,
    ensures
        hp_kept(st) == k.push(cur),
{
    assert(st.current.len() == cur.len());
    let f = h_flush(st);
    assert(f.polylines == st.polylines.push(st.current));
    assert(strokes_points(st.moves, st.polylines.push(st.current)) =~= k.push(cur));
}

/// `n` passes of `path`: each one a kept stroke through it, once the pen
/// lifts.
pub proof fn lemma_hp_passes(st: HState, path: Seq<PointText>, n: nat)
    requires
        hp_wf(st),
        path.len() >= 2,
        hp_points_ok(path),
    ensures
        hp_fold(st, hp_passes_cmds(path, n)) matches Ok(r) && hp_wf(r) && hp_kept(r) == hp_kept(st) + hp_copies(
            path,
            n,
        ),
    decreases n,
{
    if n == 0 {
        assert(hp_kept(st) + hp_copies(path, 0) =~= hp_kept(st));
        assert(hp_passes_cmds(path, 0) =~= Seq::<Seq<char>>::empty());
    } else {
        lemma_hp_passes(st, path, (n - 1) as nat);
        let a = hp_passes_cmds(path, (n - 1) as nat);
        let s = hp_fold(st, a)->Ok_0;
        lemma_hp_fold_append(st, a, hp_pass_cmds(path));
        lemma_hp_pass(s, path);
        let r = hp_fold(s, hp_pass_cmds(path))->Ok_0;
        lemma_pen_kept(r, hp_kept(s), path);
        assert(hp_copies(path, (n - 1) as nat).push(path) =~= hp_copies(path, n));
        assert((hp_kept(st) + hp_copies(path, (n - 1) as nat)).push(path) =~= hp_kept(st) + hp_copies(path, n));
    }
}

/// What the milling of `paths` reads back as: each path of at least two
/// points, `n` times.
pub open spec fn hp_milled(paths: Seq<Seq<PointText>>, n: nat) -> Seq<Seq<PointText>>
    decreases paths.len(),
{
    if paths.len() == 0 {
        Seq::<Seq<PointText>>::empty()
    } else if paths.last().len() < 2 {
        hp_milled(paths.drop_last(), n)
    } else {
        hp_milled(paths.drop_last(), n) + hp_copies(paths.last(), n)
    }
}

/// Every path's coordinates are plain coordinate texts.
pub open spec fn hp_paths_ok(paths: Seq<Seq<PointText>>) -> bool {
    forall|i: int| 0 <= i < paths.len() ==> hp_points_ok(#[trigger] paths[i])
}

pub proof fn lemma_hp_mill(st: HState, paths: Seq<Seq<PointText>>, n: nat)
    requires
        hp_wf(st),
        hp_paths_ok(paths),
    ensures
        hp_fold(st, hp_mill_cmds(paths, n)) matches Ok(r) && hp_wf(r) && hp_kept(r) == hp_kept(st) + hp_milled(
            paths,
            n,
        ),
    decreases paths.len(),
{
    if paths.len() == 0 {
        assert(hp_kept(st) + hp_milled(paths, n) =~= hp_kept(st));
        assert(hp_mill_cmds(paths, n) =~= Seq::<Seq<char>>::empty());
    } else {
        let pp = paths.drop_last();
        let q = paths.last();
        assert(q == paths[paths.len() - 1]);
        assert(hp_paths_ok(pp)) by {
            assert forall|i: int| 0 <= i < pp.len() implies hp_points_ok(#[trigger] pp[i]) by {
                assert(pp[i] == paths[i]);
            }
        }
        lemma_hp_mill(st, pp, n);
        let m = hp_mill_cmds(pp, n);
        let s = hp_fold(st, m)->Ok_0;
        if q.len() >= 2 {
            let pl = hp_passes_cmds(q, n);
            lemma_hp_fold_append(st, m + pl, seq!["PU"@]);
            lemma_hp_fold_append(st, m, pl);
            lemma_hp_passes(s, q, n);
            let s2 = hp_fold(s, pl)->Ok_0;
            lemma_step_pu(s2);
            lemma_hp_fold_push(s2, Seq::<Seq<char>>::empty(), "PU"@);
            assert(Seq::<Seq<char>>::empty().push("PU"@) =~= seq!["PU"@]);
            assert(hp_kept(st) + hp_milled(pp, n) + hp_copies(q, n) =~= hp_kept(st) + hp_milled(paths, n));
        }
    }
}

// ---------------------------------------------------------------------------
// The whole program
// ---------------------------------------------------------------------------

/// `0` is a coordinate text.
pub proof fn lemma_zero_coord()
    ensures
        hp_coord("0"@),
        "PA0,0"@ == hp_pa("0"@, "0"@),
{
    reveal_strlit("0");
    reveal_strlit("PA0,0");
    reveal_strlit("PA");
    reveal_strlit(",");
    let t = "0"@;
    assert(t =~= seq!['0']);
    assert(crate::text::ascii_lower_spec(t) =~= t);
    crate::numeric::lemma_first_index(t, 'e');
    assert(crate::numeric::first_index(t, 'e') == 1);
    assert(t.take(1) =~= t);
    assert(t != "inf"@ && t != "infinity"@ && t != "nan"@) by {
        reveal_strlit("inf");
        reveal_strlit("infinity");
        reveal_strlit("nan");
    }
    assert(crate::numeric::float_mantissa(t)) by {
        assert(crate::text::is_ascii_digit(t[0]));
    }
    assert("PA0,0"@ =~= hp_pa("0"@, "0"@));
}

/// Every command is its own trim and holds no `;`.
pub open spec fn all_bare(cs: Seq<Seq<char>>) -> bool {
    forall|i: int| 0 <= i < cs.len() ==> bare_cmd(#[trigger] cs[i])
}

pub proof fn lemma_all_bare_append(a: Seq<Seq<char>>, b: Seq<Seq<char>>)
    requires
        all_bare(a),
        all_bare(b),
    ensures
        all_bare(a + b),
{
    assert forall|i: int| 0 <= i < (a + b).len() implies bare_cmd(#[trigger] (a + b)[i]) by {
        if i < a.len() {
            assert((a + b)[i] == a[i]);
        } else {
            assert((a + b)[i] == b[i - a.len()]);
        }
    }
}

pub proof fn lemma_bare_literals()
    ensures
        bare_cmd("IN"@),
        bare_cmd("SP1"@),
        bare_cmd("PU"@),
        bare_cmd("PD"@),
        bare_cmd("PA0,0"@),
        bare_cmd("SP0"@),
        "SP1"@ =~= seq!['S', 'P', '1'],
        "SP0"@ =~= seq!['S', 'P', '0'],
{
    reveal_strlit("IN");
    reveal_strlit("SP1");
    reveal_strlit("PU");
    reveal_strlit("PD");
    reveal_strlit("PA0,0");
    reveal_strlit("SP0");
    assert(!("IN"@).contains(';')) by {
        assert forall|k: int| 0 <= k < ("IN"@).len() implies ("IN"@)[k] != ';' by {}
    }
    assert(!("SP1"@).contains(';')) by {
        assert forall|k: int| 0 <= k < ("SP1"@).len() implies ("SP1"@)[k] != ';' by {}
    }
    assert(!("PU"@).contains(';')) by {
        assert forall|k: int| 0 <= k < ("PU"@).len() implies ("PU"@)[k] != ';' by {}
    }
    assert(!("PD"@).contains(';')) by {
        assert forall|k: int| 0 <= k < ("PD"@).len() implies ("PD"@)[k] != ';' by {}
    }
    assert(!("PA0,0"@).contains(';')) by {
        assert forall|k: int| 0 <= k < ("PA0,0"@).len() implies ("PA0,0"@)[k] != ';' by {}
    }
    assert(!("SP0"@).contains(';')) by {
        assert forall|k: int| 0 <= k < ("SP0"@).len() implies ("SP0"@)[k] != ';' by {}
    }
}

pub proof fn lemma_bare_pa(x: Seq<char>, y: Seq<char>)
    requires
        hp_coord(x),
        hp_coord(y),
    ensures
        bare_cmd(hp_pa(x, y)),
{
    reveal_strlit("PA");
    reveal_strlit(",");
    let c = hp_pa(x, y);
    assert(c =~= seq!['P', 'A'] + x + seq![','] + y);
    assert(c[0] == 'P');
    assert(c[c.len() - 1] == y[y.len() - 1]);
    assert forall|k: int| 0 <= k < c.len() implies c[k] != ';' by {
        if k >= 2 && k < 2 + x.len() {
            assert(c[k] == x[k - 2]);
        } else if k >= 3 + x.len() {
            assert(c[k] == y[k - 3 - x.len()]);
        }
    }
}

pub proof fn lemma_bare_cuts(pts: Seq<PointText>)
    requires
        hp_points_ok(pts),
    ensures
        all_bare(hp_cut_cmds(pts)),
{
    assert forall|i: int| 0 <= i < hp_cut_cmds(pts).len() implies bare_cmd(#[trigger] hp_cut_cmds(pts)[i]) by {
        assert(hp_coord(pts[i].0));
        lemma_bare_pa(pts[i].0, pts[i].1);
    }
}

pub proof fn lemma_bare_passes(path: Seq<PointText>, n: nat)
    requires
        path.len() >= 1,
        hp_points_ok(path),
    ensures
        all_bare(hp_passes_cmds(path, n)),
    decreases n,
{
    if n == 0 {
        assert(hp_passes_cmds(path, n) =~= Seq::<Seq<char>>::empty());
    } else {
        lemma_bare_passes(path, (n - 1) as nat);
        lemma_bare_literals();
        assert(hp_coord(path[0].0));
        lemma_bare_pa(path[0].0, path[0].1);
        let head = seq!["PU"@, hp_pa(path[0].0, path[0].1), "PD"@];
        assert(all_bare(head)) by {
            assert forall|i: int| 0 <= i < head.len() implies bare_cmd(#[trigger] head[i]) by {
                assert(i == 0 || i == 1 || i == 2);
            }
        }
        let rest = path.drop_first();
        assert(hp_points_ok(rest)) by {
            assert forall|i: int| 0 <= i < rest.len() implies hp_coord((#[trigger] rest[i]).0) && hp_coord(
                rest[i].1,
            ) by {
                assert(rest[i] == path[i + 1]);
            }
        }
        lemma_bare_cuts(rest);
        lemma_all_bare_append(head, hp_cut_cmds(rest));
        lemma_all_bare_append(hp_passes_cmds(path, (n - 1) as nat), hp_pass_cmds(path));
    }
}

pub proof fn lemma_bare_mill(paths: Seq<Seq<PointText>>, n: nat)
    requires
        hp_paths_ok(paths),
    ensures
        all_bare(hp_mill_cmds(paths, n)),
    decreases paths.len(),
{
    if paths.len() == 0 {
        assert(hp_mill_cmds(paths, n) =~= Seq::<Seq<char>>::empty());
    } else {
        let pp = paths.drop_last();
        assert(paths.last() == paths[paths.len() - 1]);
        assert(hp_paths_ok(pp)) by {
            assert forall|i: int| 0 <= i < pp.len() implies hp_points_ok(#[trigger] pp[i]) by {
                assert(pp[i] == paths[i]);
            }
        }
        lemma_bare_mill(pp, n);
        if paths.last().len() >= 2 {
            lemma_bare_passes(paths.last(), n);
            lemma_bare_literals();
            assert(all_bare(seq!["PU"@])) by {
                assert forall|i: int| 0 <= i < 1 implies bare_cmd(#[trigger] seq!["PU"@][i]) by {}
            }
            lemma_all_bare_append(hp_mill_cmds(pp, n), hp_passes_cmds(paths.last(), n));
            lemma_all_bare_append(hp_mill_cmds(pp, n) + hp_passes_cmds(paths.last(), n), seq!["PU"@]);
        }
    }
}

/// The program start: pen up, absolute mode, nothing kept.
pub proof fn lemma_hp_header()
    ensures
        hp_fold(h_initial(), hp_header_cmds()) is Ok,
        hp_wf(hp_fold(h_initial(), hp_header_cmds())->Ok_0),
        hp_kept(hp_fold(h_initial(), hp_header_cmds())->Ok_0) == Seq::<Seq<PointText>>::empty(),
        all_bare(hp_header_cmds()),
{
    lemma_bare_literals();
    let e = Seq::<Seq<char>>::empty();
    let st = h_initial();
    assert(e.push("IN"@).push("SP1"@).push("PU"@) =~= hp_header_cmds());
    lemma_hp_fold_push(st, e, "IN"@);
    lemma_hp_fold_push(st, e.push("IN"@), "SP1"@);
    lemma_hp_fold_push(st, e.push("IN"@).push("SP1"@), "PU"@);
    lemma_cmd_in(st);
    let r1 = HState { pen_down: false, mode: CoordMode::Absolute, last: None, ..h_flush(st) };
    assert(hp_wf(r1));
    lemma_cmd_sp(r1, '1');
    lemma_step_pu(r1);
    assert(h_flush(r1).polylines =~= Seq::<Seq<nat>>::empty());
    assert(hp_kept(r1) =~= Seq::<Seq<PointText>>::empty());
    let h = hp_header_cmds();
    assert(all_bare(h)) by {
        assert forall|i: int| 0 <= i < h.len() implies bare_cmd(#[trigger] h[i]) by {
            assert(i == 0 || i == 1 || i == 2);
        }
    }
}

/// The program end keeps what was kept.
pub proof fn lemma_hp_footer(st: HState)
    requires
        hp_wf(st),
    ensures
        hp_fold(st, hp_footer_cmds()) is Ok,
        hp_wf(hp_fold(st, hp_footer_cmds())->Ok_0),
        hp_kept(hp_fold(st, hp_footer_cmds())->Ok_0) == hp_kept(st),
        all_bare(hp_footer_cmds()),
{
    lemma_bare_literals();
    lemma_zero_coord();
    let e = Seq::<Seq<char>>::empty();
    assert(e.push("PU"@).push("PA0,0"@).push("SP0"@) =~= hp_footer_cmds());
    lemma_hp_fold_push(st, e, "PU"@);
    lemma_hp_fold_push(st, e.push("PU"@), "PA0,0"@);
    lemma_hp_fold_push(st, e.push("PU"@).push("PA0,0"@), "SP0"@);
    lemma_step_pu(st);
    let r1 = h_command(st, "PU"@)->Ok_0;
    lemma_step_pa_up(r1, hp_kept(st), "0"@, "0"@);
    let r2 = h_command(r1, "PA0,0"@)->Ok_0;
    lemma_cmd_sp(r2, '0');
    assert(h_flush(r2).polylines == r2.polylines);
    let f = hp_footer_cmds();
    assert(all_bare(f)) by {
        assert forall|i: int| 0 <= i < f.len() implies bare_cmd(#[trigger] f[i]) by {
            assert(i == 0 || i == 1 || i == 2);
        }
    }
}

/// An HPGL milling program reads back as what was milled: every move is
/// absolute, and the strokes pass through exactly the coordinate texts
/// written, each polyline of at least two points once per pass depth, in
/// order. Coordinates must be number texts without `,` or `;`.
pub proof fn law_hpgl_mill_reads_back(w: JobWordsView, paths: Seq<Seq<PointText>>, depths: Seq<Seq<char>>)
    requires
        hp_paths_ok(paths),
    ensures
        match hpgl_parse_spec(
            footer_text(
                mill_text(header_text(Seq::<char>::empty(), Dialect::Hpgl, w), Dialect::Hpgl, paths, depths, w),
                Dialect::Hpgl,
                w,
            ),
        ) {
            Ok(v) => (forall|i: int| 0 <= i < v.moves.len() ==> (#[trigger] v.moves[i]) is Absolute)
                && strokes_points(v.moves, v.polylines) == hp_milled(paths, depths.len()),
            Err(_) => false,
        },
{
    let n = depths.len();
    let h = hp_header_cmds();
    let m = hp_mill_cmds(paths, n);
    let f = hp_footer_cmds();
    let cs = hp_program_cmds(paths, n);
    lemma_hp_program_text(paths, depths, w);
    lemma_hp_header();
    lemma_bare_mill(paths, n);
    let s0 = hp_fold(h_initial(), h)->Ok_0;
    lemma_hp_mill(s0, paths, n);
    let s1 = hp_fold(s0, m)->Ok_0;
    lemma_hp_footer(s1);
    let s2 = hp_fold(s1, f)->Ok_0;
    lemma_hp_fold_append(h_initial(), h, m);
    lemma_hp_fold_append(h_initial(), h + m, f);
    lemma_all_bare_append(h, m);
    lemma_all_bare_append(h + m, f);
    assert(cs == h + m + f);
    assert(no_semicolons(cs)) by {
        assert forall|i: int| 0 <= i < cs.len() implies !(#[trigger] cs[i]).contains(';') by {
            assert(bare_cmd(cs[i]));
        }
    }
    lemma_hp_split(cs);
    lemma_hp_read_pieces(cs);
    assert(hp_kept(s0) + hp_milled(paths, n) =~= hp_milled(paths, n));
    let fl = h_flush(s2);
    assert forall|i: int| 0 <= i < fl.moves.len() implies (#[trigger] fl.moves[i]) is Absolute by {
        assert(fl.moves == s2.moves);
    }
}

} // verus!
