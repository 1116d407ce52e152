//! HPGL/2 plotter file reader.
//!
//! Reads the subset of the HP Graphics Language that PCB tools emit for
//! plotter exports. Commands are separated by `;`; a mnemonic is the first
//! (at most two) ASCII letters of a command, case-insensitive:
//!
//! - `IN`: initialize (pen up, absolute mode, no current position);
//! - `SP n`: select pen (no effect on the drawing);
//! - `PU [...]`: pen up, then the moves (travels);
//! - `PD [...]`: pen down, then the moves (each extends the stroke);
//! - `PA [...]` / `PR [...]`: absolute / relative coordinates, then the moves.
//!
//! A coordinate list is comma separated; each `x,y` pair is a move. Any other
//! mnemonic is ignored. A stroke is kept when it has at least two points.
//!
//! The coordinates stay the literals of the file: each move is either an
//! absolute point or an offset from the position reached by an earlier move,
//! and each stroke lists the moves whose positions it joins. Adding offsets
//! is floating-point arithmetic, done by the caller in move order.
use crate::numeric::{is_float_lit, is_float_literal};
use crate::text::{slice_vec, split_chars, split_spec, trim_spec, trim_vec, to_ascii_upper_vec};
use vstd::prelude::*;

verus! {

/// Why an HPGL document was refused.
#[derive(Clone, Debug, PartialEq, Eq)]
pub enum HpglError {
    /// A coordinate token does not read as a number; the text is the token.
    InvalidCoordinate(String),
    /// A coordinate list has an odd number of values; the text is the
    /// command.
    OddCoordinateCount(String),
}

/// The content of an [`HpglError`].
pub enum HpglErrorView {
    InvalidCoordinate(Seq<char>),
    OddCoordinateCount(Seq<char>),
}

impl View for HpglError {
    type V = HpglErrorView;

    open spec fn view(&self) -> HpglErrorView {
        match self {
            HpglError::InvalidCoordinate(t) => HpglErrorView::InvalidCoordinate(t@),
            HpglError::OddCoordinateCount(t) => HpglErrorView::OddCoordinateCount(t@),
        }
    }
}

/// The text of an [`HpglError`].
pub open spec fn hpgl_error_text(e: HpglErrorView) -> Seq<char> {
    match e {
        HpglErrorView::InvalidCoordinate(t) => "invalid coordinate '"@ + t + "'"@,
        HpglErrorView::OddCoordinateCount(t) => "odd number of coordinates in command '"@ + t
            + "'"@,
    }
}

impl HpglError {
    /// The message describing the error.
    pub fn message(&self) -> (m: String)
        ensures
            m@ == hpgl_error_text(self@),
    {
        let (head, t) = match self {
            HpglError::InvalidCoordinate(t) => ("invalid coordinate '", t),
            HpglError::OddCoordinateCount(t) => ("odd number of coordinates in command '", t),
        };
        let mut m = crate::text::owned_str(head);
        crate::text::push_str(&mut m, t.as_str());
        crate::text::push_str(&mut m, "'");
        m
    }
}

/// A pen move: to an absolute point, or by an offset from the position
/// reached by move number `base`.
#[derive(Debug)]
pub enum Move {
    Absolute { x: Vec<char>, y: Vec<char> },
    Relative { base: usize, dx: Vec<char>, dy: Vec<char> },
}

/// The content of a [`Move`].
pub enum MoveView {
    Absolute { x: Seq<char>, y: Seq<char> },
    Relative { base: nat, dx: Seq<char>, dy: Seq<char> },
}

impl View for Move {
    type V = MoveView;

    open spec fn view(&self) -> MoveView {
        match self {
            Move::Absolute { x, y } => MoveView::Absolute { x: x@, y: y@ },
            Move::Relative { base, dx, dy } => MoveView::Relative { base: *base as nat, dx: dx@, dy: dy@ },
        }
    }
}

/// A read HPGL document: the moves in order, and the pen-down strokes as
/// the numbers of the moves whose positions they join.
#[derive(Debug)]
pub struct HpglDoc {
    pub moves: Vec<Move>,
    pub polylines: Vec<Vec<usize>>,
}

/// Coordinate mode.
#[derive(Clone, Copy, Debug, PartialEq, Eq, Structural)]
pub enum CoordMode {
    Absolute,
    Relative,
}

/// The reader state between commands.
pub struct HState {
    pub pen_down: bool,
    pub mode: CoordMode,
    /// The move that reached the current position (none after `IN`).
    pub last: Option<nat>,
    pub moves: Seq<MoveView>,
    pub current: Seq<nat>,
    pub polylines: Seq<Seq<nat>>,
}

pub open spec fn h_initial() -> HState {
    HState {
        pen_down: false,
        mode: CoordMode::Absolute,
        last: None,
        moves: Seq::<MoveView>::empty(),
        current: Seq::<nat>::empty(),
        polylines: Seq::<Seq<nat>>::empty(),
    }
}

/// Ends the stroke in progress: kept when it has at least two points.
pub open spec fn h_flush(st: HState) -> HState {
    if st.current.len() >= 2 {
        HState { polylines: st.polylines.push(st.current), current: Seq::<nat>::empty(), ..st }
    } else {
        HState { current: Seq::<nat>::empty(), ..st }
    }
}

/// A move by the pair `(x, y)`: relative moves go from the current
/// position (from the origin when there is none). With the pen down, a new
/// stroke starts at the current position (or at the target when there is
/// none), and the target extends it; with the pen up, the stroke ends.
pub open spec fn h_move(st: HState, x: Seq<char>, y: Seq<char>) -> HState {
    let target = match (st.mode, st.last) {
        (CoordMode::Relative, Some(b)) => MoveView::Relative { base: b, dx: x, dy: y },
        _ => MoveView::Absolute { x, y },
    };
    let k = st.moves.len();
    let moves = st.moves.push(target);
    if st.pen_down {
        if st.current.len() == 0 {
            match st.last {
                Some(b) => HState { moves, current: seq![b, k], last: Some(k), ..st },
                None => HState { moves, current: seq![k], last: Some(k), ..st },
            }
        } else {
            HState { moves, current: st.current.push(k), last: Some(k), ..st }
        }
    } else {
        HState { moves, last: Some(k), ..h_flush(st) }
    }
}

/// The coordinate tokens of `pieces[..n]` (trimmed, empty ones skipped), or
/// the first token that does not read as a number.
pub open spec fn coord_tokens(pieces: Seq<Seq<char>>, n: int) -> Result<Seq<Seq<char>>, Seq<char>>
    decreases n,
{
    if n <= 0 || n > pieces.len() {
        Ok(Seq::<Seq<char>>::empty())
    } else {
        match coord_tokens(pieces, n - 1) {
            Err(t) => Err(t),
            Ok(v) => {
                let t = trim_spec(pieces[n - 1]);
                if t.len() == 0 {
                    Ok(v)
                } else if is_float_literal(t) {
                    Ok(v.push(t))
                } else {
                    Err(t)
                }
            },
        }
    }
}

/// The moves of the pairs of `nums[..2k]`.
pub open spec fn h_moves(st: HState, nums: Seq<Seq<char>>, k: int) -> HState
    decreases k,
{
    if k <= 0 || 2 * k > nums.len() {
        st
    } else {
        let s = h_moves(st, nums, k - 1);
        h_move(s, nums[2 * k - 2], nums[2 * k - 1])
    }
}

/// The coordinate list `rest` of the command `cmd`, applied as moves.
pub open spec fn h_coords(st: HState, rest: Seq<char>, cmd: Seq<char>) -> Result<HState, HpglErrorView> {
    if rest.len() == 0 {
        Ok(st)
    } else {
        let pieces = split_spec(rest, ',');
        match coord_tokens(pieces, pieces.len() as int) {
            Err(t) => Err(HpglErrorView::InvalidCoordinate(t)),
            Ok(nums) => if nums.len() % 2 != 0 {
                Err(HpglErrorView::OddCoordinateCount(cmd))
            } else {
                Ok(h_moves(st, nums, (nums.len() / 2) as int))
            },
        }
    }
}

/// The number of ASCII letters at the start of `s`.
pub open spec fn alpha_prefix(s: Seq<char>) -> int
    decreases s.len(),
{
    if s.len() > 0 && crate::gcode_reader::is_ascii_alpha(s[0]) {
        1 + alpha_prefix(s.drop_first())
    } else {
        0
    }
}

pub proof fn lemma_alpha_prefix(s: Seq<char>)
    ensures
        0 <= alpha_prefix(s) <= s.len(),
    decreases s.len(),
{
    if s.len() > 0 && crate::gcode_reader::is_ascii_alpha(s[0]) {
        lemma_alpha_prefix(s.drop_first());
    }
}

/// One command (trimmed).
pub open spec fn h_command(st: HState, cmd: Seq<char>) -> Result<HState, HpglErrorView> {
    if cmd.len() == 0 {
        Ok(st)
    } else {
        let a = alpha_prefix(cmd);
        let n = if a < 2 {
            a
        } else {
            2
        };
        let mnemonic = crate::text::ascii_upper_spec(cmd.take(n));
        let rest = trim_spec(cmd.skip(n));
        if mnemonic == "IN"@ {
            Ok(HState { pen_down: false, mode: CoordMode::Absolute, last: None, ..h_flush(st) })
        } else if mnemonic == "PA"@ {
            h_coords(HState { mode: CoordMode::Absolute, ..st }, rest, cmd)
        } else if mnemonic == "PR"@ {
            h_coords(HState { mode: CoordMode::Relative, ..st }, rest, cmd)
        } else if mnemonic == "PU"@ {
            h_coords(h_flush(HState { pen_down: false, ..st }), rest, cmd)
        } else if mnemonic == "PD"@ {
            h_coords(HState { pen_down: true, ..st }, rest, cmd)
        } else {
            Ok(st)
        }
    }
}

/// The commands `cmds[..n]` (each trimmed), in order; the first error
/// stops the reading.
pub open spec fn h_commands(cmds: Seq<Seq<char>>, n: int) -> Result<HState, HpglErrorView>
    decreases n,
{
    if n <= 0 || n > cmds.len() {
        Ok(h_initial())
    } else {
        match h_commands(cmds, n - 1) {
            Err(e) => Err(e),
            Ok(st) => h_command(st, trim_spec(cmds[n - 1])),
        }
    }
}

/// The view of a read document.
pub struct HpglDocView {
    pub moves: Seq<MoveView>,
    pub polylines: Seq<Seq<nat>>,
}

/// The reading of a whole document: every command, then the stroke in
/// progress is ended.
pub open spec fn hpgl_parse_spec(text: Seq<char>) -> Result<HpglDocView, HpglErrorView> {
    let cmds = split_spec(text, ';');
    match h_commands(cmds, cmds.len() as int) {
        Err(e) => Err(e),
        Ok(st) => {
            let f = h_flush(st);
            Ok(HpglDocView { moves: f.moves, polylines: f.polylines })
        },
    }
}

pub open spec fn moves_view(m: Seq<Move>) -> Seq<MoveView> {
    m.map_values(|v: Move| v@)
}

pub open spec fn index_lists_view(p: Seq<Vec<usize>>) -> Seq<Seq<nat>> {
    p.map_values(|v: Vec<usize>| v@.map_values(|i: usize| i as nat))
}

impl View for HpglDoc {
    type V = HpglDocView;

    open spec fn view(&self) -> HpglDocView {
        HpglDocView { moves: moves_view(self.moves@), polylines: index_lists_view(self.polylines@) }
    }
}

/// The reader over exec state.
struct HReader {
    pen_down: bool,
    mode: CoordMode,
    last: Option<usize>,
    moves: Vec<Move>,
    current: Vec<usize>,
    polylines: Vec<Vec<usize>>,
}

pub open spec fn opt_nat(o: Option<usize>) -> Option<nat> {
    match o {
        Some(i) => Some(i as nat),
        None => None,
    }
}

pub open spec fn idx_view(v: Seq<usize>) -> Seq<nat> {
    v.map_values(|i: usize| i as nat)
}

impl HReader {
    spec fn state(&self) -> HState {
        HState {
            pen_down: self.pen_down,
            mode: self.mode,
            last: opt_nat(self.last),
            moves: moves_view(self.moves@),
            current: idx_view(self.current@),
            polylines: index_lists_view(self.polylines@),
        }
    }

    spec fn wf(&self) -> bool {
        match self.last {
            Some(b) => b < self.moves@.len(),
            None => true,
        }
    }

    fn flush(&mut self)
        ensures
            final(self).state() == h_flush(old(self).state()),
            final(self).moves@ == old(self).moves@,
            final(self).last == old(self).last,
    {
        if self.current.len() >= 2 {
            let ghost before = index_lists_view(self.polylines@);
            let ghost cv = idx_view(self.current@);
            let mut done: Vec<usize> = Vec::new();
            std::mem::swap(&mut done, &mut self.current);
            self.polylines.push(done);
            assert(index_lists_view(self.polylines@) =~= before.push(cv));
        } else {
            self.current = Vec::new();
        }
        assert(idx_view(self.current@) =~= Seq::<nat>::empty());
    }

    fn move_to(&mut self, x: Vec<char>, y: Vec<char>)
        requires
            old(self).wf(),
        ensures
            final(self).wf(),
            final(self).state() == h_move(old(self).state(), x@, y@),
    {
        let ghost st0 = self.state();
        let target = match (self.mode, self.last) {
            (CoordMode::Relative, Some(b)) => Move::Relative { base: b, dx: x, dy: y },
            _ => Move::Absolute { x, y },
        };
        let k = self.moves.len();
        let ghost tv = target@;
        self.moves.push(target);
        assert(moves_view(self.moves@) =~= st0.moves.push(tv));
        if self.pen_down {
            if self.current.len() == 0 {
                match self.last {
                    Some(b) => {
                        self.current.push(b);
                        self.current.push(k);
                        assert(idx_view(self.current@) =~= seq![b as nat, k as nat]);
                    },
                    None => {
                        self.current.push(k);
                        assert(idx_view(self.current@) =~= seq![k as nat]);
                    },
                }
            } else {
                let ghost before = idx_view(self.current@);
                self.current.push(k);
                assert(idx_view(self.current@) =~= before.push(k as nat));
            }
        } else {
            self.flush();
        }
        self.last = Some(k);
    }

    fn coords(&mut self, rest: &[char], cmd: &[char]) -> (r: Result<(), HpglError>)
        requires
            old(self).wf(),
        ensures
            final(self).wf(),
            match h_coords(old(self).state(), rest@, cmd@) {
                Ok(st) => r is Ok && final(self).state() == st,
                Err(e) => r matches Err(e2) && e2@ == e,
            },
    {
        if rest.len() == 0 {
            return Ok(());
        }
        let pieces = split_chars(rest, ',');
        let ghost pv = pieces@.map_values(|p: Vec<char>| p@);
        let ghost st_in = self.state();
        let mut nums: Vec<Vec<char>> = Vec::new();
        assert(nums@.map_values(|p: Vec<char>| p@) =~= Seq::<Seq<char>>::empty());
        let mut i: usize = 0;
        while i < pieces.len()
            invariant
                i <= pieces@.len(),
                pv == pieces@.map_values(|p: Vec<char>| p@),
                pv == split_spec(rest@, ','),
                self.wf(),
                self.state() == st_in,
                st_in == old(self).state(),
                rest@.len() > 0,
                coord_tokens(pv, i as int) == Ok::<Seq<Seq<char>>, Seq<char>>(
                    nums@.map_values(|p: Vec<char>| p@),
                ),
            decreases pieces@.len() - i,
        {
            let t = trim_vec(&pieces[i]);
            if t.len() > 0 {
                if !is_float_lit(&t) {
                    let s = crate::text::string_from_chars(&t);
                    proof {
                        assert(coord_tokens(pv, i + 1) == Err::<Seq<Seq<char>>, Seq<char>>(t@));
                        lemma_tokens_stop(pv, i + 1, pv.len() as int);
                    }
                    return Err(HpglError::InvalidCoordinate(s));
                }
                let ghost before = nums@.map_values(|p: Vec<char>| p@);
                let ghost tv = t@;
                nums.push(t);
                assert(nums@.map_values(|p: Vec<char>| p@) =~= before.push(tv));
            }
            i = i + 1;
        }
        let ghost nv = nums@.map_values(|p: Vec<char>| p@);
        if nums.len() % 2 != 0 {
            let s = crate::text::string_from_chars(cmd);
            return Err(HpglError::OddCoordinateCount(s));
        }
        let ghost st0 = self.state();
        let mut k: usize = 0;
        while k < nums.len() / 2
            invariant
                k <= nums@.len() / 2,
                nums@.len() % 2 == 0,
                nv == nums@.map_values(|p: Vec<char>| p@),
                self.wf(),
                self.state() == h_moves(st0, nv, k as int),
            decreases nums@.len() / 2 - k,
        {
            let x = slice_vec(&nums[2 * k], 0, nums[2 * k].len());
            let y = slice_vec(&nums[2 * k + 1], 0, nums[2 * k + 1].len());
            assert(x@ =~= nv[2 * k as int]);
            assert(y@ =~= nv[2 * k + 1]);
            self.move_to(x, y);
            k = k + 1;
        }
        Ok(())
    }
}


impl HReader {
    fn command(&mut self, cmd: &[char]) -> (r: Result<(), HpglError>)
        requires
            old(self).wf(),
        ensures
            final(self).wf(),
            match h_command(old(self).state(), cmd@) {
                Ok(st) => r is Ok && final(self).state() == st,
                Err(e) => r matches Err(e2) && e2@ == e,
            },
    {
        if cmd.len() == 0 {
            return Ok(());
        }
        proof {
            lemma_alpha_prefix(cmd@);
        }
        let mut a: usize = 0;
        assert(cmd@.skip(0) =~= cmd@);
        while a < cmd.len() && (('a' <= cmd[a] && cmd[a] <= 'z') || ('A' <= cmd[a] && cmd[a] <= 'Z'))
            invariant
                a <= cmd@.len(),
                alpha_prefix(cmd@) == a + alpha_prefix(cmd@.skip(a as int)),
            decreases cmd@.len() - a,
        {
            assert(cmd@.skip(a as int).drop_first() =~= cmd@.skip(a + 1));
            a = a + 1;
        }
        let n = if a < 2 {
            a
        } else {
            2
        };
        let head = slice_vec(cmd, 0, n);
        assert(head@ =~= cmd@.take(n as int));
        let mnemonic = to_ascii_upper_vec(&head);
        let rest0 = slice_vec(cmd, n, cmd.len());
        assert(rest0@ =~= cmd@.skip(n as int));
        let rest = trim_vec(&rest0);
        if crate::text::eq_text(&mnemonic, "IN") {
            self.flush();
            self.pen_down = false;
            self.mode = CoordMode::Absolute;
            self.last = None;
            return Ok(());
        } else if crate::text::eq_text(&mnemonic, "PA") {
            self.mode = CoordMode::Absolute;
            return self.coords(&rest, cmd);
        } else if crate::text::eq_text(&mnemonic, "PR") {
            self.mode = CoordMode::Relative;
            return self.coords(&rest, cmd);
        } else if crate::text::eq_text(&mnemonic, "PU") {
            self.pen_down = false;
            self.flush();
            return self.coords(&rest, cmd);
        } else if crate::text::eq_text(&mnemonic, "PD") {
            self.pen_down = true;
            return self.coords(&rest, cmd);
        }
        Ok(())
    }
}

/// Reads an HPGL document: every command in order, then the stroke in
/// progress is ended. A coordinate that does not read as a number, or an
/// odd number of coordinates in a command, is refused.
pub fn parse(text: &str) -> (r: Result<HpglDoc, HpglError>)
    ensures
        match r {
            Ok(d) => hpgl_parse_spec(text@) == Ok::<HpglDocView, HpglErrorView>(d@),
            Err(e) => hpgl_parse_spec(text@) == Err::<HpglDocView, HpglErrorView>(e@),
        },
{
    let chars = crate::text::chars_of(text);
    let cmds = split_chars(&chars, ';');
    let ghost cv = cmds@.map_values(|c: Vec<char>| c@);
    let mut rd = HReader {
        pen_down: false,
        mode: CoordMode::Absolute,
        last: None,
        moves: Vec::new(),
        current: Vec::new(),
        polylines: Vec::new(),
    };
    assert(moves_view(rd.moves@) =~= Seq::<MoveView>::empty());
    assert(idx_view(rd.current@) =~= Seq::<nat>::empty());
    assert(index_lists_view(rd.polylines@) =~= Seq::<Seq<nat>>::empty());
    let mut i: usize = 0;
    while i < cmds.len()
        invariant
            i <= cmds@.len(),
            cv == cmds@.map_values(|c: Vec<char>| c@),
            cv == split_spec(text@, ';'),
            rd.wf(),
            h_commands(cv, i as int) == Ok::<HState, HpglErrorView>(rd.state()),
        decreases cmds@.len() - i,
    {
        let c = trim_vec(&cmds[i]);
        assert(c@ == trim_spec(cv[i as int]));
        match rd.command(&c) {
            Ok(()) => {},
            Err(e) => {
                proof {
                    assert(h_commands(cv, i + 1) == Err::<HState, HpglErrorView>(e@));
                    lemma_commands_stop(cv, i + 1, cv.len() as int);
                }
                return Err(e);
            },
        }
        i = i + 1;
    }
    rd.flush();
    HpglDoc { moves: rd.moves, polylines: rd.polylines }.into_ok()
}

/// Once a token is refused, so is every longer prefix of the pieces.
pub proof fn lemma_tokens_stop(p: Seq<Seq<char>>, a: int, b: int)
    requires
        0 <= a <= b <= p.len(),
        coord_tokens(p, a) is Err,
    ensures
        coord_tokens(p, b) == coord_tokens(p, a),
    decreases b - a,
{
    if a < b {
        lemma_tokens_stop(p, a, b - 1);
    }
}

/// Once a command is refused, so is every longer prefix of the commands.
pub proof fn lemma_commands_stop(cmds: Seq<Seq<char>>, a: int, b: int)
    requires
        0 <= a <= b <= cmds.len(),
        h_commands(cmds, a) is Err,
    ensures
        h_commands(cmds, b) == h_commands(cmds, a),
    decreases b - a,
{
    if a < b {
        lemma_commands_stop(cmds, a, b - 1);
    }
}

impl HpglDoc {
    fn into_ok(self) -> (r: Result<HpglDoc, HpglError>)
        ensures
            r matches Ok(d) && d@ == self@,
    {
        Ok(self)
    }
}

} // verus!
