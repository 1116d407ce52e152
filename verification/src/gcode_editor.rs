//! Line-based G-code / plain-text editor model.
//!
//! The document is held as one `String` per line (no line terminators) and
//! offers editing, searching and G-code specific operations: renumbering of
//! blocks with `N` words and removal of comment lines.
use crate::text::{
    chars_of, contains_chars, contains_spec, decimal_spec, is_ascii_digit, is_ws, join_spec,
    lemma_decimal_digits, lemma_join_split, lemma_split_join, lemma_split_nonempty, push_decimal,
    slice_vec, split_chars, split_spec, string_from_chars, trim_start_index, trim_start_spec,
};
use vstd::prelude::*;

verus! {

/// A simple line-based text buffer for G-code / plain text editing.
#[derive(Clone, Debug)]
pub struct GCodeEditor {
    /// The document, stored one line per element (no trailing newlines).
    pub lines: Vec<String>,
}

impl View for GCodeEditor {
    type V = Seq<Seq<char>>;

    open spec fn view(&self) -> Seq<Seq<char>> {
        lines_view(self.lines@)
    }
}

/// The character sequences of a list of strings.
pub open spec fn lines_view(v: Seq<String>) -> Seq<Seq<char>> {
    v.map_values(|l: String| l@)
}

// ---------------------------------------------------------------------------
// Specification
// ---------------------------------------------------------------------------

/// `l` without one trailing carriage return, if it has one.
pub open spec fn strip_cr(l: Seq<char>) -> Seq<char> {
    if l.len() > 0 && l.last() == '\r' {
        l.drop_last()
    } else {
        l
    }
}

/// The lines of `s`: split on `'\n'`, each with one trailing `'\r'` removed.
pub open spec fn from_text_spec(s: Seq<char>) -> Seq<Seq<char>> {
    split_spec(s, '\n').map_values(|l: Seq<char>| strip_cr(l))
}

/// The text of a document: its lines joined with `'\n'`.
pub open spec fn to_text_spec(lines: Seq<Seq<char>>) -> Seq<char> {
    join_spec(lines, '\n')
}

/// A comment line: its first non-blank character is `'('` or `';'`.
pub open spec fn is_comment(l: Seq<char>) -> bool {
    let t = trim_start_spec(l);
    t.len() > 0 && (t[0] == '(' || t[0] == ';')
}

/// A line that renumbering leaves untouched: blank or a comment.
pub open spec fn is_skipped(l: Seq<char>) -> bool {
    trim_start_spec(l).len() == 0 || is_comment(l)
}

/// Number of leading ASCII digits of `s`.
pub open spec fn digit_run(s: Seq<char>) -> nat
    decreases s.len(),
{
    if s.len() > 0 && is_ascii_digit(s[0]) {
        1 + digit_run(s.drop_first())
    } else {
        0
    }
}

/// `l` without a leading line number `N<digits>` (or `n<digits>`) and the
/// single space after it, if present; `l` itself otherwise.
pub open spec fn strip_line_number_spec(l: Seq<char>) -> Seq<char> {
    if l.len() > 0 && (l[0] == 'N' || l[0] == 'n') && digit_run(l.drop_first()) > 0 {
        let rest = l.skip(1 + digit_run(l.drop_first()) as int);
        if rest.len() > 0 && rest[0] == ' ' {
            rest.drop_first()
        } else {
            rest
        }
    } else {
        l
    }
}

/// The number given to the `k`-th renumbered line: `start + k * step`,
/// saturating at `u32::MAX`.
pub open spec fn line_number(start: u32, step: u32, k: nat) -> nat {
    if start + k * step > u32::MAX {
        u32::MAX as nat
    } else {
        (start + k * step) as nat
    }
}

/// How many of `lines` are renumbered (neither blank nor comments).
pub open spec fn numbered_count(lines: Seq<Seq<char>>) -> nat
    decreases lines.len(),
{
    if lines.len() == 0 {
        0
    } else {
        numbered_count(lines.drop_last()) + if is_skipped(lines.last()) {
            0nat
        } else {
            1nat
        }
    }
}

/// The text of a renumbered line: `N<num> ` followed by `l` without its old
/// line number.
pub open spec fn numbered_line(num: nat, l: Seq<char>) -> Seq<char> {
    seq!['N'] + decimal_spec(num) + seq![' '] + strip_line_number_spec(l)
}

/// `lines` after `renumber(start, step)`.
pub open spec fn renumber_spec(lines: Seq<Seq<char>>, start: u32, step: u32) -> Seq<Seq<char>> {
    Seq::new(
        lines.len(),
        |i: int|
            if is_skipped(lines[i]) {
                lines[i]
            } else {
                numbered_line(line_number(start, step, numbered_count(lines.take(i))), lines[i])
            },
    )
}

/// `lines` without their comment lines, order kept.
pub open spec fn strip_comments_spec(lines: Seq<Seq<char>>) -> Seq<Seq<char>>
    decreases lines.len(),
{
    if lines.len() == 0 {
        Seq::empty()
    } else if is_comment(lines.last()) {
        strip_comments_spec(lines.drop_last())
    } else {
        strip_comments_spec(lines.drop_last()).push(lines.last())
    }
}

/// The indices, ascending, of the first `n` lines that contain `needle`.
pub open spec fn find_spec(lines: Seq<Seq<char>>, needle: Seq<char>, n: int) -> Seq<usize>
    decreases n,
{
    if n <= 0 {
        Seq::empty()
    } else if contains_spec(lines[n - 1], needle) {
        find_spec(lines, needle, n - 1).push((n - 1) as usize)
    } else {
        find_spec(lines, needle, n - 1)
    }
}

// ---------------------------------------------------------------------------
// Implementation
// ---------------------------------------------------------------------------

/// `s` as an owned `String`.
fn owned(s: &str) -> (r: String)
    ensures
        r@ == s@,
{
    s.to_owned()
}

/// Strip a leading `N<digits>` token (and the single following space, if any)
/// from `line`, returning the remainder.
pub fn strip_line_number(line: &str) -> (r: String)
    ensures
        r@ == strip_line_number_spec(line@),
{
    let v = chars_of(line);
    let out = strip_line_number_chars(&v);
    string_from_chars(&out)
}

proof fn lemma_digit_run_at(s: Seq<char>, i: int)
    requires
        0 <= i <= s.len(),
        forall|k: int| 0 <= k < i ==> is_ascii_digit(#[trigger] s[k]),
        i == s.len() || !is_ascii_digit(s[i]),
    ensures
        digit_run(s) == i,
    decreases i,
{
    if i > 0 {
        let t = s.drop_first();
        assert forall|k: int| 0 <= k < i - 1 implies is_ascii_digit(#[trigger] t[k]) by {
            assert(t[k] == s[k + 1]);
        }
        if i < s.len() {
            assert(t[i - 1] == s[i]);
        }
        lemma_digit_run_at(t, i - 1);
    }
}

fn strip_line_number_chars(v: &Vec<char>) -> (r: Vec<char>)
    ensures
        r@ == strip_line_number_spec(v@),
{
    if v.len() == 0 || (v[0] != 'N' && v[0] != 'n') {
        return slice_vec(v.as_slice(), 0, v.len());
    }
    let mut i: usize = 1;
    while i < v.len() && '0' <= v[i] && v[i] <= '9'
        invariant
            1 <= i <= v@.len(),
            forall|k: int| 1 <= k < i ==> is_ascii_digit(#[trigger] v@[k]),
        decreases v@.len() - i,
    {
        i = i + 1;
    }
    proof {
        let t = v@.drop_first();
        assert forall|k: int| 0 <= k < i - 1 implies is_ascii_digit(#[trigger] t[k]) by {
            assert(t[k] == v@[k + 1]);
        }
        if i < v@.len() {
            assert(t[i - 1] == v@[i as int]);
        }
        lemma_digit_run_at(t, i - 1);
    }
    if i == 1 {
        return slice_vec(v.as_slice(), 0, v.len());
    }
    if i < v.len() && v[i] == ' ' {
        assert(v@.skip(i as int).drop_first() =~= v@.subrange(i + 1, v@.len() as int));
        slice_vec(v.as_slice(), i + 1, v.len())
    } else {
        assert(v@.skip(i as int) =~= v@.subrange(i as int, v@.len() as int));
        slice_vec(v.as_slice(), i, v.len())
    }
}

proof fn lemma_trim_start_skip(l: Seq<char>)
    ensures
        exists|i: int|
            0 <= i <= l.len() && trim_start_spec(l) == l.subrange(i, l.len() as int) && (forall|
                k: int,
            | 0 <= k < i ==> is_ws(#[trigger] l[k])),
    decreases l.len(),
{
    if l.len() > 0 && is_ws(l[0]) {
        lemma_trim_start_skip(l.drop_first());
        let i = choose|i: int|
            0 <= i <= l.drop_first().len() && trim_start_spec(l.drop_first())
                == l.drop_first().subrange(i, l.drop_first().len() as int) && (forall|k: int|
                0 <= k < i ==> is_ws(#[trigger] l.drop_first()[k]));
        assert(l.drop_first().subrange(i, l.drop_first().len() as int) =~= l.subrange(
            i + 1,
            l.len() as int,
        ));
        assert forall|k: int| 0 <= k < i + 1 implies is_ws(#[trigger] l[k]) by {
            if k > 0 {
                assert(l[k] == l.drop_first()[k - 1]);
            }
        }
    } else {
        assert(l.subrange(0, l.len() as int) =~= l);
    }
}

/// Is `l` a comment line? (`spec`: [`is_comment`])
fn line_is_comment(l: &Vec<char>) -> (b: bool)
    ensures
        b == is_comment(l@),
        trim_start_spec(l@).len() == 0 ==> !b,
{
    let i = trim_start_index(l.as_slice());
    if i == l.len() {
        return false;
    }
    proof {
        assert(trim_start_spec(l@)[0] == l@[i as int]);
    }
    l[i] == '(' || l[i] == ';'
}

/// Is `l` blank or a comment? (`spec`: [`is_skipped`])
fn line_is_skipped(l: &Vec<char>) -> (b: bool)
    ensures
        b == is_skipped(l@),
{
    let i = trim_start_index(l.as_slice());
    if i == l.len() {
        return true;
    }
    proof {
        assert(trim_start_spec(l@)[0] == l@[i as int]);
    }
    l[i] == '(' || l[i] == ';'
}

proof fn lemma_join_step(lines: Seq<Seq<char>>, i: int)
    requires
        1 <= i < lines.len(),
    ensures
        join_spec(lines.take(i + 1), '\n') == join_spec(lines.take(i), '\n').push('\n')
            + lines[i],
{
    assert(lines.take(i + 1).drop_last() =~= lines.take(i));
}

proof fn lemma_numbered_count_step(lines: Seq<Seq<char>>, i: int)
    requires
        0 <= i < lines.len(),
    ensures
        numbered_count(lines.take(i + 1)) == numbered_count(lines.take(i)) + if is_skipped(
            lines[i],
        ) {
            0nat
        } else {
            1nat
        },
{
    assert(lines.take(i + 1).drop_last() =~= lines.take(i));
}

impl Default for GCodeEditor {
    fn default() -> (r: Self)
        ensures
            r@ == Seq::<Seq<char>>::empty(),
    {
        let r = GCodeEditor { lines: Vec::new() };
        assert(r@ =~= Seq::<Seq<char>>::empty());
        r
    }
}

impl GCodeEditor {
    /// Build an editor from a text blob, splitting on `'\n'`.
    ///
    /// A trailing `'\r'` (from CRLF line endings) is trimmed from each line so
    /// the model is independent of the source platform's line endings.
    pub fn from_text(s: &str) -> (r: Self)
        ensures
            r@ == from_text_spec(s@),
    {
        let chars = chars_of(s);
        let parts = split_chars(chars.as_slice(), '\n');
        let ghost pv = parts@.map_values(|x: Vec<char>| x@);
        let mut lines: Vec<String> = Vec::new();
        let mut i: usize = 0;
        while i < parts.len()
            invariant
                i <= parts@.len(),
                pv == parts@.map_values(|x: Vec<char>| x@),
                pv == split_spec(s@, '\n'),
                lines_view(lines@) == pv.take(i as int).map_values(|l: Seq<char>| strip_cr(l)),
            decreases parts@.len() - i,
        {
            let p = &parts[i];
            assert(p@ == pv[i as int]);
            let n = p.len();
            let line = if n > 0 && p[n - 1] == '\r' {
                assert(p@.subrange(0, n - 1) =~= p@.drop_last());
                let r = string_from_chars(slice_vec(p.as_slice(), 0, n - 1).as_slice());
                assert(r@ == strip_cr(pv[i as int]));
                r
            } else {
                let r = string_from_chars(p.as_slice());
                assert(r@ == strip_cr(pv[i as int]));
                r
            };
            let ghost before = lines@;
            lines.push(line);
            i = i + 1;
            assert(lines_view(lines@) =~= pv.take(i as int).map_values(
                |l: Seq<char>| strip_cr(l),
            )) by {
                assert(lines@ == before.push(line));
                assert(lines_view(lines@) =~= lines_view(before).push(line@));
                assert(pv.take(i as int).map_values(|l: Seq<char>| strip_cr(l)) =~= pv.take(
                    i - 1,
                ).map_values(|l: Seq<char>| strip_cr(l)).push(strip_cr(pv[i - 1])));
            }
        }
        assert(pv.take(parts@.len() as int) =~= pv);
        GCodeEditor { lines }
    }

    /// Serialize the document back to a single string, joining with `'\n'`.
    pub fn to_text(&self) -> (r: String)
        ensures
            r@ == to_text_spec(self@),
    {
        let ghost lv = self@;
        let mut out: Vec<char> = Vec::new();
        let mut i: usize = 0;
        while i < self.lines.len()
            invariant
                i <= self.lines@.len(),
                lv == self@,
                out@ == join_spec(lv.take(i as int), '\n'),
            decreases self.lines@.len() - i,
        {
            let l = chars_of(self.lines[i].as_str());
            assert(l@ == lv[i as int]);
            if i == 0 {
                assert(lv.take(1) =~= seq![lv[0]]);
            } else {
                out.push('\n');
                proof {
                    lemma_join_step(lv, i as int);
                }
            }
            let ghost before = out@;
            let mut k: usize = 0;
            while k < l.len()
                invariant
                    k <= l@.len(),
                    out@ == before + l@.take(k as int),
                decreases l@.len() - k,
            {
                out.push(l[k]);
                k = k + 1;
                assert(out@ =~= before + l@.take(k as int));
            }
            assert(l@.take(l@.len() as int) =~= l@);
            i = i + 1;
            assert(out@ =~= join_spec(lv.take(i as int), '\n')) by {
                if i == 1 {
                    assert(before =~= Seq::<char>::empty());
                }
            }
        }
        assert(lv.take(lv.len() as int) =~= lv);
        string_from_chars(out.as_slice())
    }

    /// Insert `s` as a new line at `idx`.
    ///
    /// `idx` is clamped to `lines.len()`, so an out-of-range index simply
    /// appends to the end.
    pub fn insert_line(&mut self, idx: usize, s: &str)
        ensures
            final(self)@ == old(self)@.insert(
                if idx <= old(self)@.len() {
                    idx as int
                } else {
                    old(self)@.len() as int
                },
                s@,
            ),
    {
        let at = if idx < self.lines.len() {
            idx
        } else {
            self.lines.len()
        };
        let line = owned(s);
        let ghost before = self.lines@;
        self.lines.insert(at, line);
        assert(self@ =~= lines_view(before).insert(at as int, s@));
    }

    /// Delete the line at `idx`. Returns `true` if a line was removed.
    pub fn delete_line(&mut self, idx: usize) -> (removed: bool)
        ensures
            removed == (idx < old(self)@.len()),
            removed ==> final(self)@ == old(self)@.remove(idx as int),
            !removed ==> final(self)@ == old(self)@,
    {
        if idx < self.lines.len() {
            let ghost before = self.lines@;
            self.lines.remove(idx);
            assert(self@ =~= lines_view(before).remove(idx as int));
            true
        } else {
            false
        }
    }

    /// Replace the line at `idx` with `s`. Returns `true` if the index existed.
    pub fn replace_line(&mut self, idx: usize, s: &str) -> (replaced: bool)
        ensures
            replaced == (idx < old(self)@.len()),
            replaced ==> final(self)@ == old(self)@.update(idx as int, s@),
            !replaced ==> final(self)@ == old(self)@,
    {
        if idx < self.lines.len() {
            let ghost before = self.lines@;
            self.lines[idx] = owned(s);
            assert(self@ =~= lines_view(before).update(idx as int, s@));
            true
        } else {
            false
        }
    }

    /// Return the indices of all lines that contain `needle` as a substring.
    pub fn find(&self, needle: &str) -> (r: Vec<usize>)
        ensures
            r@ == find_spec(self@, needle@, self@.len() as int),
    {
        let nv = chars_of(needle);
        let mut out: Vec<usize> = Vec::new();
        let mut i: usize = 0;
        while i < self.lines.len()
            invariant
                i <= self.lines@.len(),
                nv@ == needle@,
                out@ == find_spec(self@, needle@, i as int),
            decreases self.lines@.len() - i,
        {
            let l = chars_of(self.lines[i].as_str());
            assert(l@ == self@[i as int]);
            if contains_chars(l.as_slice(), nv.as_slice()) {
                out.push(i);
            }
            i = i + 1;
        }
        out
    }

    /// Renumber lines, prefixing each non-empty, non-comment line with
    /// `N{num} `.
    ///
    /// Numbering begins at `start` and increases by `step` for each renumbered
    /// line (saturating at `u32::MAX`). Any existing leading `N<digits> ` token
    /// is stripped first so the operation is idempotent. Empty lines and
    /// comment lines (whose trimmed form starts with `'('` or `';'`) are
    /// skipped and left untouched.
    pub fn renumber(&mut self, start: u32, step: u32)
        ensures
            final(self)@ == renumber_spec(old(self)@, start, step),
    {
        let ghost orig = self@;
        let mut num: u32 = start;
        let ghost mut count: nat = 0;
        let mut i: usize = 0;
        while i < self.lines.len()
            invariant
                i <= self.lines@.len(),
                self.lines@.len() == orig.len(),
                count == numbered_count(orig.take(i as int)),
                num as nat == line_number(start, step, count),
                forall|j: int| i <= j < orig.len() ==> #[trigger] self@[j] == orig[j],
                forall|j: int|
                    0 <= j < i ==> #[trigger] self@[j] == renumber_spec(orig, start, step)[j],
            decreases self.lines@.len() - i,
        {
            assert(self@[i as int] == self.lines@[i as int]@);
            let l = chars_of(self.lines[i].as_str());
            assert(l@ == orig[i as int]);
            proof {
                lemma_numbered_count_step(orig, i as int);
            }
            if !line_is_skipped(&l) {
                let stripped = strip_line_number_chars(&l);
                let mut nl: Vec<char> = Vec::new();
                nl.push('N');
                push_decimal(&mut nl, num as u64);
                nl.push(' ');
                let mut k: usize = 0;
                let ghost prefix = nl@;
                while k < stripped.len()
                    invariant
                        k <= stripped@.len(),
                        nl@ == prefix + stripped@.take(k as int),
                    decreases stripped@.len() - k,
                {
                    nl.push(stripped[k]);
                    k = k + 1;
                    assert(nl@ =~= prefix + stripped@.take(k as int));
                }
                assert(stripped@.take(stripped@.len() as int) =~= stripped@);
                assert(nl@ =~= numbered_line(num as nat, orig[i as int]));
                let ghost before = self@;
                let ghost before_lines = self.lines@;
                self.lines[i] = string_from_chars(nl.as_slice());
                proof {
                    assert(self.lines@ == before_lines.update(i as int, self.lines@[i as int]));
                    assert(self@ =~= before.update(i as int, nl@));
                    count = count + 1;
                    assert(start + count * step == start + (count - 1) * step + step) by (nonlinear_arith);
                }
                num = num.saturating_add(step);
            }
            i = i + 1;
        }
        assert(self@ =~= renumber_spec(orig, start, step));
    }

    /// Remove comment lines: any line whose trimmed form starts with `'('` or
    /// `';'` is dropped entirely.
    pub fn strip_comments(&mut self)
        ensures
            final(self)@ == strip_comments_spec(old(self)@),
    {
        let ghost orig = self@;
        let mut kept: Vec<String> = Vec::new();
        let mut i: usize = 0;
        while i < self.lines.len()
            invariant
                i <= self.lines@.len(),
                self@ == orig,
                lines_view(kept@) == strip_comments_spec(orig.take(i as int)),
            decreases self.lines@.len() - i,
        {
            let l = chars_of(self.lines[i].as_str());
            assert(l@ == orig[i as int]);
            assert(orig.take(i + 1).drop_last() =~= orig.take(i as int));
            assert(orig.take(i + 1).last() == orig[i as int]);
            if !line_is_comment(&l) {
                let ghost before = kept@;
                kept.push(self.lines[i].clone());
                assert(lines_view(kept@) =~= lines_view(before).push(orig[i as int]));
            }
            i = i + 1;
        }
        assert(orig.take(orig.len() as int) =~= orig);
        self.lines = kept;
    }
}


// ---------------------------------------------------------------------------
// Laws
// ---------------------------------------------------------------------------

/// `s` has no carriage return that ends a line: every `'\r'` is followed by a
/// character other than `'\n'`.
pub open spec fn no_line_final_cr(s: Seq<char>) -> bool {
    forall|i: int|
        0 <= i < s.len() && #[trigger] s[i] == '\r' ==> i + 1 < s.len() && s[i + 1] != '\n'
}

/// `l` ends with a carriage return.
pub open spec fn ends_cr(l: Seq<char>) -> bool {
    l.len() > 0 && l.last() == '\r'
}

proof fn lemma_split_cr(s: Seq<char>)
    requires
        forall|i: int|
            0 <= i < s.len() - 1 && #[trigger] s[i] == '\r' ==> s[i + 1] != '\n',
    ensures
        forall|k: int|
            0 <= k < split_spec(s, '\n').len() - 1 ==> !ends_cr(#[trigger] split_spec(s, '\n')[k]),
        ends_cr(split_spec(s, '\n').last()) <==> (s.len() > 0 && s.last() == '\r'),
    decreases s.len(),
{
    lemma_split_nonempty(s, '\n');
    if s.len() > 0 {
        let s0 = s.drop_last();
        assert forall|i: int| 0 <= i < s0.len() - 1 && #[trigger] s0[i] == '\r' implies s0[i + 1]
            != '\n' by {
            assert(s[i] == s0[i] && s[i + 1] == s0[i + 1]);
        }
        lemma_split_cr(s0);
        lemma_split_nonempty(s0, '\n');
        let p = split_spec(s0, '\n');
        let r = split_spec(s, '\n');
        if s.last() == '\n' {
            if s0.len() > 0 && s0.last() == '\r' {
                assert(s[s0.len() - 1] == '\r');
                assert(s[s0.len() as int] == '\n');
            }
            assert forall|k: int| 0 <= k < r.len() - 1 implies !ends_cr(#[trigger] r[k]) by {
                assert(r[k] == p[k]);
            }
        } else {
            assert forall|k: int| 0 <= k < r.len() - 1 implies !ends_cr(#[trigger] r[k]) by {
                assert(r[k] == p[k]);
            }
            assert(r.last() == p.last().push(s.last()));
        }
    }
}

/// Reading text and writing it back gives the same text, whenever no line of
/// it ends in a carriage return.
pub proof fn law_text_round_trip(s: Seq<char>)
    requires
        no_line_final_cr(s),
    ensures
        to_text_spec(from_text_spec(s)) == s,
{
    lemma_split_cr(s);
    lemma_split_nonempty(s, '\n');
    let p = split_spec(s, '\n');
    if s.len() > 0 && s.last() == '\r' {
        assert(s[s.len() - 1] == '\r');
    }
    assert forall|k: int| 0 <= k < p.len() implies !ends_cr(#[trigger] p[k]) by {
        if k == p.len() - 1 {
            assert(p[k] == p.last());
        }
    }
    assert(from_text_spec(s) =~= p);
    lemma_join_split(s, '\n');
}

/// Writing a document and reading it back gives the same lines, whenever it
/// has at least one line and no line holds a line feed or ends in a carriage
/// return.
pub proof fn law_lines_round_trip(lines: Seq<Seq<char>>)
    requires
        lines.len() >= 1,
        forall|i: int| 0 <= i < lines.len() ==> !(#[trigger] lines[i]).contains('\n'),
        forall|i: int| 0 <= i < lines.len() ==> !ends_cr(#[trigger] lines[i]),
    ensures
        from_text_spec(to_text_spec(lines)) == lines,
{
    lemma_split_join(lines, '\n');
    assert(from_text_spec(to_text_spec(lines)) =~= lines);
}

/// A line that has been renumbered is numbered again, with the same old line
/// number removed.
proof fn lemma_numbered_line(num: nat, l: Seq<char>)
    ensures
        !is_skipped(numbered_line(num, l)),
        strip_line_number_spec(numbered_line(num, l)) == strip_line_number_spec(l),
{
    let d = decimal_spec(num);
    let s = strip_line_number_spec(l);
    let nl = numbered_line(num, l);
    lemma_decimal_digits(num);
    assert(nl[0] == 'N');
    assert(!is_ws('N'));
    assert(trim_start_spec(nl) == nl);
    let rest = nl.drop_first();
    assert(rest =~= d + seq![' '] + s);
    assert forall|k: int| 0 <= k < d.len() implies is_ascii_digit(#[trigger] rest[k]) by {
        assert(rest[k] == d[k]);
    }
    assert(rest[d.len() as int] == ' ');
    lemma_digit_run_at(rest, d.len() as int);
    assert(nl.skip(1 + d.len() as int) =~= seq![' '] + s);
    assert((seq![' '] + s).drop_first() =~= s);
}

proof fn lemma_numbered_count_renumber(lines: Seq<Seq<char>>, start: u32, step: u32, i: int)
    requires
        0 <= i <= lines.len(),
        forall|j: int|
            0 <= j < lines.len() ==> is_skipped(#[trigger] renumber_spec(lines, start, step)[j])
                == is_skipped(lines[j]),
    ensures
        numbered_count(renumber_spec(lines, start, step).take(i)) == numbered_count(lines.take(i)),
    decreases i,
{
    if i > 0 {
        let r = renumber_spec(lines, start, step);
        lemma_numbered_count_renumber(lines, start, step, i - 1);
        lemma_numbered_count_step(r, i - 1);
        lemma_numbered_count_step(lines, i - 1);
    }
}

/// Renumbering twice with the same start and step is renumbering once.
pub proof fn law_renumber_idempotent(lines: Seq<Seq<char>>, start: u32, step: u32)
    ensures
        renumber_spec(renumber_spec(lines, start, step), start, step) == renumber_spec(
            lines,
            start,
            step,
        ),
{
    let r = renumber_spec(lines, start, step);
    assert forall|j: int| 0 <= j < lines.len() implies is_skipped(#[trigger] r[j]) == is_skipped(
        lines[j],
    ) by {
        if !is_skipped(lines[j]) {
            lemma_numbered_line(line_number(start, step, numbered_count(lines.take(j))), lines[j]);
        }
    }
    assert forall|j: int| 0 <= j < lines.len() implies #[trigger] renumber_spec(r, start, step)[j]
        == r[j] by {
        lemma_numbered_count_renumber(lines, start, step, j);
        if !is_skipped(lines[j]) {
            lemma_numbered_line(line_number(start, step, numbered_count(lines.take(j))), lines[j]);
        }
    }
    assert(renumber_spec(r, start, step) =~= r);
}

proof fn lemma_strip_comments_props(lines: Seq<Seq<char>>)
    ensures
        forall|i: int|
            0 <= i < strip_comments_spec(lines).len() ==> !is_comment(
                #[trigger] strip_comments_spec(lines)[i],
            ),
        strip_comments_spec(lines).len() <= lines.len(),
    decreases lines.len(),
{
    if lines.len() > 0 {
        lemma_strip_comments_props(lines.drop_last());
        let p = strip_comments_spec(lines.drop_last());
        if !is_comment(lines.last()) {
            assert forall|i: int| 0 <= i < p.len() + 1 implies !is_comment(
                #[trigger] p.push(lines.last())[i],
            ) by {
                if i < p.len() {
                    assert(p.push(lines.last())[i] == p[i]);
                }
            }
        }
    }
}

proof fn lemma_strip_comments_free(lines: Seq<Seq<char>>)
    requires
        forall|i: int| 0 <= i < lines.len() ==> !is_comment(#[trigger] lines[i]),
    ensures
        strip_comments_spec(lines) == lines,
    decreases lines.len(),
{
    if lines.len() > 0 {
        let q = lines.drop_last();
        assert forall|i: int| 0 <= i < q.len() implies !is_comment(#[trigger] q[i]) by {
            assert(q[i] == lines[i]);
        }
        lemma_strip_comments_free(q);
        assert(!is_comment(lines[lines.len() - 1]));
        assert(q.push(lines.last()) =~= lines);
    } else {
        assert(lines =~= Seq::<Seq<char>>::empty());
    }
}

/// After stripping comments no comment line is left, and stripping again
/// changes nothing.
pub proof fn law_strip_comments(lines: Seq<Seq<char>>)
    ensures
        forall|i: int|
            0 <= i < strip_comments_spec(lines).len() ==> !is_comment(
                #[trigger] strip_comments_spec(lines)[i],
            ),
        strip_comments_spec(strip_comments_spec(lines)) == strip_comments_spec(lines),
{
    lemma_strip_comments_props(lines);
    lemma_strip_comments_free(strip_comments_spec(lines));
}

/// Inserting a line and then deleting the line at the same (in-range) index
/// gives back the document as it was.
pub proof fn law_insert_then_delete(lines: Seq<Seq<char>>, idx: int, s: Seq<char>)
    requires
        0 <= idx <= lines.len(),
    ensures
        lines.insert(idx, s).remove(idx) == lines,
{
    assert(lines.insert(idx, s).remove(idx) =~= lines);
}

/// `find` reports exactly the lines that contain the needle, in ascending
/// order and each once.
pub proof fn law_find_exact(lines: Seq<Seq<char>>, needle: Seq<char>, n: int)
    requires
        0 <= n <= lines.len(),
        lines.len() <= usize::MAX,
    ensures
        forall|i: int|
            0 <= i < n ==> (find_spec(lines, needle, n).contains(i as usize) <==> contains_spec(
                lines[i],
                needle,
            )),
        forall|a: int, b: int|
            0 <= a < b < find_spec(lines, needle, n).len() ==> find_spec(lines, needle, n)[a]
                < find_spec(lines, needle, n)[b],
        forall|a: int|
            0 <= a < find_spec(lines, needle, n).len() ==> find_spec(lines, needle, n)[a] < n,
    decreases n,
{
    if n > 0 {
        law_find_exact(lines, needle, n - 1);
        let p = find_spec(lines, needle, n - 1);
        let r = find_spec(lines, needle, n);
        if contains_spec(lines[n - 1], needle) {
            assert(r == p.push((n - 1) as usize));
            assert forall|i: int| 0 <= i < n implies (r.contains(i as usize) <==> contains_spec(
                lines[i],
                needle,
            )) by {
                if i < n - 1 {
                    if r.contains(i as usize) {
                        let k = choose|k: int| 0 <= k < r.len() && r[k] == i as usize;
                        if k < p.len() {
                            assert(p[k] == r[k]);
                        }
                    }
                    if p.contains(i as usize) {
                        let k = choose|k: int| 0 <= k < p.len() && p[k] == i as usize;
                        assert(r[k] == p[k]);
                    }
                } else {
                    assert(r[r.len() - 1] == (n - 1) as usize);
                }
            }
            assert forall|a: int, b: int| 0 <= a < b < r.len() implies r[a] < r[b] by {
                if b < p.len() {
                    assert(r[a] == p[a] && r[b] == p[b]);
                } else {
                    assert(r[a] == p[a]);
                }
            }
            assert forall|a: int| 0 <= a < r.len() implies r[a] < n by {
                if a < p.len() {
                    assert(r[a] == p[a]);
                }
            }
        } else {
            assert forall|i: int| 0 <= i < n implies (r.contains(i as usize) <==> contains_spec(
                lines[i],
                needle,
            )) by {
                if i == n - 1 && r.contains(i as usize) {
                    let k = choose|k: int| 0 <= k < r.len() && r[k] == i as usize;
                    assert(r[k] < n - 1);
                }
            }
        }
    }
}

} // verus!
