//! Parsing of Gerber X2/X3 attribute commands.
//!
//! Attribute commands appear inside an extended (`%...%`) block. This module
//! parses the *content* of such a block, i.e. the text without the surrounding
//! `%` delimiters. The recognized forms are:
//!
//! ```text
//! TF.GenerationSoftware,FlatCAM,1.0   // file attribute
//! TA.AperFunction,Conductor           // aperture attribute
//! TO.N,Net1                           // object attribute
//! TD                                  // delete all attributes
//! TD.AperFunction                     // delete a named attribute
//! ```
use crate::text::{chars_of, slice_vec, split_chars, split_spec, string_from_chars, trim_spec, trim_vec};
use vstd::prelude::*;

verus! {

/// Scope (kind) of an attribute command, determined by the leading two-letter
/// code.
#[derive(Clone, Copy, Debug, PartialEq, Eq, Structural)]
pub enum AttrScope {
    /// `TF` — file attribute.
    File,
    /// `TA` — aperture attribute.
    Aperture,
    /// `TO` — object attribute.
    Object,
    /// `TD` — delete attribute(s).
    Delete,
}

/// A parsed Gerber attribute command.
#[derive(Clone, Debug, PartialEq)]
pub struct Attribute {
    /// The scope, derived from the two-letter code (`TF`/`TA`/`TO`/`TD`).
    pub scope: AttrScope,
    /// The attribute name (the text between the `.` and the first `,`).
    /// Empty for a bare `TD`.
    pub name: String,
    /// The comma-separated values following the name.
    pub values: Vec<String>,
}

/// The abstract content of an attribute: scope, name, values.
pub type AttributeView = (AttrScope, Seq<char>, Seq<Seq<char>>);

impl View for Attribute {
    type V = AttributeView;

    open spec fn view(&self) -> AttributeView {
        (self.scope, self.name@, self.values@.map_values(|v: String| v@))
    }
}

/// The scope named by the second letter of a `T?` code.
pub open spec fn scope_of(c: char) -> Option<AttrScope> {
    if c == 'F' {
        Some(AttrScope::File)
    } else if c == 'A' {
        Some(AttrScope::Aperture)
    } else if c == 'O' {
        Some(AttrScope::Object)
    } else if c == 'D' {
        Some(AttrScope::Delete)
    } else {
        None
    }
}

/// What `parse_attribute` makes of `token`: after trimming, the code must be
/// `TF`, `TA`, `TO` or `TD`; an optional `.name,value,...` section follows.
/// Anything after the code that does not start with `.` is ignored.
pub open spec fn parse_attribute_spec(token: Seq<char>) -> Option<AttributeView> {
    let t = trim_spec(token);
    if t.len() >= 2 && t[0] == 'T' && scope_of(t[1]) is Some {
        let rest = t.skip(2);
        if rest.len() > 0 && rest[0] == '.' {
            let parts = split_spec(rest.drop_first(), ',');
            Some((scope_of(t[1])->0, parts[0], parts.drop_first()))
        } else {
            Some((scope_of(t[1])->0, Seq::<char>::empty(), Seq::<Seq<char>>::empty()))
        }
    } else {
        None
    }
}

fn scope_from(c: char) -> (r: Option<AttrScope>)
    ensures
        r == scope_of(c),
{
    if c == 'F' {
        Some(AttrScope::File)
    } else if c == 'A' {
        Some(AttrScope::Aperture)
    } else if c == 'O' {
        Some(AttrScope::Object)
    } else if c == 'D' {
        Some(AttrScope::Delete)
    } else {
        None
    }
}

/// Parse a single attribute command token (the content of a `%...%` block,
/// without the surrounding `%`).
///
/// Returns `None` if the token does not begin with one of the four recognized
/// two-letter codes.
pub fn parse_attribute(token: &str) -> (r: Option<Attribute>)
    ensures
        match r {
            Some(a) => parse_attribute_spec(token@) == Some(a@),
            None => parse_attribute_spec(token@) is None,
        },
{
    let all = chars_of(token);
    let t = trim_vec(all.as_slice());
    if t.len() < 2 || t[0] != 'T' {
        return None;
    }
    let scope = match scope_from(t[1]) {
        Some(s) => s,
        None => return None,
    };
    let ghost rest = t@.skip(2);
    if t.len() > 2 && t[2] == '.' {
        let body = slice_vec(t.as_slice(), 3, t.len());
        assert(body@ =~= rest.drop_first());
        let parts = split_chars(body.as_slice(), ',');
        let ghost pv = parts@.map_values(|x: Vec<char>| x@);
        proof {
            crate::text::lemma_split_nonempty(body@, ',');
        }
        assert(pv[0] == parts@[0]@);
        let name = string_from_chars(parts[0].as_slice());
        let mut values: Vec<String> = Vec::new();
        let mut i: usize = 1;
        while i < parts.len()
            invariant
                1 <= i <= parts@.len(),
                pv == parts@.map_values(|x: Vec<char>| x@),
                values@.map_values(|v: String| v@) == pv.subrange(1, i as int),
            decreases parts@.len() - i,
        {
            let ghost before = values@;
            values.push(string_from_chars(parts[i].as_slice()));
            assert(pv[i as int] == parts@[i as int]@);
            i = i + 1;
            assert(values@.map_values(|v: String| v@) =~= pv.subrange(1, i as int)) by {
                assert(values@.map_values(|v: String| v@) =~= before.map_values(|v: String| v@).push(
                    pv[i - 1],
                ));
            }
        }
        assert(pv.subrange(1, pv.len() as int) =~= pv.drop_first());
        let a = Attribute { scope, name, values };
        Some(a)
    } else {
        let a = Attribute { scope, name: String::new(), values: Vec::new() };
        assert(a@.2 =~= Seq::<Seq<char>>::empty());
        Some(a)
    }
}

/// The text of an attribute command as it is written: `T`, the code letter,
/// `.`, then the name and each value, separated by commas.
pub open spec fn attribute_text(code: char, name: Seq<char>, values: Seq<Seq<char>>) -> Seq<char> {
    seq!['T', code, '.'] + crate::text::join_spec(seq![name] + values, ',')
}

proof fn lemma_trim_end_not_longer(s: Seq<char>)
    ensures
        crate::text::trim_end_spec(s).len() <= s.len(),
    decreases s.len(),
{
    if s.len() > 0 && crate::text::is_ws(s.last()) {
        lemma_trim_end_not_longer(s.drop_last());
    }
}

/// Whitespace around a written attribute command does not change what is
/// read from it.
proof fn lemma_padding_trimmed(s: Seq<char>, pad_before: Seq<char>, pad_after: Seq<char>)
    requires
        s.len() > 0,
        !crate::text::is_ws(s[0]),
        trim_spec(s) == s,
        forall|k: int| 0 <= k < pad_before.len() ==> crate::text::is_ws(#[trigger] pad_before[k]),
        forall|k: int| 0 <= k < pad_after.len() ==> crate::text::is_ws(#[trigger] pad_after[k]),
    ensures
        trim_spec(pad_before + s + pad_after) == s,
{
    crate::text::lemma_trim_start_at(s, 0);
    assert(s.subrange(0, s.len() as int) =~= s);
    if crate::text::is_ws(s.last()) {
        lemma_trim_end_not_longer(s.drop_last());
        assert(false);
    }
    let u = pad_before + s + pad_after;
    let b = pad_before.len() as int;
    assert forall|k: int| 0 <= k < b implies crate::text::is_ws(#[trigger] u[k]) by {
        assert(u[k] == pad_before[k]);
    }
    assert(u[b] == s[0]);
    crate::text::lemma_trim_start_at(u, b);
    let v = s + pad_after;
    assert(u.subrange(b, u.len() as int) =~= v);
    assert forall|k: int| s.len() <= k < v.len() implies crate::text::is_ws(#[trigger] v[k]) by {
        assert(v[k] == pad_after[k - s.len()]);
    }
    assert(v[s.len() - 1] == s.last());
    crate::text::lemma_trim_end_at(v, s.len() as int);
    assert(v.subrange(0, s.len() as int) =~= s);
}

/// Reading back a written attribute command: for a `TF`, `TA`, `TO` or `TD`
/// code, a name and values without commas, and a text without surrounding
/// whitespace, `parse_attribute` gives back the scope, the name and the
/// values; whitespace written around the command changes nothing.
pub proof fn law_attribute_text_reads_back(
    code: char,
    name: Seq<char>,
    values: Seq<Seq<char>>,
    pad_before: Seq<char>,
    pad_after: Seq<char>,
)
    requires
        scope_of(code) is Some,
        !name.contains(','),
        forall|i: int| 0 <= i < values.len() ==> !(#[trigger] values[i]).contains(','),
        trim_spec(attribute_text(code, name, values)) == attribute_text(code, name, values),
        forall|k: int| 0 <= k < pad_before.len() ==> crate::text::is_ws(#[trigger] pad_before[k]),
        forall|k: int| 0 <= k < pad_after.len() ==> crate::text::is_ws(#[trigger] pad_after[k]),
    ensures
        parse_attribute_spec(attribute_text(code, name, values)) == Some(
            (scope_of(code)->0, name, values),
        ),
        parse_attribute_spec(pad_before + attribute_text(code, name, values) + pad_after)
            == parse_attribute_spec(attribute_text(code, name, values)),
{
    let s = attribute_text(code, name, values);
    let pieces = seq![name] + values;
    let body = crate::text::join_spec(pieces, ',');
    assert(s[0] == 'T');
    assert(!crate::text::is_ws(s[0]));
    lemma_padding_trimmed(s, pad_before, pad_after);
    assert forall|i: int| 0 <= i < pieces.len() implies !(#[trigger] pieces[i]).contains(',') by {
        if i > 0 {
            assert(pieces[i] == values[i - 1]);
        }
    }
    crate::text::lemma_split_join(pieces, ',');
    let t = trim_spec(s);
    assert(t[1] == code);
    assert(t.skip(2)[0] == '.');
    assert(t.skip(2).drop_first() =~= body);
    assert(pieces.drop_first() =~= values);
}

} // verus!
