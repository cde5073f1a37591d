//! The identifier transform: `PascalCase` names to `snake_case` module names.
use vstd::prelude::*;
use crate::model::{chars_of, string_of};

verus! {

/// The character classes that the transform reads of one character.
pub struct CharInfo {
    pub ch: char,
    /// The character has the Unicode `Uppercase` property.
    pub upper: bool,
    /// The character has the Unicode `Lowercase` property.
    pub lower: bool,
    /// The first character of the character's lowercase mapping.
    pub lowered: char,
}

/// Whether `c` has the Unicode `Uppercase` property.
pub uninterp spec fn unicode_upper(c: char) -> bool;

/// Whether `c` has the Unicode `Lowercase` property.
pub uninterp spec fn unicode_lower(c: char) -> bool;

/// The first character of the lowercase mapping of `c`.
pub uninterp spec fn unicode_lower_first(c: char) -> char;

/// Relies on `char::is_uppercase`: a property of the character alone.
#[verifier::external_body]
fn char_is_upper(c: char) -> (r: bool)
    ensures
        r == unicode_upper(c),
{
    c.is_uppercase()
}

/// Relies on `char::is_lowercase`: a property of the character alone.
#[verifier::external_body]
fn char_is_lower(c: char) -> (r: bool)
    ensures
        r == unicode_lower(c),
{
    c.is_lowercase()
}

/// Relies on `char::to_lowercase`, which yields at least one character; the
/// first of them depends on the character alone.
#[verifier::external_body]
fn char_lower_first(c: char) -> (r: char)
    ensures
        r == unicode_lower_first(c),
{
    c.to_lowercase().next().unwrap_or(c)
}

/// The classes of `c` as the Unicode tables give them.
pub open spec fn info_of(c: char) -> CharInfo {
    CharInfo {
        ch: c,
        upper: unicode_upper(c),
        lower: unicode_lower(c),
        lowered: unicode_lower_first(c),
    }
}

/// The classes of every character of `s`.
pub open spec fn infos_of(s: Seq<char>) -> Seq<CharInfo> {
    s.map_values(|c: char| info_of(c))
}

/// An underscore goes before the uppercase character at `i` when it is not the
/// first character and either the character before it is lowercase or the one
/// after it is (the end of an acronym).
pub open spec fn boundary_before(cs: Seq<CharInfo>, i: int) -> bool {
    &&& 0 < i
    &&& (cs[i - 1].lower || (i + 1 < cs.len() && cs[i + 1].lower))
}

/// What the character at `i` becomes in the output.
pub open spec fn piece(cs: Seq<CharInfo>, i: int) -> Seq<char> {
    if cs[i].upper {
        if boundary_before(cs, i) {
            seq!['_', cs[i].lowered]
        } else {
            seq![cs[i].lowered]
        }
    } else {
        seq![cs[i].ch]
    }
}

/// The output for the first `n` characters.
pub open spec fn snake_prefix(cs: Seq<CharInfo>, n: nat) -> Seq<char>
    decreases n,
{
    if n == 0 {
        Seq::empty()
    } else {
        snake_prefix(cs, (n - 1) as nat) + piece(cs, n - 1)
    }
}

/// The snake-case form of the classified characters `cs`.
pub open spec fn snake_of(cs: Seq<CharInfo>) -> Seq<char> {
    snake_prefix(cs, cs.len())
}

/// The snake-case form of the identifier `s`.
pub open spec fn snake_case_of(s: Seq<char>) -> Seq<char> {
    snake_of(infos_of(s))
}

/// Converts classified characters to snake case: each uppercase character is
/// lowercased, with an underscore before it at a word boundary.
pub fn snake_case_from_info(cs: &Vec<CharInfo>) -> (r: Vec<char>)
    ensures
        r@ == snake_of(cs@),
{
    let mut out: Vec<char> = Vec::new();
    let n = cs.len();
    let mut i: usize = 0;
    while i < n
        invariant
            n == cs@.len(),
            i <= n,
            out@ == snake_prefix(cs@, i as nat),
        decreases n - i,
    {
        let c = &cs[i];
        if c.upper {
            let prev_lower = i > 0 && cs[i - 1].lower;
            let next_lower = i + 1 < n && cs[i + 1].lower;
            if i > 0 && (prev_lower || next_lower) {
                out.push('_');
            }
            out.push(c.lowered);
        } else {
            out.push(c.ch);
        }
        assert(out@ =~= snake_prefix(cs@, (i + 1) as nat));
        i += 1;
    }
    out
}

/// Converts a `PascalCase` or `camelCase` identifier to `snake_case`, keeping
/// acronyms together: `HTTPServer` becomes `http_server`.
pub fn to_snake_case(s: &str) -> (r: String)
    ensures
        r@ == snake_case_of(s@),
{
    let chars = chars_of(s);
    let mut infos: Vec<CharInfo> = Vec::new();
    let mut i: usize = 0;
    while i < chars.len()
        invariant
            chars@ == s@,
            i <= chars@.len(),
            infos@ == infos_of(s@).subrange(0, i as int),
        decreases chars@.len() - i,
    {
        let c = chars[i];
        let info = CharInfo {
            ch: c,
            upper: char_is_upper(c),
            lower: char_is_lower(c),
            lowered: char_lower_first(c),
        };
        assert(info == infos_of(s@)[i as int]);
        infos.push(info);
        assert(infos@ =~= infos_of(s@).subrange(0, i + 1));
        i += 1;
    }
    assert(infos@ =~= infos_of(s@));
    let out = snake_case_from_info(&infos);
    string_of(&out)
}

/// The name of the module generated for an enum called `enum_name`.
pub fn enum_module_ident(enum_name: &str) -> (r: String)
    ensures
        r@ == snake_case_of(enum_name@),
{
    to_snake_case(enum_name)
}

} // verus!
