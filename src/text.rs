//! Token trees written back as source text.
use vstd::prelude::*;
use crate::model::{chars_of, string_of, Delim, Tok};

verus! {

broadcast use vstd::seq::axiom_seq_subrange_decreases, vstd::std_specs::vec::axiom_vec_decreases_to_view;

pub open spec fn open_text(d: Delim) -> Seq<char> {
    match d {
        Delim::Paren => seq!['('],
        Delim::Bracket => seq!['['],
        Delim::Brace => seq!['{'],
        Delim::Invisible => Seq::empty(),
    }
}

pub open spec fn close_text(d: Delim) -> Seq<char> {
    match d {
        Delim::Paren => seq![')', ' '],
        Delim::Bracket => seq![']', ' '],
        Delim::Brace => seq!['}', ' '],
        Delim::Invisible => Seq::empty(),
    }
}

#[via_fn]
proof fn toks_text_decreases(ts: Seq<Tok>) {
    if ts.len() > 0 {
        assert(decreases_to!(ts => ts.subrange(0, ts.len() - 1)));
        if let Tok::Group(_, v) = ts.last() {
            assert(decreases_to!(ts => ts[ts.len() - 1]));
            assert(decreases_to!(ts.last() => v));
            assert(decreases_to!(v => v@));
        }
    }
}

/// The source text of `ts`: each token followed by a space, except a
/// punctuation character joined to the next one; a group between its delimiters.
pub open spec fn toks_text(ts: Seq<Tok>) -> Seq<char>
    decreases ts via toks_text_decreases
{
    if ts.len() == 0 {
        Seq::empty()
    } else {
        let head = toks_text(ts.subrange(0, ts.len() - 1));
        head + match ts.last() {
            Tok::Ident(s) => s@.push(' '),
            Tok::Literal(s) => s@.push(' '),
            Tok::Punct(c, joint) => if joint { seq![c] } else { seq![c, ' '] },
            Tok::Group(d, v) => open_text(d) + toks_text(v@) + close_text(d),
        }
    }
}

fn push_all(out: &mut Vec<char>, s: &str)
    ensures
        final(out)@ == old(out)@ + s@,
{
    let cs = chars_of(s);
    let mut i: usize = 0;
    while i < cs.len()
        invariant
            cs@ == s@,
            i <= cs@.len(),
            out@ == old(out)@ + cs@.subrange(0, i as int),
        decreases cs@.len() - i,
    {
        out.push(cs[i]);
        assert(cs@.subrange(0, i + 1) =~= cs@.subrange(0, i as int).push(cs@[i as int]));
        i += 1;
    }
    assert(cs@.subrange(0, cs@.len() as int) =~= cs@);
}

/// Appends the source text of the tokens of `ts` from `from` on to `out`.
pub fn write_tokens(ts: &Vec<Tok>, from: usize, out: &mut Vec<char>)
    requires
        from <= ts@.len(),
    ensures
        final(out)@ == old(out)@ + toks_text(ts@.subrange(from as int, ts@.len() as int)),
    decreases ts@,
{
    let mut i: usize = from;
    assert(ts@.subrange(from as int, from as int) =~= Seq::<Tok>::empty());
    while i < ts.len()
        invariant
            from <= i <= ts@.len(),
            out@ == old(out)@ + toks_text(ts@.subrange(from as int, i as int)),
        decreases ts@.len() - i,
    {
        let ghost before = out@;
        let ghost pre = ts@.subrange(from as int, i as int);
        let ghost post = ts@.subrange(from as int, i + 1);
        assert(post.subrange(0, post.len() - 1) =~= pre);
        assert(post.last() == ts@[i as int]);
        match &ts[i] {
            Tok::Ident(s) => {
                push_all(out, s.as_str());
                out.push(' ');
            },
            Tok::Literal(s) => {
                push_all(out, s.as_str());
                out.push(' ');
            },
            Tok::Punct(c, joint) => {
                out.push(*c);
                if !*joint {
                    out.push(' ');
                }
            },
            Tok::Group(d, v) => {
                match d {
                    Delim::Paren => out.push('('),
                    Delim::Bracket => out.push('['),
                    Delim::Brace => out.push('{'),
                    Delim::Invisible => {},
                }
                proof {
                    assert(decreases_to!(ts@ => ts@[i as int]));
                }
                assert(v@.subrange(0, v@.len() as int) =~= v@);
                write_tokens(v, 0, out);
                match d {
                    Delim::Paren => out.push(')'),
                    Delim::Bracket => out.push(']'),
                    Delim::Brace => out.push('}'),
                    Delim::Invisible => {},
                }
                match d {
                    Delim::Invisible => {},
                    _ => out.push(' '),
                }
            },
        }
        assert(out@ =~= before + match ts@[i as int] {
            Tok::Ident(s) => s@.push(' '),
            Tok::Literal(s) => s@.push(' '),
            Tok::Punct(c, joint) => if joint { seq![c] } else { seq![c, ' '] },
            Tok::Group(d, v) => open_text(d) + toks_text(v@) + close_text(d),
        });
        i += 1;
    }
}

/// Whether `s` parses, as a whole, as a Rust type.
pub uninterp spec fn parses_as_type(s: Seq<char>) -> bool;

/// Relies on `syn::parse_str::<syn::Type>`: whether the whole text parses as a
/// type. The answer depends on the text alone.
#[verifier::external_body]
fn is_type_text(s: &str) -> (r: bool)
    ensures
        r == parses_as_type(s@),
{
    syn::parse_str::<syn::Type>(s).is_ok()
}

/// The text of the tokens of `t` from `start` on (none where `start` is past the end).
pub open spec fn text_from(t: Seq<Tok>, start: int) -> Seq<char> {
    if 0 <= start <= t.len() {
        toks_text(t.subrange(start, t.len() as int))
    } else {
        Seq::empty()
    }
}

/// Whether the tokens of `t` from `start` on form a Rust type.
pub fn tokens_form_type(t: &Vec<Tok>, start: usize) -> (r: bool)
    ensures
        r == parses_as_type(text_from(t@, start as int)),
{
    let mut out: Vec<char> = Vec::new();
    if start <= t.len() {
        write_tokens(t, start, &mut out);
    }
    assert(out@ =~= text_from(t@, start as int));
    let s = string_of(&out);
    is_type_text(s.as_str())
}

} // verus!
