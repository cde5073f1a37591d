//! Propagation directives of variants and of the enum, and the rewrite of a
//! relationship type so that it still resolves from inside the generated module.
use vstd::prelude::*;
use crate::attrs::{entries, ident_at, ident_is, ident_text, is_ident, is_punct, lemma_meta_entry_key, parse_entries, MetaEntry};
use crate::text::{parses_as_type, text_from, tokens_form_type};
use crate::model::{ends_with, path_ends_with_ident, AttrArgs, RawAttr, Tok};

verus! {

/// The relationship that propagation follows.
#[derive(Clone, Copy, Debug, PartialEq, Eq, Structural)]
pub enum Relationship {
    /// The host's default parent relationship.
    Default,
    /// The type written after `propagate =`: the tokens from `start` to the end of
    /// the directive list of attribute `attr`.
    Custom { attr: usize, start: usize },
}

/// The propagation directives found in one attribute list.
#[derive(Clone, Copy, Debug, PartialEq, Eq, Structural)]
pub struct PropagateInfo {
    pub propagate: Option<Relationship>,
    pub auto_propagate: bool,
}

pub open spec fn no_propagation() -> PropagateInfo {
    PropagateInfo { propagate: None, auto_propagate: false }
}

/// One entry of the list of attribute `idx`: `auto_propagate` sets the flag,
/// `propagate` sets the relationship (the default one when no tokens follow the
/// `=`). Other keys are refused where `strict` holds and skipped otherwise.
pub open spec fn prop_entry(p: PropagateInfo, t: Seq<Tok>, e: MetaEntry, idx: int, strict: bool) -> Option<PropagateInfo> {
    let k = ident_text(t, e.key as int);
    if k == "auto_propagate"@ {
        Some(PropagateInfo { auto_propagate: true, ..p })
    } else if k == "propagate"@ {
        let rel = match e.value {
            Some(v) if (v as int) < t.len() => Relationship::Custom { attr: idx as usize, start: v },
            _ => Relationship::Default,
        };
        Some(PropagateInfo { propagate: Some(rel), ..p })
    } else if strict {
        None
    } else {
        Some(p)
    }
}

pub open spec fn prop_entries(p: PropagateInfo, t: Seq<Tok>, es: Seq<MetaEntry>, idx: int, strict: bool) -> Option<PropagateInfo>
    decreases es.len(),
{
    if es.len() == 0 {
        Some(p)
    } else {
        match prop_entries(p, t, es.drop_last(), idx, strict) {
            None => None,
            Some(q) => prop_entry(q, t, es.last(), idx, strict),
        }
    }
}

/// The effect of attribute `a`, at position `idx`; only `enum_event` lists count.
pub open spec fn prop_step(p: PropagateInfo, a: RawAttr, idx: int, strict: bool) -> Option<PropagateInfo> {
    if ends_with(a.path@, "enum_event"@) {
        match a.args {
            AttrArgs::List(t) => match entries(t@, true) {
                None => None,
                Some(es) => prop_entries(p, t@, es, idx, strict),
            },
            _ => None,
        }
    } else {
        Some(p)
    }
}

pub open spec fn prop_prefix(attrs: Seq<RawAttr>, n: nat, strict: bool) -> Option<PropagateInfo>
    decreases n,
{
    if n == 0 {
        Some(no_propagation())
    } else {
        match prop_prefix(attrs, (n - 1) as nat, strict) {
            None => None,
            Some(p) => prop_step(p, attrs[n - 1], n - 1, strict),
        }
    }
}

/// The propagation directives of an attribute list, or `None` where one of its
/// directive lists is malformed (or, where `strict` holds, has an unknown key).
pub open spec fn prop_info(attrs: Seq<RawAttr>, strict: bool) -> Option<PropagateInfo> {
    prop_prefix(attrs, attrs.len(), strict)
}

proof fn lemma_prop_none_stays(attrs: Seq<RawAttr>, n: nat, strict: bool)
    requires
        n <= attrs.len(),
        prop_prefix(attrs, n, strict) is None,
    ensures
        prop_info(attrs, strict) is None,
    decreases attrs.len() - n,
{
    if n < attrs.len() {
        lemma_prop_none_stays(attrs, n + 1, strict);
    }
}

proof fn lemma_prop_entries_none_stays(p: PropagateInfo, t: Seq<Tok>, es: Seq<MetaEntry>, n: int, idx: int, strict: bool)
    requires
        0 <= n <= es.len(),
        prop_entries(p, t, es.subrange(0, n), idx, strict) is None,
    ensures
        prop_entries(p, t, es, idx, strict) is None,
    decreases es.len() - n,
{
    if n < es.len() {
        assert(es.subrange(0, n + 1).drop_last() =~= es.subrange(0, n));
        lemma_prop_entries_none_stays(p, t, es, n + 1, idx, strict);
    } else {
        assert(es.subrange(0, n) =~= es);
    }
}

/// Reads the propagation directives of an attribute list (see [`prop_info`]).
pub fn analyze_propagation(attrs: &Vec<RawAttr>, strict: bool) -> (r: Option<PropagateInfo>)
    ensures
        r == prop_info(attrs@, strict),
{
    let mut info = PropagateInfo { propagate: None, auto_propagate: false };
    let mut i: usize = 0;
    while i < attrs.len()
        invariant
            i <= attrs@.len(),
            prop_prefix(attrs@, i as nat, strict) == Some(info),
        decreases attrs@.len() - i,
    {
        let a = &attrs[i];
        if path_ends_with_ident(&a.path, "enum_event") {
            match &a.args {
                AttrArgs::List(t) => {
                    let es = match parse_entries(t, true) {
                        None => {
                            proof {
                                lemma_prop_none_stays(attrs@, (i + 1) as nat, strict);
                            }
                            return None;
                        },
                        Some(es) => es,
                    };
                    let tn = t.len();
                    let ghost p0 = info;
                    let mut j: usize = 0;
                    while j < es.len()
                        invariant
                            i < attrs@.len(),
                            attrs@[i as int] == *a,
                            a.args == AttrArgs::List(*t),
                            ends_with(a.path@, "enum_event"@),
                            prop_prefix(attrs@, i as nat, strict) == Some(p0),
                            tn == t@.len(),
                            entries(t@, true) == Some(es@),
                            j <= es@.len(),
                            prop_entries(p0, t@, es@.subrange(0, j as int), i as int, strict) == Some(info),
                        decreases es@.len() - j,
                    {
                        proof {
                            lemma_meta_entry_key(t@, true, es@, j as int);
                            assert(es@.subrange(0, j + 1).drop_last() =~= es@.subrange(0, j as int));
                        }
                        let e = es[j];
                        if ident_is(t, e.key, "auto_propagate") {
                            info.auto_propagate = true;
                        } else if ident_is(t, e.key, "propagate") {
                            let rel = match e.value {
                                Some(v) => if v < tn {
                                    Relationship::Custom { attr: i, start: v }
                                } else {
                                    Relationship::Default
                                },
                                None => Relationship::Default,
                            };
                            info.propagate = Some(rel);
                        } else if strict {
                            proof {
                                lemma_prop_entries_none_stays(p0, t@, es@, j + 1, i as int, strict);
                                lemma_prop_none_stays(attrs@, (i + 1) as nat, strict);
                            }
                            return None;
                        }
                        j += 1;
                    }
                    assert(es@.subrange(0, es@.len() as int) =~= es@);
                },
                _ => {
                    proof {
                        lemma_prop_none_stays(attrs@, (i + 1) as nat, strict);
                    }
                    return None;
                },
            }
        }
        i += 1;
    }
    Some(info)
}

/// The end of the reference prefix (`&`, `&'a`, `&mut`, `&'a mut`, repeated)
/// that starts at `i`.
pub open spec fn ref_prefix_end(t: Seq<Tok>, i: int) -> int
    decreases t.len() - i,
{
    if 0 <= i < t.len() && is_punct(t[i], '&') {
        let j = i + 1;
        let j = if j + 1 < t.len() && (t[j] matches Tok::Punct(c, joint) && c == '\'' && joint)
            && is_ident(t[j + 1]) {
            j + 2
        } else {
            j
        };
        let j = if j < t.len() && is_ident(t[j]) && ident_text(t, j) == "mut"@ {
            j + 1
        } else {
            j
        };
        ref_prefix_end(t, j)
    } else {
        i
    }
}

/// Identifiers that start a path which already resolves from any module, or a
/// type that is not a path.
pub open spec fn anchored_word(w: Seq<char>) -> bool {
    w == "crate"@ || w == "super"@ || w == "self"@ || w == "dyn"@ || w == "impl"@ || w == "fn"@
        || w == "unsafe"@ || w == "extern"@ || w == "for"@ || w == "_"@
}

/// The tokens from `k` on are a path relative to the enclosing module: they
/// start with an identifier that does not anchor the path, and hold no `+` or
/// `!` (a sum of bounds, a macro).
pub open spec fn relative_path_at(t: Seq<Tok>, k: int) -> bool {
    &&& 0 <= k < t.len()
    &&& is_ident(t[k])
    &&& !anchored_word(ident_text(t, k))
    &&& forall|m: int| k <= m < t.len() ==> !is_punct(#[trigger] t[m], '+') && !is_punct(t[m], '!')
}

/// Where `super ::` goes in the relationship type that starts at `start`: after
/// its reference prefix, when what follows is a relative path.
pub open spec fn super_insertion(t: Seq<Tok>, start: int) -> Option<int> {
    let k = ref_prefix_end(t, start);
    if relative_path_at(t, k) {
        Some(k)
    } else {
        None
    }
}

proof fn lemma_ref_prefix_bounds(t: Seq<Tok>, i: int)
    requires
        0 <= i <= t.len(),
    ensures
        i <= ref_prefix_end(t, i) <= t.len(),
    decreases t.len() - i,
{
    if 0 <= i < t.len() && is_punct(t[i], '&') {
        let j = i + 1;
        let j = if j + 1 < t.len() && (t[j] matches Tok::Punct(c, joint) && c == '\'' && joint)
            && is_ident(t[j + 1]) {
            j + 2
        } else {
            j
        };
        let j = if j < t.len() && is_ident(t[j]) && ident_text(t, j) == "mut"@ {
            j + 1
        } else {
            j
        };
        lemma_ref_prefix_bounds(t, j);
    }
}

/// Finds where `super ::` goes in the relationship type of `t` that starts at
/// `start` (see [`super_insertion`]).
pub fn find_super_insertion(t: &Vec<Tok>, start: usize) -> (r: Option<usize>)
    requires
        start <= t@.len(),
    ensures
        match r {
            None => super_insertion(t@, start as int) is None,
            Some(k) => super_insertion(t@, start as int) == Some(k as int),
        },
{
    let n = t.len();
    let mut i: usize = start;
    loop
        invariant
            n == t@.len(),
            start <= i <= n,
            ref_prefix_end(t@, i as int) == ref_prefix_end(t@, start as int),
        ensures
            start <= i <= n,
            ref_prefix_end(t@, start as int) == i as int,
        decreases n - i,
    {
        let is_amp = i < n && match &t[i] {
            Tok::Punct(c, _) => *c == '&',
            _ => false,
        };
        if !is_amp {
            break;
        }
        let mut j = i + 1;
        if j < n && j + 1 < n && ident_at(t, j + 1) {
            let lt = match &t[j] {
                Tok::Punct(c, joint) => *c == '\'' && *joint,
                _ => false,
            };
            if lt {
                j = j + 2;
            }
        }
        if j < n && ident_is(t, j, "mut") {
            j = j + 1;
        }
        i = j;
    }
    let k = i;
    proof {
        lemma_ref_prefix_bounds(t@, start as int);
    }
    if k >= n {
        return None;
    }
    let anchored = ident_is(t, k, "crate") || ident_is(t, k, "super") || ident_is(t, k, "self")
        || ident_is(t, k, "dyn") || ident_is(t, k, "impl") || ident_is(t, k, "fn")
        || ident_is(t, k, "unsafe") || ident_is(t, k, "extern") || ident_is(t, k, "for")
        || ident_is(t, k, "_");
    if anchored || !ident_at(t, k) {
        return None;
    }
    let mut m: usize = k;
    while m < n
        invariant
            n == t@.len(),
            k <= m <= n,
            ref_prefix_end(t@, start as int) == k as int,
            is_ident(t@[k as int]),
            !anchored_word(ident_text(t@, k as int)),
            forall|x: int| k <= x < m ==> !is_punct(#[trigger] t@[x], '+') && !is_punct(t@[x], '!'),
        decreases n - m,
    {
        let bad = match &t[m] {
            Tok::Punct(c, _) => *c == '+' || *c == '!',
            _ => false,
        };
        if bad {
            assert(is_punct(t@[m as int], '+') || is_punct(t@[m as int], '!'));
            assert(!relative_path_at(t@, k as int));
            return None;
        }
        m += 1;
    }
    Some(k)
}

/// Where `super ::` goes in the relationship type of `t` that starts at `start`,
/// given whether those tokens form a type: nowhere when they do not.
pub open spec fn rewrite_point(t: Seq<Tok>, start: int, is_type: bool) -> Option<usize> {
    if is_type {
        match super_insertion(t, start) {
            Some(k) => Some(k as usize),
            None => None,
        }
    } else {
        None
    }
}

/// Finds where `super ::` goes, given whether the tokens from `start` on form
/// a type (see [`rewrite_point`]).
pub fn super_insertion_for(t: &Vec<Tok>, start: usize, is_type: bool) -> (r: Option<usize>)
    ensures
        r == rewrite_point(t@, start as int, is_type),
{
    if !is_type || start > t.len() {
        proof {
            if start > t@.len() {
                assert(ref_prefix_end(t@, start as int) == start as int);
            }
        }
        None
    } else {
        find_super_insertion(t, start)
    }
}

/// Finds where `super ::` goes in the relationship type of `t` that starts at
/// `start`, asking the type parser whether those tokens form a type.
pub fn relationship_rewrite(t: &Vec<Tok>, start: usize) -> (r: Option<usize>)
    ensures
        r == rewrite_point(t@, start as int, parses_as_type(text_from(t@, start as int))),
{
    let is_type = tokens_form_type(t, start);
    super_insertion_for(t, start, is_type)
}

} // verus!
