//! The attribute analyzer: reads the `enum_event(...)` directive lists and the
//! bare marker attributes of fields, variants and the enum.
use vstd::prelude::*;
use crate::model::{ends_with, path_ends_with_ident, same_text, AttrArgs, RawAttr, Tok};

verus! {

/// One entry of a directive list: the position of the last identifier of its
/// key, and, for `key = value`, the position where the value starts (the value
/// runs to the end of the list).
#[derive(Clone, Copy, Debug, PartialEq, Eq, Structural)]
pub struct MetaEntry {
    pub key: usize,
    pub value: Option<usize>,
}

pub open spec fn is_punct(t: Tok, c: char) -> bool {
    t matches Tok::Punct(d, _) && d == c
}

pub open spec fn is_ident(t: Tok) -> bool {
    t is Ident
}

/// The text of the identifier at `k`.
pub open spec fn ident_text(t: Seq<Tok>, k: int) -> Seq<char> {
    match t[k] {
        Tok::Ident(s) => s@,
        _ => Seq::empty(),
    }
}

/// A `::` starts at `i`: a joined `:` followed by a `:`.
pub open spec fn at_path_sep(t: Seq<Tok>, i: int) -> bool {
    &&& 0 <= i
    &&& i + 1 < t.len()
    &&& t[i] matches Tok::Punct(c, joint) && c == ':' && joint
    &&& is_punct(t[i + 1], ':')
}

/// The rest of a path after a segment at `last`: further `:: ident` segments.
/// Gives the position after the path and the position of its last identifier.
pub open spec fn path_tail(t: Seq<Tok>, j: int, last: int) -> Option<(int, int)>
    decreases t.len() - j,
{
    if at_path_sep(t, j) {
        if j + 2 < t.len() && is_ident(t[j + 2]) {
            path_tail(t, j + 3, j + 2)
        } else {
            None
        }
    } else {
        Some((j, last))
    }
}

/// A directive key at `i`: an optional leading `::` and identifiers separated by `::`.
pub open spec fn meta_path(t: Seq<Tok>, i: int) -> Option<(int, int)> {
    let s = if at_path_sep(t, i) { i + 2 } else { i };
    if 0 <= s < t.len() && is_ident(t[s]) {
        path_tail(t, s + 1, s)
    } else {
        None
    }
}

pub proof fn lemma_path_tail_bounds(t: Seq<Tok>, j: int, last: int)
    requires
        0 <= j <= t.len(),
        0 <= last < j,
    ensures
        path_tail(t, j, last) matches Some((e, l)) ==> j <= e <= t.len() && last <= l < e,
    decreases t.len() - j,
{
    if at_path_sep(t, j) && j + 2 < t.len() && is_ident(t[j + 2]) {
        lemma_path_tail_bounds(t, j + 3, j + 2);
    }
}

pub proof fn lemma_meta_path_bounds(t: Seq<Tok>, i: int)
    requires
        0 <= i < t.len(),
    ensures
        meta_path(t, i) matches Some((e, k)) ==> i < e <= t.len() && i <= k < e && is_ident(t[k]),
{
    let s = if at_path_sep(t, i) { i + 2 } else { i };
    if 0 <= s < t.len() && is_ident(t[s]) {
        lemma_path_tail_ident(t, s + 1, s);
        lemma_path_tail_bounds(t, s + 1, s);
    }
}

pub proof fn lemma_path_tail_ident(t: Seq<Tok>, j: int, last: int)
    requires
        0 <= last < j <= t.len(),
        is_ident(t[last]),
    ensures
        path_tail(t, j, last) matches Some((e, l)) ==> 0 <= l < t.len() && is_ident(t[l]),
    decreases t.len() - j,
{
    if at_path_sep(t, j) && j + 2 < t.len() && is_ident(t[j + 2]) {
        lemma_path_tail_ident(t, j + 3, j + 2);
    }
}

#[via_fn]
proof fn entries_from_decreases(t: Seq<Tok>, i: int, vals: bool) {
    if 0 <= i < t.len() {
        lemma_meta_path_bounds(t, i);
    }
}

/// The entries of a directive list from position `i` on, or `None` where the
/// list does not follow the grammar `key [= value] {, key [= value]} [,]`.
/// Where `vals` holds, the key `propagate` followed by `=` takes every token
/// after the `=` as its value; no other key takes a value.
pub open spec fn entries_from(t: Seq<Tok>, i: int, vals: bool) -> Option<Seq<MetaEntry>>
    decreases t.len() - i via entries_from_decreases
{
    if !(0 <= i < t.len()) {
        None
    } else {
        match meta_path(t, i) {
            None => None,
            Some((j, k)) => {
                if vals && ident_text(t, k) == "propagate"@ && j < t.len() && is_punct(t[j], '=') {
                    Some(seq![MetaEntry { key: k as usize, value: Some((j + 1) as usize) }])
                } else if j == t.len() {
                    Some(seq![MetaEntry { key: k as usize, value: None }])
                } else if is_punct(t[j], ',') {
                    if j + 1 == t.len() {
                        Some(seq![MetaEntry { key: k as usize, value: None }])
                    } else {
                        match entries_from(t, j + 1, vals) {
                            None => None,
                            Some(rest) => Some(seq![MetaEntry { key: k as usize, value: None }] + rest),
                        }
                    }
                } else {
                    None
                }
            },
        }
    }
}

/// The entries of a whole directive list; an empty list has none.
pub open spec fn entries(t: Seq<Tok>, vals: bool) -> Option<Seq<MetaEntry>> {
    if t.len() == 0 {
        Some(Seq::empty())
    } else {
        entries_from(t, 0, vals)
    }
}

pub open spec fn join_entries(acc: Seq<MetaEntry>, r: Option<Seq<MetaEntry>>) -> Option<Seq<MetaEntry>> {
    match r {
        None => None,
        Some(rest) => Some(acc + rest),
    }
}

fn punct_is(t: &Tok, c: char) -> (r: bool)
    ensures
        r == is_punct(*t, c),
{
    match t {
        Tok::Punct(d, _) => *d == c,
        _ => false,
    }
}

fn at_sep(t: &Vec<Tok>, i: usize) -> (r: bool)
    ensures
        r == at_path_sep(t@, i as int),
        r ==> i + 1 < t@.len(),
{
    if i < t.len() && i + 1 < t.len() {
        match &t[i] {
            Tok::Punct(c, joint) => *c == ':' && *joint && punct_is(&t[i + 1], ':'),
            _ => false,
        }
    } else {
        false
    }
}

pub(crate) fn ident_at(t: &Vec<Tok>, i: usize) -> (r: bool)
    requires
        i < t@.len(),
    ensures
        r == is_ident(t@[i as int]),
{
    match &t[i] {
        Tok::Ident(_) => true,
        _ => false,
    }
}

/// Whether the token at `k` is the identifier `word`.
pub fn ident_is(t: &Vec<Tok>, k: usize, word: &str) -> (r: bool)
    requires
        k < t@.len(),
    ensures
        r == (is_ident(t@[k as int]) && ident_text(t@, k as int) == word@),
{
    match &t[k] {
        Tok::Ident(s) => same_text(s.as_str(), word),
        _ => false,
    }
}

fn parse_meta_path(t: &Vec<Tok>, i: usize) -> (r: Option<(usize, usize)>)
    requires
        i < t@.len(),
    ensures
        match r {
            None => meta_path(t@, i as int) is None,
            Some((e, k)) => meta_path(t@, i as int) == Some((e as int, k as int)),
        },
{
    let n = t.len();
    let s = if at_sep(t, i) { i + 2 } else { i };
    if !(s < t.len() && ident_at(t, s)) {
        return None;
    }
    let mut j: usize = s + 1;
    let mut last: usize = s;
    while at_sep(t, j)
        invariant
            n == t@.len(),
            s < j <= t@.len(),
            last < j,
            meta_path(t@, i as int) == path_tail(t@, j as int, last as int),
        decreases t@.len() - j,
    {
        if j + 2 < t.len() && ident_at(t, j + 2) {
            last = j + 2;
            j = j + 3;
        } else {
            return None;
        }
    }
    Some((j, last))
}

/// Parses a directive list (see [`entries`]).
pub fn parse_entries(t: &Vec<Tok>, vals: bool) -> (r: Option<Vec<MetaEntry>>)
    ensures
        match r {
            None => entries(t@, vals) is None,
            Some(es) => entries(t@, vals) == Some(es@),
        },
{
    let mut acc: Vec<MetaEntry> = Vec::new();
    if t.len() == 0 {
        return Some(acc);
    }
    let mut i: usize = 0;
    loop
        invariant
            i < t@.len(),
            entries(t@, vals) == join_entries(acc@, entries_from(t@, i as int, vals)),
        decreases t@.len() - i,
    {
        proof {
            lemma_meta_path_bounds(t@, i as int);
        }
        let (j, k) = match parse_meta_path(t, i) {
            None => return None,
            Some(p) => p,
        };
        if vals && ident_is(t, k, "propagate") && j < t.len() && punct_is(&t[j], '=') {
            acc.push(MetaEntry { key: k, value: Some(j + 1) });
            assert(acc@ =~= acc@.drop_last() + seq![MetaEntry { key: k, value: Some((j + 1) as usize) }]);
            return Some(acc);
        }
        let e = MetaEntry { key: k, value: None };
        if j == t.len() || (punct_is(&t[j], ',') && j + 1 == t.len()) {
            acc.push(e);
            assert(acc@ =~= acc@.drop_last() + seq![e]);
            return Some(acc);
        }
        if !punct_is(&t[j], ',') {
            return None;
        }
        proof {
            let rest = entries_from(t@, j + 1, vals);
            if let Some(rr) = rest {
                assert(acc@ + (seq![e] + rr) =~= acc@.push(e) + rr);
            }
        }
        acc.push(e);
        i = j + 1;
    }
}

/// What the attributes of one field say.
pub struct FieldAttrInfo {
    /// Positions of the attributes that are not directives, in order; they are
    /// re-emitted unchanged on the generated field.
    pub passthrough: Vec<usize>,
    pub has_deref: bool,
    pub has_deref_mut: bool,
    pub is_event_target: bool,
}

/// The mathematical form of [`FieldAttrInfo`].
pub struct FieldFlags {
    pub passthrough: Seq<usize>,
    pub has_deref: bool,
    pub has_deref_mut: bool,
    pub is_event_target: bool,
}

impl View for FieldAttrInfo {
    type V = FieldFlags;

    open spec fn view(&self) -> FieldFlags {
        FieldFlags {
            passthrough: self.passthrough@,
            has_deref: self.has_deref,
            has_deref_mut: self.has_deref_mut,
            is_event_target: self.is_event_target,
        }
    }
}

pub open spec fn no_field_flags() -> FieldFlags {
    FieldFlags { passthrough: Seq::empty(), has_deref: false, has_deref_mut: false, is_event_target: false }
}

/// `deref` marks the field; `deref_mut` marks it for both; `target` makes it
/// the dispatch target; other keys are left to other derives.
pub open spec fn field_entry(f: FieldFlags, t: Seq<Tok>, e: MetaEntry) -> FieldFlags {
    let k = ident_text(t, e.key as int);
    if k == "deref"@ {
        FieldFlags { has_deref: true, ..f }
    } else if k == "deref_mut"@ {
        FieldFlags { has_deref: true, has_deref_mut: true, ..f }
    } else if k == "target"@ {
        FieldFlags { is_event_target: true, ..f }
    } else {
        f
    }
}

pub open spec fn field_entries(f: FieldFlags, t: Seq<Tok>, es: Seq<MetaEntry>) -> FieldFlags
    decreases es.len(),
{
    if es.len() == 0 {
        f
    } else {
        field_entry(field_entries(f, t, es.drop_last()), t, es.last())
    }
}

/// The effect of the attribute `a`, at position `idx`, on a field.
pub open spec fn field_step(f: FieldFlags, a: RawAttr, idx: int) -> Option<FieldFlags> {
    if ends_with(a.path@, "enum_event"@) {
        match a.args {
            AttrArgs::List(t) => match entries(t@, false) {
                None => None,
                Some(es) => Some(field_entries(f, t@, es)),
            },
            _ => None,
        }
    } else if ends_with(a.path@, "event_target"@) {
        Some(FieldFlags { is_event_target: true, ..f })
    } else if ends_with(a.path@, "deref"@) {
        Some(FieldFlags { has_deref: true, ..f })
    } else if ends_with(a.path@, "deref_mut"@) {
        Some(FieldFlags { has_deref: true, has_deref_mut: true, ..f })
    } else {
        Some(FieldFlags { passthrough: f.passthrough.push(idx as usize), ..f })
    }
}

pub open spec fn field_flags_prefix(attrs: Seq<RawAttr>, n: nat) -> Option<FieldFlags>
    decreases n,
{
    if n == 0 {
        Some(no_field_flags())
    } else {
        match field_flags_prefix(attrs, (n - 1) as nat) {
            None => None,
            Some(f) => field_step(f, attrs[n - 1], n - 1),
        }
    }
}

/// What the attributes of a field say, or `None` where a directive list is malformed.
pub open spec fn field_flags(attrs: Seq<RawAttr>) -> Option<FieldFlags> {
    field_flags_prefix(attrs, attrs.len())
}

/// Reads the attributes of one field.
pub fn analyze_field_attrs(attrs: &Vec<RawAttr>) -> (r: Option<FieldAttrInfo>)
    ensures
        match r {
            None => field_flags(attrs@) is None,
            Some(info) => field_flags(attrs@) == Some(info@),
        },
{
    let mut info = FieldAttrInfo {
        passthrough: Vec::new(),
        has_deref: false,
        has_deref_mut: false,
        is_event_target: false,
    };
    let mut i: usize = 0;
    while i < attrs.len()
        invariant
            i <= attrs@.len(),
            field_flags_prefix(attrs@, i as nat) == Some(info@),
        decreases attrs@.len() - i,
    {
        let a = &attrs[i];
        if path_ends_with_ident(&a.path, "enum_event") {
            match &a.args {
                AttrArgs::List(t) => {
                    let es = match parse_entries(t, false) {
                        None => {
                            proof {
                                lemma_field_none_stays(attrs@, (i + 1) as nat);
                            }
                            return None;
                        },
                        Some(es) => es,
                    };
                    let tn = t.len();
                    let ghost f0 = info@;
                    let mut j: usize = 0;
                    while j < es.len()
                        invariant
                            tn == t@.len(),
                            entries(t@, false) == Some(es@),
                            j <= es@.len(),
                            info@ == field_entries(f0, t@, es@.subrange(0, j as int)),
                        decreases es@.len() - j,
                    {
                        proof {
                            lemma_meta_entry_key(t@, false, es@, j as int);
                        }
                        let k = es[j].key;
                        if ident_is(t, k, "deref") {
                            info.has_deref = true;
                        } else if ident_is(t, k, "deref_mut") {
                            info.has_deref = true;
                            info.has_deref_mut = true;
                        } else if ident_is(t, k, "target") {
                            info.is_event_target = true;
                        }
                        assert(es@.subrange(0, j + 1).drop_last() =~= es@.subrange(0, j as int));
                        j += 1;
                    }
                    assert(es@.subrange(0, es@.len() as int) =~= es@);
                },
                _ => {
                    proof {
                        lemma_field_none_stays(attrs@, (i + 1) as nat);
                    }
                    return None;
                },
            }
        } else if path_ends_with_ident(&a.path, "event_target") {
            info.is_event_target = true;
        } else if path_ends_with_ident(&a.path, "deref") {
            info.has_deref = true;
        } else if path_ends_with_ident(&a.path, "deref_mut") {
            info.has_deref = true;
            info.has_deref_mut = true;
        } else {
            info.passthrough.push(i);
        }
        i += 1;
    }
    Some(info)
}

/// Once a malformed directive is met, the field's attributes as a whole are malformed.
proof fn lemma_field_none_stays(attrs: Seq<RawAttr>, n: nat)
    requires
        n <= attrs.len(),
        field_flags_prefix(attrs, n) is None,
    ensures
        field_flags(attrs) is None,
    decreases attrs.len() - n,
{
    if n < attrs.len() {
        lemma_field_none_stays(attrs, n + 1);
    }
}

/// Every entry that a directive list yields names an identifier of the list.
pub proof fn lemma_meta_entry_key(t: Seq<Tok>, vals: bool, es: Seq<MetaEntry>, j: int)
    requires
        t.len() <= usize::MAX,
        entries(t, vals) == Some(es),
        0 <= j < es.len(),
    ensures
        (es[j].key as int) < t.len(),
        is_ident(t[es[j].key as int]),
        es[j].value matches Some(v) ==> v as int <= t.len(),
{
    lemma_entries_from_keys(t, 0, vals);
}

proof fn lemma_entries_from_keys(t: Seq<Tok>, i: int, vals: bool)
    requires
        t.len() <= usize::MAX,
    ensures
        entries_from(t, i, vals) matches Some(es) ==> forall|j: int|
            0 <= j < es.len() ==> (es[j].key as int) < t.len() && is_ident(t[es[j].key as int])
                && (es[j].value matches Some(v) ==> v as int <= t.len()),
    decreases t.len() - i,
{
    if 0 <= i < t.len() {
        lemma_meta_path_bounds(t, i);
        match meta_path(t, i) {
            None => {},
            Some((j, k)) => {
                assert(k as usize as int == k);
                if !(vals && ident_text(t, k) == "propagate"@ && j < t.len() && is_punct(t[j], '='))
                    && j != t.len() && is_punct(t[j], ',') && j + 1 != t.len() {
                    lemma_entries_from_keys(t, j + 1, vals);
                    if let Some(rest) = entries_from(t, j + 1, vals) {
                        let es = seq![MetaEntry { key: k as usize, value: None }] + rest;
                        assert forall|x: int| 0 <= x < es.len() implies (es[x].key as int) < t.len()
                            && is_ident(t[es[x].key as int])
                            && (es[x].value matches Some(v) ==> v as int <= t.len()) by {
                            if x > 0 {
                                assert(es[x] == rest[x - 1]);
                            }
                        }
                    }
                }
            },
        }
    }
}

} // verus!
