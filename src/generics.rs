//! The generic usage scanner: which declared type and lifetime parameters the
//! fields of a variant mention.
use vstd::prelude::*;
use crate::model::{same_text, FieldDesc, TypeMention};

verus! {

/// `ms` mentions the type parameter `name` as a one-identifier path.
pub open spec fn mentions_type(ms: Seq<TypeMention>, name: Seq<char>) -> bool {
    exists|j: int| 0 <= j < ms.len() && (#[trigger] ms[j] matches TypeMention::Path(s) && s@ == name)
}

/// `ms` mentions the lifetime `name`.
pub open spec fn mentions_lifetime(ms: Seq<TypeMention>, name: Seq<char>) -> bool {
    exists|j: int| 0 <= j < ms.len() && (#[trigger] ms[j] matches TypeMention::Lifetime(s) && s@ == name)
}

/// Some field of `fs` mentions the type parameter `name`.
pub open spec fn fields_use_type(fs: Seq<FieldDesc>, name: Seq<char>) -> bool {
    exists|f: int| 0 <= f < fs.len() && mentions_type(#[trigger] fs[f].mentions@, name)
}

/// Some field of `fs` mentions the lifetime `name`.
pub open spec fn fields_use_lifetime(fs: Seq<FieldDesc>, name: Seq<char>) -> bool {
    exists|f: int| 0 <= f < fs.len() && mentions_lifetime(#[trigger] fs[f].mentions@, name)
}

/// Positions below `n` of the names in `names` for which `used` fails, in order.
pub open spec fn unused_prefix(names: Seq<String>, used: spec_fn(Seq<char>) -> bool, n: nat) -> Seq<usize>
    decreases n,
{
    if n == 0 {
        Seq::empty()
    } else {
        let rest = unused_prefix(names, used, (n - 1) as nat);
        if used(names[n - 1]@) {
            rest
        } else {
            rest.push((n - 1) as usize)
        }
    }
}

/// Positions of the declared type parameters that no field of `fs` mentions.
pub open spec fn unused_types(names: Seq<String>, fs: Seq<FieldDesc>) -> Seq<usize> {
    unused_prefix(names, |s: Seq<char>| fields_use_type(fs, s), names.len())
}

/// Positions of the declared lifetime parameters that no field of `fs` mentions.
pub open spec fn unused_lifetimes(names: Seq<String>, fs: Seq<FieldDesc>) -> Seq<usize> {
    unused_prefix(names, |s: Seq<char>| fields_use_lifetime(fs, s), names.len())
}

/// Records which declared parameters the visited types mention.
pub struct GenericsUsageCollector<'a> {
    pub type_names: &'a [String],
    pub lifetime_names: &'a [String],
    /// `used_types[i]`: type parameter `i` was mentioned.
    pub used_types: Vec<bool>,
    /// `used_lifetimes[i]`: lifetime parameter `i` was mentioned.
    pub used_lifetimes: Vec<bool>,
}

impl<'a> GenericsUsageCollector<'a> {
    pub open spec fn wf(&self) -> bool {
        &&& self.used_types@.len() == self.type_names@.len()
        &&& self.used_lifetimes@.len() == self.lifetime_names@.len()
    }

    /// A collector that has seen nothing yet.
    pub fn new(type_names: &'a [String], lifetime_names: &'a [String]) -> (r: Self)
        ensures
            r.wf(),
            r.type_names == type_names,
            r.lifetime_names == lifetime_names,
            forall|i: int| 0 <= i < type_names@.len() ==> !r.used_types@[i],
            forall|i: int| 0 <= i < lifetime_names@.len() ==> !r.used_lifetimes@[i],
    {
        let mut used_types: Vec<bool> = Vec::new();
        let mut i: usize = 0;
        while i < type_names.len()
            invariant
                i <= type_names@.len(),
                used_types@ == Seq::new(i as nat, |j: int| false),
            decreases type_names@.len() - i,
        {
            used_types.push(false);
            assert(used_types@ =~= Seq::new((i + 1) as nat, |j: int| false));
            i += 1;
        }
        let mut used_lifetimes: Vec<bool> = Vec::new();
        let mut i: usize = 0;
        while i < lifetime_names.len()
            invariant
                i <= lifetime_names@.len(),
                used_lifetimes@ == Seq::new(i as nat, |j: int| false),
            decreases lifetime_names@.len() - i,
        {
            used_lifetimes.push(false);
            assert(used_lifetimes@ =~= Seq::new((i + 1) as nat, |j: int| false));
            i += 1;
        }
        GenericsUsageCollector { type_names, lifetime_names, used_types, used_lifetimes }
    }

    /// Notes a type path made of the one identifier `ident`.
    pub fn visit_type_path(&mut self, ident: &str)
        requires
            old(self).wf(),
        ensures
            final(self).wf(),
            final(self).type_names == old(self).type_names,
            final(self).lifetime_names == old(self).lifetime_names,
            final(self).used_lifetimes == old(self).used_lifetimes,
            forall|i: int| 0 <= i < old(self).type_names@.len() ==> final(self).used_types@[i]
                == (old(self).used_types@[i] || old(self).type_names@[i]@ == ident@),
    {
        let mut i: usize = 0;
        while i < self.type_names.len()
            invariant
                self.wf(),
                self.type_names == old(self).type_names,
                self.lifetime_names == old(self).lifetime_names,
                self.used_lifetimes == old(self).used_lifetimes,
                i <= self.type_names@.len(),
                forall|j: int| 0 <= j < i ==> self.used_types@[j]
                    == (old(self).used_types@[j] || old(self).type_names@[j]@ == ident@),
                forall|j: int| i <= j < self.type_names@.len() ==> self.used_types@[j] == old(self).used_types@[j],
            decreases self.type_names@.len() - i,
        {
            if same_text(self.type_names[i].as_str(), ident) {
                self.used_types.set(i, true);
            }
            i += 1;
        }
    }

    /// Notes the lifetime named `ident` (without the apostrophe).
    pub fn visit_lifetime(&mut self, ident: &str)
        requires
            old(self).wf(),
        ensures
            final(self).wf(),
            final(self).type_names == old(self).type_names,
            final(self).lifetime_names == old(self).lifetime_names,
            final(self).used_types == old(self).used_types,
            forall|i: int| 0 <= i < old(self).lifetime_names@.len() ==> final(self).used_lifetimes@[i]
                == (old(self).used_lifetimes@[i] || old(self).lifetime_names@[i]@ == ident@),
    {
        let mut i: usize = 0;
        while i < self.lifetime_names.len()
            invariant
                self.wf(),
                self.type_names == old(self).type_names,
                self.lifetime_names == old(self).lifetime_names,
                self.used_types == old(self).used_types,
                i <= self.lifetime_names@.len(),
                forall|j: int| 0 <= j < i ==> self.used_lifetimes@[j]
                    == (old(self).used_lifetimes@[j] || old(self).lifetime_names@[j]@ == ident@),
                forall|j: int| i <= j < self.lifetime_names@.len() ==> self.used_lifetimes@[j] == old(self).used_lifetimes@[j],
            decreases self.lifetime_names@.len() - i,
        {
            if same_text(self.lifetime_names[i].as_str(), ident) {
                self.used_lifetimes.set(i, true);
            }
            i += 1;
        }
    }

    /// Notes every mention of one field's type.
    pub fn visit_mentions(&mut self, ms: &Vec<TypeMention>)
        requires
            old(self).wf(),
        ensures
            final(self).wf(),
            final(self).type_names == old(self).type_names,
            final(self).lifetime_names == old(self).lifetime_names,
            forall|i: int| 0 <= i < old(self).type_names@.len() ==> final(self).used_types@[i]
                == (old(self).used_types@[i] || mentions_type(ms@, old(self).type_names@[i]@)),
            forall|i: int| 0 <= i < old(self).lifetime_names@.len() ==> final(self).used_lifetimes@[i]
                == (old(self).used_lifetimes@[i] || mentions_lifetime(ms@, old(self).lifetime_names@[i]@)),
    {
        let mut k: usize = 0;
        while k < ms.len()
            invariant
                self.wf(),
                self.type_names == old(self).type_names,
                self.lifetime_names == old(self).lifetime_names,
                k <= ms@.len(),
                forall|i: int| 0 <= i < self.type_names@.len() ==> self.used_types@[i]
                    == (old(self).used_types@[i] || mentions_type(ms@.subrange(0, k as int), self.type_names@[i]@)),
                forall|i: int| 0 <= i < self.lifetime_names@.len() ==> self.used_lifetimes@[i]
                    == (old(self).used_lifetimes@[i] || mentions_lifetime(ms@.subrange(0, k as int), self.lifetime_names@[i]@)),
            decreases ms@.len() - k,
        {
            let ghost pre = ms@.subrange(0, k as int);
            let ghost post = ms@.subrange(0, k + 1);
            match &ms[k] {
                TypeMention::Path(s) => self.visit_type_path(s.as_str()),
                TypeMention::Lifetime(s) => self.visit_lifetime(s.as_str()),
            }
            proof {
                assert forall|i: int| 0 <= i < self.type_names@.len() implies
                    mentions_type(post, self.type_names@[i]@) == (mentions_type(pre, self.type_names@[i]@)
                        || (ms@[k as int] matches TypeMention::Path(s) && s@ == self.type_names@[i]@)) by {
                    if mentions_type(pre, self.type_names@[i]@) {
                        let j = choose|j: int| 0 <= j < pre.len() && (#[trigger] pre[j] matches TypeMention::Path(s) && s@ == self.type_names@[i]@);
                        assert(post[j] == pre[j]);
                    }
                    assert(post[k as int] == ms@[k as int]);
                    if mentions_type(post, self.type_names@[i]@) {
                        let j = choose|j: int| 0 <= j < post.len() && (#[trigger] post[j] matches TypeMention::Path(s) && s@ == self.type_names@[i]@);
                        if j < k {
                            assert(pre[j] == post[j]);
                        }
                    }
                }
                assert forall|i: int| 0 <= i < self.lifetime_names@.len() implies
                    mentions_lifetime(post, self.lifetime_names@[i]@) == (mentions_lifetime(pre, self.lifetime_names@[i]@)
                        || (ms@[k as int] matches TypeMention::Lifetime(s) && s@ == self.lifetime_names@[i]@)) by {
                    if mentions_lifetime(pre, self.lifetime_names@[i]@) {
                        let j = choose|j: int| 0 <= j < pre.len() && (#[trigger] pre[j] matches TypeMention::Lifetime(s) && s@ == self.lifetime_names@[i]@);
                        assert(post[j] == pre[j]);
                    }
                    assert(post[k as int] == ms@[k as int]);
                    if mentions_lifetime(post, self.lifetime_names@[i]@) {
                        let j = choose|j: int| 0 <= j < post.len() && (#[trigger] post[j] matches TypeMention::Lifetime(s) && s@ == self.lifetime_names@[i]@);
                        if j < k {
                            assert(pre[j] == post[j]);
                        }
                    }
                }
            }
            k += 1;
        }
        assert(ms@.subrange(0, ms@.len() as int) =~= ms@);
    }
}

proof fn lemma_fields_step(fs: Seq<FieldDesc>, f: int, name: Seq<char>)
    requires
        0 <= f < fs.len(),
    ensures
        fields_use_type(fs.subrange(0, f + 1), name) == (fields_use_type(fs.subrange(0, f), name)
            || mentions_type(fs[f].mentions@, name)),
        fields_use_lifetime(fs.subrange(0, f + 1), name) == (fields_use_lifetime(fs.subrange(0, f), name)
            || mentions_lifetime(fs[f].mentions@, name)),
{
    let pre = fs.subrange(0, f);
    let post = fs.subrange(0, f + 1);
    assert(post[f] == fs[f]);
    assert forall|g: int| 0 <= g < f implies #[trigger] post[g] == pre[g] by {}
    if fields_use_type(post, name) {
        let g = choose|g: int| 0 <= g < post.len() && mentions_type(#[trigger] post[g].mentions@, name);
        if g < f {
            assert(mentions_type(pre[g].mentions@, name));
        }
    }
    if fields_use_type(pre, name) {
        let g = choose|g: int| 0 <= g < pre.len() && mentions_type(#[trigger] pre[g].mentions@, name);
        assert(mentions_type(post[g].mentions@, name));
    }
    if fields_use_lifetime(post, name) {
        let g = choose|g: int| 0 <= g < post.len() && mentions_lifetime(#[trigger] post[g].mentions@, name);
        if g < f {
            assert(mentions_lifetime(pre[g].mentions@, name));
        }
    }
    if fields_use_lifetime(pre, name) {
        let g = choose|g: int| 0 <= g < pre.len() && mentions_lifetime(#[trigger] pre[g].mentions@, name);
        assert(mentions_lifetime(post[g].mentions@, name));
    }
}

/// Positions below `n` whose flag in `used` is off, in order.
pub open spec fn unset_prefix(used: Seq<bool>, n: nat) -> Seq<usize>
    decreases n,
{
    if n == 0 {
        Seq::empty()
    } else if used[n - 1] {
        unset_prefix(used, (n - 1) as nat)
    } else {
        unset_prefix(used, (n - 1) as nat).push((n - 1) as usize)
    }
}

fn unset_positions(used: &Vec<bool>) -> (r: Vec<usize>)
    ensures
        r@ == unset_prefix(used@, used@.len()),
{
    let mut r: Vec<usize> = Vec::new();
    let mut i: usize = 0;
    while i < used.len()
        invariant
            i <= used@.len(),
            r@ == unset_prefix(used@, i as nat),
        decreases used@.len() - i,
    {
        if !used[i] {
            r.push(i);
        }
        i += 1;
    }
    r
}

proof fn lemma_unset_matches(names: Seq<String>, used: Seq<bool>, p: spec_fn(Seq<char>) -> bool, n: nat)
    requires
        n <= names.len(),
        used.len() == names.len(),
        forall|i: int| 0 <= i < names.len() ==> used[i] == p(names[i]@),
    ensures
        unset_prefix(used, n) == unused_prefix(names, p, n),
    decreases n,
{
    if n > 0 {
        lemma_unset_matches(names, used, p, (n - 1) as nat);
    }
}

/// The declared type and lifetime parameters (by position) that no field of
/// `fields` mentions: each needs a zero-size marker in the generated type.
pub fn unused_params(type_names: &[String], lifetime_names: &[String], fields: &[FieldDesc]) -> (r: (Vec<usize>, Vec<usize>))
    ensures
        r.0@ == unused_types(type_names@, fields@),
        r.1@ == unused_lifetimes(lifetime_names@, fields@),
{
    let mut c = GenericsUsageCollector::new(type_names, lifetime_names);
    let mut f: usize = 0;
    while f < fields.len()
        invariant
            c.wf(),
            c.type_names == type_names,
            c.lifetime_names == lifetime_names,
            f <= fields@.len(),
            forall|i: int| 0 <= i < type_names@.len() ==> c.used_types@[i]
                == fields_use_type(fields@.subrange(0, f as int), type_names@[i]@),
            forall|i: int| 0 <= i < lifetime_names@.len() ==> c.used_lifetimes@[i]
                == fields_use_lifetime(fields@.subrange(0, f as int), lifetime_names@[i]@),
        decreases fields@.len() - f,
    {
        c.visit_mentions(&fields[f].mentions);
        proof {
            assert forall|i: int| 0 <= i < type_names@.len() implies c.used_types@[i]
                == fields_use_type(fields@.subrange(0, f + 1), type_names@[i]@) by {
                lemma_fields_step(fields@, f as int, type_names@[i]@);
            }
            assert forall|i: int| 0 <= i < lifetime_names@.len() implies c.used_lifetimes@[i]
                == fields_use_lifetime(fields@.subrange(0, f + 1), lifetime_names@[i]@) by {
                lemma_fields_step(fields@, f as int, lifetime_names@[i]@);
            }
        }
        f += 1;
    }
    assert(fields@.subrange(0, fields@.len() as int) =~= fields@);
    let ts = unset_positions(&c.used_types);
    let ls = unset_positions(&c.used_lifetimes);
    proof {
        lemma_unset_matches(type_names@, c.used_types@, |s: Seq<char>| fields_use_type(fields@, s), type_names@.len());
        lemma_unset_matches(lifetime_names@, c.used_lifetimes@, |s: Seq<char>| fields_use_lifetime(fields@, s), lifetime_names@.len());
    }
    (ts, ls)
}

} // verus!
