//! Properties of the derivation, stated over its specification and proved.
use vstd::prelude::*;
use crate::attrs::{field_flags, FieldFlags};
use crate::derive::{
    all_flags, candidates, count_where, deref_marked, effective_propagation, flags_prefix, last_where,
    module_plan, target_candidate, variant_plan, variant_plans,
};
use crate::model::{EnumDescription, FieldDesc, ItemData, RawAttr, VariantDesc};
use crate::naming::snake_case_of;
use crate::plan::{DeriveError, PropagationPlan, RelationshipPlan, TypeKind, TypePlanView};
use crate::propagate::{prop_info, PropagateInfo, Relationship};

verus! {

/// Each type of a derived module is the plan of the variant at its position.
pub proof fn lemma_plans_pointwise(
    desc: EnumDescription,
    vs: Seq<VariantDesc>,
    entity: bool,
    deref: bool,
    ep: PropagateInfo,
    n: nat,
    ts: Seq<TypePlanView>,
)
    requires
        variant_plans(desc, vs, entity, deref, ep, n) == Ok::<Seq<TypePlanView>, DeriveError>(ts),
    ensures
        ts.len() == n,
        forall|i: int| 0 <= i < n ==> variant_plan(desc, vs, i, entity, deref, ep)
            == Ok::<TypePlanView, DeriveError>(#[trigger] ts[i]),
    decreases n,
{
    if n > 0 {
        let prev = variant_plans(desc, vs, entity, deref, ep, (n - 1) as nat);
        if let Ok(ps) = prev {
            lemma_plans_pointwise(desc, vs, entity, deref, ep, (n - 1) as nat, ps);
            assert(ts =~= ps.push(ts[n - 1]));
            assert forall|i: int| 0 <= i < n implies variant_plan(desc, vs, i, entity, deref, ep)
                == Ok::<TypePlanView, DeriveError>(#[trigger] ts[i]) by {
                if i < n - 1 {
                    assert(ts[i] == ps[i]);
                }
            }
        }
    }
}

/// Where every variant compiles, the whole enum compiles to their plans.
pub proof fn lemma_plans_succeed(
    desc: EnumDescription,
    vs: Seq<VariantDesc>,
    entity: bool,
    deref: bool,
    ep: PropagateInfo,
    n: nat,
)
    requires
        forall|i: int| 0 <= i < n ==> (#[trigger] variant_plan(desc, vs, i, entity, deref, ep)) is Ok,
    ensures
        variant_plans(desc, vs, entity, deref, ep, n) is Ok,
    decreases n,
{
    if n > 0 {
        lemma_plans_succeed(desc, vs, entity, deref, ep, (n - 1) as nat);
        assert(variant_plan(desc, vs, n - 1, entity, deref, ep) is Ok);
    }
}

/// Where one variant fails, the whole enum fails.
pub proof fn lemma_plans_fail(
    desc: EnumDescription,
    vs: Seq<VariantDesc>,
    entity: bool,
    deref: bool,
    ep: PropagateInfo,
    n: nat,
    i: int,
)
    requires
        0 <= i < n,
        variant_plan(desc, vs, i, entity, deref, ep) is Err,
    ensures
        variant_plans(desc, vs, entity, deref, ep, n) is Err,
    decreases n,
{
    if i < n - 1 {
        lemma_plans_fail(desc, vs, entity, deref, ep, (n - 1) as nat, i);
    }
}

/// The flags of every field, one per field.
pub proof fn lemma_flags_pointwise(fs: Seq<FieldDesc>, n: nat, fl: Seq<FieldFlags>)
    requires
        flags_prefix(fs, n) == Ok::<Seq<FieldFlags>, usize>(fl),
    ensures
        fl.len() == n,
        forall|f: int| 0 <= f < n ==> field_flags(fs[f].attrs@) == Some(#[trigger] fl[f]),
    decreases n,
{
    if n > 0 {
        if let Ok(pf) = flags_prefix(fs, (n - 1) as nat) {
            lemma_flags_pointwise(fs, (n - 1) as nat, pf);
            assert(fl =~= pf.push(fl[n - 1]));
            assert forall|f: int| 0 <= f < n implies field_flags(fs[f].attrs@) == Some(#[trigger] fl[f]) by {
                if f < n - 1 {
                    assert(fl[f] == pf[f]);
                }
            }
        }
    }
}

proof fn lemma_count_zero(p: spec_fn(int) -> bool, n: nat)
    requires
        forall|f: int| 0 <= f < n ==> !#[trigger] p(f),
    ensures
        count_where(p, n) == 0,
    decreases n,
{
    if n > 0 {
        lemma_count_zero(p, (n - 1) as nat);
    }
}

proof fn lemma_count_one(p: spec_fn(int) -> bool, n: nat, x: int)
    requires
        0 <= x < n,
        p(x),
        forall|f: int| 0 <= f < n && f != x ==> !#[trigger] p(f),
    ensures
        count_where(p, n) == 1,
        last_where(p, n) == x,
    decreases n,
{
    if n - 1 == x {
        lemma_count_zero(p, (n - 1) as nat);
    } else {
        lemma_count_one(p, (n - 1) as nat, x);
    }
}

proof fn lemma_count_two(p: spec_fn(int) -> bool, n: nat, x: int, y: int)
    requires
        0 <= x < y < n,
        p(x),
        p(y),
    ensures
        count_where(p, n) >= 2,
    decreases n,
{
    if n - 1 == y {
        lemma_count_at_least_one(p, (n - 1) as nat, x);
    } else {
        lemma_count_two(p, (n - 1) as nat, x, y);
    }
}

proof fn lemma_count_at_least_one(p: spec_fn(int) -> bool, n: nat, x: int)
    requires
        0 <= x < n,
        p(x),
    ensures
        count_where(p, n) >= 1,
    decreases n,
{
    if n - 1 != x {
        lemma_count_at_least_one(p, (n - 1) as nat, x);
    }
}

/// An enum whose variants are all field-less, derived as ordinary events,
/// gives one zero-size type per variant, in order, each without fields and
/// without dereference.
pub proof fn lemma_unit_enum_gives_marker_types(desc: EnumDescription, deref: bool)
    requires
        desc.data matches ItemData::Enum(vs) && forall|i: int| 0 <= i < vs@.len() ==> {
            &&& (#[trigger] vs@[i]).shape is Unit
            &&& prop_info(vs@[i].attrs@, false) is Some
        },
        prop_info(desc.attrs@, true) is Some,
    ensures
        module_plan(desc, false, deref) matches Ok(m) && {
            let vs = desc.data->Enum_0;
            &&& m.types.len() == vs@.len()
            &&& forall|i: int| 0 <= i < m.types.len() ==> {
                &&& (#[trigger] m.types[i]).kind == TypeKind::Marker
                &&& m.types[i].variant == i as usize
                &&& m.types[i].fields.len() == 0
                &&& !m.types[i].derives_deref
            }
            &&& !m.deref_import
        },
{
    let vs = desc.data->Enum_0;
    let ep = prop_info(desc.attrs@, true).unwrap();
    let n = vs@.len();
    assert forall|i: int| 0 <= i < n implies (#[trigger] variant_plan(desc, vs@, i, false, deref, ep)) is Ok by {
        assert(vs@[i].shape is Unit);
        assert(vs@[i].shape.fields() =~= Seq::<FieldDesc>::empty());
    }
    lemma_plans_succeed(desc, vs@, false, deref, ep, n);
    let ts = variant_plans(desc, vs@, false, deref, ep, n)->Ok_0;
    lemma_plans_pointwise(desc, vs@, false, deref, ep, n, ts);
    assert forall|i: int| 0 <= i < ts.len() implies {
        &&& (#[trigger] ts[i]).kind == TypeKind::Marker
        &&& ts[i].variant == i as usize
        &&& ts[i].fields.len() == 0
        &&& !ts[i].derives_deref
    } by {
        assert(variant_plan(desc, vs@, i, false, deref, ep) == Ok::<TypePlanView, DeriveError>(ts[i]));
        assert(vs@[i].shape is Unit);
        assert(vs@[i].shape.fields().len() == 0);
    }
}

/// A variant with exactly one field, positional or named, dereferences to that
/// field when dereference is enabled.
pub proof fn lemma_single_field_derefs_to_it(
    desc: EnumDescription,
    vs: Seq<VariantDesc>,
    vi: int,
    entity: bool,
    ep: PropagateInfo,
    t: TypePlanView,
)
    requires
        0 <= vi < vs.len(),
        vs[vi].shape.fields().len() == 1,
        variant_plan(desc, vs, vi, entity, true, ep) == Ok::<TypePlanView, DeriveError>(t),
    ensures
        t.derives_deref,
        t.deref_target == Some(0usize),
        t.fields.len() == 1,
{
    let fs = vs[vi].shape.fields();
    let fl = all_flags(fs)->Ok_0;
    assert(last_where(deref_marked(fl), 0) == 0);
    assert(last_where(deref_marked(fl), 1) == 0);
}

/// A variant with several fields and none marked for dereference gets no
/// dereference, on any of its fields.
pub proof fn lemma_unmarked_fields_no_deref(
    desc: EnumDescription,
    vs: Seq<VariantDesc>,
    vi: int,
    entity: bool,
    deref: bool,
    ep: PropagateInfo,
    t: TypePlanView,
)
    requires
        0 <= vi < vs.len(),
        vs[vi].shape.fields().len() > 1,
        forall|f: int| 0 <= f < vs[vi].shape.fields().len() ==>
            ((#[trigger] field_flags(vs[vi].shape.fields()[f].attrs@)) matches Some(x) && !x.has_deref),
        variant_plan(desc, vs, vi, entity, deref, ep) == Ok::<TypePlanView, DeriveError>(t),
    ensures
        !t.derives_deref,
        t.deref_target is None,
        forall|f: int| 0 <= f < t.fields.len() ==> !(#[trigger] t.fields[f]).deref && !t.fields[f].deref_mut,
{
    let fs = vs[vi].shape.fields();
    let fl = all_flags(fs)->Ok_0;
    lemma_flags_pointwise(fs, fs.len(), fl);
    assert forall|f: int| 0 <= f < fs.len() implies !#[trigger] deref_marked(fl)(f) by {
        assert(field_flags(fs[f].attrs@) == Some(fl[f]));
    }
    lemma_count_zero(deref_marked(fl), fs.len());
}

/// A variant with several fields of which exactly the one at `x` is marked for
/// dereference dereferences to that field, wherever it stands.
pub proof fn lemma_marked_field_is_deref_target(
    desc: EnumDescription,
    vs: Seq<VariantDesc>,
    vi: int,
    entity: bool,
    ep: PropagateInfo,
    x: int,
    t: TypePlanView,
)
    requires
        0 <= vi < vs.len(),
        vs[vi].shape.fields().len() > 1,
        0 <= x < vs[vi].shape.fields().len(),
        forall|f: int| 0 <= f < vs[vi].shape.fields().len() ==>
            ((#[trigger] field_flags(vs[vi].shape.fields()[f].attrs@)) matches Some(y) && y.has_deref == (f == x)),
        variant_plan(desc, vs, vi, entity, true, ep) == Ok::<TypePlanView, DeriveError>(t),
    ensures
        t.derives_deref,
        t.deref_target == Some(x as usize),
        t.fields[x].deref,
        forall|f: int| 0 <= f < t.fields.len() && f != x ==> !(#[trigger] t.fields[f]).deref,
{
    let fs = vs[vi].shape.fields();
    let fl = all_flags(fs)->Ok_0;
    lemma_flags_pointwise(fs, fs.len(), fl);
    assert forall|f: int| 0 <= f < fs.len() implies #[trigger] deref_marked(fl)(f) == (f == x) by {
        assert(field_flags(fs[f].attrs@) == Some(fl[f]));
    }
    lemma_count_one(deref_marked(fl), fs.len(), x);
}

/// A variant with two fields marked for dereference fails, naming the variant,
/// and so does the whole enum.
pub proof fn lemma_two_marked_fields_fail(
    desc: EnumDescription,
    vi: int,
    deref: bool,
    x: int,
    y: int,
)
    requires
        desc.data is Enum,
        prop_info(desc.attrs@, true) is Some,
        0 <= vi < desc.data->Enum_0@.len(),
        ({
            let v = desc.data->Enum_0@[vi];
            let fs = v.shape.fields();
            &&& prop_info(v.attrs@, false) is Some
            &&& 0 <= x < y < fs.len()
            &&& forall|f: int| 0 <= f < fs.len() ==> (#[trigger] field_flags(fs[f].attrs@)) is Some
            &&& field_flags(fs[x].attrs@)->Some_0.has_deref
            &&& field_flags(fs[y].attrs@)->Some_0.has_deref
        }),
    ensures
        variant_plan(desc, desc.data->Enum_0@, vi, false, deref, prop_info(desc.attrs@, true)->Some_0)
            == Err::<TypePlanView, DeriveError>(DeriveError::DerefConflict { variant: vi as usize }),
        module_plan(desc, false, deref) is Err,
{
    let vs = desc.data->Enum_0@;
    let ep = prop_info(desc.attrs@, true)->Some_0;
    let fs = vs[vi].shape.fields();
    lemma_flags_ok(fs, fs.len());
    let fl = all_flags(fs)->Ok_0;
    lemma_flags_pointwise(fs, fs.len(), fl);
    assert(field_flags(fs[x].attrs@) == Some(fl[x]));
    assert(field_flags(fs[y].attrs@) == Some(fl[y]));
    lemma_count_two(deref_marked(fl), fs.len(), x, y);
    lemma_plans_fail(desc, vs, false, deref, ep, vs.len(), vi);
}

/// Where every field's attributes are well formed, so are the variant's.
pub proof fn lemma_flags_ok(fs: Seq<FieldDesc>, n: nat)
    requires
        n <= fs.len(),
        forall|f: int| 0 <= f < fs.len() ==> (#[trigger] field_flags(fs[f].attrs@)) is Some,
    ensures
        flags_prefix(fs, n) is Ok,
    decreases n,
{
    if n > 0 {
        lemma_flags_ok(fs, (n - 1) as nat);
        assert(field_flags(fs[n - 1].attrs@) is Some);
    }
}

/// An entity event variant with named fields fails when no field is named
/// `entity` or marked as target, and when two fields are; so does the enum.
pub proof fn lemma_entity_target_must_be_unique(desc: EnumDescription, vi: int, deref: bool)
    requires
        desc.data is Enum,
        prop_info(desc.attrs@, true) is Some,
        0 <= vi < desc.data->Enum_0@.len(),
        ({
            let v = desc.data->Enum_0@[vi];
            let fs = v.shape.fields();
            &&& v.shape is Named
            &&& prop_info(v.attrs@, false) is Some
            &&& forall|f: int| 0 <= f < fs.len() ==> (#[trigger] field_flags(fs[f].attrs@)) is Some
        }),
    ensures
        ({
            let vs = desc.data->Enum_0@;
            let fs = vs[vi].shape.fields();
            let ep = prop_info(desc.attrs@, true)->Some_0;
            let cand = |f: int| target_candidate(fs[f], field_flags(fs[f].attrs@)->Some_0);
            &&& (forall|f: int| 0 <= f < fs.len() ==> !#[trigger] cand(f)) ==> variant_plan(desc, vs, vi, true, deref, ep)
                == Err::<TypePlanView, DeriveError>(DeriveError::MissingTarget { variant: vi as usize })
                && module_plan(desc, true, deref) is Err
            &&& (exists|x: int, y: int| 0 <= x < y < fs.len() && #[trigger] cand(x) && #[trigger] cand(y)) ==> variant_plan(desc, vs, vi, true, deref, ep)
                == Err::<TypePlanView, DeriveError>(DeriveError::MultipleTargets { variant: vi as usize })
                && module_plan(desc, true, deref) is Err
        }),
{
    let vs = desc.data->Enum_0@;
    let ep = prop_info(desc.attrs@, true)->Some_0;
    let fs = vs[vi].shape.fields();
    lemma_flags_ok(fs, fs.len());
    let fl = all_flags(fs)->Ok_0;
    lemma_flags_pointwise(fs, fs.len(), fl);
    let cand = |f: int| target_candidate(fs[f], field_flags(fs[f].attrs@)->Some_0);
    assert forall|f: int| 0 <= f < fs.len() implies #[trigger] candidates(fs, fl)(f) == cand(f) by {
        assert(field_flags(fs[f].attrs@) == Some(fl[f]));
    }
    if forall|f: int| 0 <= f < fs.len() ==> !#[trigger] cand(f) {
        lemma_count_zero(candidates(fs, fl), fs.len());
        lemma_plans_fail(desc, vs, true, deref, ep, vs.len(), vi);
    }
    if exists|x: int, y: int| 0 <= x < y < fs.len() && #[trigger] cand(x) && #[trigger] cand(y) {
        let (x, y) = choose|x: int, y: int| 0 <= x < y < fs.len() && #[trigger] cand(x) && #[trigger] cand(y);
        lemma_count_two(candidates(fs, fl), fs.len(), x, y);
        lemma_plans_fail(desc, vs, true, deref, ep, vs.len(), vi);
    }
}

/// A variant's propagation directives replace the enum's as a whole: where the
/// variant sets a relationship, both the relationship and the auto-propagate
/// flag come from the variant, whatever the enum says; otherwise both come from
/// the enum.
pub proof fn lemma_variant_propagation_overrides(
    vp: PropagateInfo,
    ep: PropagateInfo,
    vattrs: Seq<RawAttr>,
    eattrs: Seq<RawAttr>,
)
    ensures
        vp.propagate is Some ==> (effective_propagation(true, vp, ep, vattrs, eattrs) matches Some(p) && {
            &&& p.auto_propagate == vp.auto_propagate
            &&& match vp.propagate->Some_0 {
                Relationship::Default => p.relationship == RelationshipPlan::Default,
                Relationship::Custom { attr, start } => p.relationship matches RelationshipPlan::Custom {
                    from_variant,
                    attr: a,
                    start: s,
                    super_at: _,
                } && from_variant && a == attr && s == start,
            }
        }),
        vp.propagate is None ==> match ep.propagate {
            None => effective_propagation(true, vp, ep, vattrs, eattrs) is None,
            Some(rel) => (effective_propagation(true, vp, ep, vattrs, eattrs) matches Some(p)
                && p.auto_propagate == ep.auto_propagate
                && !(p.relationship matches RelationshipPlan::Custom { from_variant, .. } && from_variant)),
        },
{
}

/// The module that a derivation names is the one the naming helper gives for
/// the enum's name.
pub proof fn lemma_module_name_is_helper_name(desc: EnumDescription, entity: bool, deref: bool)
    ensures
        module_plan(desc, entity, deref) matches Ok(m) ==> m.name == snake_case_of(desc.name@),
{
}

/// A derived module holds one type per variant, in declaration order.
pub proof fn lemma_one_type_per_variant_in_order(desc: EnumDescription, entity: bool, deref: bool)
    ensures
        module_plan(desc, entity, deref) matches Ok(m) ==> {
            &&& desc.data is Enum
            &&& m.types.len() == desc.data->Enum_0@.len()
            &&& forall|i: int| 0 <= i < m.types.len() ==> (#[trigger] m.types[i]).variant == i as usize
        },
{
    if let Ok(m) = module_plan(desc, entity, deref) {
        let vs = desc.data->Enum_0@;
        let ep = prop_info(desc.attrs@, true)->Some_0;
        lemma_plans_pointwise(desc, vs, entity, deref, ep, vs.len(), m.types);
        assert forall|i: int| 0 <= i < m.types.len() implies (#[trigger] m.types[i]).variant == i as usize by {
            assert(variant_plan(desc, vs, i, entity, deref, ep) == Ok::<TypePlanView, DeriveError>(m.types[i]));
        }
    }
}

/// With dereference disabled no type dereferences, no field carries a
/// dereference marker, and nothing is imported for it, whatever the markers say.
pub proof fn lemma_deref_disabled_emits_none(desc: EnumDescription, entity: bool)
    ensures
        module_plan(desc, entity, false) matches Ok(m) ==> {
            &&& !m.deref_import
            &&& forall|i: int| 0 <= i < m.types.len() ==> {
                &&& !(#[trigger] m.types[i]).derives_deref
                &&& m.types[i].deref_target is None
                &&& forall|f: int| 0 <= f < m.types[i].fields.len() ==>
                    !(#[trigger] m.types[i].fields[f]).deref && !m.types[i].fields[f].deref_mut
            }
        },
{
    if let Ok(m) = module_plan(desc, entity, false) {
        let vs = desc.data->Enum_0@;
        let ep = prop_info(desc.attrs@, true)->Some_0;
        lemma_plans_pointwise(desc, vs, entity, false, ep, vs.len(), m.types);
        assert forall|i: int| 0 <= i < m.types.len() implies !(#[trigger] m.types[i]).derives_deref by {
            assert(variant_plan(desc, vs, i, entity, false, ep) == Ok::<TypePlanView, DeriveError>(m.types[i]));
        }
    }
}

proof fn lemma_count_one_unique(p: spec_fn(int) -> bool, n: nat)
    requires
        count_where(p, n) == 1,
    ensures
        0 <= last_where(p, n) < n,
        p(last_where(p, n)),
        forall|f: int| 0 <= f < n && f != last_where(p, n) ==> !#[trigger] p(f),
    decreases n,
{
    if p(n - 1) {
        assert(count_where(p, (n - 1) as nat) == 0);
        lemma_count_zero_none(p, (n - 1) as nat);
    } else {
        lemma_count_one_unique(p, (n - 1) as nat);
    }
}

proof fn lemma_count_zero_none(p: spec_fn(int) -> bool, n: nat)
    requires
        count_where(p, n) == 0,
    ensures
        forall|f: int| 0 <= f < n ==> !#[trigger] p(f),
    decreases n,
{
    if n > 0 {
        lemma_count_zero_none(p, (n - 1) as nat);
    }
}

/// Each type of a derived entity-event module has exactly one dispatch-target
/// field, the one its plan names.
pub proof fn lemma_entity_types_have_one_target(desc: EnumDescription, deref: bool)
    requires
        desc.data matches ItemData::Enum(vs) ==> forall|i: int|
            0 <= i < vs@.len() ==> (#[trigger] vs@[i]).shape.fields().len() <= usize::MAX,
    ensures
        module_plan(desc, true, deref) matches Ok(m) ==> forall|i: int| 0 <= i < m.types.len() ==> {
            &&& (#[trigger] m.types[i]).kind == TypeKind::Named
            &&& m.types[i].entity_target matches Some(k) && {
                &&& (k as int) < m.types[i].fields.len()
                &&& forall|f: int| 0 <= f < m.types[i].fields.len() ==>
                    (#[trigger] m.types[i].fields[f]).event_target == (f == k as int)
            }
        },
{
    if let Ok(m) = module_plan(desc, true, deref) {
        let vs = desc.data->Enum_0@;
        let ep = prop_info(desc.attrs@, true)->Some_0;
        lemma_plans_pointwise(desc, vs, true, deref, ep, vs.len(), m.types);
        assert forall|i: int| 0 <= i < m.types.len() implies {
            &&& (#[trigger] m.types[i]).kind == TypeKind::Named
            &&& m.types[i].entity_target matches Some(k) && {
                &&& (k as int) < m.types[i].fields.len()
                &&& forall|f: int| 0 <= f < m.types[i].fields.len() ==>
                    (#[trigger] m.types[i].fields[f]).event_target == (f == k as int)
            }
        } by {
            assert(variant_plan(desc, vs, i, true, deref, ep) == Ok::<TypePlanView, DeriveError>(m.types[i]));
            let fs = vs[i].shape.fields();
            let fl = all_flags(fs)->Ok_0;
            lemma_flags_pointwise(fs, fs.len(), fl);
            assert(vs[i].shape is Named);
            assert(count_where(candidates(fs, fl), fs.len()) == 1);
            lemma_count_one_unique(candidates(fs, fl), fs.len());
            let k = last_where(candidates(fs, fl), fs.len());
            assert(k as usize as int == k);
            let t = m.types[i];
            assert(t.fields.len() == fs.len());
            assert forall|f: int| 0 <= f < t.fields.len() implies (#[trigger] t.fields[f]).event_target == (f == k) by {
                assert(t.fields[f].event_target == candidates(fs, fl)(f));
            }
        }
    }
}

} // verus!
