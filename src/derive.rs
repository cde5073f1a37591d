//! The variant shape compiler and the module assembler.
use vstd::prelude::*;
use crate::attrs::{analyze_field_attrs, field_flags, FieldAttrInfo, FieldFlags};
use crate::generics::{unused_lifetimes, unused_params, unused_types};
use crate::model::{same_text, AttrArgs, EnumDescription, FieldDesc, FieldShape, ItemData, RawAttr, Tok, VariantDesc};
use crate::naming::{snake_case_of, to_snake_case};
use crate::plan::{
    DeriveError, FieldPlan, FieldPlanView, ModulePlan, ModulePlanView, PropagationPlan, RelationshipPlan, TypeKind,
    TypePlan, TypePlanView,
};
use crate::propagate::{
    analyze_propagation, prop_info, ref_prefix_end, relationship_rewrite, rewrite_point, PropagateInfo, Relationship,
};
use crate::text::{parses_as_type, text_from};

verus! {

/// The flags of the first `n` fields, or the position of the first of them whose
/// attributes are malformed.
pub open spec fn flags_prefix(fs: Seq<FieldDesc>, n: nat) -> Result<Seq<FieldFlags>, usize>
    decreases n,
{
    if n == 0 {
        Ok(Seq::empty())
    } else {
        match flags_prefix(fs, (n - 1) as nat) {
            Err(e) => Err(e),
            Ok(fl) => match field_flags(fs[n - 1].attrs@) {
                None => Err((n - 1) as usize),
                Some(f) => Ok(fl.push(f)),
            },
        }
    }
}

pub open spec fn all_flags(fs: Seq<FieldDesc>) -> Result<Seq<FieldFlags>, usize> {
    flags_prefix(fs, fs.len())
}

/// The field is named `entity`.
pub open spec fn named_entity(f: FieldDesc) -> bool {
    f.name matches Some(s) && s@ == "entity"@
}

/// The field may be an entity event's dispatch target.
pub open spec fn target_candidate(f: FieldDesc, fl: FieldFlags) -> bool {
    fl.is_event_target || named_entity(f)
}

/// How many positions below `n` satisfy `p`.
pub open spec fn count_where(p: spec_fn(int) -> bool, n: nat) -> nat
    decreases n,
{
    if n == 0 {
        0
    } else {
        count_where(p, (n - 1) as nat) + if p(n - 1) { 1nat } else { 0nat }
    }
}

/// The last position below `n` that satisfies `p` (0 where none does).
pub open spec fn last_where(p: spec_fn(int) -> bool, n: nat) -> int
    decreases n,
{
    if n == 0 {
        0
    } else if p(n - 1) {
        n - 1
    } else {
        last_where(p, (n - 1) as nat)
    }
}

/// The fields that may be the dispatch target.
pub open spec fn candidates(fs: Seq<FieldDesc>, fl: Seq<FieldFlags>) -> spec_fn(int) -> bool {
    |f: int| target_candidate(fs[f], fl[f])
}

/// The fields marked for dereference.
pub open spec fn deref_marked(fl: Seq<FieldFlags>) -> spec_fn(int) -> bool {
    |f: int| fl[f].has_deref
}

pub open spec fn kind_of(shape: FieldShape) -> TypeKind {
    match shape {
        FieldShape::Unit => TypeKind::Marker,
        FieldShape::Unnamed(_) => TypeKind::Tuple,
        FieldShape::Named(_) => TypeKind::Named,
    }
}

/// The tokens of the directive list of attribute `idx` (none where it has no list).
pub open spec fn attr_tokens(attrs: Seq<RawAttr>, idx: int) -> Seq<Tok> {
    if 0 <= idx < attrs.len() {
        match attrs[idx].args {
            AttrArgs::List(t) => t@,
            _ => Seq::empty(),
        }
    } else {
        Seq::empty()
    }
}

/// The propagation of an entity event type. The variant's directives replace the
/// enum's as a whole when they set a relationship; otherwise the enum's apply.
pub open spec fn effective_propagation(
    entity: bool,
    vp: PropagateInfo,
    ep: PropagateInfo,
    vattrs: Seq<RawAttr>,
    eattrs: Seq<RawAttr>,
) -> Option<PropagationPlan> {
    let from_variant = vp.propagate is Some;
    let p = if from_variant { vp } else { ep };
    if !entity {
        None
    } else {
        match p.propagate {
            None => None,
            Some(Relationship::Default) => Some(
                PropagationPlan { auto_propagate: p.auto_propagate, relationship: RelationshipPlan::Default },
            ),
            Some(Relationship::Custom { attr, start }) => {
                let t = attr_tokens(if from_variant { vattrs } else { eattrs }, attr as int);
                let super_at = rewrite_point(t, start as int, parses_as_type(text_from(t, start as int)));
                Some(PropagationPlan {
                    auto_propagate: p.auto_propagate,
                    relationship: RelationshipPlan::Custom { from_variant, attr, start, super_at },
                })
            },
        }
    }
}

/// The markers of one generated field.
pub open spec fn field_plan(
    kind: TypeKind,
    entity: bool,
    derives: bool,
    auto_mark: bool,
    f: FieldDesc,
    fl: FieldFlags,
) -> FieldPlanView {
    FieldPlanView {
        passthrough: fl.passthrough,
        deref: derives && (fl.has_deref || (kind == TypeKind::Named && auto_mark)),
        deref_mut: derives && fl.has_deref_mut,
        event_target: entity && kind == TypeKind::Named && target_candidate(f, fl),
    }
}

/// The type generated for variant `vi` of `vs` (the variants of `desc`), given
/// the enum's propagation directives `ep`; `entity` selects entity events and
/// `deref` enables dereference.
pub open spec fn variant_plan(
    desc: EnumDescription,
    vs: Seq<VariantDesc>,
    vi: int,
    entity: bool,
    deref: bool,
    ep: PropagateInfo,
) -> Result<TypePlanView, DeriveError> {
    let v = vs[vi];
    let fs = v.shape.fields();
    let n = fs.len();
    let variant = vi as usize;
    match prop_info(v.attrs@, false) {
        None => Err(DeriveError::VariantAttribute { variant }),
        Some(vp) => if entity && v.shape is Unit {
            Err(DeriveError::UnitEntityVariant { variant })
        } else if entity && v.shape is Unnamed {
            Err(DeriveError::TupleEntityVariant { variant })
        } else {
            match all_flags(fs) {
                Err(field) => Err(DeriveError::FieldAttribute { variant, field }),
                Ok(fl) => {
                    let cand = candidates(fs, fl);
                    let marked = deref_marked(fl);
                    let targets = count_where(cand, n);
                    let nmarked = count_where(marked, n);
                    if entity && targets == 0 {
                        Err(DeriveError::MissingTarget { variant })
                    } else if entity && targets > 1 {
                        Err(DeriveError::MultipleTargets { variant })
                    } else if nmarked > 1 {
                        Err(DeriveError::DerefConflict { variant })
                    } else {
                        let kind = kind_of(v.shape);
                        let derives = deref && (n == 1 || nmarked == 1);
                        let auto_mark = derives && nmarked == 0 && n == 1;
                        Ok(TypePlanView {
                            variant,
                            kind,
                            fields: Seq::new(n, |f: int| field_plan(kind, entity, derives, auto_mark, fs[f], fl[f])),
                            derives_deref: derives,
                            deref_target: if derives {
                                Some((if nmarked == 1 { last_where(marked, n) } else { 0 }) as usize)
                            } else {
                                None
                            },
                            entity_target: if entity { Some(last_where(cand, n) as usize) } else { None },
                            phantom_types: unused_types(desc.type_params@, fs),
                            phantom_lifetimes: unused_lifetimes(desc.lifetime_params@, fs),
                            propagation: effective_propagation(entity, vp, ep, v.attrs@, desc.attrs@),
                        })
                    }
                },
            }
        },
    }
}

/// The types of the first `n` variants, or the error of the first variant that fails.
pub open spec fn variant_plans(
    desc: EnumDescription,
    vs: Seq<VariantDesc>,
    entity: bool,
    deref: bool,
    ep: PropagateInfo,
    n: nat,
) -> Result<Seq<TypePlanView>, DeriveError>
    decreases n,
{
    if n == 0 {
        Ok(Seq::empty())
    } else {
        match variant_plans(desc, vs, entity, deref, ep, (n - 1) as nat) {
            Err(e) => Err(e),
            Ok(ts) => match variant_plan(desc, vs, n - 1, entity, deref, ep) {
                Err(e) => Err(e),
                Ok(t) => Ok(ts.push(t)),
            },
        }
    }
}

/// Some type of `ts` dereferences.
pub open spec fn any_deref(ts: Seq<TypePlanView>) -> bool {
    exists|i: int| 0 <= i < ts.len() && (#[trigger] ts[i]).derives_deref
}

/// The module derived from `desc`.
pub open spec fn module_plan(desc: EnumDescription, entity: bool, deref: bool) -> Result<ModulePlanView, DeriveError> {
    match prop_info(desc.attrs@, true) {
        None => Err(DeriveError::EnumAttribute),
        Some(ep) => match desc.data {
            ItemData::NotEnum => Err(DeriveError::NotAnEnum),
            ItemData::Enum(vs) => match variant_plans(desc, vs@, entity, deref, ep, vs@.len()) {
                Err(e) => Err(e),
                Ok(types) => Ok(ModulePlanView {
                    name: snake_case_of(desc.name@),
                    entity,
                    deref_import: any_deref(types),
                    types,
                }),
            },
        },
    }
}

pub open spec fn views_of(v: Seq<FieldAttrInfo>) -> Seq<FieldFlags> {
    v.map_values(|i: FieldAttrInfo| i@)
}

/// Reads the attributes of every field (see [`all_flags`]).
fn analyze_fields(fs: &[FieldDesc]) -> (r: Result<Vec<FieldAttrInfo>, usize>)
    ensures
        match r {
            Ok(v) => all_flags(fs@) == Ok::<Seq<FieldFlags>, usize>(views_of(v@)),
            Err(e) => all_flags(fs@) == Err::<Seq<FieldFlags>, usize>(e),
        },
{
    let mut out: Vec<FieldAttrInfo> = Vec::new();
    assert(views_of(out@) =~= Seq::<FieldFlags>::empty());
    let mut i: usize = 0;
    while i < fs.len()
        invariant
            i <= fs@.len(),
            flags_prefix(fs@, i as nat) == Ok::<Seq<FieldFlags>, usize>(views_of(out@)),
        decreases fs@.len() - i,
    {
        match analyze_field_attrs(&fs[i].attrs) {
            None => {
                proof {
                    lemma_flags_err_stays(fs@, (i + 1) as nat, i);
                }
                return Err(i);
            },
            Some(info) => {
                let ghost before = views_of(out@);
                proof {
                    assert(field_flags(fs@[i as int].attrs@) == Some(info@));
                    assert(flags_prefix(fs@, (i + 1) as nat) == Ok::<Seq<FieldFlags>, usize>(before.push(info@)));
                }
                out.push(info);
                assert(views_of(out@) =~= before.push(info@));
            },
        }
        i += 1;
    }
    Ok(out)
}

proof fn lemma_flags_len(fs: Seq<FieldDesc>, n: nat)
    ensures
        flags_prefix(fs, n) matches Ok(v) ==> v.len() == n,
    decreases n,
{
    if n > 0 {
        lemma_flags_len(fs, (n - 1) as nat);
    }
}

proof fn lemma_flags_err_stays(fs: Seq<FieldDesc>, n: nat, e: usize)
    requires
        n <= fs.len(),
        flags_prefix(fs, n) == Err::<Seq<FieldFlags>, usize>(e),
    ensures
        all_flags(fs) == Err::<Seq<FieldFlags>, usize>(e),
    decreases fs.len() - n,
{
    if n < fs.len() {
        lemma_flags_err_stays(fs, n + 1, e);
    }
}

fn is_named_entity(f: &FieldDesc) -> (r: bool)
    ensures
        r == named_entity(*f),
{
    match &f.name {
        Some(s) => same_text(s.as_str(), "entity"),
        None => false,
    }
}

fn copy_positions(v: &Vec<usize>) -> (r: Vec<usize>)
    ensures
        r@ == v@,
{
    let mut r: Vec<usize> = Vec::new();
    let mut i: usize = 0;
    while i < v.len()
        invariant
            i <= v@.len(),
            r@ == v@.subrange(0, i as int),
        decreases v@.len() - i,
    {
        r.push(v[i]);
        assert(r@ =~= v@.subrange(0, i + 1));
        i += 1;
    }
    r
}

/// The tokens of the directive list of attribute `idx` (see [`attr_tokens`]).
fn tokens_of(attrs: &Vec<RawAttr>, idx: usize) -> (r: Option<&Vec<Tok>>)
    ensures
        match r {
            Some(t) => t@ == attr_tokens(attrs@, idx as int),
            None => attr_tokens(attrs@, idx as int) == Seq::<Tok>::empty(),
        },
{
    if idx < attrs.len() {
        match &attrs[idx].args {
            AttrArgs::List(t) => Some(t),
            _ => None,
        }
    } else {
        None
    }
}

fn plan_propagation(
    entity: bool,
    vp: PropagateInfo,
    ep: PropagateInfo,
    vattrs: &Vec<RawAttr>,
    eattrs: &Vec<RawAttr>,
) -> (r: Option<PropagationPlan>)
    ensures
        r == effective_propagation(entity, vp, ep, vattrs@, eattrs@),
{
    if !entity {
        return None;
    }
    let from_variant = vp.propagate.is_some();
    let p = if from_variant { vp } else { ep };
    match p.propagate {
        None => None,
        Some(Relationship::Default) => Some(
            PropagationPlan { auto_propagate: p.auto_propagate, relationship: RelationshipPlan::Default },
        ),
        Some(Relationship::Custom { attr, start }) => {
            let attrs = if from_variant { vattrs } else { eattrs };
            let super_at = match tokens_of(attrs, attr) {
                Some(t) => relationship_rewrite(t, start),
                None => {
                    proof {
                        let e = Seq::<Tok>::empty();
                        assert(ref_prefix_end(e, start as int) == start as int);
                    }
                    None
                },
            };
            Some(PropagationPlan {
                auto_propagate: p.auto_propagate,
                relationship: RelationshipPlan::Custom { from_variant, attr, start, super_at },
            })
        },
    }
}

/// Compiles variant `vi` of `vs`, the variants of `desc` (see [`variant_plan`]).
pub fn plan_variant(
    desc: &EnumDescription,
    vs: &Vec<VariantDesc>,
    vi: usize,
    entity: bool,
    deref: bool,
    ep: PropagateInfo,
) -> (r: Result<TypePlan, DeriveError>)
    requires
        vi < vs@.len(),
    ensures
        match r {
            Ok(t) => variant_plan(*desc, vs@, vi as int, entity, deref, ep) == Ok::<TypePlanView, DeriveError>(t@),
            Err(e) => variant_plan(*desc, vs@, vi as int, entity, deref, ep) == Err::<TypePlanView, DeriveError>(e),
        },
{
    let v = &vs[vi];
    let fs = v.shape.field_list();
    let n = fs.len();
    let vp = match analyze_propagation(&v.attrs, false) {
        None => return Err(DeriveError::VariantAttribute { variant: vi }),
        Some(p) => p,
    };
    let is_unit = match &v.shape {
        FieldShape::Unit => true,
        _ => false,
    };
    let is_tuple = match &v.shape {
        FieldShape::Unnamed(_) => true,
        _ => false,
    };
    if entity && is_unit {
        return Err(DeriveError::UnitEntityVariant { variant: vi });
    }
    if entity && is_tuple {
        return Err(DeriveError::TupleEntityVariant { variant: vi });
    }
    let infos = match analyze_fields(fs) {
        Err(field) => return Err(DeriveError::FieldAttribute { variant: vi, field }),
        Ok(infos) => infos,
    };
    let ghost fl = views_of(infos@);
    proof {
        lemma_flags_len(fs@, fs@.len());
    }
    let ghost cand = candidates(fs@, fl);
    let ghost marked = deref_marked(fl);
    let mut targets: usize = 0;
    let mut last_target: usize = 0;
    let mut nmarked: usize = 0;
    let mut last_marked: usize = 0;
    let mut i: usize = 0;
    while i < n
        invariant
            n == fs@.len(),
            infos@.len() == n,
            fl == views_of(infos@),
            cand == candidates(fs@, fl),
            marked == deref_marked(fl),
            i <= n,
            targets as nat == count_where(cand, i as nat),
            last_target as int == last_where(cand, i as nat),
            nmarked as nat == count_where(marked, i as nat),
            last_marked as int == last_where(marked, i as nat),
            targets <= i,
            nmarked <= i,
        decreases n - i,
    {
        if infos[i].is_event_target || is_named_entity(&fs[i]) {
            targets += 1;
            last_target = i;
        }
        if infos[i].has_deref {
            nmarked += 1;
            last_marked = i;
        }
        i += 1;
    }
    if entity && targets == 0 {
        return Err(DeriveError::MissingTarget { variant: vi });
    }
    if entity && targets > 1 {
        return Err(DeriveError::MultipleTargets { variant: vi });
    }
    if nmarked > 1 {
        return Err(DeriveError::DerefConflict { variant: vi });
    }
    let kind = match &v.shape {
        FieldShape::Unit => TypeKind::Marker,
        FieldShape::Unnamed(_) => TypeKind::Tuple,
        FieldShape::Named(_) => TypeKind::Named,
    };
    let derives = deref && (n == 1 || nmarked == 1);
    let auto_mark = derives && nmarked == 0 && n == 1;
    let mut fields: Vec<FieldPlan> = Vec::new();
    let mut j: usize = 0;
    while j < n
        invariant
            n == fs@.len(),
            infos@.len() == n,
            fl == views_of(infos@),
            j <= n,
            fields@.len() == j,
            forall|f: int| 0 <= f < j ==> (#[trigger] fields@[f])@ == field_plan(kind, entity, derives, auto_mark, fs@[f], fl[f]),
        decreases n - j,
    {
        let info = &infos[j];
        let fp = FieldPlan {
            passthrough: copy_positions(&info.passthrough),
            deref: derives && (info.has_deref || (kind == TypeKind::Named && auto_mark)),
            deref_mut: derives && info.has_deref_mut,
            event_target: entity && kind == TypeKind::Named && (info.is_event_target || is_named_entity(&fs[j])),
        };
        fields.push(fp);
        j += 1;
    }
    let (phantom_types, phantom_lifetimes) = unused_params(desc.type_params.as_slice(), desc.lifetime_params.as_slice(), fs);
    let propagation = plan_propagation(entity, vp, ep, &v.attrs, &desc.attrs);
    let plan = TypePlan {
        variant: vi,
        kind,
        fields,
        derives_deref: derives,
        deref_target: if derives {
            Some(if nmarked == 1 { last_marked } else { 0 })
        } else {
            None
        },
        entity_target: if entity { Some(last_target) } else { None },
        phantom_types,
        phantom_lifetimes,
        propagation,
    };
    proof {
        let expect = variant_plan(*desc, vs@, vi as int, entity, deref, ep);
        assert(plan@.fields =~= Seq::new(n as nat, |f: int| field_plan(kind, entity, derives, auto_mark, fs@[f], fl[f])));
        assert(kind == kind_of(v.shape));
    }
    Ok(plan)
}

pub open spec fn plan_views(ts: Seq<TypePlan>) -> Seq<TypePlanView> {
    ts.map_values(|t: TypePlan| t@)
}

proof fn lemma_plans_err_stays(
    desc: EnumDescription,
    vs: Seq<VariantDesc>,
    entity: bool,
    deref: bool,
    ep: PropagateInfo,
    n: nat,
    e: DeriveError,
)
    requires
        n <= vs.len(),
        variant_plans(desc, vs, entity, deref, ep, n) == Err::<Seq<TypePlanView>, DeriveError>(e),
    ensures
        variant_plans(desc, vs, entity, deref, ep, vs.len()) == Err::<Seq<TypePlanView>, DeriveError>(e),
    decreases vs.len() - n,
{
    if n < vs.len() {
        lemma_plans_err_stays(desc, vs, entity, deref, ep, n + 1, e);
    }
}

/// Derives the module for `desc` (see [`module_plan`]).
pub fn derive_module(desc: &EnumDescription, entity: bool, deref: bool) -> (r: Result<ModulePlan, DeriveError>)
    ensures
        match r {
            Ok(m) => module_plan(*desc, entity, deref) == Ok::<ModulePlanView, DeriveError>(m@),
            Err(e) => module_plan(*desc, entity, deref) == Err::<ModulePlanView, DeriveError>(e),
        },
{
    let ep = match analyze_propagation(&desc.attrs, true) {
        None => return Err(DeriveError::EnumAttribute),
        Some(p) => p,
    };
    let vs = match &desc.data {
        ItemData::NotEnum => return Err(DeriveError::NotAnEnum),
        ItemData::Enum(vs) => vs,
    };
    let name = to_snake_case(desc.name.as_str());
    let mut types: Vec<TypePlan> = Vec::new();
    let mut any: bool = false;
    let mut i: usize = 0;
    assert(plan_views(types@) =~= Seq::<TypePlanView>::empty());
    while i < vs.len()
        invariant
            desc.data == ItemData::Enum(*vs),
            prop_info(desc.attrs@, true) == Some(ep),
            i <= vs@.len(),
            variant_plans(*desc, vs@, entity, deref, ep, i as nat) == Ok::<Seq<TypePlanView>, DeriveError>(plan_views(types@)),
            any == any_deref(plan_views(types@)),
        decreases vs@.len() - i,
    {
        match plan_variant(desc, vs, i, entity, deref, ep) {
            Err(e) => {
                proof {
                    lemma_plans_err_stays(*desc, vs@, entity, deref, ep, (i + 1) as nat, e);
                }
                return Err(e);
            },
            Ok(t) => {
                let ghost before = plan_views(types@);
                let d = t.derives_deref;
                types.push(t);
                proof {
                    let after = plan_views(types@);
                    assert(after =~= before.push(t@));
                    if any_deref(before) {
                        let k = choose|k: int| 0 <= k < before.len() && (#[trigger] before[k]).derives_deref;
                        assert(after[k] == before[k]);
                    }
                    if d {
                        assert(after[before.len() as int].derives_deref);
                    }
                    if any_deref(after) {
                        let k = choose|k: int| 0 <= k < after.len() && (#[trigger] after[k]).derives_deref;
                        if k < before.len() {
                            assert(before[k] == after[k]);
                        }
                    }
                }
                any = any || d;
            },
        }
        i += 1;
    }
    let m = ModulePlan { name, entity, deref_import: any, types };
    assert(m@.types =~= plan_views(m.types@));
    Ok(m)
}

/// Derives the module of ordinary event types for `desc`; `deref` enables
/// the dereference derives.
pub fn derive_enum_events(desc: &EnumDescription, deref: bool) -> (r: Result<ModulePlan, DeriveError>)
    ensures
        match r {
            Ok(m) => module_plan(*desc, false, deref) == Ok::<ModulePlanView, DeriveError>(m@),
            Err(e) => module_plan(*desc, false, deref) == Err::<ModulePlanView, DeriveError>(e),
        },
{
    derive_module(desc, false, deref)
}

/// Derives the module of entity event types for `desc`; `deref` enables the
/// dereference derives.
pub fn derive_enum_entity_events(desc: &EnumDescription, deref: bool) -> (r: Result<ModulePlan, DeriveError>)
    ensures
        match r {
            Ok(m) => module_plan(*desc, true, deref) == Ok::<ModulePlanView, DeriveError>(m@),
            Err(e) => module_plan(*desc, true, deref) == Err::<ModulePlanView, DeriveError>(e),
        },
{
    derive_module(desc, true, deref)
}

} // verus!
