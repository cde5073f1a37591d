//! The output of a derivation: one module with one type per variant.
use vstd::prelude::*;

verus! {

/// The shape of a generated type.
#[derive(Clone, Copy, Debug, PartialEq, Eq, Structural)]
pub enum TypeKind {
    /// A zero-size type, for a variant without fields.
    Marker,
    /// A tuple struct with the variant's positional fields.
    Tuple,
    /// A struct with the variant's named fields.
    Named,
}

/// The relationship type named in a generated propagation attribute.
#[derive(Clone, Copy, Debug, PartialEq, Eq, Structural)]
pub enum RelationshipPlan {
    /// The host's default parent relationship.
    Default,
    /// The tokens from `start` to the end of the directive list of attribute
    /// `attr` (of the variant's attributes when `from_variant` holds, else of the
    /// enum's), with `super ::` inserted before the token at `super_at` if any.
    Custom { from_variant: bool, attr: usize, start: usize, super_at: Option<usize> },
}

/// The propagation attribute of an entity event type.
#[derive(Clone, Copy, Debug, PartialEq, Eq, Structural)]
pub struct PropagationPlan {
    pub auto_propagate: bool,
    pub relationship: RelationshipPlan,
}

/// One field of a generated type, in the variant's field order.
pub struct FieldPlan {
    /// Positions of the field's attributes that are re-emitted unchanged.
    pub passthrough: Vec<usize>,
    /// The field carries the read-only dereference marker.
    pub deref: bool,
    /// The field carries the mutable dereference marker.
    pub deref_mut: bool,
    /// The field is the entity event's dispatch target.
    pub event_target: bool,
}

pub struct FieldPlanView {
    pub passthrough: Seq<usize>,
    pub deref: bool,
    pub deref_mut: bool,
    pub event_target: bool,
}

impl View for FieldPlan {
    type V = FieldPlanView;

    open spec fn view(&self) -> FieldPlanView {
        FieldPlanView {
            passthrough: self.passthrough@,
            deref: self.deref,
            deref_mut: self.deref_mut,
            event_target: self.event_target,
        }
    }
}

/// The type generated for one variant.
pub struct TypePlan {
    /// Position of the variant in the enum.
    pub variant: usize,
    pub kind: TypeKind,
    pub fields: Vec<FieldPlan>,
    /// The type dereferences to one of its fields.
    pub derives_deref: bool,
    /// The field that the type dereferences to.
    pub deref_target: Option<usize>,
    /// The dispatch-target field (entity events only).
    pub entity_target: Option<usize>,
    /// Declared type parameters (by position) kept by a trailing zero-size marker field.
    pub phantom_types: Vec<usize>,
    /// Declared lifetime parameters (by position) kept by that marker field.
    pub phantom_lifetimes: Vec<usize>,
    /// The propagation attribute (entity events only).
    pub propagation: Option<PropagationPlan>,
}

pub struct TypePlanView {
    pub variant: usize,
    pub kind: TypeKind,
    pub fields: Seq<FieldPlanView>,
    pub derives_deref: bool,
    pub deref_target: Option<usize>,
    pub entity_target: Option<usize>,
    pub phantom_types: Seq<usize>,
    pub phantom_lifetimes: Seq<usize>,
    pub propagation: Option<PropagationPlan>,
}

impl TypePlanView {
    /// A marker field is appended, and with it a constructor that takes the
    /// declared fields in order and fills the marker.
    pub open spec fn has_constructor(&self) -> bool {
        self.phantom_types.len() > 0 || self.phantom_lifetimes.len() > 0
    }
}

impl View for TypePlan {
    type V = TypePlanView;

    open spec fn view(&self) -> TypePlanView {
        TypePlanView {
            variant: self.variant,
            kind: self.kind,
            fields: self.fields@.map_values(|f: FieldPlan| f@),
            derives_deref: self.derives_deref,
            deref_target: self.deref_target,
            entity_target: self.entity_target,
            phantom_types: self.phantom_types@,
            phantom_lifetimes: self.phantom_lifetimes@,
            propagation: self.propagation,
        }
    }
}

impl TypePlan {
    /// Whether the generated type has a constructor that fills its marker field.
    pub fn has_constructor(&self) -> (r: bool)
        ensures
            r == self@.has_constructor(),
    {
        self.phantom_types.len() > 0 || self.phantom_lifetimes.len() > 0
    }
}

/// The generated module.
pub struct ModulePlan {
    /// The module's name: the enum's name in snake case.
    pub name: String,
    /// The types are entity events.
    pub entity: bool,
    /// Some type dereferences, so the dereference derives are imported.
    pub deref_import: bool,
    /// One type per variant, in declaration order.
    pub types: Vec<TypePlan>,
}

pub struct ModulePlanView {
    pub name: Seq<char>,
    pub entity: bool,
    pub deref_import: bool,
    pub types: Seq<TypePlanView>,
}

impl View for ModulePlan {
    type V = ModulePlanView;

    open spec fn view(&self) -> ModulePlanView {
        ModulePlanView {
            name: self.name@,
            entity: self.entity,
            deref_import: self.deref_import,
            types: self.types@.map_values(|t: TypePlan| t@),
        }
    }
}

/// Why a derivation fails. Variants and fields are given by position.
#[derive(Clone, Copy, Debug, PartialEq, Eq, Structural)]
pub enum DeriveError {
    /// A directive list on the enum is malformed or has an unknown key.
    EnumAttribute,
    /// The derive was applied to a struct or a union.
    NotAnEnum,
    /// A directive list on the variant is malformed.
    VariantAttribute { variant: usize },
    /// A directive list on a field of the variant is malformed.
    FieldAttribute { variant: usize, field: usize },
    /// An entity event variant without fields.
    UnitEntityVariant { variant: usize },
    /// An entity event variant with positional fields.
    TupleEntityVariant { variant: usize },
    /// An entity event variant with no field named `entity` or marked as target.
    MissingTarget { variant: usize },
    /// An entity event variant with more than one target candidate.
    MultipleTargets { variant: usize },
    /// More than one field of the variant is marked for dereference.
    DerefConflict { variant: usize },
    /// A state-machine enum with a variant that has fields.
    StateWithFields { variant: usize },
}

} // verus!
