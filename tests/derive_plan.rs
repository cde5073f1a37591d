use bevy_enum_event::derive::{derive_enum_entity_events, derive_enum_events, derive_module};
use bevy_enum_event::fsm::{can_transition, derive_fsm_tables};
use bevy_enum_event::model::{
    AttrArgs, Delim, EnumDescription, FieldDesc, FieldShape, ItemData, RawAttr, Tok, TypeMention, VariantDesc,
};
use bevy_enum_event::plan::{DeriveError, ModulePlan, RelationshipPlan, TypeKind};

fn lex(s: &str) -> Vec<Tok> {
    let cs: Vec<char> = s.chars().collect();
    let mut out = Vec::new();
    let mut i = 0;
    while i < cs.len() {
        let c = cs[i];
        if c.is_whitespace() {
            i += 1;
        } else if c.is_alphanumeric() || c == '_' {
            let start = i;
            while i < cs.len() && (cs[i].is_alphanumeric() || cs[i] == '_') {
                i += 1;
            }
            out.push(Tok::Ident(cs[start..i].iter().collect()));
        } else {
            let next = cs.get(i + 1).copied();
            let joint = match next {
                Some(n) => c == '\'' || !(n.is_whitespace() || n.is_alphanumeric() || n == '_'),
                None => false,
            };
            out.push(Tok::Punct(c, joint));
            i += 1;
        }
    }
    out
}

fn directive(args: &str) -> RawAttr {
    RawAttr { path: vec!["enum_event".to_string()], args: AttrArgs::List(lex(args)) }
}

fn bare(name: &str) -> RawAttr {
    RawAttr { path: vec![name.to_string()], args: AttrArgs::Bare }
}

fn field(name: Option<&str>, ty: &str, attrs: Vec<RawAttr>) -> FieldDesc {
    FieldDesc {
        name: name.map(|n| n.to_string()),
        mentions: vec![TypeMention::Path(ty.to_string())],
        attrs,
    }
}

fn named(fs: Vec<(&str, &str)>) -> FieldShape {
    FieldShape::Named(fs.into_iter().map(|(n, t)| field(Some(n), t, vec![])).collect())
}

fn tuple(ts: Vec<&str>) -> FieldShape {
    FieldShape::Unnamed(ts.into_iter().map(|t| field(None, t, vec![])).collect())
}

fn variant(name: &str, shape: FieldShape) -> VariantDesc {
    VariantDesc { name: name.to_string(), shape, attrs: vec![] }
}

fn variant_with(name: &str, shape: FieldShape, attrs: Vec<RawAttr>) -> VariantDesc {
    VariantDesc { name: name.to_string(), shape, attrs }
}

fn enum_of(name: &str, vs: Vec<VariantDesc>) -> EnumDescription {
    EnumDescription {
        name: name.to_string(),
        type_params: vec![],
        lifetime_params: vec![],
        attrs: vec![],
        data: ItemData::Enum(vs),
    }
}

fn ok(r: Result<ModulePlan, DeriveError>) -> ModulePlan {
    match r {
        Ok(m) => m,
        Err(e) => panic!("derivation failed: {:?}", e),
    }
}

fn err(r: Result<ModulePlan, DeriveError>) -> DeriveError {
    match r {
        Ok(_) => panic!("derivation succeeded"),
        Err(e) => e,
    }
}

#[test]
fn test_unit_variants() {
    let d = enum_of("UnitEnum", vec![variant("A", FieldShape::Unit), variant("B", FieldShape::Unit), variant("C", FieldShape::Unit)]);
    let m = ok(derive_enum_events(&d, true));
    assert_eq!(m.name, "unit_enum");
    assert_eq!(m.types.len(), 3);
    for (i, t) in m.types.iter().enumerate() {
        assert_eq!(t.variant, i);
        assert_eq!(t.kind, TypeKind::Marker);
        assert!(t.fields.is_empty());
        assert!(!t.has_constructor());
    }
    assert!(!m.deref_import);
}

#[test]
fn player_state_scenario() {
    let d = enum_of("PlayerState", vec![variant("Idle", FieldShape::Unit), variant("Running", FieldShape::Unit), variant("Jumping", FieldShape::Unit)]);
    let m = ok(derive_enum_events(&d, true));
    assert_eq!(m.name, "player_state");
    assert_eq!(m.types.iter().map(|t| t.kind).collect::<Vec<_>>(), vec![TypeKind::Marker; 3]);
    assert_eq!(m.types.iter().map(|t| t.variant).collect::<Vec<_>>(), vec![0, 1, 2]);
}

#[test]
fn game_event_scenario() {
    let d = enum_of("GameEvent", vec![
        variant("Victory", tuple(vec!["String"])),
        variant("ScoreChanged", named(vec![("team", "u32"), ("score", "i32")])),
        variant("GameOver", FieldShape::Unit),
    ]);
    let m = ok(derive_enum_events(&d, true));
    assert_eq!(m.name, "game_event");
    assert_eq!(m.types[0].kind, TypeKind::Tuple);
    assert!(m.types[0].derives_deref);
    assert_eq!(m.types[0].deref_target, Some(0));
    assert_eq!(m.types[1].kind, TypeKind::Named);
    assert!(!m.types[1].derives_deref);
    assert_eq!(m.types[1].deref_target, None);
    assert_eq!(m.types[2].kind, TypeKind::Marker);
    assert!(m.deref_import);
}

#[test]
fn test_tuple_variants() {
    let d = enum_of("TupleEnum", vec![
        variant("Single", tuple(vec!["u32"])),
        variant("Multiple", tuple(vec!["String", "i32"])),
        variant("Empty", FieldShape::Unit),
    ]);
    let m = ok(derive_enum_events(&d, true));
    assert_eq!(m.types[0].kind, TypeKind::Tuple);
    assert_eq!(m.types[0].fields.len(), 1);
    assert_eq!(m.types[1].fields.len(), 2);
    assert!(!m.types[1].derives_deref);
    assert_eq!(m.types[2].kind, TypeKind::Marker);
}

#[test]
fn test_named_field_variants() {
    let d = enum_of("NamedEnum", vec![
        variant("SingleField", named(vec![("value", "u32")])),
        variant("MultipleFields", named(vec![("name", "String"), ("count", "i32")])),
        variant("NoFields", FieldShape::Unit),
    ]);
    let m = ok(derive_enum_events(&d, true));
    assert_eq!(m.types[0].kind, TypeKind::Named);
    assert!(m.types[0].fields[0].deref);
    assert!(!m.types[0].fields[0].deref_mut);
    assert_eq!(m.types[1].fields.len(), 2);
    assert!(!m.types[1].fields[0].deref && !m.types[1].fields[1].deref);
    assert_eq!(m.types[2].kind, TypeKind::Marker);
}

#[test]
fn test_mixed_variants() {
    let d = enum_of("MixedEnum", vec![
        variant("Unit", FieldShape::Unit),
        variant("Tuple", tuple(vec!["String"])),
        variant("Named", named(vec![("value", "i32")])),
    ]);
    let m = ok(derive_enum_events(&d, true));
    assert_eq!(m.name, "mixed_enum");
    let kinds: Vec<TypeKind> = m.types.iter().map(|t| t.kind).collect();
    assert_eq!(kinds, vec![TypeKind::Marker, TypeKind::Tuple, TypeKind::Named]);
}

#[test]
fn test_deref_tuple_variant() {
    let d = enum_of("DerefTuple", vec![variant("Value", tuple(vec!["String"]))]);
    let m = ok(derive_enum_events(&d, true));
    assert!(m.types[0].derives_deref);
    assert_eq!(m.types[0].deref_target, Some(0));
    let off = ok(derive_enum_events(&d, false));
    assert!(!off.types[0].derives_deref);
    assert!(!off.deref_import);
}

#[test]
fn test_deref_named_variant() {
    let d = enum_of("DerefNamed", vec![variant("Value", named(vec![("data", "String")]))]);
    let m = ok(derive_enum_events(&d, true));
    assert!(m.types[0].derives_deref);
    assert_eq!(m.types[0].deref_target, Some(0));
    assert!(m.types[0].fields[0].deref);
}

#[test]
fn test_multi_field_variants() {
    let d = enum_of("MultiField", vec![
        variant("Multiple", tuple(vec!["String", "i32"])),
        variant("MultipleNamed", named(vec![("a", "String"), ("b", "i32")])),
    ]);
    let m = ok(derive_enum_events(&d, true));
    for t in &m.types {
        assert!(!t.derives_deref);
        assert_eq!(t.deref_target, None);
        assert!(t.fields.iter().all(|f| !f.deref && !f.deref_mut));
    }
    assert!(!m.deref_import);
}

#[test]
fn test_multi_field_deref_with_attribute() {
    let d = enum_of("MultiFieldDeref", vec![
        variant("Tuple", FieldShape::Unnamed(vec![
            field(None, "String", vec![directive("deref")]),
            field(None, "i32", vec![]),
        ])),
        variant("Named", FieldShape::Named(vec![
            field(Some("other"), "i32", vec![]),
            field(Some("value"), "String", vec![directive("deref")]),
        ])),
    ]);
    let m = ok(derive_enum_events(&d, true));
    assert_eq!(m.types[0].deref_target, Some(0));
    assert!(m.types[0].fields[0].deref && !m.types[0].fields[1].deref);
    assert_eq!(m.types[1].deref_target, Some(1));
    assert!(!m.types[1].fields[0].deref && m.types[1].fields[1].deref);
}

#[test]
fn deref_mut_marker_implies_deref() {
    let d = enum_of("E", vec![variant("V", FieldShape::Named(vec![
        field(Some("a"), "u8", vec![]),
        field(Some("b"), "u8", vec![directive("deref_mut")]),
    ]))]);
    let m = ok(derive_enum_events(&d, true));
    assert_eq!(m.types[0].deref_target, Some(1));
    assert!(m.types[0].fields[1].deref && m.types[0].fields[1].deref_mut);
}

#[test]
fn bare_markers_and_passthrough() {
    let d = enum_of("E", vec![variant("V", FieldShape::Unnamed(vec![
        field(None, "u8", vec![bare("doc"), bare("deref"), bare("serde")]),
        field(None, "u8", vec![]),
    ]))]);
    let m = ok(derive_enum_events(&d, true));
    assert_eq!(m.types[0].deref_target, Some(0));
    assert_eq!(m.types[0].fields[0].passthrough, vec![0, 2]);
}

#[test]
fn two_deref_markers_fail() {
    let d = enum_of("E", vec![
        variant("Fine", FieldShape::Unit),
        variant("V", FieldShape::Named(vec![
            field(Some("a"), "u8", vec![directive("deref")]),
            field(Some("b"), "u8", vec![bare("deref")]),
        ])),
    ]);
    assert_eq!(err(derive_enum_events(&d, true)), DeriveError::DerefConflict { variant: 1 });
    assert_eq!(err(derive_enum_events(&d, false)), DeriveError::DerefConflict { variant: 1 });
}

#[test]
fn malformed_field_directive_fails() {
    let d = enum_of("E", vec![variant("V", FieldShape::Unnamed(vec![
        field(None, "u8", vec![]),
        field(None, "u8", vec![directive("deref = true")]),
    ]))]);
    assert_eq!(err(derive_enum_events(&d, true)), DeriveError::FieldAttribute { variant: 0, field: 1 });
    let bad = RawAttr { path: vec!["enum_event".to_string()], args: AttrArgs::Bare };
    let d = enum_of("E", vec![variant("V", FieldShape::Unnamed(vec![field(None, "u8", vec![bad])]))]);
    assert_eq!(err(derive_enum_events(&d, true)), DeriveError::FieldAttribute { variant: 0, field: 0 });
}

#[test]
fn not_an_enum_fails() {
    let mut d = enum_of("S", vec![]);
    d.data = ItemData::NotEnum;
    assert_eq!(err(derive_enum_events(&d, true)), DeriveError::NotAnEnum);
}

#[test]
fn test_generic_enum_support() {
    let mut d = enum_of("GenericEnum", vec![
        variant("Owned", tuple(vec!["T"])),
        variant("Pair", tuple(vec!["T", "u32"])),
        variant("Unit", FieldShape::Unit),
    ]);
    d.type_params = vec!["T".to_string()];
    let m = ok(derive_enum_events(&d, true));
    assert!(m.types[0].phantom_types.is_empty());
    assert!(!m.types[0].has_constructor());
    assert!(m.types[1].phantom_types.is_empty());
    assert_eq!(m.types[2].phantom_types, vec![0]);
    assert!(m.types[2].has_constructor());

    let mut b = enum_of("BorrowedEnum", vec![
        variant("Reference", FieldShape::Unnamed(vec![FieldDesc {
            name: None,
            mentions: vec![TypeMention::Lifetime("event".to_string()), TypeMention::Path("i32".to_string())],
            attrs: vec![],
        }])),
        variant("Unit", FieldShape::Unit),
    ]);
    b.lifetime_params = vec!["event".to_string()];
    let m = ok(derive_enum_events(&b, true));
    assert!(m.types[0].phantom_lifetimes.is_empty());
    assert!(m.types[0].derives_deref);
    assert_eq!(m.types[1].phantom_lifetimes, vec![0]);
}

#[test]
fn phantom_keeps_declared_order() {
    let mut d = enum_of("G", vec![variant("V", tuple(vec!["B"]))]);
    d.type_params = vec!["A".to_string(), "B".to_string(), "C".to_string()];
    d.lifetime_params = vec!["x".to_string(), "y".to_string()];
    let m = ok(derive_enum_events(&d, true));
    assert_eq!(m.types[0].phantom_types, vec![0, 2]);
    assert_eq!(m.types[0].phantom_lifetimes, vec![0, 1]);
}

#[test]
fn test_entity_event_basic() {
    let d = enum_of("EntityAction", vec![
        variant("Spawned", named(vec![("entity", "Entity")])),
        variant("Destroyed", named(vec![("entity", "Entity")])),
    ]);
    let m = ok(derive_enum_entity_events(&d, true));
    assert!(m.entity);
    assert_eq!(m.name, "entity_action");
    for t in &m.types {
        assert_eq!(t.entity_target, Some(0));
        assert!(t.fields[0].event_target);
        assert_eq!(t.propagation, None);
    }
}

#[test]
fn test_entity_event_with_data() {
    let d = enum_of("CombatEvent", vec![
        variant("Damaged", named(vec![("entity", "Entity"), ("amount", "f32")])),
        variant("Healed", named(vec![("amount", "f32"), ("entity", "Entity")])),
    ]);
    let m = ok(derive_enum_entity_events(&d, true));
    assert_eq!(m.types[0].entity_target, Some(0));
    assert_eq!(m.types[1].entity_target, Some(1));
    assert!(!m.types[1].fields[0].event_target && m.types[1].fields[1].event_target);
    assert!(!m.types[0].derives_deref);
}

#[test]
fn test_entity_event_custom_target() {
    let d = enum_of("AttackEvent", vec![variant("Hit", FieldShape::Named(vec![
        field(Some("attacker"), "Entity", vec![directive("target")]),
        field(Some("defender"), "Entity", vec![]),
    ]))]);
    let m = ok(derive_enum_entity_events(&d, true));
    assert_eq!(m.types[0].entity_target, Some(0));
    assert!(m.types[0].fields[0].event_target && !m.types[0].fields[1].event_target);
    let d = enum_of("AttackEvent", vec![variant("Hit", FieldShape::Named(vec![
        field(Some("attacker"), "Entity", vec![]),
        field(Some("defender"), "Entity", vec![bare("event_target")]),
    ]))]);
    assert_eq!(ok(derive_enum_entity_events(&d, true)).types[0].entity_target, Some(1));
}

#[test]
fn entity_target_errors() {
    let none = enum_of("E", vec![variant("V", named(vec![("a", "Entity")]))]);
    assert_eq!(err(derive_enum_entity_events(&none, true)), DeriveError::MissingTarget { variant: 0 });
    let two = enum_of("E", vec![variant("V", FieldShape::Named(vec![
        field(Some("entity"), "Entity", vec![]),
        field(Some("other"), "Entity", vec![directive("target")]),
    ]))]);
    assert_eq!(err(derive_enum_entity_events(&two, true)), DeriveError::MultipleTargets { variant: 0 });
    let unit = enum_of("E", vec![variant("V", FieldShape::Unit)]);
    assert_eq!(err(derive_enum_entity_events(&unit, true)), DeriveError::UnitEntityVariant { variant: 0 });
    let tup = enum_of("E", vec![variant("V", tuple(vec!["Entity"]))]);
    assert_eq!(err(derive_enum_entity_events(&tup, true)), DeriveError::TupleEntityVariant { variant: 0 });
    assert!(derive_enum_events(&none, true).is_ok());
}

#[test]
fn test_entity_event_propagate() {
    let mut d = enum_of("UiEvent", vec![
        variant("Click", named(vec![("entity", "Entity")])),
        variant("Hover", named(vec![("entity", "Entity")])),
    ]);
    d.attrs = vec![directive("propagate")];
    let m = ok(derive_enum_entity_events(&d, true));
    for t in &m.types {
        let p = t.propagation.unwrap();
        assert!(!p.auto_propagate);
        assert_eq!(p.relationship, RelationshipPlan::Default);
    }
    let plain = ok(derive_enum_events(&d, true));
    assert_eq!(plain.types[0].propagation, None);
}

#[test]
fn test_entity_event_custom_propagate() {
    let mut d = enum_of("HierarchyEvent", vec![
        variant("NodeAdded", named(vec![("entity", "Entity")])),
        variant("NodeRemoved", named(vec![("entity", "Entity")])),
    ]);
    d.attrs = vec![directive("propagate = &'static crate::CustomRelationship")];
    let m = ok(derive_enum_entity_events(&d, true));
    let p = m.types[1].propagation.unwrap();
    assert!(!p.auto_propagate);
    assert_eq!(p.relationship, RelationshipPlan::Custom { from_variant: false, attr: 0, start: 2, super_at: None });
}

#[test]
fn relative_relationship_gets_super() {
    let mut d = enum_of("E", vec![variant("V", named(vec![("entity", "Entity")]))]);
    d.attrs = vec![bare("allow"), directive("auto_propagate, propagate = &'static MountOf")];
    let m = ok(derive_enum_entity_events(&d, true));
    let p = m.types[0].propagation.unwrap();
    assert!(p.auto_propagate);
    // tokens: auto_propagate , propagate = & ' static MountOf
    assert_eq!(p.relationship, RelationshipPlan::Custom { from_variant: false, attr: 1, start: 4, super_at: Some(7) });
    d.attrs = vec![directive("propagate = ::bevy::prelude::ChildOf")];
    let p = ok(derive_enum_entity_events(&d, true)).types[0].propagation.unwrap();
    assert_eq!(p.relationship, RelationshipPlan::Custom { from_variant: false, attr: 0, start: 2, super_at: None });
    d.attrs = vec![directive("propagate = Rel")];
    let p = ok(derive_enum_entity_events(&d, true)).types[0].propagation.unwrap();
    assert_eq!(p.relationship, RelationshipPlan::Custom { from_variant: false, attr: 0, start: 2, super_at: Some(2) });
    d.attrs = vec![directive("propagate = Rel, auto_propagate")];
    let p = ok(derive_enum_entity_events(&d, true)).types[0].propagation.unwrap();
    assert!(!p.auto_propagate);
    assert_eq!(p.relationship, RelationshipPlan::Custom { from_variant: false, attr: 0, start: 2, super_at: None });
    d.attrs = vec![directive("propagate =")];
    let p = ok(derive_enum_entity_events(&d, true)).types[0].propagation.unwrap();
    assert_eq!(p.relationship, RelationshipPlan::Default);
}

#[test]
fn enum_level_unknown_key_fails() {
    let mut d = enum_of("E", vec![variant("V", named(vec![("entity", "Entity")]))]);
    d.attrs = vec![directive("deref")];
    assert_eq!(err(derive_enum_entity_events(&d, true)), DeriveError::EnumAttribute);
    d.attrs = vec![directive("propagate,, auto_propagate")];
    assert_eq!(err(derive_enum_entity_events(&d, true)), DeriveError::EnumAttribute);
}

#[test]
fn variant_level_malformed_fails() {
    let d = enum_of("E", vec![variant_with("V", named(vec![("entity", "Entity")]), vec![directive("auto_propagate propagate")])]);
    assert_eq!(err(derive_enum_entity_events(&d, true)), DeriveError::VariantAttribute { variant: 0 });
    let d = enum_of("E", vec![variant_with("V", named(vec![("entity", "Entity")]), vec![directive("other_key, propagate")])]);
    assert!(derive_enum_entity_events(&d, true).is_ok());
}

#[test]
fn test_entity_event_single_field_deref() {
    let d = enum_of("SingleFieldEntity", vec![variant("Ping", named(vec![("entity", "Entity")]))]);
    let m = ok(derive_enum_entity_events(&d, true));
    assert!(m.types[0].derives_deref);
    assert_eq!(m.types[0].deref_target, Some(0));
    assert!(m.types[0].fields[0].deref && m.types[0].fields[0].event_target);
}

#[test]
fn test_entity_event_multi_field_deref() {
    let d = enum_of("MultiFieldEntity", vec![variant("Score", FieldShape::Named(vec![
        field(Some("entity"), "Entity", vec![]),
        field(Some("points"), "u32", vec![directive("deref")]),
    ]))]);
    let m = ok(derive_enum_entity_events(&d, true));
    assert_eq!(m.types[0].deref_target, Some(1));
    assert_eq!(m.types[0].entity_target, Some(0));
}

#[test]
fn test_enum_level_propagate() {
    let mut d = enum_of("EnumLevelPropagateEvent", vec![
        variant("Action", named(vec![("entity", "Entity"), ("data", "u16")])),
        variant("Update", named(vec![("entity", "Entity")])),
    ]);
    d.attrs = vec![directive("propagate")];
    let m = ok(derive_enum_entity_events(&d, true));
    assert!(m.types.iter().all(|t| t.propagation.map(|p| p.relationship) == Some(RelationshipPlan::Default)));
}

#[test]
fn test_variant_level_override() {
    let mut d = enum_of("MixedPropagateEvent", vec![
        variant("Normal", named(vec![("entity", "Entity")])),
        variant_with("Auto", named(vec![("entity", "Entity")]), vec![directive("auto_propagate, propagate")]),
        variant_with("Custom", named(vec![("entity", "Entity")]), vec![directive("propagate = &'static ::bevy::prelude::ChildOf")]),
    ]);
    d.attrs = vec![directive("propagate")];
    let m = ok(derive_enum_entity_events(&d, true));
    let p: Vec<_> = m.types.iter().map(|t| t.propagation.unwrap()).collect();
    assert!(!p[0].auto_propagate && p[0].relationship == RelationshipPlan::Default);
    assert!(p[1].auto_propagate && p[1].relationship == RelationshipPlan::Default);
    assert!(!p[2].auto_propagate);
    assert_eq!(p[2].relationship, RelationshipPlan::Custom { from_variant: true, attr: 0, start: 2, super_at: None });
}

#[test]
fn test_variant_only_propagate() {
    let d = enum_of("VariantOnlyPropagateEvent", vec![
        variant("None", named(vec![("entity", "Entity")])),
        variant_with("Manual", named(vec![("entity", "Entity")]), vec![directive("propagate")]),
        variant_with("Auto", named(vec![("entity", "Entity")]), vec![directive("auto_propagate, propagate = &'static ::bevy::prelude::ChildOf")]),
    ]);
    let m = ok(derive_enum_entity_events(&d, true));
    assert_eq!(m.types[0].propagation, None);
    let manual = m.types[1].propagation.unwrap();
    assert!(!manual.auto_propagate && manual.relationship == RelationshipPlan::Default);
    let auto = m.types[2].propagation.unwrap();
    assert!(auto.auto_propagate);
    assert_eq!(auto.relationship, RelationshipPlan::Custom { from_variant: true, attr: 0, start: 4, super_at: None });
}

#[test]
fn test_auto_propagate_override() {
    let mut d = enum_of("AutoPropagateOverrideEvent", vec![
        variant("InheritAuto", named(vec![("entity", "Entity")])),
        variant_with("NoAutoCustomRel", named(vec![("entity", "Entity")]), vec![directive("propagate = &'static ::bevy::prelude::ChildOf")]),
        variant_with("WithAutoCustomRel", named(vec![("entity", "Entity")]), vec![directive("auto_propagate, propagate = &'static ::bevy::prelude::ChildOf")]),
    ]);
    d.attrs = vec![directive("auto_propagate, propagate")];
    let m = ok(derive_enum_entity_events(&d, true));
    let p: Vec<_> = m.types.iter().map(|t| t.propagation.unwrap()).collect();
    assert!(p[0].auto_propagate && p[0].relationship == RelationshipPlan::Default);
    assert!(!p[1].auto_propagate);
    assert!(matches!(p[1].relationship, RelationshipPlan::Custom { from_variant: true, .. }));
    assert!(p[2].auto_propagate);
}

#[test]
fn derive_module_matches_public_entry_points() {
    let d = enum_of("E", vec![variant("V", named(vec![("entity", "Entity")]))]);
    assert_eq!(ok(derive_module(&d, true, true)).types[0].entity_target, Some(0));
    assert_eq!(ok(derive_module(&d, false, true)).types[0].entity_target, None);
}

#[test]
fn group_tokens_in_relationship() {
    let mut d = enum_of("E", vec![variant("V", named(vec![("entity", "Entity")]))]);
    let mut t = lex("propagate = Wrapper");
    t.push(Tok::Group(Delim::Paren, lex("X")));
    d.attrs = vec![RawAttr { path: vec!["enum_event".to_string()], args: AttrArgs::List(t) }];
    let p = ok(derive_enum_entity_events(&d, true)).types[0].propagation.unwrap();
    assert_eq!(p.relationship, RelationshipPlan::Custom { from_variant: false, attr: 0, start: 2, super_at: None });
    let mut t = lex("propagate = &");
    t.push(Tok::Group(Delim::Paren, lex("Rel")));
    d.attrs = vec![RawAttr { path: vec!["enum_event".to_string()], args: AttrArgs::List(t) }];
    let p = ok(derive_enum_entity_events(&d, true)).types[0].propagation.unwrap();
    assert_eq!(p.relationship, RelationshipPlan::Custom { from_variant: false, attr: 0, start: 2, super_at: None });
}

#[test]
fn generic_fsm_transition_support() {
    let d = enum_of("GenericTransition", vec![variant("Custom", tuple(vec!["T"])), variant("Marker", tuple(vec!["PhantomData"]))]);
    assert_eq!(derive_fsm_tables(&d).err(), Some(DeriveError::StateWithFields { variant: 0 }));
    assert!(can_transition(0, 1));
}

#[test]
fn fsm_tables_cover_every_pair() {
    let d = enum_of("LifeFSM", vec![variant("Born", FieldShape::Unit), variant("Living", FieldShape::Unit), variant("Dead", FieldShape::Unit)]);
    let p = derive_fsm_tables(&d).ok().unwrap();
    assert_eq!(p.module, "life_fsm");
    assert_eq!(p.states, vec![0, 1, 2]);
    assert_eq!(p.transitions.len(), 9);
    for a in 0..3 {
        for b in 0..3 {
            assert_eq!(p.transitions.iter().filter(|&&x| x == (a, b)).count(), 1);
        }
    }
    assert_eq!(p.transitions[5], (1, 2));
    let e = enum_of("Empty", vec![]);
    let p = derive_fsm_tables(&e).ok().unwrap();
    assert!(p.states.is_empty() && p.transitions.is_empty());
}

#[test]
fn module_name_matches_helper() {
    for name in ["PlayerState", "HTTPServer", "LifeFSM", "MyHTTPSConnection"] {
        let d = enum_of(name, vec![variant("A", FieldShape::Unit)]);
        let m = ok(derive_enum_events(&d, true));
        assert_eq!(m.name, bevy_enum_event::naming::enum_module_ident(name));
    }
}
