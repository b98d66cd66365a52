use openrpc_typegen::generate::{
    generate_types, resolve_types, GenError, RustTypeKind, SkipReason,
};
use openrpc_typegen::overrides::get_field_type_override;
use openrpc_typegen::profile::{ArcWrapEntry, FixedFieldEntry, FlattenOption, Profile};
use openrpc_typegen::resolve::{SchemaError, ShapeIssue};
use openrpc_typegen::schema::{
    AllOf, ArrayPrimitive, BooleanPrimitive, Components, IntegerPrimitive, NamedSchema, ObjectPrimitive,
    OneOf, Primitive, Property, Reference, Schema, SchemaDoc, Specification, StringPrimitive,
};

fn doc_none() -> SchemaDoc {
    SchemaDoc { title: None, description: None, summary: None }
}

fn reference(name: &str) -> Schema {
    Schema::Ref(Reference { doc: doc_none(), name: name.to_string() })
}

fn object(props: Vec<(&str, Schema)>) -> Schema {
    Schema::Primitive(Primitive::Object(ObjectPrimitive {
        doc: doc_none(),
        properties: props
            .into_iter()
            .map(|(n, s)| Property { name: n.to_string(), schema: s })
            .collect(),
    }))
}

fn integer() -> Schema {
    Schema::Primitive(Primitive::Integer(IntegerPrimitive { doc: doc_none() }))
}

fn boolean() -> Schema {
    Schema::Primitive(Primitive::Boolean(BooleanPrimitive { doc: doc_none() }))
}

fn string_enum(values: Vec<&str>) -> Schema {
    Schema::Primitive(Primitive::Str(StringPrimitive {
        doc: doc_none(),
        enum_values: Some(values.into_iter().map(|v| v.to_string()).collect()),
    }))
}

fn plain_string() -> Schema {
    Schema::Primitive(Primitive::Str(StringPrimitive { doc: doc_none(), enum_values: None }))
}

fn spec_of(entries: Vec<(&str, Schema)>) -> Specification {
    Specification {
        components: Components {
            schemas: entries
                .into_iter()
                .map(|(n, s)| NamedSchema { name: n.to_string(), schema: s })
                .collect(),
        },
    }
}

#[test]
fn override_table_entries() {
    let ft = get_field_type_override("ADDRESS").unwrap();
    assert_eq!(ft.ty, "FieldElement");
    assert_eq!(ft.serde_as.as_deref(), Some("UfeHex"));
    let ft = get_field_type_override("BLOCK_NUMBER").unwrap();
    assert_eq!(ft.ty, "u64");
    assert!(ft.serde_as.is_none());
    let ft = get_field_type_override("NUM_AS_HEX").unwrap();
    assert_eq!(ft.ty, "u64");
    assert_eq!(ft.serde_as.as_deref(), Some("NumAsHex"));
    let ft = get_field_type_override("SIGNATURE").unwrap();
    assert_eq!(ft.ty, "Vec<FieldElement>");
    assert_eq!(ft.serde_as.as_deref(), Some("Vec<UfeHex>"));
    assert!(get_field_type_override("SOMETHING_ELSE").is_none());
    // The table is case-sensitive.
    assert!(get_field_type_override("address").is_none());
}

#[test]
fn enum_generation_end_to_end() {
    let specs = spec_of(vec![("FOO", string_enum(vec!["a", "b"]))]);
    let generated = resolve_types(&specs).unwrap();
    assert!(generated.skipped.is_empty());
    assert_eq!(generated.types.len(), 1);
    let t = &generated.types[0];
    assert_eq!(t.name, "Foo");
    match &t.content {
        RustTypeKind::Enum(e) => {
            assert_eq!(e.variants.len(), 2);
            assert_eq!(e.variants[0].name, "A");
            assert_eq!(e.variants[0].serde_name, "a");
            assert_eq!(e.variants[1].name, "B");
            assert_eq!(e.variants[1].serde_name, "b");
        }
        _ => panic!("expected an enum"),
    }
}

#[test]
fn all_of_flattens_in_order() {
    let specs = spec_of(vec![
        ("BASE", object(vec![("x", integer())])),
        (
            "COMBINED",
            Schema::AllOf(AllOf {
                doc: doc_none(),
                all_of: vec![reference("BASE"), object(vec![("extra", boolean())])],
            }),
        ),
    ]);
    let generated = resolve_types(&specs).unwrap();
    assert_eq!(generated.types.len(), 2);
    let combined = &generated.types[1];
    assert_eq!(combined.name, "Combined");
    match &combined.content {
        RustTypeKind::Struct(s) => {
            assert_eq!(s.fields.len(), 2);
            assert_eq!(s.fields[0].name, "x");
            assert_eq!(s.fields[0].ty, "u64");
            assert_eq!(s.fields[1].name, "extra");
            assert_eq!(s.fields[1].ty, "bool");
        }
        _ => panic!("expected a struct"),
    }
}

#[test]
fn reference_redirection_matches_direct() {
    // A schema that is only a pointer to an object flattens to the same
    // fields as the object itself.
    let specs = spec_of(vec![
        ("INNER", object(vec![("a", integer()), ("b", plain_string())])),
        (
            "OUTER",
            Schema::AllOf(AllOf { doc: doc_none(), all_of: vec![reference("INNER")] }),
        ),
    ]);
    let generated = resolve_types(&specs).unwrap();
    let inner = &generated.types[0];
    let outer = &generated.types[1];
    match (&inner.content, &outer.content) {
        (RustTypeKind::Struct(i), RustTypeKind::Struct(o)) => {
            assert_eq!(i.fields.len(), o.fields.len());
            for (fi, fo) in i.fields.iter().zip(o.fields.iter()) {
                assert_eq!(fi.name, fo.name);
                assert_eq!(fi.ty, fo.ty);
            }
        }
        _ => panic!("expected structs"),
    }
}

#[test]
fn overridden_name_not_declared_and_used_in_fields() {
    let specs = spec_of(vec![
        ("ADDRESS", plain_string()),
        ("USE_IT", object(vec![("owner", reference("ADDRESS"))])),
    ]);
    let generated = resolve_types(&specs).unwrap();
    assert_eq!(generated.types.len(), 1);
    let t = &generated.types[0];
    assert_eq!(t.name, "UseIt");
    match &t.content {
        RustTypeKind::Struct(s) => {
            assert_eq!(s.fields[0].ty, "FieldElement");
            assert_eq!(s.fields[0].serde_as.as_deref(), Some("UfeHex"));
        }
        _ => panic!("expected a struct"),
    }
}

#[test]
fn array_wraps_type_and_hint() {
    let specs = spec_of(vec![
        ("TXN_HASH", plain_string()),
        (
            "LIST_HOLDER",
            object(vec![(
                "hashes",
                Schema::Primitive(Primitive::Array(ArrayPrimitive {
                    doc: doc_none(),
                    items: Box::new(reference("TXN_HASH")),
                })),
            )]),
        ),
    ]);
    let generated = resolve_types(&specs).unwrap();
    assert_eq!(generated.types.len(), 1);
    match &generated.types[0].content {
        RustTypeKind::Struct(s) => {
            assert_eq!(s.fields[0].ty, "Vec<FieldElement>");
            assert_eq!(s.fields[0].serde_as.as_deref(), Some("Vec<UfeHex>"));
        }
        _ => panic!("expected a struct"),
    }
}

#[test]
fn wrapper_generated_for_top_level_reference() {
    let specs = spec_of(vec![
        ("TARGET", object(vec![("x", integer())])),
        ("ALIAS", reference("TARGET")),
    ]);
    let generated = resolve_types(&specs).unwrap();
    assert_eq!(generated.types.len(), 2);
    let alias = &generated.types[1];
    assert_eq!(alias.name, "Alias");
    match &alias.content {
        RustTypeKind::Wrapper(w) => assert_eq!(w.ty, "Target"),
        _ => panic!("expected a wrapper"),
    }
}

#[test]
fn missing_reference_in_fields_skips_schema() {
    let specs = spec_of(vec![
        ("GOOD", object(vec![("x", integer())])),
        ("BAD", object(vec![("y", reference("MISSING"))])),
    ]);
    let generated = resolve_types(&specs).unwrap();
    assert_eq!(generated.types.len(), 1);
    assert_eq!(generated.types[0].name, "Good");
    assert_eq!(generated.skipped.len(), 1);
    assert_eq!(generated.skipped[0].name, "BAD");
    assert!(matches!(
        generated.skipped[0].reason,
        SkipReason::Flatten(SchemaError::UnresolvedReference(ref n)) if n == "MISSING"
    ));
}

#[test]
fn missing_reference_at_top_level_fails_run() {
    let specs = spec_of(vec![("BAD", reference("MISSING"))]);
    let err = match resolve_types(&specs) {
        Err(e) => e,
        Ok(_) => panic!("expected the run to fail"),
    };
    assert!(matches!(
        err,
        GenError::Schema(SchemaError::UnresolvedReference(ref n)) if n == "MISSING"
    ));
}

#[test]
fn one_of_top_level_is_skipped_with_warning() {
    let specs = spec_of(vec![(
        "CHOICE",
        Schema::OneOf(OneOf { doc: doc_none(), one_of: vec![integer(), boolean()] }),
    )]);
    let generated = resolve_types(&specs).unwrap();
    assert!(generated.types.is_empty());
    assert_eq!(generated.skipped.len(), 1);
    assert!(matches!(generated.skipped[0].reason, SkipReason::OneOfUnimplemented));
}

#[test]
fn anonymous_shapes_rejected_as_properties() {
    let one_of_prop = spec_of(vec![(
        "HOLDER",
        object(vec![(
            "p",
            Schema::OneOf(OneOf { doc: doc_none(), one_of: vec![integer()] }),
        )]),
    )]);
    let generated = resolve_types(&one_of_prop).unwrap();
    assert!(matches!(
        generated.skipped[0].reason,
        SkipReason::Flatten(SchemaError::InvalidSchemaShape(ShapeIssue::UnionProperty))
    ));

    let all_of_prop = spec_of(vec![(
        "HOLDER",
        object(vec![(
            "p",
            Schema::AllOf(AllOf { doc: doc_none(), all_of: vec![integer()] }),
        )]),
    )]);
    let generated = resolve_types(&all_of_prop).unwrap();
    assert!(matches!(
        generated.skipped[0].reason,
        SkipReason::Flatten(SchemaError::InvalidSchemaShape(ShapeIssue::CompositionProperty))
    ));

    let obj_prop = spec_of(vec![("HOLDER", object(vec![("p", object(vec![]))]))]);
    let generated = resolve_types(&obj_prop).unwrap();
    assert!(matches!(
        generated.skipped[0].reason,
        SkipReason::Flatten(SchemaError::InvalidSchemaShape(ShapeIssue::ObjectProperty))
    ));
}

#[test]
fn non_enum_string_at_top_level_fails_run() {
    let specs = spec_of(vec![("PLAIN", plain_string())]);
    let err = match resolve_types(&specs) {
        Err(e) => e,
        Ok(_) => panic!("expected the run to fail"),
    };
    assert!(matches!(err, GenError::NonEnumString));
}

#[test]
fn unexpected_top_level_primitive_fails_run() {
    let specs = spec_of(vec![("FLAG", boolean())]);
    let err = match resolve_types(&specs) {
        Err(e) => e,
        Ok(_) => panic!("expected the run to fail"),
    };
    assert!(matches!(err, GenError::UnexpectedTopLevelShape));
}

#[test]
fn reference_cycle_is_reported_not_overflowed() {
    let specs = spec_of(vec![
        (
            "A",
            Schema::AllOf(AllOf { doc: doc_none(), all_of: vec![reference("B")] }),
        ),
        (
            "B",
            Schema::AllOf(AllOf { doc: doc_none(), all_of: vec![reference("A")] }),
        ),
    ]);
    let generated = resolve_types(&specs).unwrap();
    assert!(generated.types.is_empty());
    assert_eq!(generated.skipped.len(), 2);
    for s in &generated.skipped {
        assert!(matches!(s.reason, SkipReason::Flatten(SchemaError::CyclicReference)));
    }
}

#[test]
fn profile_ignore_list_excludes_schema() {
    let specs = spec_of(vec![
        ("KEEP", object(vec![("x", integer())])),
        ("DROP", object(vec![("y", integer())])),
    ]);
    let profile = Profile {
        flatten: FlattenOption::All,
        ignore_types: vec!["DROP".to_string()],
        fixed_fields: vec![],
        arc_wrapped: vec![],
    };
    let generated = generate_types(&specs, &profile).unwrap();
    assert_eq!(generated.types.len(), 1);
    assert_eq!(generated.types[0].name, "Keep");
    assert!(generated.skipped.is_empty());
}

#[test]
fn profile_fixed_field_and_arc_wrap() {
    let specs = spec_of(vec![(
        "EVENT",
        object(vec![("kind", plain_string()), ("payload", plain_string())]),
    )]);
    let profile = Profile {
        flatten: FlattenOption::All,
        ignore_types: vec![],
        fixed_fields: vec![FixedFieldEntry {
            schema_name: "EVENT".to_string(),
            field_name: "kind".to_string(),
            value: "\"EVENT\"".to_string(),
            must_be_present: true,
        }],
        arc_wrapped: vec![ArcWrapEntry {
            schema_name: "EVENT".to_string(),
            field_name: "payload".to_string(),
        }],
    };
    let generated = generate_types(&specs, &profile).unwrap();
    match &generated.types[0].content {
        RustTypeKind::Struct(s) => {
            let kind = &s.fields[0];
            assert_eq!(kind.name, "kind");
            let fixed = kind.fixed.as_ref().unwrap();
            assert_eq!(fixed.value, "\"EVENT\"");
            assert!(fixed.must_be_present);
            let payload = &s.fields[1];
            assert_eq!(payload.ty, "Arc<String>");
            assert!(payload.fixed.is_none());
        }
        _ => panic!("expected a struct"),
    }
}

#[test]
fn field_documentation_precedence_and_normalization() {
    let documented = Schema::Primitive(Primitive::Str(StringPrimitive {
        doc: SchemaDoc {
            title: None,
            description: Some("the starknet field".to_string()),
            summary: Some("unused".to_string()),
        },
        enum_values: None,
    }));
    let specs = spec_of(vec![("HOLDER", object(vec![("f", documented)]))]);
    let generated = resolve_types(&specs).unwrap();
    match &generated.types[0].content {
        RustTypeKind::Struct(s) => {
            // One-line field documentation is normalized without a forced period.
            assert_eq!(s.fields[0].description.as_deref(), Some("The StarkNet field"));
        }
        _ => panic!("expected a struct"),
    }
}

#[test]
fn type_documentation_forces_period() {
    let mut schema_doc = doc_none();
    schema_doc.title = Some("a title".to_string());
    schema_doc.summary = Some("from the summary".to_string());
    let specs = spec_of(vec![(
        "THING",
        Schema::Primitive(Primitive::Object(ObjectPrimitive { doc: schema_doc, properties: vec![] })),
    )]);
    let generated = resolve_types(&specs).unwrap();
    let t = &generated.types[0];
    assert_eq!(t.title.as_deref(), Some("A title."));
    // Description falls back to the summary when absent.
    assert_eq!(t.description.as_deref(), Some("From the summary."));
}
