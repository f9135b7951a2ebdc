use compound_error::ast::ArgItem;
use compound_error::ast::AttrPayload;
use compound_error::ast::DirectiveEntry;
use compound_error::ast::LitKind;
use compound_error::ast::RawAttr;
use compound_error::ast::Span;
use compound_error::ast::TypeDef;
use compound_error::ast::TypeRef;
use compound_error::ast::TypeShape;
use compound_error::ast::VariantDef;
use compound_error::ast::VariantFields;
use compound_error::schema::build_schema;
use compound_error::util::AttrArg;
use compound_error::util::AttrArgsError;
use compound_error::util::attr_args;
use compound_error::util::error;
use compound_error::util::flag;

fn sp(n: usize) -> Span {
    Span { lo: n, hi: n + 1 }
}

fn ident_ref(name: &str) -> TypeRef {
    TypeRef { segments: vec![name.to_string()], args: String::new() }
}

fn group() -> TypeRef {
    ident_ref("compound_error")
}

fn attr(entries: Vec<DirectiveEntry>) -> RawAttr {
    RawAttr { group: group(), payload: AttrPayload::Entries(entries), span: sp(0) }
}

fn bare(key: &str, n: usize) -> DirectiveEntry {
    DirectiveEntry::Bare(ident_ref(key), sp(n))
}

fn type_keys() -> Vec<String> {
    vec![
        "title".to_string(),
        "description".to_string(),
        "skip_display".to_string(),
        "skip_error".to_string(),
        "transparent".to_string(),
    ]
}

fn union_one(name: &str, v: VariantDef) -> TypeDef {
    TypeDef {
        ident: name.to_string(),
        type_params: vec![],
        generics_impl: String::new(),
        generics_type: String::new(),
        generics_where: String::new(),
        attrs: vec![],
        shape: TypeShape::TaggedUnion(vec![v]),
        span: sp(99),
    }
}

#[test]
fn annotations_of_other_groups_are_skipped() {
    let foreign = RawAttr {
        group: ident_ref("serde"),
        payload: AttrPayload::Value(sp(5)),
        span: sp(5),
    };
    let ds = attr_args(&vec![foreign], &"compound_error".to_string(), &type_keys()).unwrap();
    for e in &ds.entries {
        assert!(e.is_none());
    }
}

#[test]
fn bare_annotation_of_the_group_contributes_nothing() {
    let a = RawAttr { group: group(), payload: AttrPayload::Bare, span: sp(1) };
    let ds = attr_args(&vec![a], &"compound_error".to_string(), &type_keys()).unwrap();
    for e in &ds.entries {
        assert!(e.is_none());
    }
}

#[test]
fn parsing_twice_yields_equal_directive_sets() {
    let attrs = vec![attr(vec![
        bare("skip_display", 1),
        DirectiveEntry::WithValue(ident_ref("title"), sp(2), LitKind::Str("T".to_string()), sp(3)),
    ])];
    let key = "compound_error".to_string();
    let d1 = attr_args(&attrs, &key, &type_keys()).unwrap();
    let d2 = attr_args(&attrs, &key, &type_keys()).unwrap();
    assert_eq!(d1, d2);
}

#[test]
fn recognized_keys_land_under_their_slot() {
    let attrs = vec![attr(vec![bare("skip_error", 4)])];
    let ds = attr_args(&attrs, &"compound_error".to_string(), &type_keys()).unwrap();
    assert!(ds.entries[3].is_some());
    assert!(ds.entries[0].is_none());
    assert_eq!(flag(&ds, &"skip_error".to_string()), Ok(true));
    assert_eq!(flag(&ds, &"skip_display".to_string()), Ok(false));
}

#[test]
fn flag_with_arguments_is_refused_with_its_span() {
    let attrs = vec![attr(vec![DirectiveEntry::WithList(
        ident_ref("skip_error"),
        sp(4),
        vec![ArgItem::Path(ident_ref("x"), sp(5))],
    )])];
    let ds = attr_args(&attrs, &"compound_error".to_string(), &type_keys()).unwrap();
    assert_eq!(flag(&ds, &"skip_error".to_string()), Err(sp(4)));
}

#[test]
fn unknown_key_is_an_invalid_argument() {
    let attrs = vec![attr(vec![bare("bogus", 7)])];
    let err = attr_args(&attrs, &"compound_error".to_string(), &type_keys()).unwrap_err();
    assert_eq!(err, AttrArgsError::InvalidArg(sp(7)));
    let d = err.explain();
    assert_eq!(d.message, "Invalid argument.");
    assert_eq!(d.span, sp(7));
}

#[test]
fn repeated_key_is_a_duplicate_argument() {
    let attrs = vec![attr(vec![bare("transparent", 1), bare("transparent", 8)])];
    let err = attr_args(&attrs, &"compound_error".to_string(), &type_keys()).unwrap_err();
    assert_eq!(err, AttrArgsError::DuplicateArg(sp(8)));
    assert_eq!(err.explain().message, "Duplicate argument.");
}

#[test]
fn duplicate_across_two_annotations_is_caught_too() {
    let attrs = vec![attr(vec![bare("transparent", 1)]), attr(vec![bare("transparent", 9)])];
    let err = attr_args(&attrs, &"compound_error".to_string(), &type_keys()).unwrap_err();
    assert_eq!(err, AttrArgsError::DuplicateArg(sp(9)));
}

#[test]
fn first_level_literal_is_refused() {
    let attrs = vec![attr(vec![DirectiveEntry::Literal(sp(6))])];
    let err = attr_args(&attrs, &"compound_error".to_string(), &type_keys()).unwrap_err();
    assert_eq!(err, AttrArgsError::LitArg(sp(6)));
    assert_eq!(err.explain().message, "Invalid first-level literal.");
}

#[test]
fn name_value_annotation_is_refused() {
    let a = RawAttr { group: group(), payload: AttrPayload::Value(sp(2)), span: sp(1) };
    let err = attr_args(&vec![a], &"compound_error".to_string(), &type_keys()).unwrap_err();
    assert_eq!(err, AttrArgsError::NoNestedMeta(sp(2)));
    assert_eq!(err.explain().message, "Invalid name-value pair. Expected path or list.");
}

#[test]
fn unparsable_annotation_is_refused() {
    let a = RawAttr { group: group(), payload: AttrPayload::Unparsed, span: sp(3) };
    let err = attr_args(&vec![a], &"compound_error".to_string(), &type_keys()).unwrap_err();
    assert_eq!(err, AttrArgsError::NoMeta(sp(3)));
    assert_eq!(err.explain().message, "Must be of 'meta' type.");
}

#[test]
fn error_builds_a_positioned_diagnostic() {
    let d = error(sp(11), "boom");
    assert_eq!(d.span, sp(11));
    assert_eq!(d.message, "boom");
}

#[test]
fn attr_arg_new_keeps_its_parts() {
    let a = AttrArg::new(ident_ref("title"), sp(1), vec![ArgItem::OtherLit(sp(2))]);
    assert_eq!(a.path, ident_ref("title"));
    assert_eq!(a.span, sp(1));
    assert_eq!(a.values, vec![ArgItem::OtherLit(sp(2))]);
}

#[test]
fn title_arity_is_checked() {
    let mut def = union_one(
        "Foo",
        VariantDef {
            ident: "A".to_string(),
            fields: VariantFields::Unnamed(vec![Some(ident_ref("X"))]),
            attrs: vec![],
        },
    );
    def.attrs = vec![attr(vec![DirectiveEntry::WithList(
        ident_ref("title"),
        sp(1),
        vec![ArgItem::Str("a".to_string(), sp(2)), ArgItem::Str("b".to_string(), sp(3))],
    )])];
    let err = build_schema(&def).unwrap_err();
    assert_eq!(err.message, "'title' takes exactly one string argument!");
    assert_eq!(err.span, sp(1));
}

#[test]
fn title_must_be_a_string() {
    let mut def = union_one(
        "Foo",
        VariantDef {
            ident: "A".to_string(),
            fields: VariantFields::Unnamed(vec![Some(ident_ref("X"))]),
            attrs: vec![],
        },
    );
    def.attrs = vec![attr(vec![DirectiveEntry::WithValue(
        ident_ref("title"),
        sp(1),
        LitKind::Other,
        sp(2),
    )])];
    let err = build_schema(&def).unwrap_err();
    assert_eq!(err.message, "'title' argument must be a string!");
}

#[test]
fn description_arity_is_checked() {
    let mut def = union_one(
        "Foo",
        VariantDef {
            ident: "A".to_string(),
            fields: VariantFields::Unnamed(vec![Some(ident_ref("X"))]),
            attrs: vec![],
        },
    );
    def.attrs = vec![attr(vec![DirectiveEntry::WithList(ident_ref("description"), sp(1), vec![])])];
    let err = build_schema(&def).unwrap_err();
    assert_eq!(err.message, "'description' takes exactly one string argument!");
}

#[test]
fn flag_directive_with_arguments_names_itself() {
    let mut def = union_one(
        "Foo",
        VariantDef {
            ident: "A".to_string(),
            fields: VariantFields::Unnamed(vec![Some(ident_ref("X"))]),
            attrs: vec![],
        },
    );
    def.attrs = vec![attr(vec![DirectiveEntry::WithList(
        ident_ref("skip_display"),
        sp(1),
        vec![ArgItem::Path(ident_ref("x"), sp(2))],
    )])];
    let err = build_schema(&def).unwrap_err();
    assert_eq!(err.message, "'skip_display' attribute takes no arguments!");
    assert_eq!(err.span, sp(1));
}

#[test]
fn variant_needs_exactly_one_unnamed_field() {
    let def = union_one(
        "Foo",
        VariantDef { ident: "A".to_string(), fields: VariantFields::Named, attrs: vec![] },
    );
    let err = build_schema(&def).unwrap_err();
    assert_eq!(err.message, "Variant 'A' must specify exactly one unnamed field!");
    assert_eq!(err.span, sp(99));
    let def2 = union_one(
        "Foo",
        VariantDef {
            ident: "B".to_string(),
            fields: VariantFields::Unnamed(vec![Some(ident_ref("X")), Some(ident_ref("Y"))]),
            attrs: vec![],
        },
    );
    let err2 = build_schema(&def2).unwrap_err();
    assert_eq!(err2.message, "Variant 'B' must specify exactly one unnamed field!");
}

#[test]
fn variant_payload_must_be_a_named_type() {
    let def = union_one(
        "Foo",
        VariantDef {
            ident: "A".to_string(),
            fields: VariantFields::Unnamed(vec![None]),
            attrs: vec![],
        },
    );
    let err = build_schema(&def).unwrap_err();
    assert_eq!(
        err.message,
        "Variant 'A' must specify exactly one unnamed field referencing a type!"
    );
}

#[test]
fn other_shapes_are_refused() {
    let def = TypeDef {
        ident: "Foo".to_string(),
        type_params: vec![],
        generics_impl: String::new(),
        generics_type: String::new(),
        generics_where: String::new(),
        attrs: vec![],
        shape: TypeShape::Other,
        span: sp(42),
    };
    let err = build_schema(&def).unwrap_err();
    assert_eq!(err.message, "Can only be used on enums!");
    assert_eq!(err.span, sp(42));
}

#[test]
fn convert_source_arity_and_shape_are_checked() {
    let def = union_one(
        "Foo",
        VariantDef {
            ident: "A".to_string(),
            fields: VariantFields::Unnamed(vec![Some(ident_ref("X"))]),
            attrs: vec![attr(vec![DirectiveEntry::WithList(
                ident_ref("convert_source"),
                sp(1),
                vec![],
            )])],
        },
    );
    let err = build_schema(&def).unwrap_err();
    assert_eq!(err.message, "'convert_source' takes exactly one argument!");
    let def2 = union_one(
        "Foo",
        VariantDef {
            ident: "A".to_string(),
            fields: VariantFields::Unnamed(vec![Some(ident_ref("X"))]),
            attrs: vec![attr(vec![DirectiveEntry::WithValue(
                ident_ref("convert_source"),
                sp(1),
                LitKind::Str("f".to_string()),
                sp(2),
            )])],
        },
    );
    let err2 = build_schema(&def2).unwrap_err();
    assert_eq!(err2.message, "The argument of 'convert_source' must be a path!");
}

#[test]
fn inline_from_rejects_nested_entries() {
    let def = union_one(
        "Foo",
        VariantDef {
            ident: "A".to_string(),
            fields: VariantFields::Unnamed(vec![Some(ident_ref("X"))]),
            attrs: vec![attr(vec![DirectiveEntry::WithList(
                ident_ref("inline_from"),
                sp(1),
                vec![ArgItem::Nested(sp(2))],
            )])],
        },
    );
    let err = build_schema(&def).unwrap_err();
    assert_eq!(err.message, "'inline_from' attribute must be a list of types!");
    assert_eq!(err.span, sp(1));
}

#[test]
fn variant_level_keys_differ_from_type_level_keys() {
    let mut def = union_one(
        "Foo",
        VariantDef {
            ident: "A".to_string(),
            fields: VariantFields::Unnamed(vec![Some(ident_ref("X"))]),
            attrs: vec![],
        },
    );
    def.attrs = vec![attr(vec![bare("no_source", 5)])];
    let err = build_schema(&def).unwrap_err();
    assert_eq!(err.message, "Invalid argument.");
    assert_eq!(err.span, sp(5));
}
