use compound_error::ast::ArgItem;
use compound_error::ast::AttrPayload;
use compound_error::ast::DirectiveEntry;
use compound_error::ast::LitKind;
use compound_error::ast::PathOrLit;
use compound_error::ast::RawAttr;
use compound_error::ast::Span;
use compound_error::ast::TypeDef;
use compound_error::ast::TypeRef;
use compound_error::ast::TypeShape;
use compound_error::ast::VariantDef;
use compound_error::ast::VariantFields;
use compound_error::derive_compound_error;
use compound_error::resolve::resolve;
use compound_error::resolve::verify_coverage;
use compound_error::schema::SchemaKind;
use compound_error::schema::build_schema;
use compound_error::semantics::CompositeValue;
use compound_error::semantics::PayloadValue;
use compound_error::semantics::SourceOutcome;
use compound_error::semantics::convert_flattened;
use compound_error::semantics::convert_single;
use compound_error::semantics::render_record;
use compound_error::semantics::render_value;
use compound_error::semantics::source_of;

fn sp(n: usize) -> Span {
    Span { lo: n, hi: n + 1 }
}

fn ident_ref(name: &str) -> TypeRef {
    TypeRef { segments: vec![name.to_string()], args: String::new() }
}

fn group() -> TypeRef {
    ident_ref("compound_error")
}

fn attr(entries: Vec<DirectiveEntry>) -> RawAttr {
    RawAttr { group: group(), payload: AttrPayload::Entries(entries), span: sp(0) }
}

fn bare(key: &str, n: usize) -> DirectiveEntry {
    DirectiveEntry::Bare(ident_ref(key), sp(n))
}

fn variant(name: &str, payload: &str, attrs: Vec<RawAttr>) -> VariantDef {
    VariantDef {
        ident: name.to_string(),
        fields: VariantFields::Unnamed(vec![Some(ident_ref(payload))]),
        attrs,
    }
}

fn union_def(name: &str, variants: Vec<VariantDef>) -> TypeDef {
    TypeDef {
        ident: name.to_string(),
        type_params: vec![],
        generics_impl: String::new(),
        generics_type: String::new(),
        generics_where: String::new(),
        attrs: vec![],
        shape: TypeShape::TaggedUnion(variants),
        span: sp(99),
    }
}

fn inline_from(targets: Vec<ArgItem>) -> RawAttr {
    attr(vec![DirectiveEntry::WithList(ident_ref("inline_from"), sp(2), targets)])
}

#[test]
fn plain_union_renders_and_chains() {
    let def = union_def("Foo", vec![variant("A", "X", vec![]), variant("B", "Y", vec![])]);
    let schema = build_schema(&def).unwrap();
    assert_eq!(schema.title, "Foo");
    assert_eq!(schema.description, "");
    assert!(!schema.skip_display);
    assert!(!schema.skip_error);
    assert!(!schema.transparent);
    let res = resolve(&schema, def.span).unwrap();
    assert_eq!(res.single_from.len(), 2);
    let payload = PayloadValue { rendered: "boom".to_string() };
    let cv = convert_single(&res, &ident_ref("X"), payload).unwrap();
    assert_eq!(cv.variant, "A");
    assert_eq!(render_value(&schema, &cv), "Foo:\n  └ boom");
    match source_of(&schema, &cv) {
        SourceOutcome::Payload(p) => assert_eq!(p.rendered, "boom"),
        other => panic!("expected the payload back, got {:?}", other),
    }
}

#[test]
fn single_from_count_matches_eligible_variants() {
    let mut def = union_def(
        "Foo",
        vec![
            variant("A", "X", vec![]),
            variant("B", "Y", vec![attr(vec![bare("skip_single_from", 1)])]),
            variant("C", "T", vec![]),
        ],
    );
    def.type_params = vec!["T".to_string()];
    let schema = build_schema(&def).unwrap();
    let res = resolve(&schema, def.span).unwrap();
    assert_eq!(res.single_from.len(), 1);
    assert_eq!(res.single_from[0].variant, "A");
    let skipped = convert_single(&res, &ident_ref("Y"), PayloadValue { rendered: "y".to_string() });
    assert!(skipped.is_none());
    let generic = convert_single(&res, &ident_ref("T"), PayloadValue { rendered: "t".to_string() });
    assert!(generic.is_none());
}

#[test]
fn base_type_matching_ignores_generic_arguments() {
    let mut def = union_def(
        "Foo",
        vec![VariantDef {
            ident: "A".to_string(),
            fields: VariantFields::Unnamed(vec![Some(TypeRef {
                segments: vec!["T".to_string()],
                args: "<X>".to_string(),
            })]),
            attrs: vec![],
        }],
    );
    def.type_params = vec!["T".to_string()];
    let schema = build_schema(&def).unwrap();
    let res = resolve(&schema, def.span).unwrap();
    assert_eq!(res.single_from.len(), 0);
}

#[test]
fn no_source_variant_has_no_cause_and_shows_its_name() {
    let def = union_def(
        "Foo",
        vec![variant("C", "Z", vec![attr(vec![bare("no_source", 1)])])],
    );
    let schema = build_schema(&def).unwrap();
    let cv = CompositeValue {
        variant: "C".to_string(),
        payload: PayloadValue { rendered: "zzz".to_string() },
    };
    assert_eq!(source_of(&schema, &cv), SourceOutcome::Nothing);
    assert_eq!(render_value(&schema, &cv), "Foo:\n  └ C");
}

#[test]
fn transparent_variant_renders_payload_alone() {
    let def = union_def(
        "Foo",
        vec![variant("E", "X", vec![attr(vec![bare("transparent", 1)])])],
    );
    let schema = build_schema(&def).unwrap();
    let cv = CompositeValue {
        variant: "E".to_string(),
        payload: PayloadValue { rendered: "inner text".to_string() },
    };
    assert_eq!(render_value(&schema, &cv), "inner text");
    match source_of(&schema, &cv) {
        SourceOutcome::Delegated(p) => assert_eq!(p.rendered, "inner text"),
        other => panic!("expected delegation, got {:?}", other),
    }
}

#[test]
fn no_source_wins_over_transparent() {
    let def = union_def(
        "Foo",
        vec![variant("E", "X", vec![attr(vec![bare("transparent", 1), bare("no_source", 2)])])],
    );
    let schema = build_schema(&def).unwrap();
    let cv = CompositeValue {
        variant: "E".to_string(),
        payload: PayloadValue { rendered: "inner".to_string() },
    };
    assert_eq!(source_of(&schema, &cv), SourceOutcome::Nothing);
    assert_eq!(render_value(&schema, &cv), "inner");
}

#[test]
fn type_wide_transparent_reaches_every_variant() {
    let mut def = union_def("Foo", vec![variant("A", "X", vec![])]);
    def.attrs = vec![attr(vec![bare("transparent", 1)])];
    let schema = build_schema(&def).unwrap();
    assert!(schema.transparent);
    assert!(schema.variants[0].transparent);
    let cv = CompositeValue {
        variant: "A".to_string(),
        payload: PayloadValue { rendered: "just this".to_string() },
    };
    assert_eq!(render_value(&schema, &cv), "just this");
}

#[test]
fn title_and_description_shape_the_header() {
    let mut def = union_def("Foo", vec![variant("A", "X", vec![])]);
    def.attrs = vec![attr(vec![
        DirectiveEntry::WithValue(ident_ref("title"), sp(1), LitKind::Str("Oops".to_string()), sp(2)),
        DirectiveEntry::WithValue(
            ident_ref("description"),
            sp(3),
            LitKind::Str("bad input".to_string()),
            sp(4),
        ),
    ])];
    let schema = build_schema(&def).unwrap();
    assert_eq!(schema.title, "Oops");
    assert_eq!(schema.description, " (bad input)");
    let cv = CompositeValue {
        variant: "A".to_string(),
        payload: PayloadValue { rendered: "boom".to_string() },
    };
    assert_eq!(render_value(&schema, &cv), "Oops (bad input):\n  └ boom");
}

#[test]
fn convert_source_wraps_the_cause() {
    let def = union_def(
        "Foo",
        vec![variant(
            "A",
            "X",
            vec![attr(vec![DirectiveEntry::WithList(
                ident_ref("convert_source"),
                sp(1),
                vec![ArgItem::Path(ident_ref("boxed"), sp(2))],
            )])],
        )],
    );
    let schema = build_schema(&def).unwrap();
    let cv = CompositeValue {
        variant: "A".to_string(),
        payload: PayloadValue { rendered: "boom".to_string() },
    };
    match source_of(&schema, &cv) {
        SourceOutcome::Converted(f, p) => {
            assert_eq!(f.segments, vec!["boxed".to_string()]);
            assert_eq!(p.rendered, "boom");
        },
        other => panic!("expected a converted cause, got {:?}", other),
    }
}

#[test]
fn record_renders_title_and_description() {
    let def = TypeDef {
        ident: "Plain".to_string(),
        type_params: vec![],
        generics_impl: String::new(),
        generics_type: String::new(),
        generics_where: String::new(),
        attrs: vec![attr(vec![DirectiveEntry::WithValue(
            ident_ref("description"),
            sp(1),
            LitKind::Str("spilled".to_string()),
            sp(2),
        )])],
        shape: TypeShape::Record,
        span: sp(99),
    };
    let schema = build_schema(&def).unwrap();
    assert_eq!(schema.kind, SchemaKind::Record);
    assert_eq!(render_record(&schema), "Plain (spilled)");
}

#[test]
fn flattening_groups_by_target_and_maps_same_names() {
    let def = union_def(
        "Foo",
        vec![
            variant("P", "X", vec![inline_from(vec![ArgItem::Path(ident_ref("OtherType"), sp(3))])]),
            variant("Q", "Y", vec![inline_from(vec![ArgItem::Path(ident_ref("OtherType"), sp(4))])]),
        ],
    );
    let schema = build_schema(&def).unwrap();
    let res = resolve(&schema, def.span).unwrap();
    assert_eq!(res.groups.len(), 1);
    let grp = &res.groups[0];
    assert_eq!(grp.variants, vec!["P".to_string(), "Q".to_string()]);
    let from_p = CompositeValue {
        variant: "P".to_string(),
        payload: PayloadValue { rendered: "xx".to_string() },
    };
    let mapped = convert_flattened(grp, &from_p).unwrap();
    assert_eq!(mapped.variant, "P");
    assert_eq!(mapped.payload.rendered, "xx");
    let foreign = CompositeValue {
        variant: "R".to_string(),
        payload: PayloadValue { rendered: "yy".to_string() },
    };
    assert!(convert_flattened(grp, &foreign).is_none());
}

#[test]
fn coverage_check_accepts_exact_cover_and_rejects_gaps() {
    let def = union_def(
        "Foo",
        vec![
            variant("P", "X", vec![inline_from(vec![ArgItem::Path(ident_ref("OtherType"), sp(3))])]),
            variant("Q", "Y", vec![inline_from(vec![ArgItem::Path(ident_ref("OtherType"), sp(4))])]),
        ],
    );
    let schema = build_schema(&def).unwrap();
    let res = resolve(&schema, def.span).unwrap();
    let grp = &res.groups[0];
    assert!(verify_coverage(grp, &vec!["P".to_string(), "Q".to_string()]));
    assert!(!verify_coverage(grp, &vec!["P".to_string()]));
    assert!(!verify_coverage(grp, &vec!["P".to_string(), "Q".to_string(), "R".to_string()]));
}

#[test]
fn duplicate_claim_on_one_target_is_a_conflict() {
    let def = union_def(
        "Foo",
        vec![variant(
            "P",
            "X",
            vec![inline_from(vec![
                ArgItem::Path(ident_ref("OtherType"), sp(3)),
                ArgItem::Path(ident_ref("OtherType"), sp(4)),
            ])],
        )],
    );
    let err = build_schema(&def).unwrap_err();
    assert_eq!(err.message, "'inline_from' lists the same type twice!");
    assert_eq!(err.span, sp(4));
}

#[test]
fn duplicate_claim_across_spellings_is_a_conflict() {
    let def = union_def(
        "Foo",
        vec![variant(
            "P",
            "X",
            vec![inline_from(vec![
                ArgItem::Path(ident_ref("OtherType"), sp(3)),
                ArgItem::Str("OtherType".to_string(), sp(4)),
            ])],
        )],
    );
    let err = build_schema(&def).unwrap_err();
    assert_eq!(err.message, "'inline_from' lists the same type twice!");
    assert_eq!(err.span, sp(4));
}

#[test]
fn duplicate_names_within_one_group_are_rejected_by_the_resolver() {
    let def = union_def(
        "Foo",
        vec![
            variant("P", "X", vec![inline_from(vec![ArgItem::Path(ident_ref("OtherType"), sp(3))])]),
            variant("P", "Y", vec![inline_from(vec![ArgItem::Path(ident_ref("OtherType"), sp(4))])]),
        ],
    );
    let schema = build_schema(&def).unwrap();
    let err = resolve(&schema, def.span).unwrap_err();
    assert_eq!(
        err.message,
        "Conflicting 'inline_from' mappings: a referenced variant is claimed twice!"
    );
    assert_eq!(err.span, sp(99));
}

#[test]
fn string_literal_target_is_parsed_as_a_type() {
    let def = union_def(
        "Foo",
        vec![variant(
            "P",
            "X",
            vec![inline_from(vec![ArgItem::Str("OtherType<T>".to_string(), sp(3))])],
        )],
    );
    let schema = build_schema(&def).unwrap();
    assert_eq!(schema.variants[0].inline_from.len(), 1);
    match &schema.variants[0].inline_from[0] {
        PathOrLit::Lit(t) => {
            assert_eq!(t.segments, vec!["OtherType".to_string()]);
            assert!(!t.args.is_empty());
            assert_eq!(t.args.replace(' ', ""), "<T>");
        },
        other => panic!("expected the literal spelling, got {:?}", other),
    }
    let erased = schema.variants[0].inline_from[0].path();
    assert_eq!(erased.segments, vec!["OtherType".to_string()]);
    assert_eq!(erased.args, "");
}

#[test]
fn unparsable_string_target_is_refused() {
    let def = union_def(
        "Foo",
        vec![variant(
            "P",
            "X",
            vec![inline_from(vec![ArgItem::Str("not a type !!!".to_string(), sp(3))])],
        )],
    );
    let err = build_schema(&def).unwrap_err();
    assert_eq!(err.message, "'inline_from' attribute must be a list of types!");
    assert_eq!(err.span, sp(2));
}

#[test]
fn generated_record_text_is_exact() {
    let def = TypeDef {
        ident: "Plain".to_string(),
        type_params: vec![],
        generics_impl: String::new(),
        generics_type: String::new(),
        generics_where: String::new(),
        attrs: vec![],
        shape: TypeShape::Record,
        span: sp(99),
    };
    let text = derive_compound_error(&def).unwrap();
    let expected = "#[automatically_derived]\n\
                    impl ::core::fmt::Display for Plain {\n    \
                    fn fmt(&self, f: &mut ::core::fmt::Formatter<'_>) -> ::core::fmt::Result {\n        \
                    write!(f, \"{}{}\", \"Plain\", \"\")\n    \
                    }\n}\n\
                    #[automatically_derived]\n\
                    impl ::std::error::Error for Plain {\n    \
                    fn source(&self) -> ::std::option::Option<&(dyn ::std::error::Error + 'static)> {\n        \
                    None\n    \
                    }\n}\n";
    assert_eq!(text, expected);
}

#[test]
fn generated_union_text_is_exact() {
    let mut def = union_def("Foo", vec![variant("A", "X", vec![])]);
    def.type_params = vec!["T".to_string()];
    def.generics_impl = "<T>".to_string();
    def.generics_type = "<T>".to_string();
    def.attrs = vec![attr(vec![bare("skip_display", 1), bare("skip_error", 2)])];
    let text = derive_compound_error(&def).unwrap();
    let expected = "#[automatically_derived]\n\
                    impl<T> ::core::convert::From<X> for Foo<T> {\n    \
                    fn from(primitive: X) -> Self {\n        \
                    Self::A(primitive)\n    \
                    }\n}\n";
    assert_eq!(text, expected);
}

#[test]
fn generated_display_escapes_title_literal() {
    let mut def = union_def("Foo", vec![variant("A", "X", vec![])]);
    def.attrs = vec![attr(vec![DirectiveEntry::WithValue(
        ident_ref("title"),
        sp(1),
        LitKind::Str("sa\"id".to_string()),
        sp(2),
    )])];
    let text = derive_compound_error(&def).unwrap();
    assert!(text.contains("\"sa\\\"id\""));
    assert!(!text.contains("\"sa\"id\""));
}

#[test]
fn generated_flattening_text_dispatches_on_source_variants() {
    let def = union_def(
        "Foo",
        vec![variant(
            "P",
            "X",
            vec![inline_from(vec![ArgItem::Path(ident_ref("OtherType"), sp(3))])],
        )],
    );
    let text = derive_compound_error(&def).unwrap();
    assert!(text.contains("impl ::core::convert::From<OtherType> for Foo {"));
    assert!(text.contains("OtherType::P(p) => Self::P(p),"));
}

#[test]
fn suppression_flags_drop_whole_impls() {
    let mut def = union_def("Foo", vec![variant("A", "X", vec![])]);
    def.attrs = vec![attr(vec![bare("skip_display", 1)])];
    let text = derive_compound_error(&def).unwrap();
    assert!(!text.contains("Display"));
    assert!(text.contains("::std::error::Error"));
    let mut def2 = union_def("Foo", vec![variant("A", "X", vec![])]);
    def2.attrs = vec![attr(vec![bare("skip_error", 1)])];
    let text2 = derive_compound_error(&def2).unwrap();
    assert!(text2.contains("Display"));
    assert!(!text2.contains("::std::error::Error"));
}

#[test]
fn no_source_variant_falls_to_default_source_arm() {
    let def = union_def(
        "Foo",
        vec![
            variant("A", "X", vec![]),
            variant("C", "Z", vec![attr(vec![bare("no_source", 1)])]),
        ],
    );
    let text = derive_compound_error(&def).unwrap();
    assert!(text.contains("Self::A(x) => Some(x),"));
    assert!(!text.contains("Self::C(x) => Some"));
    assert!(text.contains("_ => ::core::option::Option::None,"));
}

#[test]
fn generated_source_arms_follow_the_flags() {
    let def = union_def(
        "Foo",
        vec![
            variant("E", "X", vec![attr(vec![bare("transparent", 1)])]),
            variant(
                "A",
                "Y",
                vec![attr(vec![DirectiveEntry::WithList(
                    ident_ref("convert_source"),
                    sp(2),
                    vec![ArgItem::Path(ident_ref("boxed"), sp(3))],
                )])],
            ),
        ],
    );
    let text = derive_compound_error(&def).unwrap();
    assert!(text.contains("Self::E(x) => std::error::Error::source(x),"));
    assert!(text.contains("Self::A(x) => Some(boxed(x)),"));
}

#[test]
fn generated_display_shows_bare_name_under_no_source() {
    let def = union_def(
        "Foo",
        vec![variant("C", "Z", vec![attr(vec![bare("no_source", 1)])])],
    );
    let text = derive_compound_error(&def).unwrap();
    assert!(text.contains("write!(f, \"  └ {}\", \"C\")"));
}

#[test]
fn pipeline_reports_the_first_failure() {
    let mut def = union_def("Foo", vec![variant("A", "X", vec![])]);
    def.attrs = vec![attr(vec![bare("transparent", 1), bare("transparent", 8)])];
    let err = derive_compound_error(&def).unwrap_err();
    assert_eq!(err.message, "Duplicate argument.");
    assert_eq!(err.span, sp(8));
}

#[test]
fn spellings_of_one_text_share_a_grouping_key() {
    let def = union_def(
        "Foo",
        vec![
            variant("P", "X", vec![inline_from(vec![ArgItem::Path(ident_ref("OtherType"), sp(3))])]),
            variant(
                "Q",
                "Y",
                vec![inline_from(vec![ArgItem::Str("OtherType".to_string(), sp(4))])],
            ),
        ],
    );
    let schema = build_schema(&def).unwrap();
    let res = resolve(&schema, def.span).unwrap();
    assert_eq!(res.groups.len(), 1);
    assert_eq!(res.groups[0].variants, vec!["P".to_string(), "Q".to_string()]);
    let text = derive_compound_error(&def).unwrap();
    assert_eq!(text.matches("::core::convert::From<OtherType> for").count(), 1);
    assert!(text.contains("OtherType::P(p) => Self::P(p),"));
    assert!(text.contains("OtherType::Q(p) => Self::Q(p),"));
}

#[test]
fn keys_of_different_texts_stay_distinct() {
    let def = union_def(
        "Foo",
        vec![
            variant("P", "X", vec![inline_from(vec![ArgItem::Path(ident_ref("OtherType"), sp(3))])]),
            variant(
                "Q",
                "Y",
                vec![inline_from(vec![ArgItem::Str("OtherType<T>".to_string(), sp(4))])],
            ),
        ],
    );
    let schema = build_schema(&def).unwrap();
    let res = resolve(&schema, def.span).unwrap();
    assert_eq!(res.groups.len(), 2);
    assert_eq!(res.groups[0].variants, vec!["P".to_string()]);
    assert_eq!(res.groups[1].variants, vec!["Q".to_string()]);
}

#[test]
fn bounds_lifetimes_and_where_clause_pass_through() {
    let mut def = union_def("Foo", vec![variant("A", "X", vec![])]);
    def.type_params = vec!["T".to_string()];
    def.generics_impl = "<'a, T: Display>".to_string();
    def.generics_type = "<'a, T>".to_string();
    def.generics_where = "where T: Clone".to_string();
    let text = derive_compound_error(&def).unwrap();
    assert!(text.contains(
        "impl<'a, T: Display> ::core::convert::From<X> for Foo<'a, T> where T: Clone {"
    ));
    assert!(text.contains(
        "impl<'a, T: Display> ::core::fmt::Display for Foo<'a, T> where T: Clone {"
    ));
}

#[test]
fn control_characters_are_escaped_in_literals() {
    let mut def = union_def("Foo", vec![variant("A", "X", vec![])]);
    def.attrs = vec![attr(vec![DirectiveEntry::WithValue(
        ident_ref("title"),
        sp(1),
        LitKind::Str("a\nb\u{1f}c".to_string()),
        sp(2),
    )])];
    let text = derive_compound_error(&def).unwrap();
    assert!(text.contains("\"a\\nb\\u{1f}c\""));
    assert!(!text.contains("\"a\nb"));
}
