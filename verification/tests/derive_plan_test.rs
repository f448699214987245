use tryparse::attributes::{
    extract_tag_info, has_union_attribute, has_untagged_attribute, is_accepted_rule,
    validate_variant_rename_all, AttrArgs, AttrModel, MetaArg, MetaExpr, NestedMeta,
};
use tryparse::derive_plan::{
    check_union_variants, extract_option_inner, is_option_type, pick_lowest_score, plan_enum,
    plan_struct, tagged_variant_table, untagged_strategy, EnumPlan, FieldModel, FieldsShape,
    OptionInner, TypeModel, UnionShapeError, UntaggedStrategy, VariantModel,
};
use tryparse::rename::apply_rename_all_at_compile_time;
use tryparse::text::trim;

fn meta(name: &str, arg: MetaArg) -> NestedMeta {
    NestedMeta { name: Some(name.to_string()), arg }
}

fn str_value(s: &str) -> MetaArg {
    MetaArg::Value(MetaExpr::Str(s.to_string()))
}

fn serde(metas: Vec<NestedMeta>) -> AttrModel {
    AttrModel {
        name: Some("serde".to_string()),
        args: AttrArgs::List { tokens: String::new(), metas, error: None },
    }
}

fn llm(tokens: &str) -> AttrModel {
    AttrModel {
        name: Some("llm".to_string()),
        args: AttrArgs::List { tokens: tokens.to_string(), metas: vec![], error: None },
    }
}

fn plain_type(name: &str) -> TypeModel {
    TypeModel { last_ident: Some(name.to_string()), first_arg_is_type: false }
}

fn option_type() -> TypeModel {
    TypeModel { last_ident: Some("Option".to_string()), first_arg_is_type: true }
}

fn variant(name: &str, fields: FieldsShape) -> VariantModel {
    VariantModel { name: name.to_string(), fields }
}

#[test]
fn rename_rules() {
    assert_eq!(apply_rename_all_at_compile_time("StartTask", "snake_case"), "start_task");
    assert_eq!(apply_rename_all_at_compile_time("StartTask", "kebab-case"), "start-task");
    assert_eq!(apply_rename_all_at_compile_time("StartTask", "SCREAMING_SNAKE_CASE"), "START_TASK");
    assert_eq!(apply_rename_all_at_compile_time("StartTask", "camelCase"), "startTask");
    assert_eq!(apply_rename_all_at_compile_time("startTask", "PascalCase"), "StartTask");
    assert_eq!(apply_rename_all_at_compile_time("StartTask", "none"), "StartTask");
    assert_eq!(apply_rename_all_at_compile_time("", "camelCase"), "");
    assert_eq!(apply_rename_all_at_compile_time("ÉtatNouveau", "snake_case"), "État_nouveau");
}

#[test]
fn screaming_is_raised_snake() {
    for name in ["AskClarification", "Reject", "HTTPServer", "already_snake", "ÉtatX"] {
        let snake = apply_rename_all_at_compile_time(name, "snake_case");
        let screaming = apply_rename_all_at_compile_time(name, "SCREAMING_SNAKE_CASE");
        assert_eq!(screaming, snake.to_ascii_uppercase());
    }
}

#[test]
fn kebab_is_hyphenated_snake() {
    for name in ["StartTask", "HTTPRequest", "a", "", "Done-Now", "ÉtatNouveau"] {
        let snake = apply_rename_all_at_compile_time(name, "snake_case");
        let kebab = apply_rename_all_at_compile_time(name, "kebab-case");
        assert_eq!(kebab, snake.replace('_', "-"));
    }
    assert_eq!(apply_rename_all_at_compile_time("HTTPRequest", "kebab-case"), "h-t-t-p-request");
}

#[test]
fn accepted_rules() {
    for rule in ["snake_case", "camelCase", "PascalCase", "kebab-case", "SCREAMING_SNAKE_CASE"] {
        assert!(is_accepted_rule(rule));
    }
    assert!(!is_accepted_rule("lowercase"));
    assert!(!is_accepted_rule("snake_case "));
}

#[test]
fn trim_removes_unicode_whitespace() {
    assert_eq!(trim("  union \n"), "union");
    assert_eq!(trim("\u{a0}x y\u{2003}"), "x y");
    assert_eq!(trim("   "), "");
}

#[test]
fn union_attribute() {
    assert!(has_union_attribute(&vec![llm(" union ")]));
    assert!(!has_union_attribute(&vec![llm("union, other")]));
    assert!(!has_union_attribute(&vec![serde(vec![meta("union", MetaArg::Bare)])]));
    let not_list = AttrModel { name: Some("llm".to_string()), args: AttrArgs::NotList("x".to_string()) };
    assert!(!has_union_attribute(&vec![not_list]));
}

#[test]
fn untagged_attribute() {
    assert!(has_untagged_attribute(&vec![serde(vec![meta("untagged", MetaArg::Bare)])]));
    // Reading stops at an item whose value is not read.
    assert!(!has_untagged_attribute(&vec![serde(vec![
        meta("tag", str_value("type")),
        meta("untagged", MetaArg::Bare),
    ])]));
    assert!(has_untagged_attribute(&vec![serde(vec![
        meta("deny_unknown_fields", MetaArg::Bare),
        meta("untagged", MetaArg::Bare),
    ])]));
}

#[test]
fn tag_info_is_read() {
    let attrs = vec![serde(vec![
        meta("tag", str_value("type")),
        meta("content", str_value("data")),
        meta("rename_all", str_value("snake_case")),
    ])];
    let report = extract_tag_info(&attrs);
    assert!(report.warnings.is_empty());
    let info = report.result.unwrap().unwrap();
    assert_eq!(info.tag_field, "type");
    assert_eq!(info.content_field.as_deref(), Some("data"));
    assert_eq!(info.rename_all.as_deref(), Some("snake_case"));
}

#[test]
fn no_tag_gives_none() {
    let report = extract_tag_info(&vec![serde(vec![meta("rename_all", str_value("camelCase"))])]);
    assert!(report.result.unwrap().is_none());
}

#[test]
fn invalid_rename_all_is_an_error() {
    let attrs = vec![
        serde(vec![meta("tag", str_value("kind"))]),
        serde(vec![meta("rename_all", str_value("lowercase"))]),
    ];
    let err = extract_tag_info(&attrs).result.unwrap_err();
    assert_eq!(
        err.message,
        "Invalid rename_all value: 'lowercase'. Valid values: snake_case, camelCase, PascalCase, kebab-case, SCREAMING_SNAKE_CASE"
    );
    assert_eq!((err.attr_index, err.meta_index), (1, 0));
}

#[test]
fn tag_errors_become_warnings() {
    let attrs = vec![
        serde(vec![meta("tag", MetaArg::Value(MetaExpr::Path)), meta("content", str_value("c"))]),
        serde(vec![meta("tag", MetaArg::Value(MetaExpr::OtherLit))]),
        serde(vec![meta("rename", str_value("x"))]),
        serde(vec![meta("tag", MetaArg::Bare)]),
        AttrModel {
            name: Some("serde".to_string()),
            args: AttrArgs::NotList("expected attribute arguments in parentheses: #[serde(...)]".to_string()),
        },
        serde(vec![meta("tag", str_value("type"))]),
    ];
    let report = extract_tag_info(&attrs);
    assert_eq!(
        report.warnings,
        vec![
            "Warning: Failed to parse serde attribute: tag attribute must be a string literal, const paths are not supported",
            "Warning: Failed to parse serde attribute: tag attribute value must be a string literal",
            "Warning: Failed to parse serde attribute: expected `,`",
            "Warning: Failed to parse serde attribute: expected `=`",
            "Warning: Failed to parse serde attribute: expected attribute arguments in parentheses: #[serde(...)]",
        ]
    );
    let info = report.result.unwrap().unwrap();
    assert_eq!(info.tag_field, "type");
    // The item after the failing one was never read.
    assert_eq!(info.content_field, None);
}

#[test]
fn variant_rename_all_warnings() {
    let attrs = vec![serde(vec![meta("rename_all", str_value("camelCase"))])];
    assert!(validate_variant_rename_all("VariantOne", &attrs).is_empty());
    let attrs = vec![serde(vec![
        meta("rename_all", str_value("invalid_case")),
        meta("skip", MetaArg::Bare),
    ])];
    assert_eq!(
        validate_variant_rename_all("VariantTwo", &attrs),
        vec!["Warning: Invalid variant-level rename_all value 'invalid_case' on variant 'VariantTwo'. Valid values: snake_case, camelCase, PascalCase, kebab-case, SCREAMING_SNAKE_CASE"]
    );
}

#[test]
fn test_variant_rename_all_validation() {
    let enum_attrs = vec![serde(vec![
        meta("tag", str_value("type")),
        meta("rename_all", str_value("snake_case")),
    ])];
    let report = plan_enum(&enum_attrs);
    assert!(report.warnings.is_empty());
    match report.plan {
        EnumPlan::Tagged(info) => {
            assert_eq!(info.tag_field, "type");
            assert_eq!(info.content_field, None);
            assert_eq!(info.rename_all.as_deref(), Some("snake_case"));
        }
        other => panic!("expected a tagged plan, got {:?}", other),
    }
    let one = vec![serde(vec![meta("rename_all", str_value("camelCase"))])];
    let two = vec![serde(vec![meta("rename_all", str_value("PascalCase"))])];
    assert!(validate_variant_rename_all("VariantOne", &one).is_empty());
    assert!(validate_variant_rename_all("VariantTwo", &two).is_empty());
    let invalid = vec![serde(vec![meta("rename_all", str_value("invalid_case"))])];
    assert_eq!(validate_variant_rename_all("VariantOne", &invalid).len(), 1);
}

#[test]
fn option_fields() {
    assert!(is_option_type(&option_type()));
    assert!(!is_option_type(&plain_type("String")));
    assert_eq!(extract_option_inner(&option_type()), OptionInner::Inner);
    assert_eq!(
        extract_option_inner(&TypeModel { last_ident: Some("Option".to_string()), first_arg_is_type: false }),
        OptionInner::Whole
    );
    assert_eq!(extract_option_inner(&plain_type("i64")), OptionInner::Whole);
}

#[test]
fn struct_plans() {
    let fields = FieldsShape::Named(vec![
        FieldModel { name: "name".to_string(), ty: plain_type("String") },
        FieldModel { name: "email".to_string(), ty: option_type() },
    ]);
    let plans = plan_struct(&fields).unwrap();
    assert_eq!(plans.len(), 2);
    assert_eq!(plans[0].name, "name");
    assert!(!plans[0].optional);
    assert_eq!(plans[0].read_as, OptionInner::Whole);
    assert_eq!(plans[1].name, "email");
    assert!(plans[1].optional);
    assert_eq!(plans[1].read_as, OptionInner::Inner);
    assert_eq!(
        plan_struct(&FieldsShape::Unnamed(2)).unwrap_err(),
        "LlmDeserialize does not support tuple structs yet"
    );
    assert_eq!(
        plan_struct(&FieldsShape::Unit).unwrap_err(),
        "LlmDeserialize does not support unit structs"
    );
}

#[test]
fn union_shapes() {
    let ok = vec![variant("Number", FieldsShape::Unnamed(1)), variant("Text", FieldsShape::Unnamed(1))];
    assert_eq!(check_union_variants(&ok), Ok(()));
    let three = vec![
        variant("A", FieldsShape::Unnamed(1)),
        variant("B", FieldsShape::Unnamed(1)),
        variant("C", FieldsShape::Unnamed(1)),
    ];
    assert_eq!(check_union_variants(&three), Err(UnionShapeError::VariantCount));
    assert_eq!(
        UnionShapeError::VariantCount.message(),
        "Union enums must have exactly 2 variants"
    );
    let bad = vec![variant("A", FieldsShape::Unnamed(1)), variant("B", FieldsShape::Unit)];
    assert_eq!(check_union_variants(&bad), Err(UnionShapeError::VariantFields(1)));
    assert_eq!(
        UnionShapeError::VariantFields(1).message(),
        "Union variants must have exactly one unnamed field"
    );
}

#[test]
fn untagged_strategies() {
    assert_eq!(untagged_strategy(&FieldsShape::Unit), UntaggedStrategy::Null);
    assert_eq!(untagged_strategy(&FieldsShape::Unnamed(1)), UntaggedStrategy::Newtype);
    assert_eq!(untagged_strategy(&FieldsShape::Unnamed(2)), UntaggedStrategy::Unsupported);
    assert_eq!(untagged_strategy(&FieldsShape::Named(vec![])), UntaggedStrategy::Serde);
}

#[test]
fn enum_plans_in_order_of_precedence() {
    let union_and_untagged = vec![llm("union"), serde(vec![meta("untagged", MetaArg::Bare)])];
    assert!(matches!(plan_enum(&union_and_untagged).plan, EnumPlan::Union));
    let untagged = vec![serde(vec![meta("untagged", MetaArg::Bare)])];
    assert!(matches!(plan_enum(&untagged).plan, EnumPlan::Untagged));
    let tagged = vec![serde(vec![meta("tag", str_value("type"))])];
    assert!(matches!(plan_enum(&tagged).plan, EnumPlan::Tagged(_)));
    assert!(matches!(plan_enum(&vec![]).plan, EnumPlan::Plain));
    let invalid = vec![serde(vec![meta("rename_all", str_value("weird"))])];
    match plan_enum(&invalid).plan {
        EnumPlan::Invalid(e) => {
            assert_eq!(
                e.message,
                "Invalid rename_all value: 'weird'. Valid values: snake_case, camelCase, PascalCase, kebab-case, SCREAMING_SNAKE_CASE"
            );
            assert_eq!((e.attr_index, e.meta_index), (0, 0));
        }
        other => panic!("expected an invalid plan, got {:?}", other),
    }
}

#[test]
fn tagged_table() {
    let variants = vec![
        variant(
            "StartTask",
            FieldsShape::Named(vec![
                FieldModel { name: "skill_id".to_string(), ty: plain_type("String") },
                FieldModel { name: "reasoning".to_string(), ty: plain_type("String") },
            ]),
        ),
        variant("Text", FieldsShape::Unnamed(1)),
    ];
    let table = tagged_variant_table(&variants, &Some("snake_case".to_string()));
    assert_eq!(table.len(), 2);
    assert_eq!(table[0].name, "StartTask");
    assert_eq!(table[0].normalized, "start_task");
    assert_eq!(table[0].fields, vec!["skill_id", "reasoning"]);
    assert_eq!(table[1].normalized, "text");
    assert!(table[1].fields.is_empty());
    let table = tagged_variant_table(&variants, &None);
    assert_eq!(table[0].normalized, "StartTask");
}

#[test]
fn lowest_score_wins_and_ties_go_first() {
    assert_eq!(pick_lowest_score(&vec![]), None);
    assert_eq!(pick_lowest_score(&vec![(0, 5), (1, 2), (2, 2)]), Some(1));
    assert_eq!(pick_lowest_score(&vec![(3, 0), (1, 0)]), Some(3));
    assert_eq!(pick_lowest_score(&vec![(2, 9)]), Some(2));
}
