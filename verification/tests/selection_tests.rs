use apollo_router::selection::{
    parse_include, parse_skip, Argument, AstField, AstFragmentSpread, AstInlineFragment,
    AstSelection, AstValue, Directive, FieldType, Include, Schema, Selection, Skip, SpecError,
    TypeDef, RECURSION_LIMIT,
};
use apollo_router::json::Json;

fn skip_directive(value: AstValue) -> Directive {
    Directive {
        name: "skip".to_string(),
        arguments: vec![Argument { name: "if".to_string(), value }],
    }
}

fn include_directive(value: AstValue) -> Directive {
    Directive {
        name: "include".to_string(),
        arguments: vec![Argument { name: "if".to_string(), value }],
    }
}

fn simple_field(name: &str, directives: Vec<Directive>) -> AstSelection {
    AstSelection::Field(AstField {
        name: name.to_string(),
        alias: None,
        directives,
        selection_set: None,
    })
}

fn query_schema() -> Schema {
    Schema {
        object_types: vec![(
            "Query".to_string(),
            TypeDef {
                fields: vec![
                    ("a".to_string(), FieldType::StringScalar),
                    ("b".to_string(), FieldType::StringScalar),
                ],
            },
        )],
        interfaces: vec![],
    }
}

#[test]
fn static_skip_drops_only_the_marked_field() {
    let schema = query_schema();
    let current = FieldType::Named("Query".to_string());

    let a = simple_field("a", vec![skip_directive(AstValue::Boolean(true))]);
    let b = simple_field("b", vec![]);

    let ra = Selection::from_ast(&a, &current, &schema, 0).unwrap();
    assert!(ra.is_none());

    let rb = Selection::from_ast(&b, &current, &schema, 0).unwrap().unwrap();
    match rb {
        Selection::Field(f) => {
            assert_eq!(f.name, "b".to_string());
            assert!(f.selection_set.is_none());
        }
        _ => panic!("expected a field"),
    }
}

#[test]
fn static_include_false_drops_the_field() {
    let schema = query_schema();
    let current = FieldType::Named("Query".to_string());
    let a = simple_field("a", vec![include_directive(AstValue::Boolean(false))]);
    let r = Selection::from_ast(&a, &current, &schema, 0).unwrap();
    assert!(r.is_none());
}

#[test]
fn recursion_limit_exceeded_on_deep_nesting() {
    // a chain of inline fragments deeper than the limit
    let mut node = AstSelection::InlineFragment(AstInlineFragment {
        type_condition: Some("Query".to_string()),
        directives: vec![],
        selection_set: vec![],
    });
    for _ in 0..(RECURSION_LIMIT + 1) {
        node = AstSelection::InlineFragment(AstInlineFragment {
            type_condition: Some("Query".to_string()),
            directives: vec![],
            selection_set: vec![node],
        });
    }
    let schema = query_schema();
    let current = FieldType::Named("Query".to_string());
    let r = Selection::from_ast(&node, &current, &schema, 0);
    assert_eq!(r, Err(SpecError::RecursionLimitExceeded));
}

#[test]
fn within_recursion_limit_is_accepted() {
    let mut node = AstSelection::InlineFragment(AstInlineFragment {
        type_condition: Some("Query".to_string()),
        directives: vec![],
        selection_set: vec![],
    });
    for _ in 0..(RECURSION_LIMIT - 1) {
        node = AstSelection::InlineFragment(AstInlineFragment {
            type_condition: Some("Query".to_string()),
            directives: vec![],
            selection_set: vec![node],
        });
    }
    let schema = query_schema();
    let current = FieldType::Named("Query".to_string());
    let r = Selection::from_ast(&node, &current, &schema, 0);
    assert!(matches!(r, Ok(Some(_))));
}

#[test]
fn builtin_scalar_field_has_no_selection_set() {
    // even when the syntax tree supplies children, a scalar field keeps none
    let schema = query_schema();
    let current = FieldType::Named("Query".to_string());
    let a = AstSelection::Field(AstField {
        name: "a".to_string(),
        alias: None,
        directives: vec![],
        selection_set: Some(vec![simple_field("b", vec![])]),
    });
    let r = Selection::from_ast(&a, &current, &schema, 0).unwrap().unwrap();
    match r {
        Selection::Field(f) => {
            assert!(f.field_type.is_builtin_scalar());
            assert!(f.selection_set.is_none());
        }
        _ => panic!("expected a field"),
    }
}

#[test]
fn typename_resolves_without_schema_lookup() {
    let schema = Schema { object_types: vec![], interfaces: vec![] };
    let current = FieldType::Named("Anything".to_string());
    let f = simple_field("__typename", vec![]);
    let r = Selection::from_ast(&f, &current, &schema, 0).unwrap().unwrap();
    match r {
        Selection::Field(f) => assert_eq!(f.field_type, FieldType::StringScalar),
        _ => panic!("expected a field"),
    }
}

#[test]
fn introspection_fields_resolve_to_meta_types() {
    let schema = Schema { object_types: vec![], interfaces: vec![] };
    let current = FieldType::Named("Query".to_string());
    let f = simple_field("__schema", vec![]);
    let r = Selection::from_ast(&f, &current, &schema, 0).unwrap().unwrap();
    match r {
        Selection::Field(f) => {
            assert_eq!(f.field_type, FieldType::Introspection("__Schema".to_string()))
        }
        _ => panic!("expected a field"),
    }
}

#[test]
fn unknown_field_is_an_invalid_type_error() {
    let schema = query_schema();
    let current = FieldType::Named("Query".to_string());
    let f = simple_field("missing", vec![]);
    let r = Selection::from_ast(&f, &current, &schema, 0);
    assert_eq!(r, Err(SpecError::InvalidType(FieldType::Named("Query".to_string()))));
}

#[test]
fn interface_fields_are_found_after_object_types() {
    let schema = Schema {
        object_types: vec![],
        interfaces: vec![(
            "Node".to_string(),
            TypeDef { fields: vec![("id".to_string(), FieldType::Id)] },
        )],
    };
    let current = FieldType::Named("Node".to_string());
    let f = simple_field("id", vec![]);
    let r = Selection::from_ast(&f, &current, &schema, 0).unwrap().unwrap();
    match r {
        Selection::Field(f) => assert_eq!(f.field_type, FieldType::Id),
        _ => panic!("expected a field"),
    }
}

#[test]
fn inline_fragment_default_condition_and_known_type() {
    let schema = query_schema();
    let current = FieldType::NonNull(Box::new(FieldType::Named("Query".to_string())));
    let frag = AstSelection::InlineFragment(AstInlineFragment {
        type_condition: None,
        directives: vec![],
        selection_set: vec![simple_field("a", vec![])],
    });
    let r = Selection::from_ast(&frag, &current, &schema, 0).unwrap().unwrap();
    match r {
        Selection::InlineFragment(g) => {
            assert_eq!(g.type_condition, "Query".to_string());
            assert!(g.known_type);
            assert_eq!(g.selection_set.len(), 1);
        }
        _ => panic!("expected an inline fragment"),
    }
}

#[test]
fn fragment_spread_records_site() {
    let schema = query_schema();
    let current = FieldType::Named("Query".to_string());
    let spread = AstSelection::FragmentSpread(AstFragmentSpread {
        name: "parts".to_string(),
        directives: vec![],
    });
    let r = Selection::from_ast(&spread, &current, &schema, 0).unwrap().unwrap();
    match r {
        Selection::FragmentSpread(sp) => {
            assert_eq!(sp.name, "parts".to_string());
            assert_eq!(sp.known_type, Some("Query".to_string()));
        }
        _ => panic!("expected a fragment spread"),
    }
}

#[test]
fn parse_skip_reads_only_skip_with_if() {
    let d = skip_directive(AstValue::Variable("flag".to_string()));
    assert_eq!(parse_skip(&d), Some(Skip::Variable("flag".to_string())));

    let other = Directive { name: "other".to_string(), arguments: vec![] };
    assert_eq!(parse_skip(&other), None);

    let wrong_arg = Directive {
        name: "skip".to_string(),
        arguments: vec![Argument { name: "when".to_string(), value: AstValue::Boolean(true) }],
    };
    assert_eq!(parse_skip(&wrong_arg), None);

    let no_args = Directive { name: "skip".to_string(), arguments: vec![] };
    assert_eq!(parse_skip(&no_args), None);
}

#[test]
fn parse_include_reads_only_include_with_if() {
    let d = include_directive(AstValue::Boolean(true));
    assert_eq!(parse_include(&d), Some(Include::Yes));
    let d = include_directive(AstValue::Boolean(false));
    assert_eq!(parse_include(&d), Some(Include::No));
    let d = include_directive(AstValue::Other);
    assert_eq!(parse_include(&d), None);
}

#[test]
fn should_skip_evaluates_against_variables() {
    let vars = vec![
        ("flag".to_string(), Json::Bool(true)),
        ("text".to_string(), Json::Str("x".to_string())),
    ];
    assert_eq!(Skip::Yes.should_skip(&vars), Some(true));
    assert_eq!(Skip::No.should_skip(&vars), Some(false));
    assert_eq!(Skip::Variable("flag".to_string()).should_skip(&vars), Some(true));
    assert_eq!(Skip::Variable("text".to_string()).should_skip(&vars), None);
    assert_eq!(Skip::Variable("absent".to_string()).should_skip(&vars), None);
}

#[test]
fn should_include_evaluates_against_variables() {
    let vars = vec![("flag".to_string(), Json::Bool(false))];
    assert_eq!(Include::Yes.should_include(&vars), Some(true));
    assert_eq!(Include::No.should_include(&vars), Some(false));
    assert_eq!(Include::Variable("flag".to_string()).should_include(&vars), Some(false));
    assert_eq!(Include::Variable("absent".to_string()).should_include(&vars), None);
}

#[test]
fn statically_skipped_marks_only_the_static_cases() {
    assert!(Skip::Yes.statically_skipped());
    assert!(!Skip::No.statically_skipped());
    assert!(!Skip::Variable("v".to_string()).statically_skipped());
    assert!(Include::No.statically_skipped());
    assert!(!Include::Yes.statically_skipped());
    assert!(!Include::Variable("v".to_string()).statically_skipped());
}

#[test]
fn inner_type_name_strips_wrappers() {
    let t = FieldType::NonNull(Box::new(FieldType::List(Box::new(FieldType::Named(
        "User".to_string(),
    )))));
    assert_eq!(t.inner_type_name(), Some(&"User".to_string()));
    assert_eq!(FieldType::Int.inner_type_name(), None);
    assert!(FieldType::Float.is_builtin_scalar());
    assert!(!FieldType::Named("User".to_string()).is_builtin_scalar());
}

#[test]
fn first_matching_directive_wins() {
    let schema = query_schema();
    let current = FieldType::Named("Query".to_string());
    // a skip(No) before a skip(Yes): the first wins, the field stays
    let a = simple_field(
        "a",
        vec![
            skip_directive(AstValue::Boolean(false)),
            skip_directive(AstValue::Boolean(true)),
        ],
    );
    let r = Selection::from_ast(&a, &current, &schema, 0).unwrap();
    assert!(r.is_some());
}
