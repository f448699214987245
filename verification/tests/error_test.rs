use tryparse::error::{AllCandidatesError, CandidateError, DeserializeError, ParseError, StrategyError};

#[test]
fn test_strategy_error_display() {
    let err = StrategyError::new("test_strategy", "something went wrong");
    assert_eq!(err.to_string(), "test_strategy: something went wrong");
}

#[test]
fn test_deserialize_error_type_mismatch() {
    let err = DeserializeError::type_mismatch("integer", "string");
    assert!(err.to_string().contains("integer"));
    assert!(err.to_string().contains("string"));
}

#[test]
fn test_parse_error_from_json() {
    let json_err = serde_json::from_str::<u32>("not a number").unwrap_err();
    let parse_err: ParseError = json_err.into();
    assert!(matches!(parse_err, ParseError::JsonError(_)));
}

#[test]
fn test_unknown_variant_with_suggestion() {
    let err = DeserializeError::UnknownVariant {
        enum_name: "Status".to_string(),
        variant: "inprogress".to_string(),
        suggestion: Some("InProgress".to_string()),
    };

    let display = err.to_string();
    assert!(display.contains("inprogress"));
    assert!(display.contains("Status"));
    assert!(display.contains("Did you mean"));
    assert!(display.contains("InProgress"));
}

#[test]
fn test_unknown_variant_without_suggestion() {
    let err = DeserializeError::UnknownVariant {
        enum_name: "Status".to_string(),
        variant: "xyz".to_string(),
        suggestion: None,
    };

    let display = err.to_string();
    assert!(display.contains("xyz"));
    assert!(display.contains("Status"));
    assert!(!display.contains("Did you mean"));
}

#[test]
fn test_unknown_field_with_suggestion() {
    let err = DeserializeError::UnknownField {
        struct_name: "User".to_string(),
        field: "usernme".to_string(),
        suggestion: Some("username".to_string()),
    };

    let display = err.to_string();
    assert!(display.contains("usernme"));
    assert!(display.contains("User"));
    assert!(display.contains("Did you mean"));
    assert!(display.contains("username"));
}

#[test]
fn test_all_candidates_error() {
    let err = AllCandidatesError {
        attempts: vec![
            CandidateError {
                source: "direct".to_string(),
                score: 0,
                preview: r#"{"foo": "bar"}"#.to_string(),
                error: DeserializeError::missing_field("required_field"),
            },
            CandidateError {
                source: "markdown(json)".to_string(),
                score: 5,
                preview: r#"{"baz": 42}"#.to_string(),
                error: DeserializeError::type_mismatch("string", "number"),
            },
        ],
    };

    assert_eq!(err.len(), 2);
    assert!(!err.is_empty());

    // Check first_error
    let first = err.first_error().unwrap();
    assert!(matches!(first, DeserializeError::MissingField { .. }));

    // Check details
    let details = err.details();
    assert!(details.contains("direct"));
    assert!(details.contains("markdown(json)"));
    assert!(details.contains("required_field"));

    // Check display
    assert_eq!(err.to_string(), "2 candidates");
}

#[test]
fn test_candidate_error_display() {
    let err = CandidateError {
        source: "yaml".to_string(),
        score: 10,
        preview: "test".to_string(),
        error: DeserializeError::Custom("test error".to_string()),
    };

    let display = err.to_string();
    assert!(display.contains("yaml"));
    assert!(display.contains("10"));
    assert!(display.contains("test error"));
}

#[test]
fn test_parse_error_all_candidates_failed() {
    let err = ParseError::AllCandidatesFailed(AllCandidatesError {
        attempts: vec![CandidateError {
            source: "direct".to_string(),
            score: 0,
            preview: "{}".to_string(),
            error: DeserializeError::missing_field("name"),
        }],
    });

    let display = err.to_string();
    assert!(display.contains("1 candidates"));
}

// ----- Exact messages -----

#[test]
fn type_mismatch_message_is_exact() {
    let err = DeserializeError::type_mismatch("integer", "string: abc");
    assert_eq!(err.to_string(), "Type mismatch: expected integer, found string: abc");
}

#[test]
fn missing_field_and_invalid_value_messages() {
    assert_eq!(
        DeserializeError::missing_field("name").to_string(),
        "Missing required field: name"
    );
    assert_eq!(
        DeserializeError::invalid_value("too long").to_string(),
        "Invalid value: too long"
    );
}

#[test]
fn depth_and_cycle_messages() {
    let err = DeserializeError::DepthLimitExceeded { depth: 120, max_depth: 100 };
    assert_eq!(err.to_string(), "Depth limit exceeded: 120 >= 100");
    let err = DeserializeError::CircularReference { type_label: "Node".to_string() };
    assert_eq!(err.to_string(), "Circular reference detected for type: Node");
    let err = DeserializeError::Custom("plain".to_string());
    assert_eq!(err.to_string(), "plain");
}

#[test]
fn suggestion_extends_the_plain_message() {
    let plain = DeserializeError::UnknownVariant {
        enum_name: "Status".to_string(),
        variant: "actve".to_string(),
        suggestion: None,
    };
    let suggested = DeserializeError::UnknownVariant {
        enum_name: "Status".to_string(),
        variant: "actve".to_string(),
        suggestion: Some("Active".to_string()),
    };
    assert_eq!(plain.to_string(), "Unknown variant 'actve' for enum Status");
    assert_eq!(
        suggested.to_string(),
        format!("{}. Did you mean 'Active'?", plain.to_string())
    );

    let field = DeserializeError::UnknownField {
        struct_name: "User".to_string(),
        field: "nme".to_string(),
        suggestion: None,
    };
    assert_eq!(field.to_string(), "Unknown field 'nme' in struct User");
}

#[test]
fn details_lists_each_attempt_on_its_own_line() {
    let err = AllCandidatesError {
        attempts: vec![
            CandidateError {
                source: "direct".to_string(),
                score: 0,
                preview: String::new(),
                error: DeserializeError::missing_field("a"),
            },
            CandidateError {
                source: "yaml".to_string(),
                score: 12,
                preview: String::new(),
                error: DeserializeError::Custom("bad".to_string()),
            },
        ],
    };
    assert_eq!(
        err.details(),
        "  1. [direct] (score: 0): Missing required field: a\n  2. [yaml] (score: 12): bad"
    );
}

#[test]
fn empty_candidates() {
    let err = AllCandidatesError { attempts: vec![] };
    assert_eq!(err.len(), 0);
    assert!(err.is_empty());
    assert!(err.first_error().is_none());
    assert_eq!(err.details(), "");
    assert_eq!(err.to_string(), "0 candidates");
}

#[test]
fn parse_error_messages() {
    assert_eq!(
        ParseError::NoCandidates.to_string(),
        "No valid candidates found in response"
    );
    assert_eq!(
        ParseError::AllStrategiesFailed { attempts: vec![StrategyError::new("json", "bad")] }
            .to_string(),
        "All parsing strategies failed"
    );
    assert_eq!(
        ParseError::InvalidConfig("depth".to_string()).to_string(),
        "Invalid configuration: depth"
    );
    let wrapped: ParseError = DeserializeError::missing_field("id").into();
    assert!(matches!(wrapped, ParseError::DeserializeFailed(DeserializeError::MissingField { .. })));
    assert_eq!(wrapped.to_string(), "Deserialization failed: Missing required field: id");
}

#[test]
fn json_error_message_carries_serde_json_text() {
    let json_err = serde_json::from_str::<u32>("not a number").unwrap_err();
    let text = json_err.to_string();
    let parse_err: ParseError = json_err.into();
    let display = parse_err.to_string();
    assert!(display.starts_with("JSON error: "));
    assert_eq!(display, format!("JSON error: {}", text));
}
