use biz_error::{
    catalog_from_doc, emit, generate_from_catalog, generate_from_doc, generate_from_yaml,
    render, to_pascal_case, validate, CompileError, Doc, ErrorCatalog, ErrorEntry, SchemaError,
    ValidationError,
};

const EXAMPLE: &str = "default_language: en
errors:
  success:
    code: 0
    http_status: 200
    message:
      en: \"SUCCESS\"
      zh-CN: \"成功\"
  invalid_param:
    code: 4000
    message:
      en: \"INVALID PARAMETER\"
";

fn s(t: &str) -> Doc {
    Doc::Str(t.to_string())
}

fn entry(name: &str, code: i64, status: i64, msgs: &[(&str, &str)]) -> ErrorEntry {
    ErrorEntry {
        raw_name: name.to_string(),
        numeric_code: code,
        status_code: status,
        messages: msgs.iter().map(|(l, t)| (l.to_string(), t.to_string())).collect(),
    }
}

fn catalog(default_language: &str, entries: Vec<ErrorEntry>) -> ErrorCatalog {
    ErrorCatalog { default_language: default_language.to_string(), entries }
}

fn example_catalog() -> ErrorCatalog {
    catalog(
        "en",
        vec![
            entry("success", 0, 200, &[("en", "SUCCESS"), ("zh-CN", "成功")]),
            entry("invalid_param", 4000, 500, &[("en", "INVALID PARAMETER")]),
        ],
    )
}

#[test]
fn pascal_case_joins_capitalised_tokens() {
    assert_eq!(to_pascal_case("invalid_param"), "InvalidParam");
    assert_eq!(to_pascal_case("success"), "Success");
    assert_eq!(to_pascal_case("foo__bar_"), "FooBar");
    assert_eq!(to_pascal_case("FooBar"), "FooBar");
    assert_eq!(to_pascal_case(""), "");
    assert_eq!(to_pascal_case("a_1b"), "A1b");
}

#[test]
fn pascal_case_uses_full_uppercase_mapping() {
    assert_eq!(to_pascal_case("ß_x"), "SSX");
    assert_eq!(to_pascal_case("émoi"), "Émoi");
}

#[test]
fn example_schema_loads_in_declaration_order() {
    let text_catalog = {
        let v: serde_yaml::Value = serde_yaml::from_str(EXAMPLE).unwrap();
        biz_error::yaml::doc_from_value(&v, biz_error::yaml::MAX_DEPTH)
    };
    let c = catalog_from_doc(&text_catalog).unwrap();
    assert_eq!(c, example_catalog());
}

#[test]
fn example_scenario_lookups() {
    let c = example_catalog();
    assert!(validate(&c).is_ok());
    let g = emit(&c);
    assert_eq!(g.len(), 2);
    assert_eq!(g.all_codes(), vec!["Success".to_string(), "InvalidParam".to_string()]);
    let success = g.variant_for("success").unwrap();
    let invalid = g.variant_for("invalid_param").unwrap();
    assert_eq!((success, invalid), (0, 1));
    assert_eq!(g.code(success), 0);
    assert_eq!(g.code(invalid), 4000);
    assert_eq!(g.message_lang(success, "zh-CN"), "成功");
    assert_eq!(g.message_lang(success, "en"), "SUCCESS");
    assert_eq!(g.message_lang(invalid, "zh-CN"), "INVALID PARAMETER");
    assert_eq!(g.message(invalid), "INVALID PARAMETER");
    assert_eq!(g.status(success), 200);
    assert_eq!(g.status(invalid), 500);
    assert_eq!(g.variant_for("missing"), None);
}

#[test]
fn example_scenario_source_text() {
    let out = generate_from_yaml(EXAMPLE).unwrap();
    assert!(out.starts_with("// Generated from the error schema"));
    assert!(out.contains("    #[doc = \"SUCCESS\"]\n    Success,\n"));
    assert!(out.contains("    #[doc = \"INVALID PARAMETER\"]\n    InvalidParam,\n"));
    assert!(out.contains("            ErrorCode::Success => 0,\n"));
    assert!(out.contains("            ErrorCode::InvalidParam => 4000,\n"));
    assert!(out.contains("self.message_lang(\"en\")"));
    assert!(out.contains("            (ErrorCode::Success, \"zh-CN\") => \"成功\",\n"));
    assert!(out.contains("            (ErrorCode::Success, _) => \"SUCCESS\",\n"));
    assert!(out.contains("            (ErrorCode::InvalidParam, _) => \"INVALID PARAMETER\",\n"));
    assert!(out.contains(
        "            ErrorCode::Success => axum::http::StatusCode::from_u16(200).unwrap(),\n"
    ));
    assert!(out.contains(
        "            ErrorCode::InvalidParam => axum::http::StatusCode::from_u16(500).unwrap(),\n"
    ));
    assert!(out.ends_with(
        "pub const ALL_ERROR_CODES: &[ErrorCode] = &[ErrorCode::Success, ErrorCode::InvalidParam];\n"
    ));
}

#[test]
fn compiling_twice_gives_identical_text() {
    let a = generate_from_yaml(EXAMPLE).unwrap();
    let b = generate_from_yaml(EXAMPLE).unwrap();
    assert_eq!(a, b);
    let c = generate_from_catalog(&example_catalog()).unwrap();
    assert_eq!(a, c);
}

#[test]
fn code_round_trips_through_variant() {
    let c = catalog(
        "en",
        vec![
            entry("not_found", 4040, 404, &[("en", "NOT FOUND")]),
            entry("conflict", -7, 409, &[("en", "CONFLICT")]),
            entry("big", i32::MIN as i64, 500, &[("en", "BIG")]),
            entry("top", i32::MAX as i64, 500, &[("en", "TOP")]),
        ],
    );
    assert!(validate(&c).is_ok());
    let g = emit(&c);
    for e in &c.entries {
        let v = g.variant_for(&e.raw_name).unwrap();
        assert_eq!(g.code(v), e.numeric_code);
    }
    let out = render(&g);
    assert!(out.contains("ErrorCode::Conflict => -7,\n"));
    assert!(out.contains("ErrorCode::Big => -2147483648,\n"));
    assert!(out.contains("ErrorCode::Top => 2147483647,\n"));
}

#[test]
fn unknown_language_falls_back_to_default() {
    let c = catalog("zh", vec![entry("busy", 1, 503, &[("en", "BUSY"), ("zh", "忙")])]);
    let g = emit(&c);
    assert_eq!(g.message_lang(0, "fr"), g.message_lang(0, "zh"));
    assert_eq!(g.message_lang(0, "fr"), "忙");
    assert_eq!(g.message_lang(0, "en"), "BUSY");
    assert_eq!(g.message(0), "忙");
}

#[test]
fn missing_default_language_gives_empty_text() {
    let c = catalog("de", vec![entry("busy", 1, 503, &[("en", "BUSY")])]);
    assert!(validate(&c).is_ok());
    let g = emit(&c);
    assert_eq!(g.message_lang(0, "fr"), "");
    assert_eq!(g.message_lang(0, "de"), "");
    assert_eq!(g.message(0), "");
    assert_eq!(g.message_lang(0, "en"), "BUSY");
    let out = render(&g);
    assert!(out.contains("(ErrorCode::Busy, _) => \"\",\n"));
    assert!(out.contains("    #[doc = \"\"]\n    Busy,\n"));
}

#[test]
fn identifier_collision_is_rejected() {
    let c = catalog(
        "en",
        vec![
            entry("foo_bar", 1, 500, &[("en", "A")]),
            entry("other", 2, 500, &[("en", "B")]),
            entry("FooBar", 3, 500, &[("en", "C")]),
        ],
    );
    assert_eq!(
        validate(&c),
        Err(ValidationError::IdentifierCollision(
            "foo_bar".to_string(),
            "FooBar".to_string(),
            "FooBar".to_string()
        ))
    );
    assert!(generate_from_catalog(&c).is_err());
    let text = "errors:\n  foo_bar:\n    code: 1\n    message: {en: A}\n  FooBar:\n    code: 2\n    message: {en: B}\n";
    assert!(matches!(
        generate_from_yaml(text),
        Err(CompileError::Validation(ValidationError::IdentifierCollision(_, _, _)))
    ));
}

#[test]
fn duplicate_raw_name_is_rejected() {
    let c = catalog(
        "en",
        vec![entry("a", 1, 500, &[("en", "A")]), entry("a", 2, 500, &[("en", "B")])],
    );
    assert_eq!(validate(&c), Err(ValidationError::DuplicateName("a".to_string())));
}

#[test]
fn empty_messages_are_rejected() {
    let c = catalog("en", vec![entry("a", 1, 999, &[])]);
    assert_eq!(validate(&c), Err(ValidationError::EmptyMessages("a".to_string())));
}

#[test]
fn status_out_of_range_is_rejected() {
    let text = "errors:\n  teapot:\n    code: 1\n    http_status: 999\n    message: {en: T}\n";
    assert_eq!(
        generate_from_yaml(text),
        Err(CompileError::Validation(ValidationError::StatusOutOfRange("teapot".to_string(), 999)))
    );
    let low = catalog("en", vec![entry("a", 1, 99, &[("en", "A")])]);
    assert_eq!(validate(&low), Err(ValidationError::StatusOutOfRange("a".to_string(), 99)));
    let edges = catalog(
        "en",
        vec![entry("a", 1, 100, &[("en", "A")]), entry("b", 2, 599, &[("en", "B")])],
    );
    assert_eq!(validate(&edges), Ok(()));
}

#[test]
fn validation_checks_run_in_order() {
    let c = catalog(
        "en",
        vec![
            entry("x", 1, 999, &[("en", "A")]),
            entry("x", 2, 500, &[]),
        ],
    );
    assert_eq!(validate(&c), Err(ValidationError::EmptyMessages("x".to_string())));
}

#[test]
fn missing_errors_section() {
    let r = generate_from_yaml("default_language: en\n");
    assert_eq!(r, Err(CompileError::Schema(SchemaError::MissingSection("errors".to_string()))));
    let r = generate_from_doc(&Doc::Other);
    assert_eq!(r, Err(CompileError::Schema(SchemaError::MissingSection("errors".to_string()))));
}

#[test]
fn missing_code_and_message_fields() {
    let r = generate_from_yaml("errors:\n  a:\n    message: {en: A}\n");
    assert_eq!(
        r,
        Err(CompileError::Schema(SchemaError::MissingField("a".to_string(), "code".to_string())))
    );
    let r = generate_from_yaml("errors:\n  a:\n    code: 1.5\n    message: {en: A}\n");
    assert_eq!(
        r,
        Err(CompileError::Schema(SchemaError::MissingField("a".to_string(), "code".to_string())))
    );
    let r = generate_from_yaml("errors:\n  a:\n    code: 1\n    message: hello\n");
    assert_eq!(
        r,
        Err(CompileError::Schema(SchemaError::MissingField("a".to_string(), "message".to_string())))
    );
}

#[test]
fn invalid_message_entries() {
    let r = generate_from_yaml("errors:\n  a:\n    code: 1\n    message: {en: [1, 2]}\n");
    assert_eq!(
        r,
        Err(CompileError::Schema(SchemaError::InvalidMessageEntry(
            "a".to_string(),
            "en".to_string()
        )))
    );
    let r = generate_from_yaml("errors:\n  a:\n    code: 1\n    message: {[x]: A}\n");
    assert_eq!(
        r,
        Err(CompileError::Schema(SchemaError::InvalidMessageEntry("a".to_string(), String::new())))
    );
}

#[test]
fn non_string_entry_key() {
    let r = generate_from_yaml("errors:\n  [1]:\n    code: 1\n    message: {en: A}\n");
    assert_eq!(r, Err(CompileError::Schema(SchemaError::NonStringName)));
}

#[test]
fn malformed_yaml_is_a_parse_error() {
    let r = generate_from_yaml("errors: [unclosed\n");
    assert!(matches!(r, Err(CompileError::Parse(m)) if !m.is_empty()));
}

#[test]
fn defaults_for_language_and_status() {
    let doc = Doc::Mapping(vec![(
        s("errors"),
        Doc::Mapping(vec![(
            s("a"),
            Doc::Mapping(vec![
                (s("code"), Doc::Int(5)),
                (s("message"), Doc::Mapping(vec![(s("en"), s("A"))])),
            ]),
        )]),
    )]);
    let c = catalog_from_doc(&doc).unwrap();
    assert_eq!(c.default_language, "en");
    assert_eq!(c.entries[0].status_code, 500);
    let doc = Doc::Mapping(vec![
        (s("default_language"), Doc::Int(3)),
        (s("errors"), Doc::Mapping(vec![])),
    ]);
    let c = catalog_from_doc(&doc).unwrap();
    assert_eq!(c.default_language, "en");
    assert!(c.entries.is_empty());
}

#[test]
fn empty_catalog_renders_empty_enumeration() {
    let out = generate_from_yaml("errors: {}\n").unwrap();
    assert!(out.contains("pub enum ErrorCode {\n}\n"));
    assert!(out.ends_with("&[];\n"));
}

#[test]
fn literals_are_escaped() {
    let c = catalog(
        "en",
        vec![entry("q", 1, 400, &[("en", "say \"hi\"\\\nnext\r")])],
    );
    let out = generate_from_catalog(&c).unwrap();
    assert!(out.contains("(ErrorCode::Q, \"en\") => \"say \\\"hi\\\"\\\\\\nnext\\r\",\n"));
}

#[test]
fn tagged_values_are_read_through_their_tag() {
    let r = generate_from_yaml("errors:\n  a:\n    code: !num 7\n    message: {en: !t A}\n").unwrap();
    assert!(r.contains("ErrorCode::A => 7,\n"));
    assert!(r.contains("(ErrorCode::A, \"en\") => \"A\",\n"));
}

#[test]
fn code_outside_i32_is_rejected() {
    let c = catalog(
        "en",
        vec![entry("a", 1, 500, &[("en", "A")]), entry("huge", 1 << 31, 500, &[("en", "H")])],
    );
    assert_eq!(
        validate(&c),
        Err(ValidationError::CodeOutOfRange("huge".to_string(), 2147483648))
    );
    let bad_status_first = catalog(
        "en",
        vec![entry("huge", 1 << 31, 500, &[("en", "H")]), entry("b", 1, 65736, &[("en", "B")])],
    );
    assert_eq!(
        validate(&bad_status_first),
        Err(ValidationError::StatusOutOfRange("b".to_string(), 65736))
    );
    let low = catalog("en", vec![entry("low", i64::MIN, 500, &[("en", "L")])]);
    assert_eq!(validate(&low), Err(ValidationError::CodeOutOfRange("low".to_string(), i64::MIN)));
    let text = "errors:\n  big:\n    code: 5000000000\n    message: {en: B}\n";
    assert_eq!(
        generate_from_yaml(text),
        Err(CompileError::Validation(ValidationError::CodeOutOfRange("big".to_string(), 5000000000)))
    );
}
