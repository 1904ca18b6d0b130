use error_and_logging::ast::{AttributeNode, DeriveDecl, TypeBody, VariantDecl, VariantValue};
use error_and_logging::diag::{DeriveError, FieldKind};
use error_and_logging::response_error::response_error_impl;
use error_and_logging::use_case_error::{derive_use_case_error, use_case_error_impl};

fn attr(path: &str, args: &str) -> AttributeNode {
    AttributeNode { path: path.to_string(), args: args.to_string() }
}

fn unit_variant(name: &str, attrs: Vec<AttributeNode>) -> VariantDecl {
    VariantDecl { name: name.to_string(), is_unit: true, attrs }
}

fn data_variant(name: &str, attrs: Vec<AttributeNode>) -> VariantDecl {
    VariantDecl { name: name.to_string(), is_unit: false, attrs }
}

fn enum_decl(name: &str, vis: &str, variants: Vec<VariantDecl>) -> DeriveDecl {
    DeriveDecl {
        name: name.to_string(),
        vis: vis.to_string(),
        impl_generics: String::new(),
        ty_generics: String::new(),
        where_clause: String::new(),
        body: TypeBody::Enum { variants },
    }
}

fn value(index: usize) -> VariantValue {
    VariantValue { index, payload: None }
}

fn value_with(index: usize, payload: &str) -> VariantValue {
    VariantValue { index, payload: Some(payload.to_string()) }
}

#[test]
fn response_error_collects_mixed_variants() {
    let decl = enum_decl(
        "ApiError",
        "pub",
        vec![
            unit_variant("NotFound", vec![attr(
                "response_error",
                "status_code = 404, error_code = 1",
            )]),
            data_variant("Conflict", vec![attr(
                "response_error",
                "status_code = 409, error_code = 5",
            )]),
            unit_variant("Internal", vec![attr(
                "response_error",
                "status_code = 500, error_code = 2",
            )]),
        ],
    );
    let gen = response_error_impl(&decl).unwrap();
    assert_eq!(gen.variants.len(), 3);
    assert_eq!(gen.error_code(&value(0)), 1);
    assert_eq!(gen.error_code(&value(1)), 5);
    assert_eq!(gen.error_code(&value(2)), 2);
    assert_eq!(gen.status_code(&value(0)), 404);
    assert_eq!(gen.status_code(&value(1)), 409);
    assert_eq!(gen.status_code(&value(2)), 500);
    assert_eq!(gen.variants[1].name, "Conflict");
    assert!(!gen.variants[1].is_unit);
}

#[test]
fn use_case_error_collects_declared_codes() {
    let decl = enum_decl(
        "RegisterUserError",
        "pub",
        vec![
            data_variant("Unexpected", vec![attr("use_case_error", "error_code = 1000")]),
            data_variant("Repository", vec![attr("use_case_error", "error_code = 1001")]),
            unit_variant("WeakPassword", vec![attr("use_case_error", "error_code = 2000")]),
            data_variant("UserAlreadyExists", vec![attr("use_case_error", "error_code = 2001")]),
        ],
    );
    let gen = use_case_error_impl(&decl).unwrap();
    assert_eq!(gen.variants.len(), 4);
    assert_eq!(gen.error_code(&value(0)), 1000);
    assert_eq!(gen.error_code(&value(1)), 1001);
    assert_eq!(gen.error_code(&value(2)), 2000);
    assert_eq!(gen.error_code(&value(3)), 2001);
}

#[test]
fn missing_attribute_fails_whole_enum() {
    // Three variants, only two annotated: generation must fail, not emit
    // arms for the two.
    let decl = enum_decl(
        "E",
        "",
        vec![
            unit_variant("A", vec![attr("response_error", "status_code = 404, error_code = 1")]),
            unit_variant("B", vec![]),
            unit_variant("C", vec![attr("response_error", "status_code = 404, error_code = 2")]),
        ],
    );
    assert_eq!(
        response_error_impl(&decl).unwrap_err(),
        DeriveError::MissingAttribute { variant: 1 }
    );

    let decl2 = enum_decl(
        "E",
        "",
        vec![
            unit_variant("A", vec![attr("use_case_error", "error_code = 1")]),
            unit_variant("B", vec![attr("other_attr", "error_code = 2")]),
        ],
    );
    assert_eq!(
        use_case_error_impl(&decl2).unwrap_err(),
        DeriveError::MissingAttribute { variant: 1 }
    );
}

#[test]
fn status_code_999_fails_and_404_succeeds() {
    let bad = enum_decl(
        "E",
        "",
        vec![unit_variant("A", vec![attr(
            "response_error",
            "status_code = 999, error_code = 1",
        )])],
    );
    assert_eq!(
        response_error_impl(&bad).unwrap_err(),
        DeriveError::UnknownStatusCode { variant: 0 }
    );

    let good = enum_decl(
        "E",
        "",
        vec![unit_variant("A", vec![attr(
            "response_error",
            "status_code = 404, error_code = 1",
        )])],
    );
    let gen = response_error_impl(&good).unwrap();
    assert_eq!(gen.status_code(&value(0)), 404);
}

#[test]
fn duplicate_error_codes_are_accepted() {
    let decl = enum_decl(
        "E",
        "",
        vec![
            unit_variant("A", vec![attr(
                "response_error",
                "status_code = 400, error_code = 10000",
            )]),
            unit_variant("B", vec![attr(
                "response_error",
                "status_code = 500, error_code = 10000",
            )]),
        ],
    );
    let gen = response_error_impl(&decl).unwrap();
    assert_eq!(gen.error_code(&value(0)), 10000);
    assert_eq!(gen.error_code(&value(1)), 10000);

    let decl2 = enum_decl(
        "E",
        "",
        vec![
            unit_variant("A", vec![attr("use_case_error", "error_code = 10000")]),
            unit_variant("B", vec![attr("use_case_error", "error_code = 10000")]),
        ],
    );
    let gen2 = use_case_error_impl(&decl2).unwrap();
    assert_eq!(gen2.error_code(&value(0)), 10000);
    assert_eq!(gen2.error_code(&value(1)), 10000);
}

#[test]
fn data_variant_ignores_payload() {
    let decl = enum_decl(
        "E",
        "",
        vec![data_variant("Foo", vec![attr(
            "response_error",
            "status_code = 409, error_code = 5",
        )])],
    );
    let gen = response_error_impl(&decl).unwrap();
    assert_eq!(gen.error_code(&value_with(0, "a")), 5);
    assert_eq!(gen.error_code(&value_with(0, "b")), 5);
}

#[test]
fn non_enum_is_rejected() {
    let decl = DeriveDecl {
        name: "S".to_string(),
        vis: String::new(),
        impl_generics: String::new(),
        ty_generics: String::new(),
        where_clause: String::new(),
        body: TypeBody::Struct,
    };
    assert_eq!(response_error_impl(&decl).unwrap_err(), DeriveError::NotAnEnum);
    assert_eq!(use_case_error_impl(&decl).unwrap_err(), DeriveError::NotAnEnum);
}

#[test]
fn malformed_attribute_arguments_are_rejected() {
    let decl = enum_decl(
        "E",
        "",
        vec![unit_variant("A", vec![attr("response_error", "status_code 404")])],
    );
    assert_eq!(
        response_error_impl(&decl).unwrap_err(),
        DeriveError::MalformedAttribute { variant: 0 }
    );
}

#[test]
fn missing_fields_are_reported() {
    let no_error_code = enum_decl(
        "E",
        "",
        vec![unit_variant("A", vec![attr("response_error", "status_code = 404")])],
    );
    assert_eq!(
        response_error_impl(&no_error_code).unwrap_err(),
        DeriveError::MissingField { variant: 0, field: FieldKind::ErrorCode }
    );

    let no_status = enum_decl(
        "E",
        "",
        vec![unit_variant("A", vec![attr("response_error", "error_code = 1")])],
    );
    assert_eq!(
        response_error_impl(&no_status).unwrap_err(),
        DeriveError::MissingField { variant: 0, field: FieldKind::StatusCode }
    );

    let empty_args = enum_decl(
        "E",
        "",
        vec![unit_variant("A", vec![attr("use_case_error", "")])],
    );
    assert_eq!(
        use_case_error_impl(&empty_args).unwrap_err(),
        DeriveError::MissingField { variant: 0, field: FieldKind::ErrorCode }
    );
}

#[test]
fn non_integer_field_values_are_rejected() {
    let string_value = enum_decl(
        "E",
        "",
        vec![unit_variant("A", vec![attr(
            "response_error",
            "status_code = 404, error_code = \"x\"",
        )])],
    );
    assert_eq!(
        response_error_impl(&string_value).unwrap_err(),
        DeriveError::InvalidFieldType { variant: 0, field: FieldKind::ErrorCode }
    );

    let too_wide_status = enum_decl(
        "E",
        "",
        vec![unit_variant("A", vec![attr(
            "response_error",
            "status_code = 70000, error_code = 1",
        )])],
    );
    assert_eq!(
        response_error_impl(&too_wide_status).unwrap_err(),
        DeriveError::InvalidFieldType { variant: 0, field: FieldKind::StatusCode }
    );

    let overflowing_code = enum_decl(
        "E",
        "",
        vec![unit_variant("A", vec![attr(
            "use_case_error",
            "error_code = 99999999999999999999",
        )])],
    );
    assert_eq!(
        use_case_error_impl(&overflowing_code).unwrap_err(),
        DeriveError::InvalidFieldType { variant: 0, field: FieldKind::ErrorCode }
    );
}

#[test]
fn repeated_fields_follow_each_generator() {
    // The response-error scan lets a later occurrence override an earlier
    // one; the use-case reader takes the first occurrence.
    let last_wins = enum_decl(
        "E",
        "",
        vec![unit_variant("A", vec![attr(
            "response_error",
            "status_code = 404, status_code = 500, error_code = 1",
        )])],
    );
    let gen = response_error_impl(&last_wins).unwrap();
    assert_eq!(gen.status_code(&value(0)), 500);

    let first_wins = enum_decl(
        "E",
        "",
        vec![unit_variant("A", vec![attr(
            "use_case_error",
            "error_code = 1, error_code = 2",
        )])],
    );
    let gen2 = use_case_error_impl(&first_wins).unwrap();
    assert_eq!(gen2.error_code(&value(0)), 1);
}

#[test]
fn unknown_extra_fields_are_ignored() {
    let decl = enum_decl(
        "E",
        "",
        vec![unit_variant("A", vec![attr(
            "response_error",
            "status_code = 404, note = high, error_code = 1",
        )])],
    );
    let gen = response_error_impl(&decl).unwrap();
    assert_eq!(gen.status_code(&value(0)), 404);
    assert_eq!(gen.error_code(&value(0)), 1);
}

#[test]
fn first_matching_attribute_is_used() {
    let decl = enum_decl(
        "E",
        "",
        vec![unit_variant(
            "A",
            vec![
                attr("doc", "hidden"),
                attr("response_error", "status_code = 404, error_code = 7"),
                attr("response_error", "status_code = 500, error_code = 8"),
            ],
        )],
    );
    let gen = response_error_impl(&decl).unwrap();
    assert_eq!(gen.status_code(&value(0)), 404);
    assert_eq!(gen.error_code(&value(0)), 7);
}

#[test]
fn rendered_use_case_error_matches_expected_text() {
    let decl = enum_decl(
        "RegisterUserError",
        "pub",
        vec![
            data_variant("Unexpected", vec![attr("use_case_error", "error_code = 1000")]),
            unit_variant("WeakPassword", vec![attr("use_case_error", "error_code = 2000")]),
        ],
    );
    let text = derive_use_case_error(&decl).unwrap();
    let expected = "impl RegisterUserError {\n\
                    \x20   pub fn error_code(&self) -> u32 {\n\
                    \x20       match *self {\n\
                    \x20           Self::Unexpected(..) => 1000u32,\n\
                    \x20           Self::WeakPassword => 2000u32,\n\
                    \x20       }\n\
                    \x20   }\n\
                    }\n";
    assert_eq!(text, expected);
}

#[test]
fn rendered_response_error_contains_both_impls() {
    let decl = enum_decl(
        "ApiError",
        "pub",
        vec![unit_variant("NotFound", vec![attr(
            "response_error",
            "status_code = 404, error_code = 1",
        )])],
    );
    let gen = response_error_impl(&decl).unwrap();
    let text = gen.render();
    assert!(text.starts_with("impl ApiError {\n"));
    assert!(text.contains("pub fn error_code(&self) -> u32 {"));
    assert!(text.contains("Self::NotFound => 1u32,"));
    assert!(text.contains("impl actix_web::error::ResponseError for ApiError {"));
    assert!(text.contains(
        "Self::NotFound => actix_web::http::StatusCode::from_u16(404u16).unwrap(),"
    ));
    assert!(text.contains("fn error_response(&self) -> actix_web::HttpResponse<actix_web::body::BoxBody> {"));
    assert!(text.contains("HttpResponseBuilder::new(status_code)"));
}

#[test]
fn generics_are_spliced_into_the_impl_header() {
    let decl = DeriveDecl {
        name: "E".to_string(),
        vis: "pub".to_string(),
        impl_generics: "<T: Clone>".to_string(),
        ty_generics: "<T>".to_string(),
        where_clause: "where T: Send".to_string(),
        body: TypeBody::Enum {
            variants: vec![unit_variant("A", vec![attr("use_case_error", "error_code = 1")])],
        },
    };
    let text = derive_use_case_error(&decl).unwrap();
    assert!(text.starts_with("impl <T: Clone> E<T> where T: Send {\n"));
}

#[test]
fn diagnostics_carry_their_message_text() {
    assert_eq!(DeriveError::NotAnEnum.message(), "an enum is expected");
    assert_eq!(
        DeriveError::UnknownStatusCode { variant: 0 }.message(),
        "status_code must be well-known code"
    );
    assert_eq!(
        DeriveError::InvalidFieldType { variant: 2, field: FieldKind::StatusCode }.message(),
        "status_code must be u16"
    );
}
