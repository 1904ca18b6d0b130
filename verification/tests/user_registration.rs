use error_and_logging::ast::{AttributeNode, DeriveDecl, TypeBody, VariantDecl, VariantValue};
use error_and_logging::use_case_error::use_case_error_impl;
use error_and_logging::users::{register_user, RegisterUserError, RegistrationUser};

fn user(name: &str) -> RegistrationUser {
    RegistrationUser { user_name: name.to_string(), password: "secret".to_string() }
}

#[test]
fn registration_fails_on_the_reserved_names() {
    match register_user(user("foo")) {
        Err(RegisterUserError::Unexpected(msg)) => {
            assert_eq!(msg, "an error was raised when validating the use name");
        },
        _ => panic!("expected an unexpected error"),
    }
    match register_user(user("bar")) {
        Err(RegisterUserError::Repository(msg)) => {
            assert_eq!(msg, "an error was raised when registering the user to the database");
        },
        _ => panic!("expected a repository error"),
    }
    assert!(matches!(register_user(user("baz")), Err(RegisterUserError::WeakPassword)));
    match register_user(user("qux")) {
        Err(RegisterUserError::UserAlreadyExists(name)) => {
            assert_eq!(name, "qux");
        },
        _ => panic!("expected a user-already-exists error"),
    }
}

#[test]
fn registration_succeeds_on_other_names() {
    assert!(register_user(user("alice")).is_ok());
    assert!(register_user(user("")).is_ok());
    assert!(register_user(user("fooo")).is_ok());
}

#[test]
fn error_codes_match_the_declared_metadata() {
    assert_eq!(RegisterUserError::Unexpected("x".to_string()).error_code(), 1000);
    assert_eq!(RegisterUserError::Repository("x".to_string()).error_code(), 1001);
    assert_eq!(RegisterUserError::WeakPassword.error_code(), 2000);
    assert_eq!(RegisterUserError::UserAlreadyExists("x".to_string()).error_code(), 2001);
}

#[test]
fn status_codes_are_recognized_http_statuses() {
    let errors = vec![
        RegisterUserError::Unexpected("x".to_string()),
        RegisterUserError::Repository("x".to_string()),
        RegisterUserError::WeakPassword,
        RegisterUserError::UserAlreadyExists("x".to_string()),
    ];
    for e in &errors {
        let sc = e.status_code();
        assert!((100..600).contains(&sc));
    }
    assert_eq!(errors[0].status_code(), 500);
    assert_eq!(errors[1].status_code(), 500);
    assert_eq!(errors[2].status_code(), 400);
    assert_eq!(errors[3].status_code(), 400);
}

#[test]
fn error_messages_are_formatted() {
    assert_eq!(
        RegisterUserError::Unexpected("boom".to_string()).message(),
        "Unexpected error: boom"
    );
    assert_eq!(RegisterUserError::WeakPassword.message(), "Password is weak");
    assert_eq!(
        RegisterUserError::UserAlreadyExists("qux".to_string()).message(),
        "User already exists: qux"
    );
}

#[test]
fn error_response_json_has_the_uniform_shape() {
    let e = RegisterUserError::UserAlreadyExists("qux".to_string());
    assert_eq!(
        e.error_response_json(),
        "{\"statusCode\":400,\"errorCode\":2001,\"message\":\"User already exists: qux\"}"
    );
    let value: serde_json::Value = serde_json::from_str(&e.error_response_json()).unwrap();
    assert_eq!(value["errorCode"], serde_json::Value::from(2001u32));
}

#[test]
fn generated_table_agrees_with_the_error_type() {
    // The enum modeled the way the derive sees it: the generated table must
    // yield the same code as the hand-written `error_code` of each variant.
    let decl = DeriveDecl {
        name: "RegisterUserError".to_string(),
        vis: "pub".to_string(),
        impl_generics: String::new(),
        ty_generics: String::new(),
        where_clause: String::new(),
        body: TypeBody::Enum {
            variants: vec![
                VariantDecl {
                    name: "Unexpected".to_string(),
                    is_unit: false,
                    attrs: vec![AttributeNode {
                        path: "use_case_error".to_string(),
                        args: "error_code = 1000".to_string(),
                    }],
                },
                VariantDecl {
                    name: "Repository".to_string(),
                    is_unit: false,
                    attrs: vec![AttributeNode {
                        path: "use_case_error".to_string(),
                        args: "error_code = 1001".to_string(),
                    }],
                },
                VariantDecl {
                    name: "WeakPassword".to_string(),
                    is_unit: true,
                    attrs: vec![AttributeNode {
                        path: "use_case_error".to_string(),
                        args: "error_code = 2000".to_string(),
                    }],
                },
                VariantDecl {
                    name: "UserAlreadyExists".to_string(),
                    is_unit: false,
                    attrs: vec![AttributeNode {
                        path: "use_case_error".to_string(),
                        args: "error_code = 2001".to_string(),
                    }],
                },
            ],
        },
    };
    let gen = use_case_error_impl(&decl).unwrap();
    let errors = vec![
        RegisterUserError::Unexpected("x".to_string()),
        RegisterUserError::Repository("x".to_string()),
        RegisterUserError::WeakPassword,
        RegisterUserError::UserAlreadyExists("x".to_string()),
    ];
    for (i, e) in errors.iter().enumerate() {
        let v = VariantValue { index: i, payload: None };
        assert_eq!(gen.error_code(&v), e.error_code());
    }
}
