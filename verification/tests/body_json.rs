use error_and_logging::body::{default_error_body, ErrorResponseBody};

#[test]
fn body_serializes_to_the_canonical_shape() {
    let body = ErrorResponseBody::new(404, Some(5), "not found".to_string());
    assert_eq!(
        body.to_json(),
        "{\"statusCode\":404,\"errorCode\":5,\"message\":\"not found\"}"
    );
}

#[test]
fn missing_error_code_serializes_as_null() {
    let body = ErrorResponseBody::new(500, None, "Internal Server Error".to_string());
    assert_eq!(
        body.to_json(),
        "{\"statusCode\":500,\"errorCode\":null,\"message\":\"Internal Server Error\"}"
    );
}

#[test]
fn message_escaping_matches_json() {
    let body = ErrorResponseBody::new(400, Some(1), "a \"b\" \\ c\nd\t\u{1}".to_string());
    assert_eq!(
        body.to_json(),
        "{\"statusCode\":400,\"errorCode\":1,\"message\":\"a \\\"b\\\" \\\\ c\\nd\\t\\u0001\"}"
    );
}

#[test]
fn emitted_json_parses_back_to_the_same_body() {
    let bodies = vec![
        ErrorResponseBody::new(404, Some(5), "not found".to_string()),
        ErrorResponseBody::new(500, None, String::new()),
        ErrorResponseBody::new(400, Some(10000), "quote \" slash \\ ctrl \u{2}\r\n".to_string()),
        ErrorResponseBody::new(599, Some(u32::MAX), "ünïcode ✓".to_string()),
    ];
    for body in bodies {
        let text = body.to_json();
        let back = ErrorResponseBody::from_json(&text).unwrap();
        assert_eq!(back, body);
    }
}

#[test]
fn emitted_json_is_valid_for_serde() {
    let body = ErrorResponseBody::new(409, Some(10001), "User already exists: qux\n\u{3}".to_string());
    let text = body.to_json();
    let value: serde_json::Value = serde_json::from_str(&text).unwrap();
    assert_eq!(value["statusCode"], serde_json::Value::from(409u16));
    assert_eq!(value["errorCode"], serde_json::Value::from(10001u32));
    assert_eq!(
        value["message"],
        serde_json::Value::from("User already exists: qux\n\u{3}")
    );
}

#[test]
fn null_error_code_round_trips_through_serde() {
    let body = ErrorResponseBody::new(500, None, "boom".to_string());
    let value: serde_json::Value = serde_json::from_str(&body.to_json()).unwrap();
    assert!(value["errorCode"].is_null());
}

#[test]
fn non_canonical_text_is_rejected() {
    assert!(ErrorResponseBody::from_json("").is_none());
    assert!(ErrorResponseBody::from_json("{}").is_none());
    assert!(ErrorResponseBody::from_json("{\"statusCode\":404}").is_none());
    assert!(ErrorResponseBody::from_json(
        "{\"errorCode\":5,\"statusCode\":404,\"message\":\"x\"}"
    )
    .is_none());
    assert!(ErrorResponseBody::from_json(
        "{\"statusCode\":404,\"errorCode\":5,\"message\":\"x\"} "
    )
    .is_none());
    assert!(ErrorResponseBody::from_json(
        "{\"statusCode\":99999,\"errorCode\":5,\"message\":\"x\"}"
    )
    .is_none());
}

#[test]
fn default_error_body_uses_reason_or_fallback() {
    let with_reason = default_error_body(404, Some("Not Found".to_string()));
    assert_eq!(
        with_reason.to_json(),
        "{\"statusCode\":404,\"errorCode\":null,\"message\":\"Not Found\"}"
    );
    let without = default_error_body(500, None);
    assert_eq!(
        without.to_json(),
        "{\"statusCode\":500,\"errorCode\":null,\"message\":\"Unexpected error raised\"}"
    );
}
