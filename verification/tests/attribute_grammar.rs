use error_and_logging::attr_args::{parse_attribute_args, ArgExpr};

#[test]
fn pairs_parse_with_flexible_whitespace() {
    let pairs = parse_attribute_args("  status_code =404 ,error_code= 1  ").unwrap();
    assert_eq!(pairs.len(), 2);
    assert_eq!(pairs[0].name, "status_code");
    assert_eq!(pairs[0].value, ArgExpr::IntLit(404));
    assert_eq!(pairs[1].name, "error_code");
    assert_eq!(pairs[1].value, ArgExpr::IntLit(1));
}

#[test]
fn empty_arguments_parse_to_no_pairs() {
    assert_eq!(parse_attribute_args("").unwrap().len(), 0);
    assert_eq!(parse_attribute_args("   ").unwrap().len(), 0);
}

#[test]
fn trailing_comma_is_accepted() {
    let pairs = parse_attribute_args("error_code = 7,").unwrap();
    assert_eq!(pairs.len(), 1);
    assert_eq!(pairs[0].value, ArgExpr::IntLit(7));
}

#[test]
fn non_literal_values_are_kept_as_other() {
    let pairs = parse_attribute_args("a = f(1, 2), b = \"x,y\", c = 3").unwrap();
    assert_eq!(pairs.len(), 3);
    assert_eq!(pairs[0].value, ArgExpr::Other);
    assert_eq!(pairs[1].value, ArgExpr::Other);
    assert_eq!(pairs[2].value, ArgExpr::IntLit(3));
}

#[test]
fn malformed_argument_text_is_rejected() {
    assert!(parse_attribute_args("status_code 404").is_err());
    assert!(parse_attribute_args("= 404").is_err());
    assert!(parse_attribute_args("a = ").is_err());
    assert!(parse_attribute_args("a = (1").is_err());
    assert!(parse_attribute_args("a = 1)").is_err());
    assert!(parse_attribute_args("a = \"unterminated").is_err());
    assert!(parse_attribute_args("1a = 2").is_err());
}

#[test]
fn huge_numbers_are_not_integer_literals() {
    let pairs = parse_attribute_args("a = 999999999999999999999999999").unwrap();
    assert_eq!(pairs[0].value, ArgExpr::Other);
}
