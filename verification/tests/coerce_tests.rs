//! Tests for the value coercer.

use json_extract::Json;
use json_extract::JsonExtractError;
use json_extract::coerce::parse_value_with_type;
use json_extract::num::parse_i64;

#[test]
fn test_parse_value_with_type() {
    assert!(matches!(
        parse_value_with_type("42", Some("integer")).unwrap(),
        Json::Int(42)
    ));
    assert!(matches!(
        parse_value_with_type("true", Some("boolean")).unwrap(),
        Json::Bool(true)
    ));
    assert!(
        matches!(parse_value_with_type("text", Some("string")).unwrap(), Json::Str(s) if s == "text")
    );
}

#[test]
fn test_auto_detect_order() {
    assert_eq!(parse_value_with_type("42", None).unwrap(), Json::Int(42));
    assert_eq!(parse_value_with_type("42.0", None).unwrap(), Json::Int(42));
    assert_eq!(
        parse_value_with_type("42.5", None).unwrap(),
        Json::Float(serde_json::Number::from_f64(42.5).unwrap())
    );
    assert_eq!(
        parse_value_with_type("true", None).unwrap(),
        Json::Bool(true)
    );
    assert_eq!(
        parse_value_with_type("hello", None).unwrap(),
        Json::Str("hello".to_string())
    );
}

#[test]
fn test_auto_detect_json_literal_first() {
    assert_eq!(
        parse_value_with_type("\"42\"", None).unwrap(),
        Json::Str("42".to_string())
    );
    assert_eq!(
        parse_value_with_type("[1,2]", None).unwrap(),
        Json::Arr(vec![Json::Int(1), Json::Int(2)])
    );
    assert_eq!(
        parse_value_with_type("{\"a\":1}", None).unwrap(),
        Json::Obj(vec![("a".to_string(), Json::Int(1))])
    );
}

#[test]
fn test_auto_detect_keywords_ignore_case() {
    assert_eq!(
        parse_value_with_type("TRUE", None).unwrap(),
        Json::Bool(true)
    );
    assert_eq!(
        parse_value_with_type("False", None).unwrap(),
        Json::Bool(false)
    );
    assert_eq!(parse_value_with_type("NULL", None).unwrap(), Json::Null);
}

#[test]
fn test_auto_detect_fold_rule() {
    assert_eq!(parse_value_with_type("1e3", None).unwrap(), Json::Int(1000));
    assert_eq!(parse_value_with_type("-0.0", None).unwrap(), Json::Int(0));
    // 2^53 is not below the fold boundary, so it stays a float
    assert!(matches!(
        parse_value_with_type("9007199254740992.0", None).unwrap(),
        Json::Float(_)
    ));
    assert_eq!(
        parse_value_with_type("123456.0", None).unwrap(),
        Json::Int(123456)
    );
    assert_eq!(
        parse_value_with_type("-7.0", None).unwrap(),
        Json::Int(-7)
    );
    // 2^53 - 1 is below the boundary and folds
    assert_eq!(
        parse_value_with_type("9007199254740991.0", None).unwrap(),
        Json::Int(9007199254740991)
    );
}

#[test]
fn test_auto_detect_big_unsigned() {
    assert_eq!(
        parse_value_with_type("18446744073709551615", None).unwrap(),
        Json::UInt(18446744073709551615)
    );
}

#[test]
fn test_integer_hint_errors() {
    assert!(matches!(
        parse_value_with_type("abc", Some("integer")),
        Err(JsonExtractError::InvalidValueType { value, expected })
            if value == "abc" && expected == "integer"
    ));
    assert!(matches!(
        parse_value_with_type("42.5", Some("integer")),
        Err(JsonExtractError::InvalidValueType { .. })
    ));
}

#[test]
fn test_float_hint() {
    assert_eq!(
        parse_value_with_type("42.5", Some("float")).unwrap(),
        Json::Float(serde_json::Number::from_f64(42.5).unwrap())
    );
    // an explicit float hint is strict: no fold to integer
    assert_eq!(
        parse_value_with_type("42.0", Some("float")).unwrap(),
        Json::Float(serde_json::Number::from_f64(42.0).unwrap())
    );
    assert!(matches!(
        parse_value_with_type("abc", Some("float")),
        Err(JsonExtractError::InvalidValueType { value, expected })
            if value == "abc" && expected == "float"
    ));
    // a non-finite float has no JSON number to hold it
    assert_eq!(parse_value_with_type("inf", Some("float")).unwrap(), Json::Null);
}

#[test]
fn test_boolean_hint_errors() {
    assert!(matches!(
        parse_value_with_type("yes", Some("boolean")),
        Err(JsonExtractError::InvalidValueType { value, expected })
            if value == "yes" && expected == "boolean"
    ));
    assert!(matches!(
        parse_value_with_type("tRuE", Some("boolean")).unwrap(),
        Json::Bool(true)
    ));
}

#[test]
fn test_null_hint_ignores_text() {
    assert_eq!(parse_value_with_type("whatever", Some("null")).unwrap(), Json::Null);
}

#[test]
fn test_unknown_hint_auto_detects() {
    assert_eq!(parse_value_with_type("42", Some("auto")).unwrap(), Json::Int(42));
}

#[test]
fn test_parse_i64_grammar() {
    assert_eq!(parse_i64("42"), Some(42));
    assert_eq!(parse_i64("+42"), Some(42));
    assert_eq!(parse_i64("-42"), Some(-42));
    assert_eq!(parse_i64("9223372036854775807"), Some(i64::MAX));
    assert_eq!(parse_i64("-9223372036854775808"), Some(i64::MIN));
    assert_eq!(parse_i64("9223372036854775808"), None);
    assert_eq!(parse_i64("-9223372036854775809"), None);
    assert_eq!(parse_i64(""), None);
    assert_eq!(parse_i64("+"), None);
    assert_eq!(parse_i64("4 2"), None);
    assert_eq!(parse_i64("042"), Some(42));
}
