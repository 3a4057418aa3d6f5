//! Tests for the tree reader and quote stripping.

use json_extract::Json;
use json_extract::JsonExtractError;
use json_extract::reader::get_nested_value;
use json_extract::reader::strip_quotes;
use json_extract::reader::strip_quotes_internal;

fn sample_document() -> Json {
    Json::Obj(vec![
        (
            "package".to_string(),
            Json::Obj(vec![
                ("name".to_string(), Json::Str("test".to_string())),
                (
                    "dependencies".to_string(),
                    Json::Obj(vec![(
                        "serde".to_string(),
                        Json::Str("1.0".to_string()),
                    )]),
                ),
            ]),
        ),
        (
            "array".to_string(),
            Json::Arr(vec![Json::Int(1), Json::Int(2), Json::Int(3)]),
        ),
    ])
}

#[test]
fn test_get_nested_value() {
    let json_value = sample_document();

    assert_eq!(
        get_nested_value(&json_value, "package.name").unwrap(),
        &Json::Str("test".to_string())
    );

    assert_eq!(
        get_nested_value(&json_value, "package.dependencies.serde").unwrap(),
        &Json::Str("1.0".to_string())
    );

    assert_eq!(
        get_nested_value(&json_value, "array[1]").unwrap(),
        &Json::Int(2)
    );
}

#[test]
fn test_get_nested_value_field_not_found() {
    let doc = sample_document();
    assert!(matches!(
        get_nested_value(&doc, "package.missing"),
        Err(JsonExtractError::FieldNotFound(f)) if f == "missing"
    ));
    assert!(matches!(
        get_nested_value(&doc, "package.name.deeper"),
        Err(JsonExtractError::FieldNotFound(f)) if f == "deeper"
    ));
}

#[test]
fn test_get_nested_value_not_an_array() {
    let doc = sample_document();
    assert!(matches!(
        get_nested_value(&doc, "package[0]"),
        Err(JsonExtractError::NotAnArray(p)) if p == "package"
    ));
}

#[test]
fn test_get_nested_value_index_out_of_bounds() {
    let doc = sample_document();
    assert!(matches!(
        get_nested_value(&doc, "array[3]"),
        Err(JsonExtractError::ArrayIndexOutOfBounds { path, index: 3, length: 3 }) if path == "array"
    ));
}

#[test]
fn test_get_nested_value_invalid_path() {
    let doc = sample_document();
    assert!(matches!(
        get_nested_value(&doc, "package..name"),
        Err(JsonExtractError::InvalidFieldPath(p)) if p == "package..name"
    ));
}

#[test]
fn test_strip_quotes_internal() {
    assert_eq!(strip_quotes_internal("\"hello\""), "hello");
    assert_eq!(strip_quotes_internal("'world'"), "world");
    assert_eq!(strip_quotes_internal("no_quotes"), "no_quotes");
}

#[test]
fn test_strip_quotes_edge_cases() {
    assert_eq!(strip_quotes("\"\""), "");
    assert_eq!(strip_quotes("\""), "\"");
    assert_eq!(strip_quotes("\"mismatched'"), "\"mismatched'");
    assert_eq!(strip_quotes("'a'"), "a");
}
