//! Tests for the tree writer.

use json_extract::Json;
use json_extract::JsonExtractError;
use json_extract::path::split_field_path;
use json_extract::writer::set_nested_value;

#[test]
fn test_set_field_overwrites_value() {
    let doc = Json::Obj(vec![("name".to_string(), Json::Str("old".to_string()))]);
    let parts = split_field_path("name").unwrap();
    let updated = set_nested_value(doc, &parts, 0, "new", None, false).unwrap();
    assert_eq!(
        updated,
        Json::Obj(vec![("name".to_string(), Json::Str("new".to_string()))])
    );
}

#[test]
fn test_set_array_element_keeps_others() {
    let doc = Json::Obj(vec![(
        "authors".to_string(),
        Json::Arr(vec![
            Json::Str("Alice".to_string()),
            Json::Str("Bob".to_string()),
        ]),
    )]);
    let parts = split_field_path("authors[0]").unwrap();
    let updated = set_nested_value(doc, &parts, 0, "Charlie", None, false).unwrap();
    assert_eq!(
        updated,
        Json::Obj(vec![(
            "authors".to_string(),
            Json::Arr(vec![
                Json::Str("Charlie".to_string()),
                Json::Str("Bob".to_string()),
            ]),
        )])
    );
}

#[test]
fn test_set_nested_create_missing() {
    let doc = Json::Obj(vec![]);
    let parts = split_field_path("a.b.c").unwrap();
    let updated = set_nested_value(doc, &parts, 0, "1", None, true).unwrap();
    assert_eq!(
        updated,
        Json::Obj(vec![(
            "a".to_string(),
            Json::Obj(vec![(
                "b".to_string(),
                Json::Obj(vec![("c".to_string(), Json::Int(1))]),
            )]),
        )])
    );
}

#[test]
fn test_set_nested_without_create_missing_fails() {
    let doc = Json::Obj(vec![]);
    let parts = split_field_path("a.b.c").unwrap();
    assert!(matches!(
        set_nested_value(doc, &parts, 0, "1", None, false),
        Err(JsonExtractError::NotAnObject(_))
    ));
}

#[test]
fn test_set_pads_array_with_nulls() {
    let doc = Json::Obj(vec![("xs".to_string(), Json::Arr(vec![Json::Int(1)]))]);
    let parts = split_field_path("xs[3]").unwrap();
    let updated = set_nested_value(doc, &parts, 0, "9", None, true).unwrap();
    assert_eq!(
        updated,
        Json::Obj(vec![(
            "xs".to_string(),
            Json::Arr(vec![Json::Int(1), Json::Null, Json::Null, Json::Int(9)]),
        )])
    );
}

#[test]
fn test_set_array_out_of_bounds_without_create() {
    let doc = Json::Obj(vec![("xs".to_string(), Json::Arr(vec![Json::Int(1)]))]);
    let parts = split_field_path("xs[3]").unwrap();
    assert!(matches!(
        set_nested_value(doc, &parts, 0, "9", None, false),
        Err(JsonExtractError::ArrayIndexOutOfBounds { path, index: 3, length: 1 }) if path == "xs"
    ));
}

#[test]
fn test_set_creates_missing_array() {
    let doc = Json::Obj(vec![]);
    let parts = split_field_path("xs[0]").unwrap();
    let updated = set_nested_value(doc, &parts, 0, "7", None, true).unwrap();
    assert_eq!(
        updated,
        Json::Obj(vec![("xs".to_string(), Json::Arr(vec![Json::Int(7)]))])
    );
}

#[test]
fn test_set_on_non_array_fails() {
    let doc = Json::Obj(vec![("xs".to_string(), Json::Int(5))]);
    let parts = split_field_path("xs[0]").unwrap();
    assert!(matches!(
        set_nested_value(doc, &parts, 0, "7", None, true),
        Err(JsonExtractError::NotAnArray(p)) if p == "xs"
    ));
}

#[test]
fn test_set_replaces_wrongly_typed_node_under_create() {
    let doc = Json::Obj(vec![("a".to_string(), Json::Int(5))]);
    let parts = split_field_path("a.b").unwrap();
    let updated = set_nested_value(doc, &parts, 0, "x", None, true).unwrap();
    assert_eq!(
        updated,
        Json::Obj(vec![(
            "a".to_string(),
            Json::Obj(vec![("b".to_string(), Json::Str("x".to_string()))]),
        )])
    );
}

#[test]
fn test_set_coercion_error_surfaces() {
    let doc = Json::Obj(vec![("name".to_string(), Json::Null)]);
    let parts = split_field_path("name").unwrap();
    assert!(matches!(
        set_nested_value(doc, &parts, 0, "abc", Some("integer"), false),
        Err(JsonExtractError::InvalidValueType { value, expected })
            if value == "abc" && expected == "integer"
    ));
}

#[test]
fn test_set_then_get_round_trip() {
    // writing back what a path resolves to leaves the value readable again
    let doc = Json::Obj(vec![(
        "authors".to_string(),
        Json::Arr(vec![
            Json::Str("Alice".to_string()),
            Json::Str("Bob".to_string()),
        ]),
    )]);
    let parts = split_field_path("authors[1]").unwrap();
    let resolved = json_extract::reader::get_nested_value(&doc, "authors[1]").unwrap();
    assert_eq!(resolved, &Json::Str("Bob".to_string()));
    let updated = set_nested_value(doc, &parts, 0, "Bob", None, false).unwrap();
    let after = json_extract::reader::get_nested_value(&updated, "authors[1]").unwrap();
    assert_eq!(after, &Json::Str("Bob".to_string()));
}
