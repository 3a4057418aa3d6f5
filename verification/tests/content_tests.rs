//! Tests for the document-level operations: parse, extract, set, render.

use json_extract::JsonExtractError;
use json_extract::config::ExtractConfig;
use json_extract::config::ExtractionResult;
use json_extract::config::SetConfig;
use json_extract::content::array_element_value;
use json_extract::content::array_length_value;
use json_extract::content::dependencies_in_content;
use json_extract::content::extract_field_value;
use json_extract::content::extract_multiple_values;
use json_extract::content::set_field_in_content;

fn extract_config(field_path: &str) -> ExtractConfig {
    ExtractConfig {
        file_path: "test.json".to_string(),
        field_path: field_path.to_string(),
        output_format: None,
        strip_quotes: false,
    }
}

fn set_config(field_path: &str, value: &str, create_missing: bool) -> SetConfig {
    SetConfig {
        file_path: "test.json".to_string(),
        field_path: field_path.to_string(),
        value: value.to_string(),
        value_type: None,
        create_missing,
    }
}

#[test]
fn test_extract_field_compact() {
    let content = r#"{"name": "test"}"#;
    assert_eq!(
        extract_field_value(content, &extract_config("name")).unwrap(),
        "\"test\""
    );
}

#[test]
fn test_extract_field_strip_quotes() {
    let content = r#"{"name": "test"}"#;
    let mut config = extract_config("name");
    config.strip_quotes = true;
    assert_eq!(extract_field_value(content, &config).unwrap(), "test");
}

#[test]
fn test_extract_nested_field() {
    let content = r#"{"a":{"b":"test"}}"#;
    assert_eq!(
        extract_field_value(content, &extract_config("a.b")).unwrap(),
        "\"test\""
    );
}

#[test]
fn test_extract_array_element_and_bounds() {
    let content = r#"{"arr":[1,2,3]}"#;
    assert_eq!(
        extract_field_value(content, &extract_config("arr[1]")).unwrap(),
        "2"
    );
    assert!(matches!(
        extract_field_value(content, &extract_config("arr[5]")),
        Err(JsonExtractError::ArrayIndexOutOfBounds { path, index: 5, length: 3 }) if path == "arr"
    ));
}

#[test]
fn test_extract_pretty_format() {
    let content = r#"{"a":{"b":1}}"#;
    let mut config = extract_config("a");
    config.output_format = Some("json-pretty".to_string());
    let rendered = extract_field_value(content, &config).unwrap();
    assert_eq!(rendered, "{\n  \"b\": 1\n}");
    let mut raw = extract_config("a");
    raw.output_format = Some("raw".to_string());
    assert_eq!(extract_field_value(content, &raw).unwrap(), "{\"b\":1}");
}

#[test]
fn test_extract_invalid_json() {
    assert!(matches!(
        extract_field_value("{not json", &extract_config("a")),
        Err(JsonExtractError::InvalidJson { file, .. }) if file == "test.json"
    ));
}

#[test]
fn test_extract_multiple() {
    let content = r#"{"name": "pkg", "version": "1.2.3"}"#;
    let paths = vec!["name".to_string(), "version".to_string()];
    let res = extract_multiple_values(content, &"test.json".to_string(), &paths, true).unwrap();
    assert_eq!(res.file_path, "test.json");
    assert_eq!(
        res.fields,
        vec![
            ("name".to_string(), "pkg".to_string()),
            ("version".to_string(), "1.2.3".to_string()),
        ]
    );
}

#[test]
fn test_extract_multiple_first_error_wins() {
    let content = r#"{"name": "pkg"}"#;
    let paths = vec!["name".to_string(), "missing".to_string()];
    assert!(matches!(
        extract_multiple_values(content, &"test.json".to_string(), &paths, false),
        Err(JsonExtractError::FieldNotFound(f)) if f == "missing"
    ));
}

#[test]
fn test_array_length() {
    let content = r#"{"authors": ["Alice", "Bob"]}"#;
    assert_eq!(
        array_length_value(content, &"test.json".to_string(), "authors").unwrap(),
        2
    );
    assert!(matches!(
        array_length_value(r#"{"authors": 3}"#, &"test.json".to_string(), "authors"),
        Err(JsonExtractError::NotAnArray(p)) if p == "authors"
    ));
}

#[test]
fn test_array_element() {
    let content = r#"{"authors": ["Alice", "Bob"]}"#;
    assert_eq!(
        array_element_value(content, &"test.json".to_string(), "authors", 1, true).unwrap(),
        "Bob"
    );
    assert!(matches!(
        array_element_value(content, &"test.json".to_string(), "authors", 2, false),
        Err(JsonExtractError::ArrayIndexOutOfBounds { path, index: 2, length: 2 }) if path == "authors"
    ));
}

#[test]
fn test_dependencies() {
    let content = r#"{"dependencies": {"serde": "1.0", "rand": "0.8"}}"#;
    let deps = dependencies_in_content(content, &"package.json".to_string()).unwrap();
    assert_eq!(
        deps,
        vec![
            ("serde".to_string(), "1.0".to_string()),
            ("rand".to_string(), "0.8".to_string()),
        ]
    );
    let none = dependencies_in_content("{}", &"package.json".to_string()).unwrap();
    assert!(none.is_empty());
}

#[test]
fn test_set_field_in_content_basic() {
    let content = r#"{"name": "old"}"#;
    let updated = set_field_in_content(content, &set_config("name", "new", false)).unwrap();
    assert!(updated.contains(r#""name": "new""#));
}

#[test]
fn test_set_array_element_in_content() {
    let content = r#"{"authors": ["Alice", "Bob"]}"#;
    let updated =
        set_field_in_content(content, &set_config("authors[0]", "Charlie", false)).unwrap();
    assert!(updated.contains("Charlie"));
    assert!(updated.contains("Bob"));
    let compact = updated.replace(char::is_whitespace, "");
    assert!(compact.contains(r#""authors":["Charlie","Bob"]"#));
    let parsed: serde_json::Value = serde_json::from_str(&updated).unwrap();
    let authors = parsed["authors"].as_array().unwrap();
    assert_eq!(authors[0], "Charlie");
    assert_eq!(authors[1], "Bob");
}

#[test]
fn test_set_create_missing_in_content() {
    assert!(matches!(
        set_field_in_content("{}", &set_config("a.b.c", "1", false)),
        Err(JsonExtractError::NotAnObject(_))
    ));
    let updated = set_field_in_content("{}", &set_config("a.b.c", "1", true)).unwrap();
    let parsed: serde_json::Value = serde_json::from_str(&updated).unwrap();
    assert_eq!(parsed["a"]["b"]["c"], 1);
}

#[test]
fn test_set_typed_value_in_content() {
    let content = r#"{"n": "0"}"#;
    let mut config = set_config("n", "42.5", false);
    config.value_type = Some("float".to_string());
    let updated = set_field_in_content(content, &config).unwrap();
    let parsed: serde_json::Value = serde_json::from_str(&updated).unwrap();
    assert_eq!(parsed["n"], 42.5);
}

#[test]
fn test_set_invalid_json_in_content() {
    assert!(matches!(
        set_field_in_content("oops", &set_config("a", "1", false)),
        Err(JsonExtractError::InvalidJson { file, .. }) if file == "test.json"
    ));
}

#[test]
fn test_set_invalid_path_in_content() {
    assert!(matches!(
        set_field_in_content("{}", &set_config("a..b", "1", true)),
        Err(JsonExtractError::InvalidFieldPath(p)) if p == "a..b"
    ));
}

#[test]
fn test_extraction_result_accumulates() {
    let mut res = ExtractionResult::new("f.json".to_string());
    res.add_field("a".to_string(), "1".to_string());
    res.add_field("b".to_string(), "2".to_string());
    assert_eq!(res.file_path, "f.json");
    assert_eq!(
        res.fields,
        vec![
            ("a".to_string(), "1".to_string()),
            ("b".to_string(), "2".to_string()),
        ]
    );
}

#[test]
fn test_big_unsigned_integer_kept_exact() {
    // an unsigned integer above i64::MAX keeps its exact digits...
    let content = r#"{"big": 18446744073709551615}"#;
    assert_eq!(
        extract_field_value(content, &extract_config("big")).unwrap(),
        "18446744073709551615"
    );
    // ...and is distinct from the float it would round to
    let float_content = r#"{"big": 1.8446744073709552e19}"#;
    let rendered = extract_field_value(float_content, &extract_config("big")).unwrap();
    assert_ne!(rendered, "18446744073709551615");
    // a write elsewhere leaves the exact digits in place
    let updated = set_field_in_content(content, &set_config("other", "1", false)).unwrap();
    assert!(updated.contains("18446744073709551615"));
}

#[test]
fn test_rendered_text_parses_back() {
    // what the formatter renders is itself a document holding the same values
    let content = r#"{"a": {"b": [1, 2.5, "x", null, true]}}"#;
    let inner = extract_field_value(content, &extract_config("a")).unwrap();
    assert_eq!(
        extract_field_value(&inner, &extract_config("b[1]")).unwrap(),
        "2.5"
    );
    assert_eq!(
        extract_field_value(&inner, &extract_config("b[2]")).unwrap(),
        "\"x\""
    );
    let mut pretty = extract_config("a");
    pretty.output_format = Some("json-pretty".to_string());
    let indented = extract_field_value(content, &pretty).unwrap();
    assert_eq!(
        extract_field_value(&indented, &extract_config("b[4]")).unwrap(),
        "true"
    );
}

#[test]
fn test_default_configs() {
    let e = ExtractConfig::default();
    assert_eq!(e.file_path, "package.json");
    assert_eq!(e.field_path, "name");
    assert!(e.output_format.is_none());
    assert!(!e.strip_quotes);
    let s = SetConfig::default();
    assert_eq!(s.file_path, "package.json");
    assert_eq!(s.field_path, "name");
    assert_eq!(s.value, "");
    assert!(s.value_type.is_none());
    assert!(!s.create_missing);
}
