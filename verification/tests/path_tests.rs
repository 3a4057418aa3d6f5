//! Tests for the path parser.

use json_extract::JsonExtractError;
use json_extract::path::Segment;
use json_extract::path::parse_segment;
use json_extract::path::split_field_path;

#[test]
fn test_split_field_path() {
    assert_eq!(
        split_field_path("package.name").unwrap(),
        vec!["package".to_string(), "name".to_string()]
    );

    assert_eq!(
        split_field_path("dependencies.serde.version").unwrap(),
        vec![
            "dependencies".to_string(),
            "serde".to_string(),
            "version".to_string()
        ]
    );
}

#[test]
fn test_split_keeps_bracket_suffix() {
    assert_eq!(
        split_field_path("authors[0]").unwrap(),
        vec!["authors[0]".to_string()]
    );
    assert_eq!(
        split_field_path("a.b[2].c").unwrap(),
        vec!["a".to_string(), "b[2]".to_string(), "c".to_string()]
    );
}

#[test]
fn test_split_dot_inside_brackets_does_not_split() {
    assert_eq!(
        split_field_path("a[1.5].b").unwrap(),
        vec!["a[1.5]".to_string(), "b".to_string()]
    );
}

#[test]
fn test_split_empty_segment_fails() {
    assert!(matches!(
        split_field_path("a..b"),
        Err(JsonExtractError::InvalidFieldPath(p)) if p == "a..b"
    ));
    assert!(matches!(
        split_field_path(".a"),
        Err(JsonExtractError::InvalidFieldPath(p)) if p == ".a"
    ));
    assert!(matches!(
        split_field_path("a."),
        Err(JsonExtractError::InvalidFieldPath(p)) if p == "a."
    ));
    assert!(matches!(
        split_field_path(""),
        Err(JsonExtractError::InvalidFieldPath(p)) if p.is_empty()
    ));
}

#[test]
fn test_parse_segment_field() {
    assert_eq!(
        parse_segment("name").unwrap(),
        Segment::Field("name".to_string())
    );
}

#[test]
fn test_parse_segment_index() {
    assert_eq!(
        parse_segment("authors[0]").unwrap(),
        Segment::Index("authors".to_string(), 0)
    );
    assert_eq!(
        parse_segment("xs[42]").unwrap(),
        Segment::Index("xs".to_string(), 42)
    );
}

#[test]
fn test_parse_segment_bad_index() {
    assert!(matches!(
        parse_segment("a[x]"),
        Err(JsonExtractError::InvalidArrayIndex(t)) if t == "x"
    ));
    assert!(matches!(
        parse_segment("a[]"),
        Err(JsonExtractError::InvalidArrayIndex(t)) if t.is_empty()
    ));
    assert!(matches!(
        parse_segment("a[0"),
        Err(JsonExtractError::InvalidArrayIndex(t)) if t == "a[0"
    ));
    assert!(matches!(
        parse_segment("a[99999999999999999999]"),
        Err(JsonExtractError::InvalidArrayIndex(t)) if t == "99999999999999999999"
    ));
}
