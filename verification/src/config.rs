//! Configuration types for extraction and field setting, and the result of
//! a multi-field extraction.

use vstd::prelude::*;

verus! {

/// Configuration for field extraction.
#[derive(Debug, Clone)]
pub struct ExtractConfig {
    /// Path to the JSON file.
    pub file_path: String,
    /// Dot-separated path to the field.
    pub field_path: String,
    /// Output format (`json-pretty`, `raw`, or none for compact).
    pub output_format: Option<String>,
    /// Whether to strip surrounding quotes from the result.
    pub strip_quotes: bool,
}

impl Default for ExtractConfig {
    /// The default extraction: the `name` field of `package.json`.
    fn default() -> (r: Self)
        ensures
            r.file_path@ == "package.json"@,
            r.field_path@ == "name"@,
            r.output_format is None,
            !r.strip_quotes,
    {
        ExtractConfig {
            file_path: "package.json".to_owned(),
            field_path: "name".to_owned(),
            output_format: None,
            strip_quotes: false,
        }
    }
}

/// Configuration for field setting.
#[derive(Debug, Clone)]
pub struct SetConfig {
    /// Path to the JSON file.
    pub file_path: String,
    /// Dot-separated path to the field.
    pub field_path: String,
    /// Value to set.
    pub value: String,
    /// Value type (`None` for auto-detect).
    pub value_type: Option<String>,
    /// Whether to create missing parent fields.
    pub create_missing: bool,
}

impl Default for SetConfig {
    /// The default write: the `name` field of `package.json`, auto-detected.
    fn default() -> (r: Self)
        ensures
            r.file_path@ == "package.json"@,
            r.field_path@ == "name"@,
            r.value@.len() == 0,
            r.value_type is None,
            !r.create_missing,
    {
        SetConfig {
            file_path: "package.json".to_owned(),
            field_path: "name".to_owned(),
            value: String::new(),
            value_type: None,
            create_missing: false,
        }
    }
}

/// The outcome of extracting several fields from one document: each field
/// path paired with its formatted value, in the order requested.
#[derive(Debug, Clone)]
pub struct ExtractionResult {
    /// Path to the JSON file the fields came from.
    pub file_path: String,
    /// The extracted fields: path and formatted value, in request order.
    pub fields: Vec<(String, String)>,
}

impl ExtractionResult {
    /// An empty result for the given file.
    pub fn new(file_path: String) -> (r: Self)
        ensures
            r.file_path == file_path,
            r.fields@.len() == 0,
    {
        ExtractionResult { file_path, fields: Vec::new() }
    }

    /// Records one extracted field.
    pub fn add_field(&mut self, field_path: String, value: String)
        ensures
            final(self).file_path == old(self).file_path,
            final(self).fields@ == old(self).fields@.push((field_path, value)),
    {
        self.fields.push((field_path, value));
    }
}

} // verus!
