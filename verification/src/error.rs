//! Error types for JSON extraction and manipulation operations.
//!
//! Every error kind carries the structured data that a caller needs to build
//! a message: the offending field name, the attempted index and the actual
//! length, the unparsable index text, and so on.

use vstd::prelude::*;

verus! {

/// Error raised by the path parser, the tree reader, the tree writer and the
/// value coercer.
#[derive(Debug, PartialEq)]
pub enum JsonExtractError {
    /// The specified file was not found.
    FileNotFound(String),
    /// The document text is not valid JSON.
    InvalidJson {
        /// Identity of the document (its file path).
        file: String,
        /// Description of the syntax error.
        error: String,
    },
    /// The specified field does not exist; carries the field name.
    FieldNotFound(String),
    /// An array index is out of bounds.
    ArrayIndexOutOfBounds {
        /// Name of the array whose element was addressed.
        path: String,
        /// The index that was accessed.
        index: usize,
        /// The actual length of the array.
        length: usize,
    },
    /// The addressed value is not an array; carries the array name.
    NotAnArray(String),
    /// The array index text is malformed; carries the unparsable text.
    InvalidArrayIndex(String),
    /// An I/O error occurred while reading or writing a file.
    IoError(String),
    /// An error occurred during JSON serialization or deserialization.
    JsonError(String),
    /// The addressed value is not a JSON object; carries the field name.
    NotAnObject(String),
    /// The field path is malformed (an empty segment); carries the path text.
    InvalidFieldPath(String),
    /// The raw value cannot be coerced to the requested type.
    InvalidValueType {
        /// The raw value text.
        value: String,
        /// The requested type name.
        expected: String,
    },
}

/// The mathematical view of a [`JsonExtractError`].
pub enum ErrSpec {
    /// View of [`JsonExtractError::FileNotFound`].
    FileNotFound(Seq<char>),
    /// View of [`JsonExtractError::InvalidJson`].
    InvalidJson { file: Seq<char>, error: Seq<char> },
    /// View of [`JsonExtractError::FieldNotFound`].
    FieldNotFound(Seq<char>),
    /// View of [`JsonExtractError::ArrayIndexOutOfBounds`].
    ArrayIndexOutOfBounds { path: Seq<char>, index: int, length: int },
    /// View of [`JsonExtractError::NotAnArray`].
    NotAnArray(Seq<char>),
    /// View of [`JsonExtractError::InvalidArrayIndex`].
    InvalidArrayIndex(Seq<char>),
    /// View of [`JsonExtractError::IoError`].
    IoError(Seq<char>),
    /// View of [`JsonExtractError::JsonError`].
    JsonError(Seq<char>),
    /// View of [`JsonExtractError::NotAnObject`].
    NotAnObject(Seq<char>),
    /// View of [`JsonExtractError::InvalidFieldPath`].
    InvalidFieldPath(Seq<char>),
    /// View of [`JsonExtractError::InvalidValueType`].
    InvalidValueType { value: Seq<char>, expected: Seq<char> },
}

impl View for JsonExtractError {
    type V = ErrSpec;

    open spec fn view(&self) -> ErrSpec {
        match self {
            JsonExtractError::FileNotFound(p) => ErrSpec::FileNotFound(p@),
            JsonExtractError::InvalidJson { file, error } => ErrSpec::InvalidJson {
                file: file@,
                error: error@,
            },
            JsonExtractError::FieldNotFound(f) => ErrSpec::FieldNotFound(f@),
            JsonExtractError::ArrayIndexOutOfBounds { path, index, length } => {
                ErrSpec::ArrayIndexOutOfBounds {
                    path: path@,
                    index: *index as int,
                    length: *length as int,
                }
            },
            JsonExtractError::NotAnArray(p) => ErrSpec::NotAnArray(p@),
            JsonExtractError::InvalidArrayIndex(t) => ErrSpec::InvalidArrayIndex(t@),
            JsonExtractError::IoError(m) => ErrSpec::IoError(m@),
            JsonExtractError::JsonError(m) => ErrSpec::JsonError(m@),
            JsonExtractError::NotAnObject(p) => ErrSpec::NotAnObject(p@),
            JsonExtractError::InvalidFieldPath(p) => ErrSpec::InvalidFieldPath(p@),
            JsonExtractError::InvalidValueType { value, expected } => ErrSpec::InvalidValueType {
                value: value@,
                expected: expected@,
            },
        }
    }
}

} // verus!
