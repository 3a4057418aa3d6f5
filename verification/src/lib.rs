//! Read and write individual values inside a JSON document through compact
//! field paths such as `package.name` or `authors[0]`.
//!
//! The crate models a JSON document as the [`Json`] enum, parses a path string
//! into segments, resolves a path to a value inside a document, and installs a
//! new value at a path, optionally creating missing containers on the way.
//! A raw value string is coerced into a typed JSON value, either by an
//! explicit type hint or by auto-detection.

pub mod coerce;
pub mod config;
pub mod content;
pub mod error;
pub mod laws;
pub mod num;
pub mod path;
pub mod reader;
pub mod serde_glue;
pub mod strutil;
pub mod value;
pub mod writer;

pub use error::JsonExtractError;
pub use value::Json;
pub use value::JsonSpec;
