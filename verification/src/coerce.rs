//! The value coercer: a raw string becomes a typed JSON value.
//!
//! With an explicit type hint coercion is strict. Without one, the raw text
//! is first tried as a complete JSON literal, then as a boolean or null
//! keyword, then as an integer, then as a float with the fold-to-integer
//! rule, and finally kept as a plain string.

use vstd::prelude::*;
use crate::error::ErrSpec;
use crate::error::JsonExtractError;
use crate::num::fold_value;
use crate::num::parse_i64;
use crate::num::spec_parse_i64;
use crate::num::try_fold_bits;
use crate::reader::opt_str_view;
use crate::serde_glue::FloatParse;
use crate::serde_glue::f64_str_bits;
use crate::serde_glue::float_bits;
use crate::serde_glue::json_from_str;
use crate::serde_glue::number_bits;
use crate::serde_glue::parse_float;
use crate::serde_glue::parsed_json;
use crate::serde_glue::value_to_json;
use crate::strutil::ci_seq_eq;
use crate::strutil::str_eq;
use crate::strutil::str_eq_ignore_ascii_case;
use crate::value::Json;
use crate::value::JsonSpec;
use crate::value::float_bits_finite;

verus! {

/// The fold-to-integer rule on a number: an integral float of magnitude
/// below 2^53 becomes an integer number, anything else stays a float.
pub open spec fn spec_fold_bits(bits: u64) -> JsonSpec {
    match fold_value(bits) {
        Some(v) => JsonSpec::Int(v),
        None => JsonSpec::Float(bits),
    }
}

/// Auto-detection: a complete JSON literal wins (a float literal folds);
/// then the `true`, `false` and `null` keywords, ignoring case; then an
/// integer; then a float, folded; and last the raw text as a string.
pub open spec fn spec_auto_coerce(raw: Seq<char>) -> JsonSpec {
    match parsed_json(raw) {
        Some(v) => match v {
            JsonSpec::Float(bits) => spec_fold_bits(bits),
            _ => v,
        },
        None => if ci_seq_eq(raw, "true"@) {
            JsonSpec::Bool(true)
        } else if ci_seq_eq(raw, "false"@) {
            JsonSpec::Bool(false)
        } else if ci_seq_eq(raw, "null"@) {
            JsonSpec::Null
        } else {
            match spec_parse_i64(raw) {
                Some(v) => JsonSpec::Int(v),
                None => match f64_str_bits(raw) {
                    Some(bits) => if float_bits_finite(bits) {
                        spec_fold_bits(bits)
                    } else {
                        JsonSpec::Str(raw)
                    },
                    None => JsonSpec::Str(raw),
                },
            }
        },
    }
}

/// Coercion of a raw string under an optional type hint. A `string` hint
/// wraps the text verbatim; `integer` and `float` parse strictly, an
/// unparsable text failing with invalid-value-type; a non-finite float
/// yields null, as no JSON number holds it; `boolean` accepts `true` and
/// `false` ignoring case; `null` yields null whatever the text; any other
/// hint auto-detects.
pub open spec fn spec_coerce(raw: Seq<char>, hint: Option<Seq<char>>) -> Result<
    JsonSpec,
    ErrSpec,
> {
    match hint {
        Some(t) => if t == "string"@ {
            Ok(JsonSpec::Str(raw))
        } else if t == "integer"@ {
            match spec_parse_i64(raw) {
                Some(v) => Ok(JsonSpec::Int(v)),
                None => Err(ErrSpec::InvalidValueType { value: raw, expected: t }),
            }
        } else if t == "float"@ {
            match f64_str_bits(raw) {
                Some(bits) => if float_bits_finite(bits) {
                    Ok(JsonSpec::Float(bits))
                } else {
                    Ok(JsonSpec::Null)
                },
                None => Err(ErrSpec::InvalidValueType { value: raw, expected: t }),
            }
        } else if t == "boolean"@ {
            if ci_seq_eq(raw, "true"@) {
                Ok(JsonSpec::Bool(true))
            } else if ci_seq_eq(raw, "false"@) {
                Ok(JsonSpec::Bool(false))
            } else {
                Err(ErrSpec::InvalidValueType { value: raw, expected: t })
            }
        } else if t == "null"@ {
            Ok(JsonSpec::Null)
        } else {
            Ok(spec_auto_coerce(raw))
        },
        None => Ok(spec_auto_coerce(raw)),
    }
}

/// Folds a float number to an integer value where the fold rule applies.
fn fold_float(n: serde_json::Number) -> (r: Json)
    requires
        float_bits_finite(number_bits(n)),
    ensures
        r@ == spec_fold_bits(number_bits(n)),
        r.wf(),
{
    let bits = float_bits(&n);
    match try_fold_bits(bits) {
        Some(i) => Json::Int(i),
        None => Json::Float(n),
    }
}

/// Auto-detects the type of a raw value string.
fn auto_coerce(value: &str) -> (r: Json)
    ensures
        r@ == spec_auto_coerce(value@),
        r.wf(),
{
    match json_from_str(value) {
        Ok(v) => {
            let j = value_to_json(&v);
            match j {
                Json::Float(n) => fold_float(n),
                other => other,
            }
        },
        Err(_) => {
            if str_eq_ignore_ascii_case(value, "true") {
                Json::Bool(true)
            } else if str_eq_ignore_ascii_case(value, "false") {
                Json::Bool(false)
            } else if str_eq_ignore_ascii_case(value, "null") {
                Json::Null
            } else {
                match parse_i64(value) {
                    Some(v) => Json::Int(v),
                    None => {
                        match parse_float(value) {
                            FloatParse::Finite(n) => fold_float(n),
                            // a non-finite parse has no JSON number to hold
                            // it, so the raw text stays a string
                            _ => Json::Str(value.to_owned()),
                        }
                    },
                }
            }
        },
    }
}

/// Coerces a raw value string into a typed JSON value, under an optional
/// type hint (`string`, `integer`, `float`, `boolean`, `null`; anything
/// else auto-detects).
pub fn parse_value_with_type(value: &str, value_type: Option<&str>) -> (r: Result<
    Json,
    JsonExtractError,
>)
    ensures
        match r {
            Ok(j) => {
                &&& spec_coerce(value@, opt_str_view(value_type)) == Ok::<JsonSpec, ErrSpec>(j@)
                &&& j.wf()
            },
            Err(e) => spec_coerce(value@, opt_str_view(value_type)) == Err::<JsonSpec, ErrSpec>(
                e@,
            ),
        },
{
    match value_type {
        Some(t) => {
            if str_eq(t, "string") {
                Ok(Json::Str(value.to_owned()))
            } else if str_eq(t, "integer") {
                match parse_i64(value) {
                    Some(v) => Ok(Json::Int(v)),
                    None => Err(
                        JsonExtractError::InvalidValueType {
                            value: value.to_owned(),
                            expected: t.to_owned(),
                        },
                    ),
                }
            } else if str_eq(t, "float") {
                match parse_float(value) {
                    FloatParse::Finite(n) => Ok(Json::Float(n)),
                    FloatParse::NonFinite => Ok(Json::Null),
                    FloatParse::NotFloat => Err(
                        JsonExtractError::InvalidValueType {
                            value: value.to_owned(),
                            expected: t.to_owned(),
                        },
                    ),
                }
            } else if str_eq(t, "boolean") {
                if str_eq_ignore_ascii_case(value, "true") {
                    Ok(Json::Bool(true))
                } else if str_eq_ignore_ascii_case(value, "false") {
                    Ok(Json::Bool(false))
                } else {
                    Err(
                        JsonExtractError::InvalidValueType {
                            value: value.to_owned(),
                            expected: t.to_owned(),
                        },
                    )
                }
            } else if str_eq(t, "null") {
                Ok(Json::Null)
            } else {
                Ok(auto_coerce(value))
            }
        },
        None => Ok(auto_coerce(value)),
    }
}

} // verus!
