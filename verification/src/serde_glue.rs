//! The boundary to `serde_json`.
//!
//! Documents are parsed and re-serialized by `serde_json`; everything in
//! between runs on the crate's own [`Json`] tree. Each function here wraps
//! one `serde_json` call and carries the contract that the rest of the crate
//! builds on. What a parse or a serialization returns is a function of its
//! input alone, so those results are given names (`parsed_json`,
//! `compact_text`, `pretty_text`) that the callers' contracts speak of.

use vstd::prelude::*;
use serde_json::Number;
use serde_json::Value;
use crate::value::Json;
use crate::value::JsonSpec;

verus! {

/// Declares `serde_json::Value`, the parse tree of a JSON document, so that
/// signatures of this module can carry it.
#[verifier::external_type_specification]
#[verifier::external_body]
pub struct ExValue(serde_json::Value);

/// Declares `serde_json::Number`, the number node of a parse tree, so that
/// [`crate::value::Json`] can carry one.
#[verifier::external_type_specification]
#[verifier::external_body]
pub struct ExNumber(serde_json::Number);

/// What a `serde_json::Number` is worth as a 64-bit float, as its IEEE 754
/// bit pattern.
pub uninterp spec fn number_bits(n: serde_json::Number) -> u64;

/// What a `serde_json::Value` holds, as a [`JsonSpec`] tree: numbers that
/// fit `i64` as integers, unsigned integers above `i64::MAX` as unsigned
/// integers, float numbers by their 64-bit float bits, object fields in
/// iteration order. The view determines the serialized text: numbers of
/// the three kinds render differently and each kind renders injectively.
pub uninterp spec fn value_view(v: serde_json::Value) -> JsonSpec;

/// What parsing a text as a JSON document yields: the document tree, or
/// `None` when the text is not valid JSON.
pub uninterp spec fn parsed_json(s: Seq<char>) -> Option<JsonSpec>;

/// The compact JSON rendering of a document tree.
pub uninterp spec fn compact_text(j: JsonSpec) -> Seq<char>;

/// The pretty (indented) JSON rendering of a document tree.
pub uninterp spec fn pretty_text(j: JsonSpec) -> Seq<char>;

/// What parsing a text as a 64-bit float yields, as IEEE 754 bits, or
/// `None` when the text is not a float literal.
pub uninterp spec fn f64_str_bits(s: Seq<char>) -> Option<u64>;

/// Relies on `serde_json::from_str::<Value>`: it parses the whole text as
/// one JSON document and returns its tree, or an error for invalid JSON;
/// the result depends on the text alone.
#[verifier::external_body]
pub(crate) fn json_from_str(text: &str) -> (r: Result<serde_json::Value, String>)
    ensures
        match r {
            Ok(v) => parsed_json(text@) == Some(value_view(v)),
            Err(_) => parsed_json(text@) is None,
        },
{
    match serde_json::from_str::<serde_json::Value>(text) {
        Ok(v) => Ok(v),
        Err(e) => Err(e.to_string()),
    }
}

/// Relies on the accessors of `serde_json::Value` and `serde_json::Number`:
/// `as_i64` returns the value of an integer number that fits `i64`,
/// `as_u64` the value of an unsigned integer number (so one that remains
/// is above `i64::MAX`), and a parsed document holds only finite floats
/// and, per object, unique keys in document order.
#[verifier::external_body]
pub(crate) fn value_to_json(v: &serde_json::Value) -> (r: Json)
    ensures
        r@ == value_view(*v),
        r@.wf(),
{
    match v {
        Value::Null => Json::Null,
        Value::Bool(b) => Json::Bool(*b),
        Value::Number(n) => match (n.as_i64(), n.as_u64()) {
            (Some(i), _) => Json::Int(i),
            (None, Some(u)) => Json::UInt(u),
            (None, None) => Json::Float(n.clone()),
        },
        Value::String(s) => Json::Str(s.clone()),
        Value::Array(a) => Json::Arr(a.iter().map(value_to_json).collect()),
        Value::Object(m) => Json::Obj(m.iter().map(|(k, x)| (k.clone(), value_to_json(x))).collect()),
    }
}

/// Relies on `serde_json::Number::as_f64` and `to_bits`: `as_f64` returns
/// the closest 64-bit float of any number and depends on the number alone.
#[verifier::external_body]
pub(crate) fn float_bits(n: &serde_json::Number) -> (r: u64)
    ensures
        r == number_bits(*n),
{
    n.as_f64().map(|x| x.to_bits()).unwrap_or(0)
}

/// Relies on the constructors of `serde_json::Value`: the tree is rebuilt
/// node for node, integer numbers through `Number::from`, float numbers
/// through `Number::from_f64` of their float value (so a float slot always
/// carries a float-kind number, whatever number it held), object fields in
/// order into a map that keeps insertion order and collapses no key, keys
/// being unique. Well-formedness keeps the number kinds apart: floats are
/// finite, and unsigned integers lie above `i64::MAX`.
#[verifier::external_body]
pub(crate) fn json_to_value(j: &Json) -> (r: serde_json::Value)
    requires
        j.wf(),
    ensures
        value_view(r) == j@,
{
    match j {
        Json::Null => Value::Null,
        Json::Bool(b) => Value::Bool(*b),
        Json::Int(i) => Value::Number(Number::from(*i)),
        Json::UInt(u) => Value::Number(Number::from(*u)),
        Json::Float(n) => n.as_f64().and_then(Number::from_f64).map(Value::Number).unwrap_or(Value::Null),
        Json::Str(s) => Value::String(s.clone()),
        Json::Arr(elems) => Value::Array(elems.iter().map(json_to_value).collect()),
        Json::Obj(fields) => Value::Object(fields.iter().map(|(k, x)| (k.clone(), json_to_value(x))).collect()),
    }
}

/// Relies on `serde_json::to_string`: it renders a `Value` as compact JSON
/// text, never fails on a `Value`, and depends on the value alone. Parsing
/// the rendered text back yields the same tree: integers print their exact
/// digits, floats print the shortest text that parses to the same float
/// (exact float parsing is enabled), and keys keep their order; the
/// parser's recursion limit admits the rendering of any tree nested at
/// most 127 levels deep.
#[verifier::external_body]
pub(crate) fn value_to_string(v: &serde_json::Value) -> (r: String)
    ensures
        r@ == compact_text(value_view(*v)),
        crate::value::depth_at_most(value_view(*v), 127) ==> parsed_json(r@) == Some(
            value_view(*v),
        ),
{
    serde_json::to_string(v).unwrap_or(String::new())
}

/// Relies on `serde_json::to_string_pretty`: it renders a `Value` as
/// indented JSON text, never fails on a `Value`, and depends on the value
/// alone. As with the compact rendering, parsing the text back yields the
/// same tree, for trees nested at most 127 levels deep.
#[verifier::external_body]
pub(crate) fn value_to_string_pretty(v: &serde_json::Value) -> (r: String)
    ensures
        r@ == pretty_text(value_view(*v)),
        crate::value::depth_at_most(value_view(*v), 127) ==> parsed_json(r@) == Some(
            value_view(*v),
        ),
{
    serde_json::to_string_pretty(v).unwrap_or(String::new())
}

/// The outcome of parsing a text as a 64-bit float.
pub enum FloatParse {
    /// The text is not a float literal.
    NotFloat,
    /// The text parses, but to an infinity or a NaN.
    NonFinite,
    /// The text parses to the finite float number carried here.
    Finite(serde_json::Number),
}

/// Relies on `str::parse` to a 64-bit float and on
/// `serde_json::Number::from_f64`: the parse result depends on the text
/// alone, `from_f64` succeeds exactly on finite floats, and `to_bits`
/// exposes the IEEE 754 bit pattern.
#[verifier::external_body]
pub(crate) fn parse_float(text: &str) -> (r: FloatParse)
    ensures
        match r {
            FloatParse::NotFloat => f64_str_bits(text@) is None,
            FloatParse::NonFinite => {
                &&& f64_str_bits(text@) matches Some(b)
                &&& !crate::value::float_bits_finite(b)
            },
            FloatParse::Finite(n) => {
                &&& f64_str_bits(text@) == Some(number_bits(n))
                &&& crate::value::float_bits_finite(number_bits(n))
            },
        },
{
    match text.parse() {
        Err(_) => FloatParse::NotFloat,
        Ok(x) => match serde_json::Number::from_f64(x) {
            Some(n) => FloatParse::Finite(n),
            None => FloatParse::NonFinite,
        },
    }
}

} // verus!
