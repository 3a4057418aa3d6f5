//! The in-memory model of a JSON document.
//!
//! A document is a tree of [`Json`] values. A number is kept as an `i64`
//! integer, as a `u64` integer when it lies above `i64::MAX`, or in float
//! form, viewed as its IEEE 754 bit pattern; the three kinds never overlap
//! in a well-formed tree, so the view of a number determines its rendered
//! text. Objects keep their fields as an ordered list of key/value pairs:
//! keys are unique and insertion order is preserved for stable
//! re-serialization.

use vstd::prelude::*;

verus! {

/// A JSON value: the universal in-memory representation of a document.
///
/// The `Float` variant carries the parsed `serde_json` number itself, so it
/// travels unchanged between parsing and serialization; contracts see it as
/// its IEEE 754 bit pattern.
#[derive(Debug, PartialEq)]
pub enum Json {
    /// The JSON `null` value.
    Null,
    /// A JSON boolean.
    Bool(bool),
    /// A JSON number that is representable as a signed 64-bit integer.
    Int(i64),
    /// A JSON number that is an unsigned integer above `i64::MAX`.
    UInt(u64),
    /// A JSON number kept in float form.
    Float(serde_json::Number),
    /// A JSON string.
    Str(String),
    /// A JSON array: an ordered sequence of values.
    Arr(Vec<Json>),
    /// A JSON object: key/value pairs, keys unique, insertion order kept.
    Obj(Vec<(String, Json)>),
}

/// The mathematical view of a [`Json`] value, used by all contracts.
pub enum JsonSpec {
    /// The JSON `null` value.
    Null,
    /// A JSON boolean.
    Bool(bool),
    /// An integer JSON number.
    Int(int),
    /// An unsigned integer JSON number above `i64::MAX`.
    UInt(int),
    /// A float JSON number, as IEEE 754 bits.
    Float(u64),
    /// A JSON string, as its character sequence.
    Str(Seq<char>),
    /// A JSON array.
    Arr(Seq<JsonSpec>),
    /// A JSON object: key/value pairs in order.
    Obj(Seq<(Seq<char>, JsonSpec)>),
}

/// The view of a [`Json`] tree as a [`JsonSpec`] tree.
pub open spec fn json_view(j: Json) -> JsonSpec
    decreases j,
{
    match j {
        Json::Null => JsonSpec::Null,
        Json::Bool(b) => JsonSpec::Bool(b),
        Json::Int(i) => JsonSpec::Int(i as int),
        Json::UInt(u) => JsonSpec::UInt(u as int),
        Json::Float(n) => JsonSpec::Float(crate::serde_glue::number_bits(n)),
        Json::Str(s) => JsonSpec::Str(s@),
        Json::Arr(elems) => JsonSpec::Arr(elems_view(elems@)),
        Json::Obj(fields) => JsonSpec::Obj(obj_fields_view(fields@)),
    }
}

/// The view of the element list of a JSON array.
pub open spec fn elems_view(elems: Seq<Json>) -> Seq<JsonSpec>
    decreases elems,
{
    Seq::new(elems.len(), |i: int| if 0 <= i < elems.len() {
        json_view(elems[i])
    } else {
        JsonSpec::Null
    })
}

/// The view of the field list of a JSON object.
pub open spec fn obj_fields_view(fields: Seq<(String, Json)>) -> Seq<(Seq<char>, JsonSpec)>
    decreases fields,
{
    Seq::new(fields.len(), |i: int| if 0 <= i < fields.len() {
        (fields[i].0@, json_view(fields[i].1))
    } else {
        (Seq::empty(), JsonSpec::Null)
    })
}

impl View for Json {
    type V = JsonSpec;

    open spec fn view(&self) -> JsonSpec {
        json_view(*self)
    }
}

/// Whether a float bit pattern denotes a finite value (not infinity, not NaN).
pub open spec fn float_bits_finite(bits: u64) -> bool {
    (bits >> 52) & 0x7ff != 0x7ff
}

impl JsonSpec {
    /// Well-formedness of a document: object keys are unique at every level,
    /// every stored float is finite, and an unsigned integer number really
    /// lies above `i64::MAX` (smaller integers are carried as `Int`).
    pub open spec fn wf(self) -> bool
        decreases self,
    {
        match self {
            JsonSpec::Null => true,
            JsonSpec::Bool(_) => true,
            JsonSpec::Int(_) => true,
            JsonSpec::UInt(u) => u > i64::MAX as int,
            JsonSpec::Float(bits) => float_bits_finite(bits),
            JsonSpec::Str(_) => true,
            JsonSpec::Arr(elems) => forall|i: int|
                0 <= i < elems.len() ==> (#[trigger] elems[i]).wf(),
            JsonSpec::Obj(fields) => {
                &&& forall|i: int|
                    0 <= i < fields.len() ==> (#[trigger] fields[i]).1.wf()
                &&& forall|i: int, k: int|
                    0 <= i < k < fields.len() ==> fields[i].0 != fields[k].0
            },
        }
    }
}

impl Json {
    /// Well-formedness of the in-memory tree, stated on its view.
    pub open spec fn wf(&self) -> bool {
        self@.wf()
    }
}

/// Whether a document tree nests containers at most `n` levels deep: a
/// scalar nests none, an array or object one more than its deepest child.
pub open spec fn depth_at_most(j: JsonSpec, n: int) -> bool
    decreases j,
{
    match j {
        JsonSpec::Arr(elems) => n >= 1 && forall|i: int|
            0 <= i < elems.len() ==> depth_at_most(#[trigger] elems[i], n - 1),
        JsonSpec::Obj(fields) => n >= 1 && forall|i: int|
            0 <= i < fields.len() ==> depth_at_most((#[trigger] fields[i]).1, n - 1),
        _ => n >= 0,
    }
}

} // verus!
