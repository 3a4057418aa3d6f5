//! The tree reader: resolving a field path to a value inside a document.
//!
//! Resolution walks the document from the root, one path segment at a time:
//! a field segment selects a key of the current object, an indexed segment
//! selects one element of the array stored under a key. Resolution never
//! mutates the document.

use vstd::prelude::*;
use crate::error::ErrSpec;
use crate::error::JsonExtractError;
use crate::path::SegSpec;
use crate::path::Segment;
use crate::path::parse_segment;
use crate::path::spec_seg;
use crate::path::spec_split_path;
use crate::path::split_field_path;
use crate::path::substring_chars;
use crate::serde_glue::compact_text;
use crate::serde_glue::json_to_value;
use crate::serde_glue::pretty_text;
use crate::serde_glue::value_to_string;
use crate::serde_glue::value_to_string_pretty;
use crate::strutil::chars_vec;
use crate::strutil::str_eq;
use crate::value::Json;
use crate::value::JsonSpec;
use crate::value::obj_fields_view;

verus! {

/// The value under `key` in a field list: the first pair with that key.
pub open spec fn obj_get(fields: Seq<(Seq<char>, JsonSpec)>, key: Seq<char>) -> Option<JsonSpec>
    decreases fields.len(),
{
    if fields.len() == 0 {
        None
    } else if fields[0].0 == key {
        Some(fields[0].1)
    } else {
        obj_get(fields.drop_first(), key)
    }
}

/// Member lookup on a JSON value: a key under an object, nothing under any
/// other kind of value.
pub open spec fn spec_member(j: JsonSpec, key: Seq<char>) -> Option<JsonSpec> {
    match j {
        JsonSpec::Obj(fields) => obj_get(fields, key),
        _ => None,
    }
}

/// When the first pair with key `key` stands at position `i`, lookup finds
/// its value.
pub proof fn lemma_obj_get_first_match(
    fields: Seq<(Seq<char>, JsonSpec)>,
    key: Seq<char>,
    i: int,
)
    requires
        0 <= i < fields.len(),
        fields[i].0 == key,
        forall|j: int| 0 <= j < i ==> (#[trigger] fields[j]).0 != key,
    ensures
        obj_get(fields, key) == Some(fields[i].1),
    decreases i,
{
    if i > 0 {
        let rest = fields.drop_first();
        assert(forall|j: int| 0 <= j < i - 1 ==> (#[trigger] rest[j]).0 != key);
        lemma_obj_get_first_match(rest, key, i - 1);
    }
}

/// When no pair has key `key`, lookup finds nothing.
pub proof fn lemma_obj_get_no_match(fields: Seq<(Seq<char>, JsonSpec)>, key: Seq<char>)
    requires
        forall|j: int| 0 <= j < fields.len() ==> (#[trigger] fields[j]).0 != key,
    ensures
        obj_get(fields, key) is None,
    decreases fields.len(),
{
    if fields.len() > 0 {
        let rest = fields.drop_first();
        assert(forall|j: int| 0 <= j < rest.len() ==> (#[trigger] rest[j]).0 != key);
        lemma_obj_get_no_match(rest, key);
    }
}

/// One resolution step: what one segment selects of the current value, or
/// the error it raises.
pub open spec fn spec_step(j: JsonSpec, seg: SegSpec) -> Result<JsonSpec, ErrSpec> {
    match seg {
        SegSpec::Field(name) => match spec_member(j, name) {
            Some(c) => Ok(c),
            None => Err(ErrSpec::FieldNotFound(name)),
        },
        SegSpec::Index(name, idx) => match spec_member(j, name) {
            None => Err(ErrSpec::FieldNotFound(name)),
            Some(c) => match c {
                JsonSpec::Arr(elems) => if 0 <= idx < elems.len() {
                    Ok(elems[idx])
                } else {
                    Err(
                        ErrSpec::ArrayIndexOutOfBounds {
                            path: name,
                            index: idx,
                            length: elems.len() as int,
                        },
                    )
                },
                _ => Err(ErrSpec::NotAnArray(name)),
            },
        },
    }
}

/// Resolution of a chunk sequence against a value, segment by segment.
pub open spec fn spec_resolve(j: JsonSpec, chunks: Seq<Seq<char>>) -> Result<JsonSpec, ErrSpec>
    decreases chunks.len(),
{
    if chunks.len() == 0 {
        Ok(j)
    } else {
        match spec_seg(chunks[0]) {
            Err(t) => Err(ErrSpec::InvalidArrayIndex(t)),
            Ok(seg) => match spec_step(j, seg) {
                Err(e) => Err(e),
                Ok(c) => spec_resolve(c, chunks.drop_first()),
            },
        }
    }
}

/// Resolution of a raw path string against a document.
pub open spec fn spec_resolve_path(j: JsonSpec, path: Seq<char>) -> Result<JsonSpec, ErrSpec> {
    match spec_split_path(path) {
        None => Err(ErrSpec::InvalidFieldPath(path)),
        Some(chunks) => spec_resolve(j, chunks),
    }
}

/// Finds the value under `key` among the fields of an object, first match.
pub(crate) fn obj_find<'a>(fields: &'a Vec<(String, Json)>, key: &str) -> (r: Option<&'a Json>)
    ensures
        match r {
            Some(v) => obj_get(obj_fields_view(fields@), key@) == Some(v@),
            None => obj_get(obj_fields_view(fields@), key@) is None,
        },
{
    let n = fields.len();
    let mut i: usize = 0;
    while i < n
        invariant
            i <= n,
            n == fields@.len(),
            forall|j: int| 0 <= j < i ==> (#[trigger] fields@[j]).0@ != key@,
        decreases n - i,
    {
        if str_eq(fields[i].0.as_str(), key) {
            proof {
                lemma_obj_get_first_match(obj_fields_view(fields@), key@, i as int);
            }
            return Some(&fields[i].1);
        }
        i = i + 1;
    }
    proof {
        lemma_obj_get_no_match(obj_fields_view(fields@), key@);
    }
    None
}

/// Resolves a dot-separated field path, with `[index]` array access, to a
/// reference into the document.
pub fn get_nested_value<'a>(value: &'a Json, path: &str) -> (r: Result<&'a Json, JsonExtractError>)
    ensures
        match r {
            Ok(v) => spec_resolve_path(value@, path@) == Ok::<JsonSpec, ErrSpec>(v@),
            Err(e) => spec_resolve_path(value@, path@) == Err::<JsonSpec, ErrSpec>(e@),
        },
{
    let parts = match split_field_path(path) {
        Ok(p) => p,
        Err(e) => {
            return Err(e);
        },
    };
    let ghost chunks = parts.deep_view();
    let n = parts.len();
    let mut current: &Json = value;
    let mut k: usize = 0;
    proof {
        assert(chunks.skip(0) =~= chunks);
    }
    while k < n
        invariant
            k <= n,
            n == parts@.len(),
            chunks == parts.deep_view(),
            spec_split_path(path@) == Some(chunks),
            spec_resolve(value@, chunks) == spec_resolve(current@, chunks.skip(k as int)),
        decreases n - k,
    {
        let ghost rest = chunks.skip(k as int);
        proof {
            assert(rest[0] == chunks[k as int]);
            assert(rest.drop_first() =~= chunks.skip(k + 1 as int));
        }
        let seg = match parse_segment(parts[k].as_str()) {
            Ok(seg) => seg,
            Err(e) => {
                return Err(e);
            },
        };
        match seg {
            Segment::Field(name) => {
                match current {
                    Json::Obj(fields) => {
                        match obj_find(fields, name.as_str()) {
                            Some(child) => {
                                current = child;
                            },
                            None => {
                                return Err(JsonExtractError::FieldNotFound(name));
                            },
                        }
                    },
                    _ => {
                        return Err(JsonExtractError::FieldNotFound(name));
                    },
                }
            },
            Segment::Index(name, idx) => {
                let container = match current {
                    Json::Obj(fields) => {
                        match obj_find(fields, name.as_str()) {
                            Some(child) => child,
                            None => {
                                return Err(JsonExtractError::FieldNotFound(name));
                            },
                        }
                    },
                    _ => {
                        return Err(JsonExtractError::FieldNotFound(name));
                    },
                };
                match container {
                    Json::Arr(elems) => {
                        if idx < elems.len() {
                            proof {
                                assert(crate::value::elems_view(elems@)[idx as int] == elems@[
                                    idx as int
                                ]@);
                            }
                            current = &elems[idx];
                        } else {
                            return Err(
                                JsonExtractError::ArrayIndexOutOfBounds {
                                    path: name,
                                    index: idx,
                                    length: elems.len(),
                                },
                            );
                        }
                    },
                    _ => {
                        return Err(JsonExtractError::NotAnArray(name));
                    },
                }
            },
        }
        k = k + 1;
    }
    proof {
        assert(chunks.skip(n as int) =~= Seq::<Seq<char>>::empty());
    }
    Ok(current)
}

/// What a resolved value is stripped to: one layer of matching surrounding
/// quote characters comes off, anything else stays unchanged.
pub open spec fn spec_strip_quotes(s: Seq<char>) -> Seq<char> {
    if s.len() >= 2 && ((s.first() == '"' && s.last() == '"') || (s.first() == '\'' && s.last()
        == '\'')) {
        s.subrange(1, s.len() - 1)
    } else {
        s
    }
}

/// Strips one layer of surrounding matching quotes from a string, if both
/// the first and the last character are the same quote character.
pub fn strip_quotes_internal(s: &str) -> (r: String)
    ensures
        r@ == spec_strip_quotes(s@),
{
    let cs = chars_vec(s);
    let n = cs.len();
    if n >= 2 {
        let a = cs[0];
        let b = cs[n - 1];
        if (a == '"' && b == '"') || (a == '\'' && b == '\'') {
            return substring_chars(&cs, 1, n - 1);
        }
    }
    s.to_owned()
}

/// Strips surrounding quotes from a string: the public face of
/// [`strip_quotes_internal`].
pub fn strip_quotes(s: &str) -> (r: String)
    ensures
        r@ == spec_strip_quotes(s@),
{
    strip_quotes_internal(s)
}


/// Whether position `k` holds the first pair with key `key` and value `v`.
pub open spec fn first_key_at(
    fields: Seq<(Seq<char>, JsonSpec)>,
    key: Seq<char>,
    v: JsonSpec,
    k: int,
) -> bool {
    &&& 0 <= k < fields.len()
    &&& fields[k].0 == key
    &&& fields[k].1 == v
    &&& forall|j: int| 0 <= j < k ==> (#[trigger] fields[j]).0 != key
}

/// A found value stands at the first position with its key.
pub proof fn lemma_obj_get_index(fields: Seq<(Seq<char>, JsonSpec)>, key: Seq<char>, v: JsonSpec)
    requires
        obj_get(fields, key) == Some(v),
    ensures
        exists|k: int| first_key_at(fields, key, v, k),
    decreases fields.len(),
{
    if fields.len() > 0 {
        if fields[0].0 == key {
            assert(first_key_at(fields, key, v, 0));
        } else {
            let rest = fields.drop_first();
            lemma_obj_get_index(rest, key, v);
            let k = choose|k: int| first_key_at(rest, key, v, k);
            assert forall|j: int| 0 <= j < k + 1 implies (#[trigger] fields[j]).0 != key by {
                if j > 0 {
                    assert(rest[j - 1].0 != key);
                }
            }
            assert(first_key_at(fields, key, v, k + 1));
        }
    }
}

/// A member of a well-formed value is well-formed.
pub proof fn lemma_member_wf(j: JsonSpec, key: Seq<char>, v: JsonSpec)
    requires
        j.wf(),
        spec_member(j, key) == Some(v),
    ensures
        v.wf(),
{
    match j {
        JsonSpec::Obj(fields) => {
            assert(j.arrow_Obj_0() == fields);
            lemma_obj_get_index(fields, key, v);
            let k = choose|k: int| first_key_at(fields, key, v, k);
            assert(fields[k].1.wf());
        },
        _ => {},
    }
}

/// What one resolution step selects of a well-formed value is well-formed.
pub proof fn lemma_step_wf(j: JsonSpec, seg: SegSpec, v: JsonSpec)
    requires
        j.wf(),
        spec_step(j, seg) == Ok::<JsonSpec, ErrSpec>(v),
    ensures
        v.wf(),
{
    match seg {
        SegSpec::Field(name) => {
            lemma_member_wf(j, name, v);
        },
        SegSpec::Index(name, idx) => {
            let c = spec_member(j, name).unwrap();
            lemma_member_wf(j, name, c);
            match c {
                JsonSpec::Arr(elems) => {
                    assert(c.arrow_Arr_0() == elems);
                    assert(elems[idx].wf());
                },
                _ => {},
            }
        },
    }
}

/// Resolution never leaves the well-formed part of a document: what a path
/// resolves to inside a well-formed document is itself well-formed.
pub proof fn lemma_resolve_wf(j: JsonSpec, chunks: Seq<Seq<char>>, v: JsonSpec)
    requires
        j.wf(),
        spec_resolve(j, chunks) == Ok::<JsonSpec, ErrSpec>(v),
    ensures
        v.wf(),
    decreases chunks.len(),
{
    if chunks.len() > 0 {
        match spec_seg(chunks[0]) {
            Ok(seg) => {
                match spec_step(j, seg) {
                    Ok(c) => {
                        lemma_step_wf(j, seg, c);
                        lemma_resolve_wf(c, chunks.drop_first(), v);
                    },
                    Err(_) => {},
                }
            },
            Err(_) => {},
        }
    }
}

/// The view of an optional string slice.
pub open spec fn opt_str_view(o: Option<&str>) -> Option<Seq<char>> {
    match o {
        Some(s) => Some(s@),
        None => None,
    }
}

/// What formatting renders: indented JSON text for the `json-pretty` format,
/// compact JSON text for `raw`, for no format, and for anything else.
pub open spec fn spec_format(j: JsonSpec, fmt: Option<Seq<char>>) -> Seq<char> {
    match fmt {
        Some(f) => if f == "json-pretty"@ {
            pretty_text(j)
        } else {
            compact_text(j)
        },
        None => compact_text(j),
    }
}

/// Renders a JSON value as text in the requested output format. For a
/// value nested at most 127 levels deep, parsing the rendered text back
/// yields a structurally equal value, in every format.
pub fn format_output(value: &Json, output_format: Option<&str>) -> (r: Result<
    String,
    JsonExtractError,
>)
    requires
        value.wf(),
    ensures
        r matches Ok(s) && s@ == spec_format(value@, opt_str_view(output_format)) && (
        crate::value::depth_at_most(value@, 127) ==> crate::serde_glue::parsed_json(s@) == Some(
            value@,
        )),
{
    let v = json_to_value(value);
    let rendered = match output_format {
        Some(f) => if str_eq(f, "json-pretty") {
            value_to_string_pretty(&v)
        } else {
            value_to_string(&v)
        },
        None => value_to_string(&v),
    };
    Ok(rendered)
}

} // verus!
