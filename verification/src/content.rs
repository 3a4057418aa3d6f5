//! The document-level operations: everything between receiving a document's
//! text and producing the output text.
//!
//! Each function here parses the text, runs the reader or the writer, and
//! renders the outcome. File reading and writing stay with the caller: the
//! functions take text in and hand text (or plain values) back.

use vstd::prelude::*;
use crate::coerce::spec_coerce;
use crate::config::ExtractConfig;
use crate::config::ExtractionResult;
use crate::config::SetConfig;
use crate::error::ErrSpec;
use crate::error::JsonExtractError;
use crate::path::spec_split_path;
use crate::path::split_field_path;
use crate::reader::get_nested_value;
use crate::reader::format_output;
use crate::reader::lemma_resolve_wf;
use crate::reader::opt_str_view;
use crate::reader::spec_format;
use crate::reader::spec_member;
use crate::reader::spec_resolve_path;
use crate::reader::spec_strip_quotes;
use crate::reader::strip_quotes_internal;
use crate::reader::obj_find;
use crate::serde_glue::compact_text;
use crate::serde_glue::json_from_str;
use crate::serde_glue::json_to_value;
use crate::serde_glue::parsed_json;
use crate::serde_glue::pretty_text;
use crate::serde_glue::value_to_json;
use crate::serde_glue::value_to_string_pretty;
use crate::value::Json;
use crate::value::JsonSpec;
use crate::value::elems_view;
use crate::writer::set_nested_value;
use crate::writer::spec_set;
use crate::writer::lemma_arr_elem_wf;

verus! {

/// The view of an optional owned string.
pub open spec fn opt_string_view(o: Option<String>) -> Option<Seq<char>> {
    match o {
        Some(s) => Some(s@),
        None => None,
    }
}

/// Parses a document text, or reports invalid JSON against the given file
/// identity.
fn parse_document(content: &str, file_path: &String) -> (r: Result<Json, JsonExtractError>)
    ensures
        match r {
            Ok(d) => parsed_json(content@) == Some(d@) && d.wf(),
            Err(e) => {
                &&& parsed_json(content@) is None
                &&& e@ matches ErrSpec::InvalidJson { file, error: _ }
                &&& file == file_path@
            },
        },
{
    match json_from_str(content) {
        Ok(v) => Ok(value_to_json(&v)),
        Err(msg) => Err(
            JsonExtractError::InvalidJson { file: file_path.clone(), error: msg },
        ),
    }
}

/// What extracting one field renders: the resolved value as compact JSON,
/// quote-stripped on request.
pub open spec fn spec_extract_one(d: JsonSpec, path: Seq<char>, strip: bool) -> Result<
    Seq<char>,
    ErrSpec,
> {
    match spec_resolve_path(d, path) {
        Ok(v) => Ok(
            if strip {
                spec_strip_quotes(compact_text(v))
            } else {
                compact_text(v)
            },
        ),
        Err(e) => Err(e),
    }
}

/// Extracts one field of a document text: resolve the configured path,
/// render in the configured output format, and strip quotes on request.
pub fn extract_field_value(content: &str, config: &ExtractConfig) -> (r: Result<
    String,
    JsonExtractError,
>)
    ensures
        match r {
            Ok(s) => {
                &&& parsed_json(content@) matches Some(d)
                &&& spec_resolve_path(d, config.field_path@) matches Ok(v)
                &&& s@ == if config.strip_quotes {
                    spec_strip_quotes(spec_format(v, opt_string_view(config.output_format)))
                } else {
                    spec_format(v, opt_string_view(config.output_format))
                }
            },
            Err(e) => {
                ||| {
                    &&& parsed_json(content@) is None
                    &&& e@ matches ErrSpec::InvalidJson { file, error: _ }
                    &&& file == config.file_path@
                }
                ||| {
                    &&& parsed_json(content@) matches Some(d)
                    &&& spec_resolve_path(d, config.field_path@) == Err::<JsonSpec, ErrSpec>(e@)
                }
            },
        },
{
    let doc = match parse_document(content, &config.file_path) {
        Ok(d) => d,
        Err(e) => {
            return Err(e);
        },
    };
    let target = match get_nested_value(&doc, config.field_path.as_str()) {
        Ok(t) => t,
        Err(e) => {
            return Err(e);
        },
    };
    proof {
        match spec_split_path(config.field_path@) {
            Some(chunks) => {
                lemma_resolve_wf(doc@, chunks, target@);
            },
            None => {},
        }
    }
    let fmt: Option<&str> = match &config.output_format {
        Some(s) => Some(s.as_str()),
        None => None,
    };
    let formatted = match format_output(target, fmt) {
        Ok(s) => s,
        Err(e) => {
            return Err(e);
        },
    };
    if config.strip_quotes {
        Ok(strip_quotes_internal(formatted.as_str()))
    } else {
        Ok(formatted)
    }
}

/// Extracts several fields of one document text, each rendered compactly
/// and quote-stripped on request; the first failing path aborts the whole
/// extraction with its error.
pub fn extract_multiple_values(
    content: &str,
    file_path: &String,
    field_paths: &Vec<String>,
    strip_quotes: bool,
) -> (r: Result<ExtractionResult, JsonExtractError>)
    ensures
        match r {
            Ok(res) => {
                &&& parsed_json(content@) matches Some(d)
                &&& res.file_path@ == file_path@
                &&& res.fields@.len() == field_paths@.len()
                &&& forall|i: int|
                    0 <= i < field_paths@.len() ==> (#[trigger] res.fields@[i]).0@
                        == field_paths@[i]@ && spec_extract_one(
                        parsed_json(content@).unwrap(),
                        field_paths@[i]@,
                        strip_quotes,
                    ) == Ok::<Seq<char>, ErrSpec>(res.fields@[i].1@)
            },
            Err(e) => {
                ||| {
                    &&& parsed_json(content@) is None
                    &&& e@ matches ErrSpec::InvalidJson { file, error: _ }
                    &&& file == file_path@
                }
                ||| {
                    &&& parsed_json(content@) matches Some(d)
                    &&& exists|k: int|
                        0 <= k < field_paths@.len() && spec_extract_one(
                            d,
                            (#[trigger] field_paths@[k])@,
                            strip_quotes,
                        ) == Err::<Seq<char>, ErrSpec>(e@) && (forall|j: int|
                            0 <= j < k ==> spec_extract_one(
                                d,
                                (#[trigger] field_paths@[j])@,
                                strip_quotes,
                            ) is Ok)
                }
            },
        },
{
    let doc = match parse_document(content, file_path) {
        Ok(d) => d,
        Err(e) => {
            return Err(e);
        },
    };
    let mut res = ExtractionResult::new(file_path.clone());
    let n = field_paths.len();
    let mut i: usize = 0;
    while i < n
        invariant
            i <= n,
            n == field_paths@.len(),
            parsed_json(content@) == Some(doc@),
            doc.wf(),
            res.file_path@ == file_path@,
            res.fields@.len() == i,
            forall|m: int|
                0 <= m < i ==> res.fields@[m].0@ == (#[trigger] field_paths@[m])@
                    && spec_extract_one(doc@, field_paths@[m]@, strip_quotes) == Ok::<
                    Seq<char>,
                    ErrSpec,
                >(res.fields@[m].1@),
        decreases n - i,
    {
        let target = match get_nested_value(&doc, field_paths[i].as_str()) {
            Ok(t) => t,
            Err(e) => {
                proof {
                    assert(spec_extract_one(doc@, field_paths@[i as int]@, strip_quotes)
                        == Err::<Seq<char>, ErrSpec>(e@));
                    assert(forall|j: int|
                        0 <= j < i ==> spec_extract_one(
                            doc@,
                            (#[trigger] field_paths@[j])@,
                            strip_quotes,
                        ) is Ok);
                }
                return Err(e);
            },
        };
        proof {
            match spec_split_path(field_paths@[i as int]@) {
                Some(chunks) => {
                    lemma_resolve_wf(doc@, chunks, target@);
                },
                None => {},
            }
        }
        let formatted = match format_output(target, None) {
            Ok(s) => s,
            Err(e) => {
                return Err(e);
            },
        };
        let rendered = if strip_quotes {
            strip_quotes_internal(formatted.as_str())
        } else {
            formatted
        };
        res.add_field(field_paths[i].clone(), rendered);
        i = i + 1;
    }
    Ok(res)
}

/// The length of the array that a path resolves to.
pub fn array_length_value(content: &str, file_path: &String, array_path: &str) -> (r: Result<
    usize,
    JsonExtractError,
>)
    ensures
        match r {
            Ok(n) => {
                &&& parsed_json(content@) matches Some(d)
                &&& spec_resolve_path(d, array_path@) matches Ok(v)
                &&& v matches JsonSpec::Arr(elems)
                &&& n == elems.len()
            },
            Err(e) => {
                ||| {
                    &&& parsed_json(content@) is None
                    &&& e@ matches ErrSpec::InvalidJson { file, error: _ }
                    &&& file == file_path@
                }
                ||| {
                    &&& parsed_json(content@) matches Some(d)
                    &&& spec_resolve_path(d, array_path@) == Err::<JsonSpec, ErrSpec>(e@)
                }
                ||| {
                    &&& parsed_json(content@) matches Some(d)
                    &&& spec_resolve_path(d, array_path@) matches Ok(v)
                    &&& !(v is Arr)
                    &&& e@ == ErrSpec::NotAnArray(array_path@)
                }
            },
        },
{
    let doc = match parse_document(content, file_path) {
        Ok(d) => d,
        Err(e) => {
            return Err(e);
        },
    };
    let target = match get_nested_value(&doc, array_path) {
        Ok(t) => t,
        Err(e) => {
            return Err(e);
        },
    };
    match target {
        Json::Arr(elems) => Ok(elems.len()),
        _ => Err(JsonExtractError::NotAnArray(array_path.to_owned())),
    }
}

/// One element of the array that a path resolves to, rendered compactly and
/// quote-stripped on request.
pub fn array_element_value(
    content: &str,
    file_path: &String,
    array_path: &str,
    index: usize,
    strip_quotes: bool,
) -> (r: Result<String, JsonExtractError>)
    ensures
        match r {
            Ok(s) => {
                &&& parsed_json(content@) matches Some(d)
                &&& spec_resolve_path(d, array_path@) matches Ok(v)
                &&& v matches JsonSpec::Arr(elems)
                &&& index < elems.len()
                &&& s@ == if strip_quotes {
                    spec_strip_quotes(compact_text(elems[index as int]))
                } else {
                    compact_text(elems[index as int])
                }
            },
            Err(e) => {
                ||| {
                    &&& parsed_json(content@) is None
                    &&& e@ matches ErrSpec::InvalidJson { file, error: _ }
                    &&& file == file_path@
                }
                ||| {
                    &&& parsed_json(content@) matches Some(d)
                    &&& spec_resolve_path(d, array_path@) == Err::<JsonSpec, ErrSpec>(e@)
                }
                ||| {
                    &&& parsed_json(content@) matches Some(d)
                    &&& spec_resolve_path(d, array_path@) matches Ok(v)
                    &&& !(v is Arr)
                    &&& e@ == ErrSpec::NotAnArray(array_path@)
                }
                ||| {
                    &&& parsed_json(content@) matches Some(d)
                    &&& spec_resolve_path(d, array_path@) matches Ok(v)
                    &&& v matches JsonSpec::Arr(elems)
                    &&& index >= elems.len()
                    &&& e@ == (ErrSpec::ArrayIndexOutOfBounds {
                        path: array_path@,
                        index: index as int,
                        length: elems.len() as int,
                    })
                }
            },
        },
{
    let doc = match parse_document(content, file_path) {
        Ok(d) => d,
        Err(e) => {
            return Err(e);
        },
    };
    let target = match get_nested_value(&doc, array_path) {
        Ok(t) => t,
        Err(e) => {
            return Err(e);
        },
    };
    proof {
        match spec_split_path(array_path@) {
            Some(chunks) => {
                lemma_resolve_wf(doc@, chunks, target@);
            },
            None => {},
        }
    }
    match target {
        Json::Arr(elems) => {
            if index < elems.len() {
                proof {
                    assert(target@.arrow_Arr_0() == elems_view(elems@));
                    lemma_arr_elem_wf(elems_view(elems@), index as int);
                }
                let formatted = match format_output(&elems[index], None) {
                    Ok(s) => s,
                    Err(e) => {
                        return Err(e);
                    },
                };
                if strip_quotes {
                    Ok(strip_quotes_internal(formatted.as_str()))
                } else {
                    Ok(formatted)
                }
            } else {
                Err(
                    JsonExtractError::ArrayIndexOutOfBounds {
                        path: array_path.to_owned(),
                        index,
                        length: elems.len(),
                    },
                )
            }
        },
        _ => Err(JsonExtractError::NotAnArray(array_path.to_owned())),
    }
}

/// The dependencies listed under the top-level `dependencies` object: each
/// key paired with its string value, a non-string value giving the empty
/// string; an absent or non-object `dependencies`, or a non-object
/// document, giving no pairs.
pub open spec fn spec_dependencies(d: JsonSpec) -> Seq<(Seq<char>, Seq<char>)> {
    match spec_member(d, "dependencies"@) {
        Some(dep) => match dep {
            JsonSpec::Obj(fields) => Seq::new(
                fields.len(),
                |i: int| if 0 <= i < fields.len() {
                    (
                        fields[i].0,
                        match fields[i].1 {
                            JsonSpec::Str(s) => s,
                            _ => Seq::empty(),
                        },
                    )
                } else {
                    (Seq::empty(), Seq::empty())
                },
            ),
            _ => Seq::empty(),
        },
        None => Seq::empty(),
    }
}

/// Collects the dependencies of a document text as name/version pairs.
pub fn dependencies_in_content(content: &str, file_path: &String) -> (r: Result<
    Vec<(String, String)>,
    JsonExtractError,
>)
    ensures
        match r {
            Ok(deps) => {
                &&& parsed_json(content@) matches Some(d)
                &&& deps.deep_view() == spec_dependencies(parsed_json(content@).unwrap())
            },
            Err(e) => {
                &&& parsed_json(content@) is None
                &&& e@ matches ErrSpec::InvalidJson { file, error: _ }
                &&& file == file_path@
            },
        },
{
    let doc = match parse_document(content, file_path) {
        Ok(d) => d,
        Err(e) => {
            return Err(e);
        },
    };
    let mut deps: Vec<(String, String)> = Vec::new();
    match &doc {
        Json::Obj(fields) => {
            match obj_find(fields, "dependencies") {
                Some(dep) => {
                    match dep {
                        Json::Obj(dep_fields) => {
                            let n = dep_fields.len();
                            let mut i: usize = 0;
                            while i < n
                                invariant
                                    i <= n,
                                    n == dep_fields@.len(),
                                    spec_dependencies(doc@) == Seq::new(
                                        crate::value::obj_fields_view(dep_fields@).len(),
                                        |m: int| if 0 <= m < crate::value::obj_fields_view(
                                            dep_fields@,
                                        ).len() {
                                            (
                                                crate::value::obj_fields_view(dep_fields@)[m].0,
                                                match crate::value::obj_fields_view(
                                                    dep_fields@,
                                                )[m].1 {
                                                    JsonSpec::Str(s) => s,
                                                    _ => Seq::empty(),
                                                },
                                            )
                                        } else {
                                            (Seq::empty(), Seq::empty())
                                        },
                                    ),
                                    deps.deep_view() =~= spec_dependencies(doc@).subrange(
                                        0,
                                        i as int,
                                    ),
                                decreases n - i,
                            {
                                let key = dep_fields[i].0.clone();
                                let version = match &dep_fields[i].1 {
                                    Json::Str(s) => s.clone(),
                                    _ => String::new(),
                                };
                                let ghost kv = key@;
                                let ghost vv = version@;
                                let ghost dv_old = deps.deep_view();
                                deps.push((key, version));
                                proof {
                                    assert(deps.deep_view() =~= dv_old.push((kv, vv)));
                                    assert(crate::value::obj_fields_view(dep_fields@)[i as int].0
                                        == kv);
                                    assert(crate::value::obj_fields_view(dep_fields@)[i as int].1
                                        == crate::value::json_view(dep_fields@[i as int].1));
                                    assert(spec_dependencies(doc@)[i as int] == (kv, vv));
                                    assert(deps.deep_view() =~= spec_dependencies(doc@).subrange(
                                        0,
                                        i + 1,
                                    ));
                                }
                                i = i + 1;
                            }
                            proof {
                                assert(deps.deep_view() =~= spec_dependencies(doc@));
                            }
                            Ok(deps)
                        },
                        _ => {
                            proof {
                                assert(deps.deep_view() =~= spec_dependencies(doc@));
                            }
                            Ok(deps)
                        },
                    }
                },
                None => {
                    proof {
                        assert(deps.deep_view() =~= spec_dependencies(doc@));
                    }
                    Ok(deps)
                },
            }
        },
        _ => {
            proof {
                assert(deps.deep_view() =~= spec_dependencies(doc@));
            }
            Ok(deps)
        },
    }
}

/// Sets a field in a document text and returns the updated text, rendered
/// as indented JSON. For an updated document nested at most 127 levels
/// deep, parsing the returned text yields exactly the updated tree.
pub fn set_field_in_content(content: &str, config: &SetConfig) -> (r: Result<
    String,
    JsonExtractError,
>)
    ensures
        match r {
            Ok(text) => {
                &&& parsed_json(content@) matches Some(d)
                &&& spec_split_path(config.field_path@) matches Some(chunks)
                &&& spec_set(
                    d,
                    chunks,
                    spec_coerce(config.value@, opt_string_view(config.value_type)),
                    config.create_missing,
                ) matches Ok(d2)
                &&& text@ == pretty_text(d2)
                &&& crate::value::depth_at_most(d2, 127) ==> parsed_json(text@) == Some(d2)
            },
            Err(e) => {
                ||| {
                    &&& parsed_json(content@) is None
                    &&& e@ matches ErrSpec::InvalidJson { file, error: _ }
                    &&& file == config.file_path@
                }
                ||| {
                    &&& parsed_json(content@) matches Some(d)
                    &&& spec_split_path(config.field_path@) is None
                    &&& e@ == ErrSpec::InvalidFieldPath(config.field_path@)
                }
                ||| {
                    &&& parsed_json(content@) matches Some(d)
                    &&& spec_split_path(config.field_path@) matches Some(chunks)
                    &&& spec_set(
                        d,
                        chunks,
                        spec_coerce(config.value@, opt_string_view(config.value_type)),
                        config.create_missing,
                    ) == Err::<JsonSpec, ErrSpec>(e@)
                }
            },
        },
{
    let doc = match parse_document(content, &config.file_path) {
        Ok(d) => d,
        Err(e) => {
            return Err(e);
        },
    };
    let parts = match split_field_path(config.field_path.as_str()) {
        Ok(p) => p,
        Err(e) => {
            return Err(e);
        },
    };
    let vt: Option<&str> = match &config.value_type {
        Some(s) => Some(s.as_str()),
        None => None,
    };
    proof {
        assert(opt_str_view(vt) == opt_string_view(config.value_type));
        assert(parts.deep_view().skip(0) =~= parts.deep_view());
    }
    let updated = match set_nested_value(
        doc,
        &parts,
        0,
        config.value.as_str(),
        vt,
        config.create_missing,
    ) {
        Ok(d2) => d2,
        Err(e) => {
            return Err(e);
        },
    };
    let v2 = json_to_value(&updated);
    Ok(value_to_string_pretty(&v2))
}

} // verus!
