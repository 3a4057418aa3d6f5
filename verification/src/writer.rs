//! The tree writer: installing a value at a field path.
//!
//! The writer descends the document one segment at a time and replaces the
//! addressed location with the coerced value. Under the create-missing
//! policy it fabricates missing intermediate objects, creates missing
//! arrays, pads short arrays with nulls, and replaces a wrongly-typed
//! current node by a fresh object; without it, any such mismatch is an
//! error. The writer works functionally: it consumes the document and
//! returns the updated one.

use vstd::prelude::*;
use crate::coerce::parse_value_with_type;
use crate::coerce::spec_coerce;
use crate::error::ErrSpec;
use crate::error::JsonExtractError;
use crate::path::SegSpec;
use crate::path::Segment;
use crate::path::parse_segment;
use crate::path::spec_seg;
use crate::reader::obj_get;
use crate::reader::lemma_obj_get_first_match;
use crate::reader::lemma_obj_get_no_match;
use crate::reader::opt_str_view;
use crate::strutil::str_eq;
use crate::value::Json;
use crate::value::JsonSpec;
use crate::value::elems_view;
use crate::value::obj_fields_view;

verus! {

/// Replaces the value under `key` in a field list, first match, keeping its
/// position; a missing key is appended at the end.
pub open spec fn obj_put(
    fields: Seq<(Seq<char>, JsonSpec)>,
    key: Seq<char>,
    v: JsonSpec,
) -> Seq<(Seq<char>, JsonSpec)>
    decreases fields.len(),
{
    if fields.len() == 0 {
        seq![(key, v)]
    } else if fields[0].0 == key {
        seq![(key, v)] + fields.drop_first()
    } else {
        seq![fields[0]] + obj_put(fields.drop_first(), key, v)
    }
}

/// When the first pair with key `key` stands at position `i`, putting a
/// value replaces exactly that pair.
pub proof fn lemma_obj_put_at(
    fields: Seq<(Seq<char>, JsonSpec)>,
    key: Seq<char>,
    v: JsonSpec,
    i: int,
)
    requires
        0 <= i < fields.len(),
        fields[i].0 == key,
        forall|j: int| 0 <= j < i ==> (#[trigger] fields[j]).0 != key,
    ensures
        obj_put(fields, key, v) == fields.update(i, (key, v)),
    decreases i,
{
    if i == 0 {
        assert(obj_put(fields, key, v) =~= fields.update(0, (key, v)));
    } else {
        let rest = fields.drop_first();
        assert(forall|j: int| 0 <= j < i - 1 ==> (#[trigger] rest[j]).0 != key);
        lemma_obj_put_at(rest, key, v, i - 1);
        assert(obj_put(fields, key, v) =~= fields.update(i, (key, v)));
    }
}

/// When no pair has key `key`, putting a value appends a new pair.
pub proof fn lemma_obj_put_append(fields: Seq<(Seq<char>, JsonSpec)>, key: Seq<char>, v: JsonSpec)
    requires
        forall|j: int| 0 <= j < fields.len() ==> (#[trigger] fields[j]).0 != key,
    ensures
        obj_put(fields, key, v) == fields.push((key, v)),
    decreases fields.len(),
{
    if fields.len() == 0 {
        assert(obj_put(fields, key, v) =~= fields.push((key, v)));
    } else {
        let rest = fields.drop_first();
        assert(forall|j: int| 0 <= j < rest.len() ==> (#[trigger] rest[j]).0 != key);
        lemma_obj_put_append(rest, key, v);
        assert(obj_put(fields, key, v) =~= fields.push((key, v)));
    }
}

/// Extends an element list with nulls until it has length `n`; a list at
/// least that long stays as it is.
pub open spec fn pad_nulls(elems: Seq<JsonSpec>, n: int) -> Seq<JsonSpec> {
    if elems.len() >= n {
        elems
    } else {
        elems + Seq::new((n - elems.len()) as nat, |i: int| JsonSpec::Null)
    }
}

/// The write into an array under an indexed segment: under create-missing
/// the array is first padded with nulls up to the index; then the element
/// is overwritten (for the last segment) or descended into, and an index
/// beyond the (possibly padded) length is out of bounds, reported with
/// that length.
pub open spec fn spec_set_in_array(
    name: Seq<char>,
    elems: Seq<JsonSpec>,
    idx: int,
    rest: Seq<Seq<char>>,
    val: Result<JsonSpec, ErrSpec>,
    create: bool,
) -> Result<Seq<JsonSpec>, ErrSpec>
    decreases rest.len(), 2int,
{
    let elems1 = if create && idx >= elems.len() {
        pad_nulls(elems, idx + 1)
    } else {
        elems
    };
    if rest.len() == 0 {
        match val {
            Err(e) => Err(e),
            Ok(v) => if idx < elems1.len() {
                Ok(elems1.update(idx, v))
            } else {
                Err(
                    ErrSpec::ArrayIndexOutOfBounds {
                        path: name,
                        index: idx,
                        length: elems1.len() as int,
                    },
                )
            },
        }
    } else {
        if idx < elems1.len() {
            match spec_set(elems1[idx], rest, val, create) {
                Ok(c2) => Ok(elems1.update(idx, c2)),
                Err(e) => Err(e),
            }
        } else {
            Err(
                ErrSpec::ArrayIndexOutOfBounds {
                    path: name,
                    index: idx,
                    length: elems1.len() as int,
                },
            )
        }
    }
}

/// The write of `val` at the location that `chunks` addresses inside `j`,
/// under the create-missing policy `create`. `val` is the outcome of
/// coercing the raw value: its error surfaces when the last segment is
/// reached, as coercion happens at the terminal write.
pub open spec fn spec_set(
    j: JsonSpec,
    chunks: Seq<Seq<char>>,
    val: Result<JsonSpec, ErrSpec>,
    create: bool,
) -> Result<JsonSpec, ErrSpec>
    decreases chunks.len(), 1int,
{
    if chunks.len() == 0 {
        // never reached through the crate's own callers: a parsed path is
        // non-empty
        Err(ErrSpec::FieldNotFound(Seq::empty()))
    } else {
        let rest = chunks.drop_first();
        match spec_seg(chunks[0]) {
            Err(t) => Err(ErrSpec::InvalidArrayIndex(t)),
            Ok(SegSpec::Field(name)) => {
                if rest.len() == 0 {
                    match val {
                        Err(e) => Err(e),
                        Ok(v) => match j {
                            JsonSpec::Obj(fields) => Ok(JsonSpec::Obj(obj_put(fields, name, v))),
                            _ => if create {
                                Ok(JsonSpec::Obj(seq![(name, v)]))
                            } else {
                                Err(ErrSpec::NotAnObject(name))
                            },
                        },
                    }
                } else {
                    match j {
                        JsonSpec::Obj(fields) => {
                            match obj_get(fields, name) {
                                Some(child) => match spec_set(child, rest, val, create) {
                                    Ok(c2) => Ok(JsonSpec::Obj(obj_put(fields, name, c2))),
                                    Err(e) => Err(e),
                                },
                                None => if create {
                                    match spec_set(
                                        JsonSpec::Obj(Seq::empty()),
                                        rest,
                                        val,
                                        create,
                                    ) {
                                        Ok(c2) => Ok(JsonSpec::Obj(obj_put(fields, name, c2))),
                                        Err(e) => Err(e),
                                    }
                                } else {
                                    Err(ErrSpec::NotAnObject(name))
                                },
                            }
                        },
                        _ => if create {
                            match spec_set(JsonSpec::Obj(Seq::empty()), rest, val, create) {
                                Ok(c2) => Ok(JsonSpec::Obj(seq![(name, c2)])),
                                Err(e) => Err(e),
                            }
                        } else {
                            Err(ErrSpec::NotAnObject(name))
                        },
                    }
                }
            },
            Ok(SegSpec::Index(name, idx)) => {
                match j {
                    JsonSpec::Obj(fields) => {
                        let arr0 = match obj_get(fields, name) {
                            Some(c) => c,
                            None => JsonSpec::Arr(Seq::empty()),
                        };
                        match arr0 {
                            JsonSpec::Arr(elems) => {
                                match spec_set_in_array(name, elems, idx, rest, val, create) {
                                    Ok(elems2) => Ok(
                                        JsonSpec::Obj(
                                            obj_put(fields, name, JsonSpec::Arr(elems2)),
                                        ),
                                    ),
                                    Err(e) => Err(e),
                                }
                            },
                            _ => Err(ErrSpec::NotAnArray(name)),
                        }
                    },
                    _ => Err(ErrSpec::NotAnObject(name)),
                }
            },
        }
    }
}


/// An element of a well-formed array is well-formed.
pub proof fn lemma_arr_elem_wf(elems: Seq<JsonSpec>, i: int)
    requires
        JsonSpec::Arr(elems).wf(),
        0 <= i < elems.len(),
    ensures
        elems[i].wf(),
{
    assert(JsonSpec::Arr(elems).arrow_Arr_0() == elems);
}

/// Updating an element of a well-formed array with a well-formed value
/// keeps the array well-formed.
pub proof fn lemma_arr_update_wf(elems: Seq<JsonSpec>, i: int, v: JsonSpec)
    requires
        JsonSpec::Arr(elems).wf(),
        0 <= i < elems.len(),
        v.wf(),
    ensures
        JsonSpec::Arr(elems.update(i, v)).wf(),
{
    let e2 = elems.update(i, v);
    assert(JsonSpec::Arr(elems).arrow_Arr_0() == elems);
    assert(JsonSpec::Arr(e2).arrow_Arr_0() == e2);
    assert forall|m: int| 0 <= m < e2.len() implies (#[trigger] e2[m]).wf() by {
        if m != i {
            assert(e2[m] == elems[m]);
        }
    }
}

/// Appending a well-formed value keeps an array well-formed.
pub proof fn lemma_arr_push_wf(elems: Seq<JsonSpec>, v: JsonSpec)
    requires
        JsonSpec::Arr(elems).wf(),
        v.wf(),
    ensures
        JsonSpec::Arr(elems.push(v)).wf(),
{
    let e2 = elems.push(v);
    assert(JsonSpec::Arr(elems).arrow_Arr_0() == elems);
    assert(JsonSpec::Arr(e2).arrow_Arr_0() == e2);
    assert forall|m: int| 0 <= m < e2.len() implies (#[trigger] e2[m]).wf() by {
        if m < elems.len() {
            assert(e2[m] == elems[m]);
        }
    }
}

/// Padding a well-formed array with nulls keeps it well-formed.
pub proof fn lemma_pad_nulls_wf(elems: Seq<JsonSpec>, n: int)
    requires
        JsonSpec::Arr(elems).wf(),
    ensures
        JsonSpec::Arr(pad_nulls(elems, n)).wf(),
{
    let e2 = pad_nulls(elems, n);
    assert(JsonSpec::Arr(elems).arrow_Arr_0() == elems);
    assert(JsonSpec::Arr(e2).arrow_Arr_0() == e2);
    assert forall|m: int| 0 <= m < e2.len() implies (#[trigger] e2[m]).wf() by {
        if m < elems.len() {
            assert(e2[m] == elems[m]);
        } else {
            assert(e2[m] == JsonSpec::Null);
        }
    }
}

/// A value of a well-formed object is well-formed.
pub proof fn lemma_obj_value_wf(fields: Seq<(Seq<char>, JsonSpec)>, i: int)
    requires
        JsonSpec::Obj(fields).wf(),
        0 <= i < fields.len(),
    ensures
        fields[i].1.wf(),
{
    assert(JsonSpec::Obj(fields).arrow_Obj_0() == fields);
}

/// Replacing the value of one field with a well-formed value keeps the
/// object well-formed: the keys do not change.
pub proof fn lemma_obj_update_wf(fields: Seq<(Seq<char>, JsonSpec)>, i: int, v: JsonSpec)
    requires
        JsonSpec::Obj(fields).wf(),
        0 <= i < fields.len(),
        v.wf(),
    ensures
        JsonSpec::Obj(fields.update(i, (fields[i].0, v))).wf(),
{
    let f2 = fields.update(i, (fields[i].0, v));
    assert(JsonSpec::Obj(fields).arrow_Obj_0() == fields);
    assert(JsonSpec::Obj(f2).arrow_Obj_0() == f2);
    assert forall|m: int| 0 <= m < f2.len() implies (#[trigger] f2[m]).1.wf() by {
        if m != i {
            assert(f2[m] == fields[m]);
        }
    }
    assert forall|a: int, b: int| 0 <= a < b < f2.len() implies f2[a].0 != f2[b].0 by {
        assert(f2[a].0 == fields[a].0);
        assert(f2[b].0 == fields[b].0);
    }
}

/// Appending a fresh key with a well-formed value keeps the object
/// well-formed.
pub proof fn lemma_obj_push_wf(fields: Seq<(Seq<char>, JsonSpec)>, key: Seq<char>, v: JsonSpec)
    requires
        JsonSpec::Obj(fields).wf(),
        v.wf(),
        forall|j: int| 0 <= j < fields.len() ==> (#[trigger] fields[j]).0 != key,
    ensures
        JsonSpec::Obj(fields.push((key, v))).wf(),
{
    let f2 = fields.push((key, v));
    assert(JsonSpec::Obj(fields).arrow_Obj_0() == fields);
    assert(JsonSpec::Obj(f2).arrow_Obj_0() == f2);
    assert forall|m: int| 0 <= m < f2.len() implies (#[trigger] f2[m]).1.wf() by {
        if m < fields.len() {
            assert(f2[m] == fields[m]);
        }
    }
    assert forall|a: int, b: int| 0 <= a < b < f2.len() implies f2[a].0 != f2[b].0 by {
        if b < fields.len() {
            assert(f2[a].0 == fields[a].0);
            assert(f2[b].0 == fields[b].0);
        } else {
            assert(f2[a].0 == fields[a].0);
            assert(f2[b].0 == key);
        }
    }
}

/// An object of one well-formed field is well-formed.
pub proof fn lemma_obj_singleton_wf(key: Seq<char>, v: JsonSpec)
    requires
        v.wf(),
    ensures
        JsonSpec::Obj(seq![(key, v)]).wf(),
{
    let f2: Seq<(Seq<char>, JsonSpec)> = seq![(key, v)];
    assert(JsonSpec::Obj(f2).arrow_Obj_0() == f2);
    assert(f2[0].1 == v);
}


/// Putting a value under a key makes lookup of that key find it.
pub proof fn lemma_obj_put_same(fields: Seq<(Seq<char>, JsonSpec)>, key: Seq<char>, v: JsonSpec)
    ensures
        obj_get(obj_put(fields, key, v), key) == Some(v),
    decreases fields.len(),
{
    let put = obj_put(fields, key, v);
    if fields.len() == 0 {
        assert(put[0] == (key, v));
    } else if fields[0].0 == key {
        assert(put[0] == (key, v));
    } else {
        lemma_obj_put_same(fields.drop_first(), key, v);
        assert(put[0] == fields[0]);
        assert(put.drop_first() =~= obj_put(fields.drop_first(), key, v));
    }
}

/// Putting a value under one key leaves lookup of every other key as it
/// was.
pub proof fn lemma_obj_put_other(
    fields: Seq<(Seq<char>, JsonSpec)>,
    key: Seq<char>,
    v: JsonSpec,
    k2: Seq<char>,
)
    requires
        k2 != key,
    ensures
        obj_get(obj_put(fields, key, v), k2) == obj_get(fields, k2),
    decreases fields.len(),
{
    let put = obj_put(fields, key, v);
    if fields.len() == 0 {
        assert(put[0] == (key, v));
        assert(put.drop_first() =~= Seq::<(Seq<char>, JsonSpec)>::empty());
        assert(obj_get(Seq::<(Seq<char>, JsonSpec)>::empty(), k2) is None);
        assert(obj_get(put, k2) is None);
    } else if fields[0].0 == key {
        assert(put[0] == (key, v));
        assert(put.drop_first() =~= fields.drop_first());
        assert(obj_get(put, k2) == obj_get(fields.drop_first(), k2));
        assert(obj_get(fields, k2) == obj_get(fields.drop_first(), k2));
    } else {
        lemma_obj_put_other(fields.drop_first(), key, v, k2);
        assert(put[0] == fields[0]);
        assert(put.drop_first() =~= obj_put(fields.drop_first(), key, v));
    }
}

/// Finds the position of the first pair with key `key` in a field list.
fn obj_find_idx(fields: &Vec<(String, Json)>, key: &str) -> (r: Option<usize>)
    ensures
        match r {
            Some(i) => {
                &&& i < fields@.len()
                &&& fields@[i as int].0@ == key@
                &&& forall|j: int| 0 <= j < i ==> (#[trigger] fields@[j]).0@ != key@
            },
            None => forall|j: int| 0 <= j < fields@.len() ==> (#[trigger] fields@[j]).0@ != key@,
        },
{
    let n = fields.len();
    let mut i: usize = 0;
    while i < n
        invariant
            i <= n,
            n == fields@.len(),
            forall|j: int| 0 <= j < i ==> (#[trigger] fields@[j]).0@ != key@,
        decreases n - i,
    {
        if str_eq(fields[i].0.as_str(), key) {
            return Some(i);
        }
        i = i + 1;
    }
    None
}

/// Writes into the element list of the array under `name`: pads under the
/// create-missing policy, then overwrites or descends at `idx`.
fn set_array_elem(
    name: &String,
    elems: Vec<Json>,
    idx: usize,
    parts: &Vec<String>,
    from: usize,
    value: &str,
    value_type: Option<&str>,
    create_missing: bool,
) -> (r: Result<Vec<Json>, JsonExtractError>)
    requires
        from < parts@.len(),
        JsonSpec::Arr(elems_view(elems@)).wf(),
    ensures
        match r {
            Ok(elems2) => {
                &&& spec_set_in_array(
                    name@,
                    elems_view(elems@),
                    idx as int,
                    parts.deep_view().skip(from as int + 1),
                    spec_coerce(value@, opt_str_view(value_type)),
                    create_missing,
                ) == Ok::<Seq<JsonSpec>, ErrSpec>(elems_view(elems2@))
                &&& JsonSpec::Arr(elems_view(elems2@)).wf()
            },
            Err(e) => spec_set_in_array(
                name@,
                elems_view(elems@),
                idx as int,
                parts.deep_view().skip(from as int + 1),
                spec_coerce(value@, opt_str_view(value_type)),
                create_missing,
            ) == Err::<Seq<JsonSpec>, ErrSpec>(e@),
        },
    decreases parts@.len() - from, 0int,
{
    let ghost orig = elems_view(elems@);
    let ghost rest = parts.deep_view().skip(from as int + 1);
    let ghost val = spec_coerce(value@, opt_str_view(value_type));
    let n = parts.len();
    let mut elems = elems;
    if create_missing {
        while elems.len() <= idx
            invariant
                orig.len() <= elems@.len(),
                orig.len() <= idx ==> elems@.len() <= idx + 1,
                orig.len() > idx ==> elems@.len() == orig.len(),
                elems_view(elems@) == pad_nulls(orig, elems@.len() as int),
                JsonSpec::Arr(elems_view(elems@)).wf(),
            decreases idx + 1 - elems@.len(),
        {
            let ghost before = elems@;
            elems.push(Json::Null);
            proof {
                assert(elems@ == before.push(Json::Null));
                assert(elems_view(elems@) =~= elems_view(before).push(JsonSpec::Null));
                assert(elems_view(before).push(JsonSpec::Null) =~= pad_nulls(
                    orig,
                    elems@.len() as int,
                ));
                lemma_arr_push_wf(elems_view(before), JsonSpec::Null);
                assert(JsonSpec::Arr(elems_view(elems@)).wf());
            }
        }
    }
    let ghost elems1 = if create_missing && idx as int >= orig.len() {
        pad_nulls(orig, idx as int + 1)
    } else {
        orig
    };
    proof {
        assert(elems_view(elems@) =~= elems1);
    }
    let last = from + 1 == n;
    if last {
        proof {
            assert(rest.len() == 0);
        }
        let parsed = match parse_value_with_type(value, value_type) {
            Ok(p) => p,
            Err(e) => {
                return Err(e);
            },
        };
        let ghost pv = parsed@;
        if idx < elems.len() {
            let ghost before = elems@;
            let _prev = elems.remove(idx);
            elems.insert(idx, parsed);
            proof {
                assert(elems@ =~= before.update(idx as int, elems@[idx as int]));
                assert(elems_view(elems@) =~= elems1.update(idx as int, pv));
                lemma_arr_update_wf(elems1, idx as int, pv);
                assert(JsonSpec::Arr(elems_view(elems@)).wf());
            }
            Ok(elems)
        } else {
            Err(
                JsonExtractError::ArrayIndexOutOfBounds {
                    path: name.clone(),
                    index: idx,
                    length: elems.len(),
                },
            )
        }
    } else {
        proof {
            assert(rest.len() > 0);
        }
        if idx < elems.len() {
            let ghost before = elems@;
            let child = elems.remove(idx);
            proof {
                assert(child@ == elems1[idx as int]);
                lemma_arr_elem_wf(elems1, idx as int);
                assert(child.wf());
            }
            match set_nested_value(child, parts, from + 1, value, value_type, create_missing) {
                Ok(c2) => {
                    let ghost c2v = c2@;
                    proof {
                        assert(c2v.wf());
                    }
                    elems.insert(idx, c2);
                    proof {
                        assert(elems@ =~= before.update(idx as int, elems@[idx as int]));
                        assert(elems_view(elems@) =~= elems1.update(idx as int, c2v));
                        lemma_arr_update_wf(elems1, idx as int, c2v);
                        assert(JsonSpec::Arr(elems_view(elems@)).wf());
                    }
                    Ok(elems)
                },
                Err(e) => Err(e),
            }
        } else {
            Err(
                JsonExtractError::ArrayIndexOutOfBounds {
                    path: name.clone(),
                    index: idx,
                    length: elems.len(),
                },
            )
        }
    }
}

/// Sets a value at the location addressed by the chunks `parts[from..]`
/// inside `current`, consuming the document and returning the updated one.
/// The raw value is coerced at the terminal write, under the optional type
/// hint.
pub fn set_nested_value(
    current: Json,
    parts: &Vec<String>,
    from: usize,
    value: &str,
    value_type: Option<&str>,
    create_missing: bool,
) -> (r: Result<Json, JsonExtractError>)
    requires
        from < parts@.len(),
        current.wf(),
    ensures
        match r {
            Ok(j2) => {
                &&& spec_set(
                    current@,
                    parts.deep_view().skip(from as int),
                    spec_coerce(value@, opt_str_view(value_type)),
                    create_missing,
                ) == Ok::<JsonSpec, ErrSpec>(j2@)
                &&& j2.wf()
            },
            Err(e) => spec_set(
                current@,
                parts.deep_view().skip(from as int),
                spec_coerce(value@, opt_str_view(value_type)),
                create_missing,
            ) == Err::<JsonSpec, ErrSpec>(e@),
        },
    decreases parts@.len() - from, 1int,
{
    let ghost chunks = parts.deep_view().skip(from as int);
    let ghost rest = parts.deep_view().skip(from as int + 1);
    let ghost val = spec_coerce(value@, opt_str_view(value_type));
    proof {
        assert(chunks.len() == parts@.len() - from);
        assert(chunks[0] == parts.deep_view()[from as int]);
        assert(chunks.drop_first() =~= rest);
    }
    let n = parts.len();
    let seg = match parse_segment(parts[from].as_str()) {
        Ok(s) => s,
        Err(e) => {
            return Err(e);
        },
    };
    let last = from + 1 == n;
    match seg {
        Segment::Field(name) => {
            let ghost namev = name@;
            if last {
                proof {
                    assert(rest.len() == 0);
                }
                let parsed = match parse_value_with_type(value, value_type) {
                    Ok(p) => p,
                    Err(e) => {
                        return Err(e);
                    },
                };
                let ghost pv = parsed@;
                match current {
                    Json::Obj(mut fields) => {
                        let ghost fv = obj_fields_view(fields@);
                        match obj_find_idx(&fields, name.as_str()) {
                            Some(i) => {
                                let ghost oldf = fields@;
                                let (k, _prev) = fields.remove(i);
                                fields.insert(i, (k, parsed));
                                proof {
                                    lemma_obj_put_at(fv, namev, pv, i as int);
                                    assert(fields@ =~= oldf.update(i as int, fields@[i as int]));
                                    assert(obj_fields_view(fields@) =~= fv.update(
                                        i as int,
                                        (namev, pv),
                                    ));
                                    assert(JsonSpec::Obj(fv).wf());
                                    lemma_obj_update_wf(fv, i as int, pv);
                                    assert(fv[i as int].0 == namev);
                                    assert(JsonSpec::Obj(obj_fields_view(fields@)).wf());
                                }
                                Ok(Json::Obj(fields))
                            },
                            None => {
                                proof {
                                    lemma_obj_get_no_match(fv, namev);
                                    lemma_obj_put_append(fv, namev, pv);
                                }
                                fields.push((name, parsed));
                                proof {
                                    assert(obj_fields_view(fields@) =~= fv.push((namev, pv)));
                                    assert(JsonSpec::Obj(fv).wf());
                                    lemma_obj_push_wf(fv, namev, pv);
                                    assert(JsonSpec::Obj(obj_fields_view(fields@)).wf());
                                }
                                Ok(Json::Obj(fields))
                            },
                        }
                    },
                    _ => {
                        if create_missing {
                            let mut fields: Vec<(String, Json)> = Vec::new();
                            fields.push((name, parsed));
                            proof {
                                assert(obj_fields_view(fields@) =~= seq![(namev, pv)]);
                                lemma_obj_singleton_wf(namev, pv);
                                assert(JsonSpec::Obj(obj_fields_view(fields@)).wf());
                            }
                            Ok(Json::Obj(fields))
                        } else {
                            Err(JsonExtractError::NotAnObject(name))
                        }
                    },
                }
            } else {
                proof {
                    assert(rest.len() > 0);
                }
                match current {
                    Json::Obj(mut fields) => {
                        let ghost fv = obj_fields_view(fields@);
                        match obj_find_idx(&fields, name.as_str()) {
                            Some(i) => {
                                let ghost oldf = fields@;
                                let (k, child) = fields.remove(i);
                                proof {
                                    lemma_obj_get_first_match(fv, namev, i as int);
                                    assert(child@ == fv[i as int].1);
                                    assert(JsonSpec::Obj(fv).wf());
                                    lemma_obj_value_wf(fv, i as int);
                                    assert(child.wf());
                                }
                                match set_nested_value(
                                    child,
                                    parts,
                                    from + 1,
                                    value,
                                    value_type,
                                    create_missing,
                                ) {
                                    Ok(c2) => {
                                        let ghost c2v = c2@;
                                        fields.insert(i, (k, c2));
                                        proof {
                                            lemma_obj_put_at(fv, namev, c2v, i as int);
                                            assert(fields@ =~= oldf.update(
                                                i as int,
                                                fields@[i as int],
                                            ));
                                            assert(obj_fields_view(fields@) =~= fv.update(
                                                i as int,
                                                (namev, c2v),
                                            ));
                                            assert(JsonSpec::Obj(fv).wf());
                                            lemma_obj_update_wf(fv, i as int, c2v);
                                            assert(fv[i as int].0 == namev);
                                            assert(JsonSpec::Obj(obj_fields_view(fields@)).wf());
                                        }
                                        Ok(Json::Obj(fields))
                                    },
                                    Err(e) => Err(e),
                                }
                            },
                            None => {
                                proof {
                                    lemma_obj_get_no_match(fv, namev);
                                }
                                if !create_missing {
                                    return Err(JsonExtractError::NotAnObject(name));
                                }
                                let empty_obj = Json::Obj(Vec::new());
                                proof {
                                    assert(obj_fields_view(Seq::<(String, Json)>::empty()) =~= Seq::<
                                        (Seq<char>, JsonSpec),
                                    >::empty());
                                    assert(empty_obj@ == JsonSpec::Obj(
                                        Seq::<(Seq<char>, JsonSpec)>::empty(),
                                    ));
                                    assert(empty_obj.wf());
                                }
                                match set_nested_value(
                                    empty_obj,
                                    parts,
                                    from + 1,
                                    value,
                                    value_type,
                                    create_missing,
                                ) {
                                    Ok(c2) => {
                                        let ghost c2v = c2@;
                                        proof {
                                            lemma_obj_put_append(fv, namev, c2v);
                                        }
                                        fields.push((name, c2));
                                        proof {
                                            assert(obj_fields_view(fields@) =~= fv.push(
                                                (namev, c2v),
                                            ));
                                            assert(JsonSpec::Obj(fv).wf());
                                            lemma_obj_push_wf(fv, namev, c2v);
                                            assert(JsonSpec::Obj(obj_fields_view(fields@)).wf());
                                        }
                                        Ok(Json::Obj(fields))
                                    },
                                    Err(e) => Err(e),
                                }
                            },
                        }
                    },
                    _ => {
                        if create_missing {
                            let empty_obj = Json::Obj(Vec::new());
                            proof {
                                assert(obj_fields_view(Seq::<(String, Json)>::empty()) =~= Seq::<
                                    (Seq<char>, JsonSpec),
                                >::empty());
                                assert(empty_obj@ == JsonSpec::Obj(
                                    Seq::<(Seq<char>, JsonSpec)>::empty(),
                                ));
                                assert(empty_obj.wf());
                            }
                            match set_nested_value(
                                empty_obj,
                                parts,
                                from + 1,
                                value,
                                value_type,
                                create_missing,
                            ) {
                                Ok(c2) => {
                                    let ghost c2v = c2@;
                                    let mut fields: Vec<(String, Json)> = Vec::new();
                                    fields.push((name, c2));
                                    proof {
                                        assert(obj_fields_view(fields@) =~= seq![(namev, c2v)]);
                                        lemma_obj_singleton_wf(namev, c2v);
                                        assert(JsonSpec::Obj(obj_fields_view(fields@)).wf());
                                    }
                                    Ok(Json::Obj(fields))
                                },
                                Err(e) => Err(e),
                            }
                        } else {
                            Err(JsonExtractError::NotAnObject(name))
                        }
                    },
                }
            }
        },
        Segment::Index(name, idx) => {
            let ghost namev = name@;
            match current {
                Json::Obj(mut fields) => {
                    let ghost fv = obj_fields_view(fields@);
                    match obj_find_idx(&fields, name.as_str()) {
                        Some(i) => {
                            let ghost oldf = fields@;
                            let (k, arr_json) = fields.remove(i);
                            proof {
                                lemma_obj_get_first_match(fv, namev, i as int);
                                assert(arr_json@ == fv[i as int].1);
                                assert(JsonSpec::Obj(fv).wf());
                                lemma_obj_value_wf(fv, i as int);
                                assert(arr_json.wf());
                            }
                            match arr_json {
                                Json::Arr(elems) => {
                                    match set_array_elem(
                                        &name,
                                        elems,
                                        idx,
                                        parts,
                                        from,
                                        value,
                                        value_type,
                                        create_missing,
                                    ) {
                                        Ok(elems2) => {
                                            let ghost e2v = elems_view(elems2@);
                                            fields.insert(i, (k, Json::Arr(elems2)));
                                            proof {
                                                lemma_obj_put_at(
                                                    fv,
                                                    namev,
                                                    JsonSpec::Arr(e2v),
                                                    i as int,
                                                );
                                                assert(fields@ =~= oldf.update(
                                                    i as int,
                                                    fields@[i as int],
                                                ));
                                                assert(obj_fields_view(fields@) =~= fv.update(
                                                    i as int,
                                                    (namev, JsonSpec::Arr(e2v)),
                                                ));
                                                assert(JsonSpec::Obj(fv).wf());
                                                lemma_obj_update_wf(
                                                    fv,
                                                    i as int,
                                                    JsonSpec::Arr(e2v),
                                                );
                                                assert(fv[i as int].0 == namev);
                                                assert(JsonSpec::Obj(
                                                    obj_fields_view(fields@),
                                                ).wf());
                                            }
                                            Ok(Json::Obj(fields))
                                        },
                                        Err(e) => Err(e),
                                    }
                                },
                                _ => Err(JsonExtractError::NotAnArray(name)),
                            }
                        },
                        None => {
                            proof {
                                lemma_obj_get_no_match(fv, namev);
                            }
                            let elems: Vec<Json> = Vec::new();
                            proof {
                                assert(elems_view(Seq::<Json>::empty()) =~= Seq::<
                                    JsonSpec,
                                >::empty());
                                assert(JsonSpec::Arr(elems_view(elems@)).wf());
                            }
                            match set_array_elem(
                                &name,
                                elems,
                                idx,
                                parts,
                                from,
                                value,
                                value_type,
                                create_missing,
                            ) {
                                Ok(elems2) => {
                                    let ghost e2v = elems_view(elems2@);
                                    proof {
                                        lemma_obj_put_append(fv, namev, JsonSpec::Arr(e2v));
                                    }
                                    fields.push((name, Json::Arr(elems2)));
                                    proof {
                                        assert(obj_fields_view(fields@) =~= fv.push(
                                            (namev, JsonSpec::Arr(e2v)),
                                        ));
                                        assert(JsonSpec::Obj(fv).wf());
                                        lemma_obj_push_wf(fv, namev, JsonSpec::Arr(e2v));
                                        assert(JsonSpec::Obj(obj_fields_view(fields@)).wf());
                                    }
                                    Ok(Json::Obj(fields))
                                },
                                Err(e) => Err(e),
                            }
                        },
                    }
                },
                _ => Err(JsonExtractError::NotAnObject(name)),
            }
        },
    }
}

} // verus!
