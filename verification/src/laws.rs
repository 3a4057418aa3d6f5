//! Laws relating the tree reader and the tree writer, proved once for all
//! documents.

use vstd::prelude::*;
use crate::error::ErrSpec;
use crate::path::SegSpec;
use crate::path::lemma_split_path_nonempty;
use crate::path::spec_seg;
use crate::path::spec_split_path;
use crate::reader::first_key_at;
use crate::reader::lemma_obj_get_first_match;
use crate::reader::lemma_obj_get_index;
use crate::reader::obj_get;
use crate::reader::spec_member;
use crate::reader::spec_resolve;
use crate::reader::spec_step;
use crate::reader::spec_resolve_path;
use crate::value::JsonSpec;
use crate::writer::lemma_obj_put_at;
use crate::writer::lemma_obj_put_other;
use crate::writer::lemma_obj_put_same;
use crate::writer::obj_put;
use crate::writer::pad_nulls;
use crate::writer::spec_set;
use crate::writer::spec_set_in_array;

verus! {

/// Set-then-get is idempotent: for every document and every path that
/// resolves to a value, writing that value back at the path succeeds and
/// leaves a document in which the path resolves to the same value, under
/// either create-missing policy.
pub proof fn lemma_set_then_get(d: JsonSpec, chunks: Seq<Seq<char>>, v: JsonSpec, create: bool)
    requires
        chunks.len() > 0,
        spec_resolve(d, chunks) == Ok::<JsonSpec, ErrSpec>(v),
    ensures
        spec_set(d, chunks, Ok(v), create) matches Ok(d2) && spec_resolve(d2, chunks) == Ok::<
            JsonSpec,
            ErrSpec,
        >(v),
    decreases chunks.len(),
{
    let rest = chunks.drop_first();
    match spec_seg(chunks[0]) {
        Err(_) => {
            assert(false);
        },
        Ok(seg) => match seg {
            SegSpec::Field(name) => {
                assert(d is Obj);
                let fields = d.arrow_Obj_0();
                let c = spec_member(d, name).unwrap();
                lemma_obj_get_index(fields, name, c);
                let k = choose|k: int| first_key_at(fields, name, c, k);
                if rest.len() == 0 {
                    let put = obj_put(fields, name, v);
                    lemma_obj_put_at(fields, name, v, k);
                    assert forall|j: int| 0 <= j < k implies (#[trigger] put[j]).0 != name by {
                        assert(put[j] == fields[j]);
                    }
                    assert(put[k] == (name, v));
                    lemma_obj_get_first_match(put, name, k);
                    let d2 = JsonSpec::Obj(put);
                    assert(spec_set(d, chunks, Ok(v), create) == Ok::<JsonSpec, ErrSpec>(d2));
                    assert(spec_member(d2, name) == Some(v));
                    assert(spec_resolve(d2, chunks) == Ok::<JsonSpec, ErrSpec>(v));
                } else {
                    lemma_set_then_get(c, rest, v, create);
                    let c2 = spec_set(c, rest, Ok(v), create)->Ok_0;
                    let put = obj_put(fields, name, c2);
                    lemma_obj_put_at(fields, name, c2, k);
                    assert forall|j: int| 0 <= j < k implies (#[trigger] put[j]).0 != name by {
                        assert(put[j] == fields[j]);
                    }
                    assert(put[k] == (name, c2));
                    lemma_obj_get_first_match(put, name, k);
                    let d2 = JsonSpec::Obj(put);
                    assert(spec_set(d, chunks, Ok(v), create) == Ok::<JsonSpec, ErrSpec>(d2));
                    assert(spec_member(d2, name) == Some(c2));
                    assert(spec_resolve(c2, rest) == Ok::<JsonSpec, ErrSpec>(v));
                    assert(spec_resolve(d2, chunks) == Ok::<JsonSpec, ErrSpec>(v));
                }
            },
            SegSpec::Index(name, idx) => {
                assert(d is Obj);
                let fields = d.arrow_Obj_0();
                let c = spec_member(d, name).unwrap();
                lemma_obj_get_index(fields, name, c);
                let k = choose|k: int| first_key_at(fields, name, c, k);
                assert(c is Arr);
                let elems = c.arrow_Arr_0();
                assert(0 <= idx < elems.len());
                if rest.len() == 0 {
                    let e2 = elems.update(idx, v);
                    let put = obj_put(fields, name, JsonSpec::Arr(e2));
                    lemma_obj_put_at(fields, name, JsonSpec::Arr(e2), k);
                    assert forall|j: int| 0 <= j < k implies (#[trigger] put[j]).0 != name by {
                        assert(put[j] == fields[j]);
                    }
                    assert(put[k] == (name, JsonSpec::Arr(e2)));
                    lemma_obj_get_first_match(put, name, k);
                    let d2 = JsonSpec::Obj(put);
                    assert(spec_set_in_array(name, elems, idx, rest, Ok(v), create)
                        == Ok::<Seq<JsonSpec>, ErrSpec>(e2));
                    assert(spec_set(d, chunks, Ok(v), create) == Ok::<JsonSpec, ErrSpec>(d2));
                    assert(spec_member(d2, name) == Some(JsonSpec::Arr(e2)));
                    assert(e2[idx] == v);
                    assert(idx < e2.len());
                    assert(spec_step(d2, seg) == Ok::<JsonSpec, ErrSpec>(v));
                    assert(spec_resolve(v, rest) == Ok::<JsonSpec, ErrSpec>(v));
                    assert(spec_resolve(d2, chunks) == Ok::<JsonSpec, ErrSpec>(v));
                } else {
                    lemma_set_then_get(elems[idx], rest, v, create);
                    let c2 = spec_set(elems[idx], rest, Ok(v), create)->Ok_0;
                    let e2 = elems.update(idx, c2);
                    let put = obj_put(fields, name, JsonSpec::Arr(e2));
                    lemma_obj_put_at(fields, name, JsonSpec::Arr(e2), k);
                    assert forall|j: int| 0 <= j < k implies (#[trigger] put[j]).0 != name by {
                        assert(put[j] == fields[j]);
                    }
                    assert(put[k] == (name, JsonSpec::Arr(e2)));
                    lemma_obj_get_first_match(put, name, k);
                    let d2 = JsonSpec::Obj(put);
                    assert(spec_set_in_array(name, elems, idx, rest, Ok(v), create)
                        == Ok::<Seq<JsonSpec>, ErrSpec>(e2));
                    assert(spec_set(d, chunks, Ok(v), create) == Ok::<JsonSpec, ErrSpec>(d2));
                    assert(spec_member(d2, name) == Some(JsonSpec::Arr(e2)));
                    assert(e2[idx] == c2);
                    assert(idx < e2.len());
                    assert(spec_step(d2, seg) == Ok::<JsonSpec, ErrSpec>(c2));
                    assert(spec_resolve(c2, rest) == Ok::<JsonSpec, ErrSpec>(v));
                    assert(spec_resolve(d2, chunks) == Ok::<JsonSpec, ErrSpec>(v));
                }
            },
        },
    }
}

/// The set-then-get law over a raw path string: a path that resolves in a
/// document parses to chunks, and writing the resolved value back at those
/// chunks gives a document in which the same path resolves to it again.
pub proof fn lemma_set_then_get_path(d: JsonSpec, path: Seq<char>, v: JsonSpec, create: bool)
    requires
        spec_resolve_path(d, path) == Ok::<JsonSpec, ErrSpec>(v),
    ensures
        spec_split_path(path) matches Some(chunks) && (spec_set(d, chunks, Ok(v), create)
            matches Ok(d2) && spec_resolve_path(d2, path) == Ok::<JsonSpec, ErrSpec>(v)),
{
    lemma_split_path_nonempty(path);
    match spec_split_path(path) {
        Some(chunks) => {
            lemma_set_then_get(d, chunks, v, create);
        },
        None => {},
    }
}

/// The container name a segment addresses.
pub open spec fn seg_name(s: SegSpec) -> Seq<char> {
    match s {
        SegSpec::Field(n) => n,
        SegSpec::Index(n, _) => n,
    }
}

/// Whether path `q` departs from path `p` before `p` ends: the two paths
/// address the same locations down to some level, and there address a
/// different field name, or a different element of the same array.
pub open spec fn diverges(p: Seq<Seq<char>>, q: Seq<Seq<char>>) -> bool
    decreases p.len(),
{
    &&& p.len() > 0
    &&& q.len() > 0
    &&& match (spec_seg(p[0]), spec_seg(q[0])) {
        (Ok(a), Ok(b)) => {
            if seg_name(a) != seg_name(b) {
                true
            } else {
                match (a, b) {
                    (SegSpec::Field(_), SegSpec::Field(_)) => diverges(
                        p.drop_first(),
                        q.drop_first(),
                    ),
                    (SegSpec::Index(_, i1), SegSpec::Index(_, i2)) => i1 != i2 || diverges(
                        p.drop_first(),
                        q.drop_first(),
                    ),
                    _ => false,
                }
            }
        },
        _ => false,
    }
}

/// The frame law: a write changes nothing off the written path. Every path
/// that resolves in the document and diverges from the written path
/// resolves to the same value after the write, under either create-missing
/// policy.
pub proof fn lemma_set_frame(
    d: JsonSpec,
    p: Seq<Seq<char>>,
    val: Result<JsonSpec, ErrSpec>,
    create: bool,
    q: Seq<Seq<char>>,
    w: JsonSpec,
)
    requires
        spec_set(d, p, val, create) is Ok,
        spec_resolve(d, q) == Ok::<JsonSpec, ErrSpec>(w),
        diverges(p, q),
    ensures
        spec_resolve(spec_set(d, p, val, create)->Ok_0, q) == Ok::<JsonSpec, ErrSpec>(w),
    decreases p.len(),
{
    reveal_with_fuel(diverges, 3);
    reveal_with_fuel(spec_set, 2);
    reveal_with_fuel(spec_set_in_array, 2);
    let d2 = spec_set(d, p, val, create)->Ok_0;
    let rp = p.drop_first();
    let rq = q.drop_first();
    let a = spec_seg(p[0])->Ok_0;
    let b = spec_seg(q[0])->Ok_0;
    assert(d is Obj);
    let fields = d.arrow_Obj_0();
    let name_a = seg_name(a);
    let name_b = seg_name(b);
    let cb = spec_member(d, name_b).unwrap();
    if name_a != name_b {
        // the write replaces only the entry under its own name
        match a {
            SegSpec::Field(na) => {
                if rp.len() == 0 {
                    let v = val->Ok_0;
                    assert(d2 == JsonSpec::Obj(obj_put(fields, na, v)));
                    lemma_obj_put_other(fields, na, v, name_b);
                } else {
                    match obj_get(fields, na) {
                        Some(c) => {
                            let c2 = spec_set(c, rp, val, create)->Ok_0;
                            assert(d2 == JsonSpec::Obj(obj_put(fields, na, c2)));
                            lemma_obj_put_other(fields, na, c2, name_b);
                        },
                        None => {
                            let c2 = spec_set(
                                JsonSpec::Obj(Seq::empty()),
                                rp,
                                val,
                                create,
                            )->Ok_0;
                            assert(d2 == JsonSpec::Obj(obj_put(fields, na, c2)));
                            lemma_obj_put_other(fields, na, c2, name_b);
                        },
                    }
                }
            },
            SegSpec::Index(na, i1) => {
                let arr0 = match obj_get(fields, na) {
                    Some(c) => c,
                    None => JsonSpec::Arr(Seq::empty()),
                };
                let elems = arr0.arrow_Arr_0();
                let elems2 = spec_set_in_array(na, elems, i1, rp, val, create)->Ok_0;
                assert(d2 == JsonSpec::Obj(obj_put(fields, na, JsonSpec::Arr(elems2))));
                lemma_obj_put_other(fields, na, JsonSpec::Arr(elems2), name_b);
            },
        }
        assert(spec_member(d2, name_b) == Some(cb));
        assert(spec_step(d2, b) == spec_step(d, b));
        assert(spec_resolve(d2, q) == Ok::<JsonSpec, ErrSpec>(w));
    } else {
        match a {
            SegSpec::Field(na) => {
                // same field of the same object: the write descended into
                // the child that q reads, and the paths diverge below
                assert(b is Field);
                assert(rp.len() > 0);
                assert(obj_get(fields, na) == Some(cb));
                let c2 = spec_set(cb, rp, val, create)->Ok_0;
                assert(d2 == JsonSpec::Obj(obj_put(fields, na, c2)));
                assert(spec_resolve(cb, rq) == Ok::<JsonSpec, ErrSpec>(w));
                lemma_set_frame(cb, rp, val, create, rq, w);
                lemma_obj_put_same(fields, na, c2);
                assert(spec_member(d2, na) == Some(c2));
                assert(spec_resolve(d2, q) == Ok::<JsonSpec, ErrSpec>(w));
            },
            SegSpec::Index(na, i1) => {
                assert(b is Index);
                let i2 = b->Index_1;
                crate::path::lemma_seg_index_nonneg(p[0]);
                assert(i1 >= 0);
                assert(obj_get(fields, na) == Some(cb));
                assert(cb is Arr);
                let elems = cb.arrow_Arr_0();
                assert(0 <= i2 < elems.len());
                assert(spec_resolve(elems[i2], rq) == Ok::<JsonSpec, ErrSpec>(w));
                let elems1 = if create && i1 >= elems.len() {
                    pad_nulls(elems, i1 + 1)
                } else {
                    elems
                };
                assert(forall|m: int| 0 <= m < elems.len() ==> elems1[m] == elems[m]);
                assert(elems1.len() >= elems.len());
                let elems2 = spec_set_in_array(na, elems, i1, rp, val, create)->Ok_0;
                assert(d2 == JsonSpec::Obj(obj_put(fields, na, JsonSpec::Arr(elems2))));
                if rp.len() == 0 {
                    assert(!diverges(rp, rq));
                    assert(i1 != i2);
                    let v = val->Ok_0;
                    assert(elems2 == elems1.update(i1, v));
                    assert(elems2.len() == elems1.len());
                    assert(elems2[i2] == elems1[i2]);
                    assert(elems1[i2] == elems[i2]);
                } else {
                    if i1 != i2 {
                        let c2 = spec_set(elems1[i1], rp, val, create)->Ok_0;
                        assert(elems2 == elems1.update(i1, c2));
                        assert(elems2.len() == elems1.len());
                        assert(elems2[i2] == elems1[i2]);
                        assert(elems1[i2] == elems[i2]);
                    } else {
                        assert(diverges(rp, rq));
                        assert(elems1[i1] == elems[i1]);
                        let c2 = spec_set(elems[i1], rp, val, create)->Ok_0;
                        assert(elems2 == elems1.update(i1, c2));
                        lemma_set_frame(elems[i1], rp, val, create, rq, w);
                        assert(elems2.len() == elems1.len());
                        assert(elems2[i2] == c2);
                        assert(spec_resolve(elems2[i2], rq) == Ok::<JsonSpec, ErrSpec>(w));
                    }
                }
                lemma_obj_put_same(fields, na, JsonSpec::Arr(elems2));
                assert(spec_member(d2, na) == Some(JsonSpec::Arr(elems2)));
                assert(0 <= i2 < elems2.len());
                assert(spec_resolve(d2, q) == Ok::<JsonSpec, ErrSpec>(w));
            },
        }
    }
}

} // verus!
