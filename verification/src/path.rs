//! The path parser.
//!
//! A field path such as `package.name` or `authors[0]` is split on `.` into
//! chunks, except that a dot between `[` and `]` does not split. A chunk with
//! a `[index]` suffix is decomposed into the container name and the index;
//! any other chunk is a plain field name. No chunk may be empty, so a leading
//! dot, a trailing dot, or two consecutive dots are invalid.

use vstd::prelude::*;
use crate::error::ErrSpec;
use crate::error::JsonExtractError;
use crate::num::all_digits;
use crate::num::lemma_digits_val_nonneg;
use crate::num::spec_parse_digits;
use crate::num::parse_usize_digits;
use crate::strutil::chars_vec;
use crate::strutil::string_from_chars;

verus! {

/// One parsed path segment: a plain field name, or a container name plus an
/// array index.
#[derive(Debug, PartialEq)]
pub enum Segment {
    /// A plain field name.
    Field(String),
    /// A container name and the index of one element of the array under it.
    Index(String, usize),
}

/// The mathematical view of a [`Segment`].
pub enum SegSpec {
    /// View of [`Segment::Field`].
    Field(Seq<char>),
    /// View of [`Segment::Index`].
    Index(Seq<char>, int),
}

impl View for Segment {
    type V = SegSpec;

    open spec fn view(&self) -> SegSpec {
        match self {
            Segment::Field(name) => SegSpec::Field(name@),
            Segment::Index(name, idx) => SegSpec::Index(name@, *idx as int),
        }
    }
}

/// The splitting scan: position `i` walks the path, `cur` is the chunk begun
/// so far, `in_arr` tells whether the scan stands between `[` and `]`, and
/// `acc` holds the completed chunks. `None` means an empty chunk was found.
pub open spec fn spec_split_rec(
    s: Seq<char>,
    i: int,
    cur: Seq<char>,
    in_arr: bool,
    acc: Seq<Seq<char>>,
) -> Option<Seq<Seq<char>>>
    decreases s.len() - i,
{
    if i >= s.len() {
        if cur.len() == 0 {
            None
        } else {
            Some(acc.push(cur))
        }
    } else {
        let c = s[i];
        if c == '.' && !in_arr {
            if cur.len() == 0 {
                None
            } else {
                spec_split_rec(s, i + 1, Seq::empty(), false, acc.push(cur))
            }
        } else if c == '[' {
            spec_split_rec(s, i + 1, cur.push(c), true, acc)
        } else if c == ']' {
            spec_split_rec(s, i + 1, cur.push(c), false, acc)
        } else {
            spec_split_rec(s, i + 1, cur.push(c), in_arr, acc)
        }
    }
}

/// The chunks of a field path, or `None` when a chunk is empty (a leading
/// dot, a trailing dot, two consecutive dots, or an empty path).
pub open spec fn spec_split_path(s: Seq<char>) -> Option<Seq<Seq<char>>> {
    spec_split_rec(s, 0, Seq::empty(), false, Seq::empty())
}

/// A successful split yields more chunks than the scan had accumulated.
pub proof fn lemma_split_rec_len(
    s: Seq<char>,
    i: int,
    cur: Seq<char>,
    in_arr: bool,
    acc: Seq<Seq<char>>,
)
    requires
        spec_split_rec(s, i, cur, in_arr, acc) is Some,
    ensures
        spec_split_rec(s, i, cur, in_arr, acc).unwrap().len() > acc.len(),
    decreases s.len() - i,
{
    if i < s.len() {
        let c = s[i];
        if c == '.' && !in_arr {
            lemma_split_rec_len(s, i + 1, Seq::empty(), false, acc.push(cur));
        } else if c == '[' {
            lemma_split_rec_len(s, i + 1, cur.push(c), true, acc);
        } else if c == ']' {
            lemma_split_rec_len(s, i + 1, cur.push(c), false, acc);
        } else {
            lemma_split_rec_len(s, i + 1, cur.push(c), in_arr, acc);
        }
    }
}

/// A parsed path is never empty.
pub proof fn lemma_split_path_nonempty(s: Seq<char>)
    requires
        spec_split_path(s) is Some,
    ensures
        spec_split_path(s).unwrap().len() > 0,
{
    lemma_split_rec_len(s, 0, Seq::empty(), false, Seq::empty());
}

/// Splits a field path into chunks, bracket-aware.
pub fn split_field_path(field_path: &str) -> (r: Result<Vec<String>, JsonExtractError>)
    ensures
        match r {
            Ok(parts) => spec_split_path(field_path@) == Some(parts.deep_view())
                && parts@.len() > 0,
            Err(e) => spec_split_path(field_path@) is None && e@ == ErrSpec::InvalidFieldPath(
                field_path@,
            ),
        },
{
    let cs = chars_vec(field_path);
    let n = cs.len();
    let mut parts: Vec<String> = Vec::new();
    let mut cur: Vec<char> = Vec::new();
    let mut in_arr: bool = false;
    let mut i: usize = 0;
    proof {
        assert(parts.deep_view() =~= Seq::<Seq<char>>::empty());
        assert(cur@ =~= Seq::<char>::empty());
    }
    while i < n
        invariant
            i <= n,
            n == cs@.len(),
            cs@ == field_path@,
            spec_split_rec(field_path@, i as int, cur@, in_arr, parts.deep_view())
                == spec_split_path(field_path@),
        decreases n - i,
    {
        let c = cs[i];
        if c == '.' && !in_arr {
            if cur.len() == 0 {
                return Err(JsonExtractError::InvalidFieldPath(field_path.to_owned()));
            }
            let chunk = string_from_chars(&cur);
            let ghost old_parts = parts.deep_view();
            parts.push(chunk);
            cur = Vec::new();
            proof {
                assert(parts.deep_view() =~= old_parts.push(chunk@));
            }
        } else if c == '[' {
            in_arr = true;
            cur.push(c);
        } else if c == ']' {
            in_arr = false;
            cur.push(c);
        } else {
            cur.push(c);
        }
        i = i + 1;
    }
    if cur.len() == 0 {
        return Err(JsonExtractError::InvalidFieldPath(field_path.to_owned()));
    }
    let chunk = string_from_chars(&cur);
    let ghost old_parts = parts.deep_view();
    parts.push(chunk);
    proof {
        assert(parts.deep_view() =~= old_parts.push(chunk@));
        lemma_split_path_nonempty(field_path@);
    }
    Ok(parts)
}

/// Where the first `[` of a sequence stands, scanning from `i`; the length
/// of the sequence when there is none.
pub open spec fn first_open_from(s: Seq<char>, i: int) -> int
    decreases s.len() - i,
{
    if i < 0 || i >= s.len() {
        s.len() as int
    } else if s[i] == '[' {
        i
    } else {
        first_open_from(s, i + 1)
    }
}

/// Where the first `[` of a sequence stands.
pub open spec fn first_open(s: Seq<char>) -> int {
    first_open_from(s, 0)
}

/// A scan that passed no `[` before position `k` and stands on one at `k`
/// has found the first `[`.
proof fn lemma_first_open_at(s: Seq<char>, i: int, k: int)
    requires
        0 <= i <= k <= s.len(),
        forall|j: int| i <= j < k ==> s[j] != '[',
        k == s.len() || s[k] == '[',
    ensures
        first_open_from(s, i) == if k == s.len() { s.len() as int } else { k },
    decreases k - i,
{
    if i < k {
        lemma_first_open_at(s, i + 1, k);
    }
}

/// The parse of one chunk: a chunk without `[` is a plain field name; a
/// chunk with `[` must end in `]` and hold a decimal index between the
/// brackets, else the unparsable text is returned.
pub open spec fn spec_seg(chunk: Seq<char>) -> Result<SegSpec, Seq<char>> {
    if !chunk.contains('[') {
        Ok(SegSpec::Field(chunk))
    } else if chunk.last() != ']' {
        Err(chunk)
    } else {
        let p = first_open(chunk);
        let digits = chunk.subrange(p + 1, chunk.len() - 1);
        match spec_parse_digits(digits, usize::MAX as int) {
            Some(v) => Ok(SegSpec::Index(chunk.subrange(0, p), v)),
            None => Err(digits),
        }
    }
}

/// An index parsed from a path segment is never negative: it is the value
/// of a run of decimal digits.
pub proof fn lemma_seg_index_nonneg(chunk: Seq<char>)
    ensures
        spec_seg(chunk) matches Ok(SegSpec::Index(_, i)) ==> i >= 0,
{
    if chunk.contains('[') && chunk.last() == ']' {
        let p = first_open(chunk);
        let digits = chunk.subrange(p + 1, chunk.len() - 1);
        if spec_parse_digits(digits, usize::MAX as int) is Some {
            assert(all_digits(digits));
            lemma_digits_val_nonneg(digits);
        }
    }
}

/// Parses one chunk of a field path into a [`Segment`].
pub fn parse_segment(chunk: &str) -> (r: Result<Segment, JsonExtractError>)
    ensures
        match r {
            Ok(seg) => spec_seg(chunk@) == Ok::<SegSpec, Seq<char>>(seg@),
            Err(e) => {
                &&& spec_seg(chunk@) matches Err(t)
                &&& e@ == ErrSpec::InvalidArrayIndex(t)
            },
        },
{
    let cs = chars_vec(chunk);
    let n = cs.len();
    let mut p: usize = 0;
    while p < n && cs[p] != '['
        invariant
            p <= n,
            n == cs@.len(),
            cs@ == chunk@,
            forall|j: int| 0 <= j < p ==> cs@[j] != '[',
        decreases n - p,
    {
        p = p + 1;
    }
    proof {
        lemma_first_open_at(chunk@, 0, p as int);
    }
    if p == n {
        proof {
            assert(!chunk@.contains('['));
        }
        return Ok(Segment::Field(chunk.to_owned()));
    }
    proof {
        assert(chunk@[p as int] == '[');
        assert(chunk@.contains('['));
        assert(first_open(chunk@) == p as int);
    }
    if cs[n - 1] != ']' {
        proof {
            assert(chunk@.last() != ']');
        }
        return Err(JsonExtractError::InvalidArrayIndex(chunk.to_owned()));
    }
    match parse_usize_digits(&cs, p + 1, n - 1) {
        Some(idx) => {
            let name = substring_chars(&cs, 0, p);
            Ok(Segment::Index(name, idx))
        },
        None => {
            let digits = substring_chars(&cs, p + 1, n - 1);
            Err(JsonExtractError::InvalidArrayIndex(digits))
        },
    }
}

/// Builds an owned string from the characters `cs[from..to]`.
pub fn substring_chars(cs: &Vec<char>, from: usize, to: usize) -> (r: String)
    requires
        from <= to <= cs@.len(),
    ensures
        r@ == cs@.subrange(from as int, to as int),
{
    let mut sub: Vec<char> = Vec::new();
    let mut j: usize = from;
    while j < to
        invariant
            from <= j <= to <= cs@.len(),
            sub@ == cs@.subrange(from as int, j as int),
        decreases to - j,
    {
        sub.push(cs[j]);
        j = j + 1;
        proof {
            assert(sub@ =~= cs@.subrange(from as int, j as int));
        }
    }
    string_from_chars(&sub)
}

} // verus!
