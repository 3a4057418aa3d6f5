//! Verified numeric parsing and the fold-to-integer rule.
//!
//! Decimal digit strings are parsed with exact overflow behaviour, and a
//! 64-bit float given by its IEEE 754 bit pattern is folded to an integer
//! when it has zero fractional part and magnitude below 2^53.

use vstd::prelude::*;
use crate::value::float_bits_finite;

verus! {

/// Whether a character is an ASCII decimal digit.
pub open spec fn is_digit(c: char) -> bool {
    '0' <= c && c <= '9'
}

/// The numeric value of an ASCII decimal digit.
pub open spec fn digit_val(c: char) -> int {
    c as u32 - 48
}

/// Whether every character of a sequence is an ASCII decimal digit.
pub open spec fn all_digits(s: Seq<char>) -> bool {
    forall|i: int| 0 <= i < s.len() ==> is_digit(#[trigger] s[i])
}

/// The base-10 value of a digit sequence.
pub open spec fn digits_val(s: Seq<char>) -> int
    decreases s.len(),
{
    if s.len() == 0 {
        0
    } else {
        digits_val(s.drop_last()) * 10 + digit_val(s.last())
    }
}

/// The value of a digit sequence is never negative.
pub proof fn lemma_digits_val_nonneg(s: Seq<char>)
    requires
        all_digits(s),
    ensures
        digits_val(s) >= 0,
    decreases s.len(),
{
    if s.len() > 0 {
        assert(all_digits(s.drop_last()));
        lemma_digits_val_nonneg(s.drop_last());
    }
}

/// Extending a digit sequence never shrinks its value.
pub proof fn lemma_digits_val_prefix_le(s: Seq<char>, i: int)
    requires
        all_digits(s),
        0 <= i <= s.len(),
    ensures
        digits_val(s.subrange(0, i)) <= digits_val(s),
    decreases s.len(),
{
    if i < s.len() {
        let t = s.drop_last();
        assert(all_digits(t));
        assert(s.subrange(0, i) =~= t.subrange(0, i));
        lemma_digits_val_prefix_le(t, i);
        lemma_digits_val_nonneg(t);
        assert(digits_val(s) == digits_val(t) * 10 + digit_val(s.last()));
        assert(digits_val(t) * 10 >= digits_val(t));
        assert(digit_val(s.last()) >= 0);
    } else {
        assert(s.subrange(0, i) =~= s);
    }
}

/// The parse of a digit run, `None` when the run is empty, holds a non-digit,
/// or its value exceeds `cap`.
pub open spec fn spec_parse_digits(s: Seq<char>, cap: int) -> Option<int> {
    if s.len() > 0 && all_digits(s) && digits_val(s) <= cap {
        Some(digits_val(s))
    } else {
        None
    }
}

/// Parses the characters `cs[from..to]` as a decimal `usize`.
pub fn parse_usize_digits(cs: &Vec<char>, from: usize, to: usize) -> (r: Option<usize>)
    requires
        from <= to <= cs@.len(),
    ensures
        match r {
            Some(v) => spec_parse_digits(cs@.subrange(from as int, to as int), usize::MAX as int)
                == Some(v as int),
            None => spec_parse_digits(cs@.subrange(from as int, to as int), usize::MAX as int)
                is None,
        },
{
    let ghost seg = cs@.subrange(from as int, to as int);
    if from == to {
        return None;
    }
    let mut acc: usize = 0;
    let mut i: usize = from;
    while i < to
        invariant
            from <= i <= to <= cs@.len(),
            seg == cs@.subrange(from as int, to as int),
            to > from,
            all_digits(cs@.subrange(from as int, i as int)),
            acc as int == digits_val(cs@.subrange(from as int, i as int)),
        decreases to - i,
    {
        let ghost prev = cs@.subrange(from as int, i as int);
        let c = cs[i];
        if !('0' <= c && c <= '9') {
            proof {
                assert(seg[i - from] == c);
                assert(!is_digit(seg[i - from]));
            }
            return None;
        }
        let d: usize = (c as u32 - 48) as usize;
        let ghost cur = cs@.subrange(from as int, i + 1 as int);
        proof {
            assert(cur.drop_last() =~= prev);
            assert(cur.last() == c);
            assert(all_digits(cur));
            assert(digits_val(cur) == digits_val(prev) * 10 + digit_val(c));
        }
        if acc > (usize::MAX - d) / 10 {
            proof {
                assert(acc as int * 10 + d as int > usize::MAX as int) by (nonlinear_arith)
                    requires
                        acc as int > (usize::MAX as int - d as int) / 10,
                        0 <= d as int <= usize::MAX as int,
                        acc as int >= 0,
                ;
                assert(digits_val(cur) > usize::MAX as int);
                if all_digits(seg) {
                    assert(cur =~= seg.subrange(0, i + 1 - from as int));
                    lemma_digits_val_prefix_le(seg, i + 1 - from as int);
                    assert(digits_val(seg) > usize::MAX as int);
                }
            }
            return None;
        }
        proof {
            assert(acc as int * 10 + d as int <= usize::MAX as int) by (nonlinear_arith)
                requires
                    acc as int <= (usize::MAX as int - d as int) / 10,
                    0 <= d as int <= usize::MAX as int,
                    acc as int >= 0,
            ;
        }
        acc = acc * 10 + d;
        i = i + 1;
    }
    proof {
        assert(cs@.subrange(from as int, i as int) =~= seg);
    }
    Some(acc)
}

/// The parse of a signed 64-bit integer literal: an optional `+` or `-` sign
/// followed by one or more decimal digits, with the value in range.
pub open spec fn spec_parse_i64(s: Seq<char>) -> Option<int> {
    if s.len() == 0 {
        None
    } else {
        let neg = s[0] == '-';
        let ds = if s[0] == '-' || s[0] == '+' {
            s.drop_first()
        } else {
            s
        };
        if ds.len() == 0 || !all_digits(ds) {
            None
        } else {
            let v = if neg {
                -digits_val(ds)
            } else {
                digits_val(ds)
            };
            if i64::MIN <= v <= i64::MAX {
                Some(v)
            } else {
                None
            }
        }
    }
}

/// Parses a string as a signed 64-bit integer, with the grammar of
/// [`spec_parse_i64`].
pub fn parse_i64(s: &str) -> (r: Option<i64>)
    ensures
        match r {
            Some(v) => spec_parse_i64(s@) == Some(v as int),
            None => spec_parse_i64(s@) is None,
        },
{
    let cs = crate::strutil::chars_vec(s);
    let n = cs.len();
    if n == 0 {
        return None;
    }
    let c0 = cs[0];
    let neg = c0 == '-';
    let from: usize = if c0 == '-' || c0 == '+' {
        1
    } else {
        0
    };
    let ghost ds = if s@[0] == '-' || s@[0] == '+' {
        s@.drop_first()
    } else {
        s@
    };
    proof {
        assert(ds =~= cs@.subrange(from as int, n as int));
    }
    if from == n {
        return None;
    }
    let cap: u64 = if neg {
        0x8000000000000000
    } else {
        0x7fffffffffffffff
    };
    let mut acc: u64 = 0;
    let mut i: usize = from;
    while i < n
        invariant
            from <= i <= n,
            n == cs@.len(),
            cs@ == s@,
            s@.len() > 0,
            neg == (s@[0] == '-'),
            from == if s@[0] == '-' || s@[0] == '+' { 1usize } else { 0usize },
            ds == cs@.subrange(from as int, n as int),
            ds == if s@[0] == '-' || s@[0] == '+' { s@.drop_first() } else { s@ },
            n > from,
            cap == if neg { 0x8000000000000000u64 } else { 0x7fffffffffffffffu64 },
            all_digits(cs@.subrange(from as int, i as int)),
            acc as int == digits_val(cs@.subrange(from as int, i as int)),
            acc <= cap,
        decreases n - i,
    {
        let ghost prev = cs@.subrange(from as int, i as int);
        let c = cs[i];
        if !('0' <= c && c <= '9') {
            proof {
                assert(ds[i - from] == c);
                assert(!is_digit(ds[i - from]));
                assert(!all_digits(ds));
                assert(spec_parse_i64(s@) is None);
            }
            return None;
        }
        let d: u64 = (c as u32 - 48) as u64;
        let ghost cur = cs@.subrange(from as int, i + 1 as int);
        proof {
            assert(cur.drop_last() =~= prev);
            assert(cur.last() == c);
            assert(all_digits(cur));
            assert(digits_val(cur) == digits_val(prev) * 10 + digit_val(c));
        }
        if acc > (cap - d) / 10 {
            proof {
                assert(acc as int * 10 + d as int > cap as int) by (nonlinear_arith)
                    requires
                        acc as int > (cap as int - d as int) / 10,
                        0 <= d as int <= cap as int,
                        acc as int >= 0,
                ;
                assert(digits_val(cur) > cap as int);
                if all_digits(ds) {
                    assert(cur =~= ds.subrange(0, i + 1 - from as int));
                    lemma_digits_val_prefix_le(ds, i + 1 - from as int);
                    assert(digits_val(ds) > cap as int);
                }
                assert(spec_parse_i64(s@) is None);
            }
            return None;
        }
        proof {
            assert(acc as int * 10 + d as int <= cap as int) by (nonlinear_arith)
                requires
                    acc as int <= (cap as int - d as int) / 10,
                    0 <= d as int <= cap as int,
                    acc as int >= 0,
            ;
        }
        acc = acc * 10 + d;
        i = i + 1;
    }
    proof {
        assert(cs@.subrange(from as int, i as int) =~= ds);
    }
    if neg {
        if acc == 0x8000000000000000 {
            Some(i64::MIN)
        } else {
            Some(-(acc as i64))
        }
    } else {
        Some(acc as i64)
    }
}

/// The integer that a finite 64-bit float folds to: `Some(v)` when the bits
/// denote an integral value `v` with `|v| < 2^53`, and `None` otherwise.
///
/// The bit pattern is read as IEEE 754 binary64: sign bit 63, biased exponent
/// in bits 62..52, fraction in bits 51..0. A nonzero finite value is
/// `(-1)^sign * (2^52 + fraction) * 2^(exponent - 1075)`; it is an integer
/// below 2^53 exactly when the exponent lies in `1023..=1075` and the
/// trailing `1075 - exponent` mantissa bits are zero. Both zeros fold to 0.
pub open spec fn fold_value(bits: u64) -> Option<int> {
    let exp = (bits >> 52) & 0x7ff;
    let frac = bits & 0xfffffffffffff;
    let neg = (bits >> 63) == 1;
    if exp == 0 && frac == 0 {
        Some(0)
    } else if 1023 <= exp <= 1075 {
        let shift = (1075 - exp) as u64;
        let mant = frac | 0x10000000000000;
        let mask = ((1u64 << shift) - 1) as u64;
        if mant & mask == 0 {
            let m = (mant >> shift) as int;
            if neg {
                Some(-m)
            } else {
                Some(m)
            }
        } else {
            None
        }
    } else {
        None
    }
}

/// Folds a float bit pattern to its integer, where the fold rule applies.
pub fn try_fold_bits(bits: u64) -> (r: Option<i64>)
    ensures
        match r {
            Some(v) => fold_value(bits) == Some(v as int),
            None => fold_value(bits) is None,
        },
{
    let exp: u64 = (bits >> 52) & 0x7ff;
    let frac: u64 = bits & 0xfffffffffffff;
    let neg: bool = (bits >> 63) == 1;
    if exp == 0 && frac == 0 {
        Some(0)
    } else if 1023 <= exp && exp <= 1075 {
        let shift: u64 = 1075 - exp;
        let mant: u64 = frac | 0x10000000000000;
        proof {
            assert(1u64 << shift >= 1) by (bit_vector)
                requires
                    shift <= 52,
            ;
        }
        if mant & ((1u64 << shift) - 1) == 0 {
            let m: u64 = mant >> shift;
            proof {
                assert(mant >> shift <= 0x20000000000000) by (bit_vector)
                    requires
                        mant == (bits & 0xfffffffffffff) | 0x10000000000000u64,
                        shift <= 52,
                ;
            }
            if neg {
                Some(-(m as i64))
            } else {
                Some(m as i64)
            }
        } else {
            None
        }
    } else {
        None
    }
}

/// Whether a float bit pattern denotes a finite value, as executable code.
pub fn bits_finite(bits: u64) -> (r: bool)
    ensures
        r == float_bits_finite(bits),
{
    (bits >> 52) & 0x7ff != 0x7ff
}

} // verus!
