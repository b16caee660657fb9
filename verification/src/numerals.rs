//! Decimal numerals: parsing the optional `N` input.
//!
//! The input arrives as raw bytes.  A numeral is an optional ASCII sign
//! followed by one or more ASCII digits; anything else, and any value
//! outside the `i32` range, is rejected.

use vstd::prelude::*;

verus! {

/// A byte is an ASCII decimal digit.
pub open spec fn is_digit(b: u8) -> bool {
    48 <= b <= 57
}

/// The numeric value of a digit byte.
pub open spec fn digit_value(b: u8) -> int {
    b - 48
}

/// Every byte of the sequence is a digit.
pub open spec fn all_digits(s: Seq<u8>) -> bool {
    forall|i: int| 0 <= i < s.len() ==> is_digit(#[trigger] s[i])
}

/// The value of a digit sequence read in base ten, most significant first.
pub open spec fn digits_value(s: Seq<u8>) -> int
    decreases s.len(),
{
    if s.len() == 0 {
        0
    } else {
        10 * digits_value(s.drop_last()) + digit_value(s.last())
    }
}

/// The sequence opens with an ASCII `+` or `-`.
pub open spec fn has_sign(s: Seq<u8>) -> bool {
    s.len() > 0 && (s[0] == 43 || s[0] == 45)
}

/// The digit part of a numeral: everything after the sign, if one stands.
pub open spec fn magnitude_digits(s: Seq<u8>) -> Seq<u8> {
    if has_sign(s) {
        s.subrange(1, s.len() as int)
    } else {
        s
    }
}

/// The sequence is a decimal numeral: an optional sign followed by at
/// least one digit and nothing else.
pub open spec fn is_numeral(s: Seq<u8>) -> bool {
    magnitude_digits(s).len() > 0 && all_digits(magnitude_digits(s))
}

/// The signed value a numeral denotes.
pub open spec fn numeral_value(s: Seq<u8>) -> int {
    if s.len() > 0 && s[0] == 45 {
        -digits_value(magnitude_digits(s))
    } else {
        digits_value(magnitude_digits(s))
    }
}

/// The sequence is a numeral whose value fits in `i32`.
pub open spec fn is_i32_numeral(s: Seq<u8>) -> bool {
    is_numeral(s) && -0x8000_0000 <= numeral_value(s) <= 0x7fff_ffff
}

/// A digit sequence never denotes a negative value.
pub proof fn lemma_digits_value_nonneg(s: Seq<u8>)
    requires
        all_digits(s),
    ensures
        digits_value(s) >= 0,
    decreases s.len(),
{
    if s.len() > 0 {
        assert(is_digit(s[s.len() - 1]));
        lemma_digits_value_nonneg(s.drop_last());
    }
}

/// Extending a digit sequence never shrinks its value: the value of any
/// prefix is a lower bound for the value of the whole.
pub proof fn lemma_digits_value_prefix_le(s: Seq<u8>, i: int)
    requires
        all_digits(s),
        0 <= i <= s.len(),
    ensures
        digits_value(s.subrange(0, i)) <= digits_value(s),
    decreases s.len() - i,
{
    if i == s.len() {
        assert(s.subrange(0, i) =~= s);
    } else {
        let shorter = s.subrange(0, i);
        let longer = s.subrange(0, i + 1);
        assert(longer.drop_last() =~= shorter);
        assert(is_digit(s[i]));
        assert(forall|j: int| 0 <= j < shorter.len() ==> is_digit(#[trigger] shorter[j]));
        lemma_digits_value_nonneg(shorter);
        assert(digits_value(longer) == 10 * digits_value(shorter) + digit_value(s[i]));
        lemma_digits_value_prefix_le(s, i + 1);
    }
}

/// Parses a decimal `i32` numeral from raw bytes.  Returns the denoted
/// value exactly when the bytes form a numeral that fits in `i32`, and
/// nothing otherwise.
pub fn parse_i32(s: &Vec<u8>) -> (r: Option<i32>)
    ensures
        r is Some <==> is_i32_numeral(s@),
        r is Some ==> r->Some_0 as int == numeral_value(s@),
{
    let len = s.len();
    if len == 0 {
        return None;
    }
    let first = s[0];
    let negative = first == 45;
    let start: usize = if first == 45 || first == 43 {
        1
    } else {
        0
    };
    if start == len {
        // a bare sign has no digits
        return None;
    }
    let ghost mag = magnitude_digits(s@);
    proof {
        assert(mag =~= s@.subrange(start as int, len as int));
    }

    let mut idx: usize = start;
    let mut acc: u64 = 0;
    while idx < len
        invariant
            start <= idx <= len,
            len == s@.len(),
            start == (if has_sign(s@) { 1int } else { 0int }),
            mag == magnitude_digits(s@),
            mag =~= s@.subrange(start as int, len as int),
            all_digits(mag.subrange(0, idx - start)),
            acc == digits_value(mag.subrange(0, idx - start)),
            acc <= 0x8000_0000,
        decreases len - idx,
    {
        let b = s[idx];
        if b < 48 || b > 57 {
            proof {
                assert(mag[idx - start] == s@[idx as int]);
                assert(!is_digit(mag[idx - start]));
            }
            return None;
        }
        acc = acc * 10 + ((b - 48) as u64);
        proof {
            assert(mag.subrange(0, idx + 1 - start)
                =~= mag.subrange(0, idx - start).push(mag[idx - start]));
            assert(mag.subrange(0, idx + 1 - start).drop_last() =~= mag.subrange(
                0,
                idx - start,
            ));
        }
        idx = idx + 1;
        if acc > 0x8000_0000 {
            proof {
                if is_numeral(s@) {
                    lemma_digits_value_prefix_le(mag, idx - start);
                    lemma_digits_value_nonneg(mag);
                }
            }
            return None;
        }
    }
    proof {
        assert(mag.subrange(0, len - start) =~= mag);
    }
    if negative {
        if acc == 0x8000_0000 {
            Some(i32::MIN)
        } else {
            Some(-(acc as i32))
        }
    } else {
        if acc >= 0x8000_0000 {
            None
        } else {
            Some(acc as i32)
        }
    }
}

/// The effective computation bound taken from the optional `N` input: 10
/// when the input is absent, its denoted value when it parses as an `i32`
/// numeral, and nothing (a fatal condition for the caller) otherwise.
pub fn effective_n(v: Option<Vec<u8>>) -> (r: Option<i32>)
    ensures
        v is None ==> r == Some(10i32),
        v is Some ==> (r is Some <==> is_i32_numeral(v->Some_0@)),
        v is Some && r is Some ==> r->Some_0 as int == numeral_value(v->Some_0@),
{
    match v {
        None => Some(10),
        Some(bytes) => parse_i32(&bytes),
    }
}

} // verus!
