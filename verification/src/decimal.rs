//! Unsigned decimal numerals in ASCII.

use vstd::prelude::*;

verus! {

/// Whether `b` is one of the ASCII digits `0` to `9`.
pub open spec fn is_digit(b: u8) -> bool {
    0x30 <= b <= 0x39
}

/// The number that the digit `b` stands for, and 0 for any other byte.
pub open spec fn digit_value(b: u8) -> nat {
    if is_digit(b) {
        (b - 0x30) as nat
    } else {
        0
    }
}

/// Whether every byte of `s` is a digit.
pub open spec fn all_digits(s: Seq<u8>) -> bool {
    forall|i: int| 0 <= i < s.len() ==> is_digit(#[trigger] s[i])
}

/// The number written by the digits `s`, most significant digit first.
pub open spec fn decimal_value(s: Seq<u8>) -> nat
    decreases s.len(),
{
    if s.len() == 0 {
        0
    } else {
        decimal_value(s.drop_last()) * 10 + digit_value(s.last())
    }
}

/// What the numeral `s` denotes when numbers up to `max` are representable:
/// `s` must be one or more digits, with any number of leading zeros, and its
/// value must not exceed `max`.
pub open spec fn numeral(s: Seq<u8>, max: nat) -> Option<nat> {
    if s.len() > 0 && all_digits(s) && decimal_value(s) <= max {
        Some(decimal_value(s))
    } else {
        None
    }
}

/// A longer numeral never denotes less than one of its prefixes.
pub proof fn lemma_prefix_value(s: Seq<u8>, k: int)
    requires
        0 <= k <= s.len(),
    ensures
        decimal_value(s.take(k)) <= decimal_value(s),
    decreases s.len() - k,
{
    if k == s.len() {
        assert(s.take(k) == s);
    } else {
        lemma_prefix_value(s, k + 1);
        assert(s.take(k + 1).drop_last() == s.take(k));
    }
}

/// Reads `digits` as an unsigned decimal numeral that fits in 64 bits.
pub fn parse_u64(digits: &[u8]) -> (r: Option<u64>)
    ensures
        r == match numeral(digits@, u64::MAX as nat) {
            Some(n) => Some(n as u64),
            None => None,
        },
{
    if digits.len() == 0 {
        return None;
    }
    let mut acc: u64 = 0;
    let mut i: usize = 0;
    while i < digits.len()
        invariant
            0 <= i <= digits.len(),
            all_digits(digits@.take(i as int)),
            acc == decimal_value(digits@.take(i as int)),
        decreases digits.len() - i,
    {
        let b: u8 = digits[i];
        if b < 0x30 || b > 0x39 {
            return None;
        }
        let d: u64 = (b - 0x30) as u64;
        proof {
            assert(digits@.take(i + 1).drop_last() == digits@.take(i as int));
            lemma_prefix_value(digits@, i + 1);
        }
        if acc > (u64::MAX - d) / 10 {
            return None;
        }
        acc = acc * 10 + d;
        i = i + 1;
    }
    assert(digits@.take(i as int) == digits@);
    Some(acc)
}

/// Reads `digits` as an unsigned decimal numeral that fits in 16 bits.
pub fn parse_u16(digits: &[u8]) -> (r: Option<u16>)
    ensures
        r == match numeral(digits@, u16::MAX as nat) {
            Some(n) => Some(n as u16),
            None => None,
        },
{
    match parse_u64(digits) {
        Some(n) => {
            if n <= 0xffff {
                Some(n as u16)
            } else {
                None
            }
        },
        None => None,
    }
}

} // verus!
