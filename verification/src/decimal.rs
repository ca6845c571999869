//! Unsigned decimal numbers written as text.
//!
//! The accepted form is the one of `u64`'s `FromStr`: an optional `+`, then
//! one or more of the digits `0` to `9`, with a value that fits in 64 bits.
//! Nothing else is accepted: no other sign, no blank, no underscore.

use crate::text::chars_of;
use vstd::prelude::*;

verus! {

/// One of the ten ASCII digits.
pub open spec fn is_digit(c: char) -> bool {
    '0' <= c && c <= '9'
}

/// What a digit counts for: `'0'` is 0, `'9'` is 9.
pub open spec fn digit_value(c: char) -> nat {
    (c as nat - '0' as nat) as nat
}

/// Every character of `s` is a digit.
pub open spec fn all_digits(s: Seq<char>) -> bool {
    forall|i: int| 0 <= i < s.len() ==> is_digit(#[trigger] s[i])
}

/// The number that a run of digits denotes, the first digit weighing most.
/// The empty run denotes 0.
pub open spec fn decimal_value(digits: Seq<char>) -> nat
    decreases digits.len(),
{
    if digits.len() == 0 {
        0
    } else {
        10 * decimal_value(digits.drop_last()) + digit_value(digits.last())
    }
}

/// `s` without the one `+` that may stand in front of the digits.
pub open spec fn without_plus(s: Seq<char>) -> Seq<char> {
    if s.len() > 0 && s[0] == '+' {
        s.drop_first()
    } else {
        s
    }
}

/// The `u64` that `s` denotes, or `None` where `s` is not a decimal number
/// or its value does not fit.
pub open spec fn parsed_u64(s: Seq<char>) -> Option<u64> {
    let digits = without_plus(s);
    if digits.len() > 0 && all_digits(digits) && decimal_value(digits) <= u64::MAX {
        Some(decimal_value(digits) as u64)
    } else {
        None
    }
}

/// A run of digits is worth at least as much as any run it starts with.
pub proof fn lemma_decimal_value_grows(digits: Seq<char>, n: int)
    requires
        0 <= n <= digits.len(),
    ensures
        decimal_value(digits.take(n)) <= decimal_value(digits),
    decreases digits.len() - n,
{
    if n == digits.len() {
        assert(digits.take(n) =~= digits);
    } else {
        lemma_decimal_value_grows(digits, n + 1);
        assert(digits.take(n + 1).drop_last() =~= digits.take(n));
    }
}

/// Reads the characters `text[from..to]` as a decimal number.
pub(crate) fn parse_u64_in(text: &[char], from: usize, to: usize) -> (parsed: Option<u64>)
    requires
        from <= to <= text@.len(),
    ensures
        parsed == parsed_u64(text@.subrange(from as int, to as int)),
{
    let ghost field = text@.subrange(from as int, to as int);
    let mut i: usize = from;
    if i < to && text[i] == '+' {
        i = i + 1;
    }
    let start = i;
    let ghost digits = text@.subrange(start as int, to as int);
    assert(digits =~= without_plus(field));
    if start == to {
        return None;
    }
    let mut value: u64 = 0;
    while i < to
        invariant
            start <= i <= to <= text@.len(),
            digits == text@.subrange(start as int, to as int),
            digits == without_plus(text@.subrange(from as int, to as int)),
            all_digits(digits.take(i - start)),
            value == decimal_value(digits.take(i - start)),
        decreases to - i,
    {
        let c = text[i];
        assert(c == digits[i - start]);
        if !('0' <= c && c <= '9') {
            assert(!is_digit(digits[i - start]));
            return None;
        }
        let d: u64 = (c as u32 - '0' as u32) as u64;
        proof {
            assert(digits.take(i + 1 - start).drop_last() =~= digits.take(i - start));
            assert(digits.take(i + 1 - start).last() == c);
            lemma_decimal_value_grows(digits, i + 1 - start);
        }
        if value > (u64::MAX - d) / 10 {
            assert(decimal_value(digits.take(i + 1 - start)) > u64::MAX);
            return None;
        }
        value = value * 10 + d;
        i = i + 1;
    }
    assert(digits.take(i - start) =~= digits);
    Some(value)
}

/// Reads `text` as a decimal number: `Some` with its value where it is an
/// optional `+` and then digits whose value fits in a `u64`, else `None`.
pub fn parse_u64(text: &str) -> (parsed: Option<u64>)
    ensures
        parsed == parsed_u64(text@),
{
    let chars = chars_of(text);
    assert(chars@.subrange(0, chars@.len() as int) =~= chars@);
    parse_u64_in(chars.as_slice(), 0, chars.len())
}

} // verus!
