//! Decimal numerals.

use crate::text::{all_in, is_digit, push_char, CharClass};
use vstd::prelude::*;

verus! {

/// The value of a decimal digit; zero for any other character.
pub open spec fn digit_value(c: char) -> nat {
    if is_digit(c) {
        (c as int - '0' as int) as nat
    } else {
        0
    }
}

/// The number that the digits of `digits` write in base ten.
pub open spec fn decimal_value(digits: Seq<char>) -> nat
    decreases digits.len(),
{
    if digits.len() == 0 {
        0
    } else {
        10 * decimal_value(digits.drop_last()) + digit_value(digits.last())
    }
}

/// The value of a numeral that is no larger than `limit`: `digits` is a
/// non-empty run of decimal digits that writes it.
pub open spec fn numeral(digits: Seq<char>, limit: u64) -> Option<u64> {
    if digits.len() > 0 && all_in(digits, CharClass::Digit) && decimal_value(digits) <= limit {
        Some(decimal_value(digits) as u64)
    } else {
        None
    }
}

/// A numeral is worth at least as much as each of its beginnings.
pub proof fn lemma_decimal_value_grows(digits: Seq<char>, n: int)
    requires
        0 <= n <= digits.len(),
    ensures
        decimal_value(digits.take(n)) <= decimal_value(digits),
    decreases digits.len() - n,
{
    if n == digits.len() {
        assert(digits.take(n) =~= digits);
    } else {
        lemma_decimal_value_grows(digits, n + 1);
        assert(digits.take(n + 1).drop_last() =~= digits.take(n));
    }
}

/// Reads `text` as a numeral no larger than `limit`.
pub fn read_numeral(text: &str, limit: u64) -> (r: Option<u64>)
    ensures
        r == numeral(text@, limit),
{
    let mut value: u64 = 0;
    let mut seen = false;
    let ghost digits = text@;
    for c in it: text.chars()
        invariant
            it.seq() == digits,
            digits == text@,
            seen == (it.index() > 0),
            all_in(digits.take(it.index()), CharClass::Digit),
            value == decimal_value(digits.take(it.index())),
            value <= limit,
    {
        let ghost i = it.index();
        proof {
            assert(digits.take(i + 1).drop_last() =~= digits.take(i));
            lemma_decimal_value_grows(digits, i + 1);
        }
        if !CharClass::Digit.contains(c) {
            return None;
        }
        let d: u64 = (c as u64) - ('0' as u64);
        if d > limit || value > (limit - d) / 10 {
            return None;
        }
        value = value * 10 + d;
        seen = true;
    }
    proof {
        assert(digits.take(digits.len() as int) =~= digits);
    }
    if seen {
        Some(value)
    } else {
        None
    }
}

/// The digit that writes a number below ten.
pub open spec fn digit_of(d: nat) -> char
    recommends
        d < 10,
{
    ('0' as u8 + d as u8) as char
}

/// The digits that write `n` in base ten, without leading zeros.
pub open spec fn digits_of(n: nat) -> Seq<char>
    decreases n,
{
    if n < 10 {
        seq![digit_of(n)]
    } else {
        digits_of(n / 10).push(digit_of(n % 10))
    }
}

/// The digits of a number are a numeral that writes the number.
pub proof fn lemma_digits_write_the_number(n: nat)
    ensures
        digits_of(n).len() >= 1,
        all_in(digits_of(n), CharClass::Digit),
        decimal_value(digits_of(n)) == n,
    decreases n,
{
    reveal_with_fuel(decimal_value, 2);
    if n < 10 {
    } else {
        lemma_digits_write_the_number(n / 10);
        assert(digits_of(n).drop_last() =~= digits_of(n / 10));
    }
}

/// Writes `n` in base ten.
pub fn write_number(n: usize) -> (text: String)
    ensures
        text@ == digits_of(n as nat),
    decreases n,
{
    let last = ((n % 10) as u8 + 48) as char;
    if n < 10 {
        let mut text = String::new();
        push_char(&mut text, last);
        text
    } else {
        let mut text = write_number(n / 10);
        push_char(&mut text, last);
        text
    }
}

} // verus!
