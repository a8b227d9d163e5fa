//! Decimal notation for natural numbers.

use vstd::prelude::*;

verus! {

/// `String::push` appends one character to the end of the string.
pub assume_specification[ String::push ](text: &mut String, character: char)
    ensures
        final(text)@ == old(text)@.push(character),
;

/// The character of a decimal digit.
pub open spec fn digit(value: nat) -> char
    recommends
        value < 10,
{
    ((48 + value) as u8) as char
}

/// The decimal notation of `value`, without leading zeros.
pub open spec fn decimal(value: nat) -> Seq<char>
    decreases value,
{
    if value < 10 {
        seq![digit(value)]
    } else {
        decimal(value / 10).push(digit(value % 10))
    }
}

/// The number that a sequence of decimal digits denotes; leading zeros
/// count for nothing, and no digits denote zero.
pub open spec fn value_of(digits: Seq<char>) -> nat
    decreases digits.len(),
{
    if digits.len() == 0 {
        0
    } else {
        (value_of(digits.drop_last()) * 10 + (digits.last() as u32 - 48)) as nat
    }
}

/// Appends the decimal notation of `value` to `text`.
pub fn push_decimal(text: &mut String, value: u64)
    ensures
        final(text)@ == old(text)@ + decimal(value as nat),
    decreases value,
{
    if value >= 10 {
        push_decimal(text, value / 10);
    }
    let last: u8 = (value % 10) as u8;
    text.push((48u8 + last) as char);
    proof {
        if value < 10 {
            assert(old(text)@.push(digit(value as nat)) =~= old(text)@ + decimal(value as nat));
        } else {
            assert((old(text)@ + decimal((value / 10) as nat)).push(digit((value % 10) as nat))
                =~= old(text)@ + decimal(value as nat));
        }
    }
}

/// The decimal notation of an integer: a minus sign before the notation
/// of the magnitude where the integer is negative.
pub open spec fn signed_decimal(value: int) -> Seq<char> {
    if value < 0 {
        seq!['-'] + decimal((-value) as nat)
    } else {
        decimal(value as nat)
    }
}

/// Appends the decimal notation of `value` to `text`.
pub fn push_signed_decimal(text: &mut String, value: i64)
    ensures
        final(text)@ == old(text)@ + signed_decimal(value as int),
{
    if value < 0 {
        text.push('-');
        let magnitude: u64 = (-(value + 1)) as u64 + 1;
        push_decimal(text, magnitude);
        assert(old(text)@.push('-') + decimal(magnitude as nat) =~= old(text)@ + (seq!['-']
            + decimal(magnitude as nat)));
    } else {
        push_decimal(text, value as u64);
    }
}

/// Two numbers with the same decimal notation are the same number.
pub proof fn lemma_decimal_injective(a: nat, b: nat)
    requires
        decimal(a) == decimal(b),
    ensures
        a == b,
    decreases a,
{
    lemma_decimal_length(a);
    lemma_decimal_length(b);
    if a < 10 && b < 10 {
        assert(decimal(a)[0] == digit(a));
        assert(decimal(b)[0] == digit(b));
    } else if a >= 10 && b >= 10 {
        let front_a = decimal(a / 10);
        let front_b = decimal(b / 10);
        assert(decimal(a).drop_last() =~= front_a);
        assert(decimal(b).drop_last() =~= front_b);
        assert(decimal(a).last() == digit(a % 10));
        assert(decimal(b).last() == digit(b % 10));
        lemma_decimal_injective(a / 10, b / 10);
    } else if a < 10 {
        lemma_decimal_length(b / 10);
    } else {
        lemma_decimal_length(a / 10);
    }
}

/// A decimal notation has at least one digit.
pub proof fn lemma_decimal_length(value: nat)
    ensures
        decimal(value).len() >= 1,
        value >= 10 ==> decimal(value).len() >= 2,
    decreases value,
{
    if value >= 10 {
        lemma_decimal_length(value / 10);
    }
}

} // verus!
