//! Decimal text of integers, as HPGL and PCL carry them.

use vstd::prelude::*;
use crate::text::{is_ascii_text, lemma_ascii_concat};

verus! {

/// The character of a decimal digit.
pub open spec fn digit_char(digit: int) -> char
    recommends
        0 <= digit < 10,
{
    (48 + digit) as u8 as char
}

/// Whether a character is one of `0` to `9`.
pub open spec fn is_digit(ch: char) -> bool {
    '0' <= ch <= '9'
}

/// The value of a digit character.
pub open spec fn digit_value(ch: char) -> int
    recommends
        is_digit(ch),
{
    ch as u8 as int - 48
}

/// The decimal digits of a natural number, most significant first, without leading zeros.
pub open spec fn decimal_digits(value: nat) -> Seq<char>
    decreases value,
{
    if value < 10 {
        seq![digit_char(value as int)]
    } else {
        decimal_digits(value / 10).push(digit_char((value % 10) as int))
    }
}

/// The decimal text of an integer: its digits, after a minus sign where it is negative.
pub open spec fn decimal(value: int) -> Seq<char> {
    if value < 0 {
        seq!['-'] + decimal_digits((-value) as nat)
    } else {
        decimal_digits(value as nat)
    }
}

/// `count` zeros.
pub open spec fn zeros(count: nat) -> Seq<char> {
    Seq::new(count, |i: int| '0')
}

/// The decimal digits of a number, with zeros in front of them up to `width` characters.
pub open spec fn zero_padded(value: nat, width: nat) -> Seq<char> {
    let digits = decimal_digits(value);
    if digits.len() >= width {
        digits
    } else {
        zeros((width - digits.len()) as nat) + digits
    }
}

/// The number that a sequence of digits denotes.
pub open spec fn digits_value(digits: Seq<char>) -> nat
    decreases digits.len(),
{
    if digits.len() == 0 {
        0
    } else {
        (digits_value(digits.drop_last()) * 10 + digit_value(digits.last())) as nat
    }
}

/// Every character of a number's decimal digits is a digit, and there is at least one.
pub proof fn lemma_decimal_digits_are_digits(value: nat)
    ensures
        decimal_digits(value).len() >= 1,
        forall|i: int| 0 <= i < decimal_digits(value).len() ==> is_digit(decimal_digits(value)[i]),
    decreases value,
{
    if value >= 10 {
        lemma_decimal_digits_are_digits(value / 10);
    }
}

/// Reading back the decimal digits of a number gives the number.
pub proof fn lemma_digits_value_of_decimal_digits(value: nat)
    ensures
        digits_value(decimal_digits(value)) == value,
    decreases value,
{
    if value < 10 {
        let digits = decimal_digits(value);
        assert(digits.drop_last() =~= Seq::<char>::empty());
        assert(digits_value(digits.drop_last()) == 0);
    } else {
        lemma_digits_value_of_decimal_digits(value / 10);
        let digits = decimal_digits(value);
        assert(digits.drop_last() =~= decimal_digits(value / 10));
    }
}

/// Zeros in front of digits do not change the number that they denote.
pub proof fn lemma_digits_value_ignores_leading_zeros(count: nat, digits: Seq<char>)
    ensures
        digits_value(zeros(count) + digits) == digits_value(digits),
    decreases digits.len(),
{
    let padded = zeros(count) + digits;
    if digits.len() == 0 {
        assert(padded =~= zeros(count));
        lemma_zeros_value(count);
    } else {
        assert(padded.drop_last() =~= zeros(count) + digits.drop_last());
        lemma_digits_value_ignores_leading_zeros(count, digits.drop_last());
    }
}

proof fn lemma_zeros_value(count: nat)
    ensures
        digits_value(zeros(count)) == 0,
    decreases count,
{
    if count > 0 {
        assert(zeros(count).drop_last() =~= zeros((count - 1) as nat));
        lemma_zeros_value((count - 1) as nat);
    }
}

/// Reading back a zero-padded number gives the number.
pub proof fn lemma_digits_value_of_zero_padded(value: nat, width: nat)
    ensures
        digits_value(zero_padded(value, width)) == value,
{
    lemma_digits_value_of_decimal_digits(value);
    let digits = decimal_digits(value);
    if digits.len() < width {
        lemma_digits_value_ignores_leading_zeros((width - digits.len()) as nat, digits);
    }
}

/// Appends the decimal digits of a number.
pub fn push_decimal_digits(text: &mut String, value: u128)
    ensures
        final(text)@ == old(text)@ + decimal_digits(value as nat),
    decreases value,
{
    if value >= 10 {
        push_decimal_digits(text, value / 10);
    }
    let digit = (value % 10) as u8;
    text.push((48 + digit) as char);
    assert(text@ =~= old(text)@ + decimal_digits(value as nat));
}

/// Appends the decimal text of a signed 16-bit number.
pub fn push_decimal(text: &mut String, value: i16)
    ensures
        final(text)@ == old(text)@ + decimal(value as int),
{
    if value < 0 {
        text.push('-');
        let magnitude: i32 = -(value as i32);
        push_decimal_digits(text, magnitude as u128);
        assert(text@ =~= old(text)@ + decimal(value as int));
    } else {
        push_decimal_digits(text, value as u128);
    }
}

/// Ten to the power of `exponent`.
pub open spec fn power_of_ten(exponent: nat) -> nat
    decreases exponent,
{
    if exponent == 0 {
        1
    } else {
        10 * power_of_ten((exponent - 1) as nat)
    }
}

/// A number below ten to the power of `width` has at most `width` digits.
pub proof fn lemma_decimal_digits_fit(value: nat, width: nat)
    requires
        width >= 1,
        value < power_of_ten(width),
    ensures
        decimal_digits(value).len() <= width,
    decreases width,
{
    if value >= 10 {
        assert(power_of_ten(1) == 10) by {
            reveal_with_fuel(power_of_ten, 2);
        }
        assert(width >= 2);
        lemma_decimal_digits_fit(value / 10, (width - 1) as nat);
    }
}

/// How many decimal digits a number has.
fn digit_count(value: u64) -> (count: usize)
    ensures
        count == decimal_digits(value as nat).len(),
        1 <= count <= 20,
    decreases value,
{
    proof {
        assert(power_of_ten(20) == 100_000_000_000_000_000_000nat) by {
            reveal_with_fuel(power_of_ten, 21);
        }
        lemma_decimal_digits_fit(value as nat, 20);
        lemma_decimal_digits_are_digits(value as nat);
    }
    if value < 10 {
        1
    } else {
        let shorter = digit_count(value / 10);
        shorter + 1
    }
}

/// Appends a number with zeros in front of it up to `width` characters.
pub fn push_zero_padded(text: &mut String, value: u64, width: usize)
    ensures
        final(text)@ == old(text)@ + zero_padded(value as nat, width as nat),
{
    let mut written = digit_count(value);
    let ghost first = written;
    while written < width
        invariant
            first <= written,
            first < width ==> written <= width,
            first >= width ==> written == first,
            text@ == old(text)@ + zeros((written - first) as nat),
        decreases width - written,
    {
        text.push('0');
        written += 1;
        assert(text@ =~= old(text)@ + zeros((written - first) as nat));
    }
    let ghost padding = zeros((written - first) as nat);
    let ghost digits = decimal_digits(value as nat);
    assert(first >= width ==> written == first);
    assert(first < width ==> written == width);
    push_decimal_digits(text, value as u128);
    assert(text@ == (old(text)@ + padding) + digits);
    assert((old(text)@ + padding) + digits =~= old(text)@ + (padding + digits));
    assert(first >= width ==> padding + digits =~= digits);
}

/// The decimal text of an integer is ASCII.
pub proof fn lemma_decimal_is_ascii(value: int)
    ensures
        is_ascii_text(decimal(value)),
{
    if value < 0 {
        lemma_decimal_digits_are_digits((-value) as nat);
        lemma_ascii_concat(seq!['-'], decimal_digits((-value) as nat));
    } else {
        lemma_decimal_digits_are_digits(value as nat);
    }
}

/// A zero-padded number is ASCII.
pub proof fn lemma_zero_padded_is_ascii(value: nat, width: nat)
    ensures
        is_ascii_text(zero_padded(value, width)),
{
    lemma_decimal_digits_are_digits(value);
    let digits = decimal_digits(value);
    if digits.len() < width {
        lemma_ascii_concat(zeros((width - digits.len()) as nat), digits);
    }
}

} // verus!
