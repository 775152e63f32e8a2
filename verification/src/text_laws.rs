//! What holds of every text that stands for a number, and of upper case.

use crate::text::{
    decimal, decimal_value, first_occurrence, is_digit, number_u32, occurs_at, padded_decimal,
    unsigned_digits, uppercase,
};
use vstd::prelude::*;
use vstd::utf8::is_ascii_chars;

verus! {

/// The digits of a number are its last digit behind the digits of the rest; a number below ten is
/// one digit.
pub proof fn digits_of_a_number(n: nat)
    ensures
        n < 10 ==> decimal(n) == seq![(48 + n) as char],
        n >= 10 ==> decimal(n) == decimal(n / 10).push((48 + n % 10) as char),
{
}

/// No number but zero is written with a zero in front, and every number has a digit.
pub proof fn no_leading_zero(n: nat)
    ensures
        decimal(n).len() > 0,
        n > 0 ==> decimal(n)[0] != '0',
    decreases n,
{
    if n >= 10 {
        no_leading_zero(n / 10);
        assert(decimal(n)[0] == decimal(n / 10)[0]);
    }
}

/// A number filled up to a width ends with its digits, has zeros before them, and has just the
/// width where the digits are fewer.
pub proof fn padding_is_zeros_in_front(n: nat, width: nat)
    ensures
        ({
            let text = padded_decimal(n, width);
            let digits = decimal(n);
            let filled = text.len() - digits.len();
            &&& digits.len() <= width ==> text.len() == width
            &&& digits.len() > width ==> text.len() == digits.len()
            &&& forall|i: int| 0 <= i < filled ==> #[trigger] text[i] == '0'
            &&& text.skip(filled) == digits
        }),
{
    let text = padded_decimal(n, width);
    let digits = decimal(n);
    assert(text.skip(text.len() - digits.len()) =~= digits);
}

/// The value of digits with one more behind them is ten times theirs and the new one.
proof fn lemma_value_of_push(digits: Seq<char>, digit: char)
    ensures
        decimal_value(digits.push(digit)) == decimal_value(digits) * 10 + (digit as u32
            - '0' as u32) as nat,
{
    assert(digits.push(digit).drop_last() =~= digits);
}

/// A text of digits is read digit by digit: with one more digit behind it, the number is ten times
/// as large and the digit larger, and is none where that is more than 32 bits hold.
pub proof fn one_more_digit(digits: Seq<char>, digit: nat, value: u32)
    requires
        digit < 10,
        number_u32(digits) == Some(value),
        digits[0] != '+',
    ensures
        number_u32(digits.push((48 + digit) as char)) == (if value * 10 + digit <= u32::MAX {
            Some((value * 10 + digit) as u32)
        } else {
            None
        }),
{
    let longer = digits.push((48 + digit) as char);
    lemma_value_of_push(digits, (48 + digit) as char);
    assert(unsigned_digits(longer) =~= longer);
    assert forall|i: int| 0 <= i < longer.len() implies is_digit(#[trigger] longer[i]) by {
        if i < digits.len() {
            assert(is_digit(digits[i]));
        }
    }
}

/// One digit is the number that it shows.
pub proof fn one_digit(digit: nat)
    requires
        digit < 10,
    ensures
        number_u32(seq![(48 + digit) as char]) == Some(digit as u32),
{
    reveal_with_fuel(decimal_value, 2);
    let text = seq![(48 + digit) as char];
    assert(text.drop_last() =~= Seq::<char>::empty());
}

/// A plus sign before digits does not matter.
pub proof fn plus_sign_is_skipped(digits: Seq<char>)
    requires
        digits.len() > 0,
        digits[0] != '+',
    ensures
        number_u32(seq!['+'] + digits) == number_u32(digits),
{
    assert((seq!['+'] + digits).skip(1) =~= digits);
}

/// A text without digits, or with a character that is none but for a plus sign in front, is no
/// number.
pub proof fn other_texts_are_no_numbers(text: Seq<char>, at: int)
    requires
        text.len() == 0 || text == seq!['+'] || (0 <= at < text.len() && !('0' <= text[at]
            && text[at] <= '9') && (at > 0 || text[at] != '+')),
    ensures
        number_u32(text) is None,
{
    if text.len() > 0 && text != seq!['+'] {
        let digits = unsigned_digits(text);
        if text[0] == '+' {
            assert(digits[at - 1] == text[at]);
        } else {
            assert(digits[at] == text[at]);
        }
    }
}

/// The first place of a pattern is a place of it, and there is none before; where none is found,
/// there is none.
pub proof fn first_place_is_the_first(text: Seq<char>, pattern: Seq<char>, from: nat)
    ensures
        match first_occurrence(text, pattern, from) {
            Some(at) => {
                &&& from <= at
                &&& at + pattern.len() <= text.len()
                &&& text.subrange(at as int, (at + pattern.len()) as int) == pattern
                &&& forall|i: int| from <= i < at ==> !#[trigger] occurs_at(text, pattern, i)
            },
            None => forall|i: int| from <= i ==> !#[trigger] occurs_at(text, pattern, i),
        },
    decreases text.len() + 1 - from,
{
    if from + pattern.len() <= text.len() && !occurs_at(text, pattern, from as int) {
        first_place_is_the_first(text, pattern, from + 1);
    }
}

/// An ASCII text in upper case is as long as it was. Its letters `a` to `z` are capital, and the
/// rest stays.
pub proof fn upper_case_of_ascii(text: Seq<char>, i: int)
    requires
        is_ascii_chars(text),
        0 <= i < text.len(),
    ensures
        uppercase(text).len() == text.len(),
        'a' <= text[i] && text[i] <= 'z' ==> uppercase(text)[i] as int == text[i] as int - 32,
        !('a' <= text[i] && text[i] <= 'z') ==> uppercase(text)[i] == text[i],
{
}

} // verus!
