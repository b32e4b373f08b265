//! What holds of numbers in decimal.

use crate::text::{
    are_digits, decimal_text, digits_value, is_digit, law_decimal_round_trips, unsigned_value,
    unsigned_value_up_to,
};
use vstd::prelude::*;

verus! {

/// Whether `c` is the digit for `d`.
pub open spec fn is_digit_for(c: char, d: int) -> bool {
    0 <= d <= 9 && c as int == '0' as int + d
}

/// Whether `text` is `n` in decimal as people write it: digits that are read as `n`,
/// with no sign, and no zero in front of others.
pub open spec fn is_decimal(text: Seq<char>, n: nat) -> bool {
    &&& unsigned_value(text) == Some(n)
    &&& '0' <= text[0] <= '9'
    &&& text.len() > 1 ==> text[0] != '0'
}

/// The decimal text of a number is its number as people write it.
pub proof fn law_decimal_text_is_decimal(n: nat)
    ensures
        is_decimal(decimal_text(n), n),
        !decimal_text(n).contains('%'),
    decreases n,
{
    law_decimal_round_trips(n);
    let text = decimal_text(n);
    assert(are_digits(text));
    assert(is_digit(text[0]));
    if n >= 10 {
        law_decimal_text_is_decimal(n / 10);
        law_decimal_round_trips(n / 10);
        let shorter = decimal_text(n / 10);
        assert(are_digits(shorter));
        assert(text[0] == shorter[0]);
        if shorter.len() == 1 && shorter[0] == '0' {
            reveal_with_fuel(digits_value, 2);
            assert(shorter.drop_last() =~= Seq::empty());
        }
    }
}

/// A number below ten is written as its digit. A digit behind a number that is not
/// zero is written behind it.
pub proof fn law_decimal_grows_by_digits(n: nat, d: nat)
    requires
        d < 10,
    ensures
        decimal_text(d).len() == 1,
        is_digit_for(decimal_text(d)[0], d as int),
        n > 0 ==> decimal_text(n * 10 + d).drop_last() == decimal_text(n),
        is_digit_for(decimal_text(n * 10 + d).last(), d as int),
{
    assert((n * 10 + d) / 10 == n && (n * 10 + d) % 10 == d);
    if n > 0 {
        assert(decimal_text(n * 10 + d).drop_last() =~= decimal_text(n));
    }
}

/// A digit alone is read as its number. A digit behind a text that is read as
/// `value` shifts it by one place.
pub proof fn law_digits_are_read_by_place(text: Seq<char>, c: char, d: nat)
    requires
        is_digit_for(c, d as int),
    ensures
        unsigned_value(seq![c]) == Some(d),
        unsigned_value(text) matches Some(value) ==> unsigned_value(text.push(c)) == Some(
            value * 10 + d,
        ),
{
    reveal_with_fuel(digits_value, 2);
    assert(seq![c].drop_last() =~= Seq::empty());
    assert(is_digit(c));
    if unsigned_value(text) is Some {
        let digits = if text[0] == '+' {
            text.skip(1)
        } else {
            text
        };
        let longer = text.push(c);
        let more = digits.push(c);
        assert(longer[0] == text[0]);
        assert(text[0] == '+' ==> longer.skip(1) =~= more);
        assert(more.drop_last() =~= digits);
        assert forall|i: int| 0 <= i < more.len() implies is_digit(#[trigger] more[i]) by {
            if i < digits.len() {
                assert(is_digit(digits[i]));
            }
        }
        assert(unsigned_value(longer) == Some(digits_value(more)));
    }
}

/// One plus sign before a number does not change it.
pub proof fn law_plus_sign_is_ignored(text: Seq<char>)
    requires
        text.len() == 0 || text[0] != '+',
    ensures
        unsigned_value(seq!['+'] + text) == unsigned_value(text),
{
    let signed = seq!['+'] + text;
    assert(signed[0] == '+');
    assert(signed.skip(1) =~= text);
}

/// No number is written by nothing, by a plus sign alone, or by a text with
/// anything but digits in it, apart from a plus sign in the first place.
pub proof fn law_other_texts_are_no_numbers(text: Seq<char>, i: int)
    ensures
        unsigned_value(Seq::empty()) is None,
        unsigned_value(seq!['+']) is None,
        0 <= i < text.len() && !('0' <= text[i] <= '9') && (i > 0 || text[i] != '+')
            ==> unsigned_value(text) is None,
{
    assert(seq!['+'].skip(1) =~= Seq::empty());
    if 0 <= i < text.len() && !is_digit(text[i]) && (i > 0 || text[i] != '+') {
        if text[0] == '+' {
            assert(!is_digit(text.skip(1)[i - 1]));
        } else {
            assert(!is_digit(text[i]));
        }
    }
}

/// A bound leaves out what is above it and nothing else.
pub proof fn law_bound_leaves_out_what_is_above(text: Seq<char>, max: nat)
    ensures
        unsigned_value_up_to(text, max) matches Some(value) ==> value <= max && unsigned_value(text)
            == Some(value),
        unsigned_value_up_to(text, max) is None ==> match unsigned_value(text) {
            Some(value) => value > max,
            None => true,
        },
{
}

} // verus!
