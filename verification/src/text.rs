//! Numbers written in decimal, and other small matters of text.

use vstd::prelude::*;
use vstd::string::*;

verus! {

/// Whether `c` is a decimal digit.
pub open spec fn is_digit(c: char) -> bool {
    '0' <= c <= '9'
}

/// The decimal digit for `d`.
pub open spec fn digit_char(d: nat) -> char {
    (48 + d) as char
}

/// `n` in decimal, without leading zeros.
pub open spec fn decimal_text(n: nat) -> Seq<char>
    decreases n,
{
    if n < 10 {
        seq![digit_char(n)]
    } else {
        decimal_text(n / 10).push(digit_char(n % 10))
    }
}

/// The number that the digits of `text` write in decimal.
pub open spec fn digits_value(text: Seq<char>) -> nat
    decreases text.len(),
{
    if text.len() == 0 {
        0
    } else {
        (digits_value(text.drop_last()) * 10 + (text.last() as int - 48)) as nat
    }
}

/// Whether `text` is made of decimal digits, at least one.
pub open spec fn are_digits(text: Seq<char>) -> bool {
    &&& text.len() > 0
    &&& forall|i: int| 0 <= i < text.len() ==> is_digit(#[trigger] text[i])
}

/// The number that `text` writes: decimal digits, at least one, after an
/// optional plus sign. `None` for any other text.
pub open spec fn unsigned_value(text: Seq<char>) -> Option<nat> {
    let digits = if text.len() > 0 && text[0] == '+' {
        text.skip(1)
    } else {
        text
    };
    if are_digits(digits) {
        Some(digits_value(digits))
    } else {
        None
    }
}

/// `unsigned_value`, where it is at most `max`.
pub open spec fn unsigned_value_up_to(text: Seq<char>, max: nat) -> Option<nat> {
    match unsigned_value(text) {
        Some(value) if value <= max => Some(value),
        _ => None,
    }
}

/// The message of the error with which `text` does not parse as a `u16`.
pub uninterp spec fn parse_u16_error(text: Seq<char>) -> Seq<char>;

/// The message of the error with which `text` does not parse as a `u32`.
pub uninterp spec fn parse_u32_error(text: Seq<char>) -> Seq<char>;

/// The message of the error with which `text` does not parse as a `u64`.
pub uninterp spec fn parse_u64_error(text: Seq<char>) -> Seq<char>;

/// [`str::parse`] to `u16` takes an optional plus sign and decimal digits whose
/// number is in range, and refuses every other text with a message that depends
/// on the text alone.
#[verifier::external_body]
pub(crate) fn parse_u16(text: &str) -> (r: Result<u16, String>)
    ensures
        match r {
            Ok(value) => unsigned_value_up_to(text@, u16::MAX as nat) == Some(value as nat),
            Err(message) => unsigned_value_up_to(text@, u16::MAX as nat) is None && message@
                == parse_u16_error(text@),
        },
{
    text.parse::<u16>().map_err(|e| e.to_string())
}

/// [`str::parse`] to `u32` takes an optional plus sign and decimal digits whose
/// number is in range, and refuses every other text with a message that depends
/// on the text alone.
#[verifier::external_body]
pub(crate) fn parse_u32(text: &str) -> (r: Result<u32, String>)
    ensures
        match r {
            Ok(value) => unsigned_value_up_to(text@, u32::MAX as nat) == Some(value as nat),
            Err(message) => unsigned_value_up_to(text@, u32::MAX as nat) is None && message@
                == parse_u32_error(text@),
        },
{
    text.parse::<u32>().map_err(|e| e.to_string())
}

/// [`str::parse`] to `u64` takes an optional plus sign and decimal digits whose
/// number is in range, and refuses every other text with a message that depends
/// on the text alone.
#[verifier::external_body]
pub(crate) fn parse_u64(text: &str) -> (r: Result<u64, String>)
    ensures
        match r {
            Ok(value) => unsigned_value_up_to(text@, u64::MAX as nat) == Some(value as nat),
            Err(message) => unsigned_value_up_to(text@, u64::MAX as nat) is None && message@
                == parse_u64_error(text@),
        },
{
    text.parse::<u64>().map_err(|e| e.to_string())
}

/// The decimal digit for `d`.
fn digit_str(d: u64) -> (s: &'static str)
    requires
        d < 10,
    ensures
        s@ == seq![digit_char(d as nat)],
{
    proof {
        reveal_strlit("0");
        reveal_strlit("1");
        reveal_strlit("2");
        reveal_strlit("3");
        reveal_strlit("4");
        reveal_strlit("5");
        reveal_strlit("6");
        reveal_strlit("7");
        reveal_strlit("8");
        reveal_strlit("9");
    }
    let s: &'static str = match d {
        0 => "0",
        1 => "1",
        2 => "2",
        3 => "3",
        4 => "4",
        5 => "5",
        6 => "6",
        7 => "7",
        8 => "8",
        _ => "9",
    };
    assert(s@ =~= seq![digit_char(d as nat)]);
    s
}

/// `n` in decimal.
pub(crate) fn decimal(n: u64) -> (text: String)
    ensures
        text@ == decimal_text(n as nat),
    decreases n,
{
    if n < 10 {
        digit_str(n).to_owned()
    } else {
        let mut text: String = decimal(n / 10);
        text.append(digit_str(n % 10));
        assert(text@ =~= decimal_text(n as nat));
        text
    }
}

/// Whether two texts are the same.
pub(crate) fn same_text(a: &str, b: &str) -> (r: bool)
    ensures
        r == (a@ == b@),
{
    a.to_owned() == b.to_owned()
}

/// Whether `text` starts with `c`.
pub(crate) fn starts_with(text: &str, c: char) -> (r: bool)
    ensures
        r == (text@.len() > 0 && text@[0] == c),
{
    text.unicode_len() > 0 && text.get_char(0) == c
}

/// The text `a` and then the text `b`.
pub(crate) fn joined(a: &str, b: &str) -> (r: String)
    ensures
        r@ == a@ + b@,
{
    let mut r: String = a.to_owned();
    r.append(b);
    r
}

/// Where `c` last occurs in `text`.
pub open spec fn last_position(text: Seq<char>, c: char) -> Option<int>
    decreases text.len(),
{
    if text.len() == 0 {
        None
    } else if text.last() == c {
        Some(text.len() - 1)
    } else {
        last_position(text.drop_last(), c)
    }
}

/// What stands before and after the last `c` in `text`.
pub open spec fn split_at_last(text: Seq<char>, c: char) -> Option<(Seq<char>, Seq<char>)> {
    match last_position(text, c) {
        Some(k) => Some((text.take(k), text.skip(k + 1))),
        None => None,
    }
}

pub(crate) proof fn lemma_last_position(text: Seq<char>, c: char)
    ensures
        match last_position(text, c) {
            Some(k) => 0 <= k < text.len() && text[k] == c && forall|i: int|
                k < i < text.len() ==> text[i] != c,
            None => forall|i: int| 0 <= i < text.len() ==> text[i] != c,
        },
    decreases text.len(),
{
    if text.len() > 0 && text.last() != c {
        let rest = text.drop_last();
        lemma_last_position(rest, c);
        assert forall|i: int| 0 <= i < rest.len() implies rest[i] == text[i] by {}
    }
}

/// What stands before and after the last `c` in `text`.
pub(crate) fn rsplit_once<'a>(text: &'a str, c: char) -> (r: Option<(&'a str, &'a str)>)
    ensures
        match (r, split_at_last(text@, c)) {
            (Some(halves), Some(expected)) => halves.0@ == expected.0 && halves.1@ == expected.1,
            (None, None) => true,
            _ => false,
        },
{
    let n: usize = text.unicode_len();
    let mut k: usize = n;
    assert(text@.take(n as int) =~= text@);
    while k > 0
        invariant
            k <= n == text@.len(),
            last_position(text@.take(k as int), c) == last_position(text@, c),
        decreases k,
    {
        assert(text@.take(k as int).drop_last() =~= text@.take(k - 1));
        if text.get_char(k - 1) == c {
            assert(text@.subrange(0, k - 1) =~= text@.take(k - 1));
            assert(text@.subrange(k as int, n as int) =~= text@.skip(k as int));
            return Some((text.substring_char(0, k - 1), text.substring_char(k, n)));
        }
        k = k - 1;
    }
    None
}

/// A number in decimal is read back as that number.
pub proof fn law_decimal_round_trips(n: nat)
    ensures
        unsigned_value(decimal_text(n)) == Some(n),
        forall|i: int| 0 <= i < decimal_text(n).len() ==> is_digit(#[trigger] decimal_text(n)[i]),
{
    lemma_decimal_digits(n);
    let text = decimal_text(n);
    assert(is_digit(text[0]));
}

proof fn lemma_decimal_digits(n: nat)
    ensures
        decimal_text(n).len() > 0,
        forall|i: int| 0 <= i < decimal_text(n).len() ==> is_digit(#[trigger] decimal_text(n)[i]),
        digits_value(decimal_text(n)) == n,
    decreases n,
{
    reveal_with_fuel(digits_value, 2);
    if n < 10 {
        assert(decimal_text(n).drop_last() =~= Seq::empty());
    } else {
        lemma_decimal_digits(n / 10);
        assert(decimal_text(n).drop_last() =~= decimal_text(n / 10));
    }
}

} // verus!
