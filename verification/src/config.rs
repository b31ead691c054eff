//! Settings of the server that are read from text.

use vstd::prelude::*;
use vstd::string::StrSliceExecFns;

verus! {

/// Port that the server listens on where none is set.
pub const DEFAULT_PORT: u16 = 8000;

pub open spec fn is_digit(c: char) -> bool {
    '0' <= c <= '9'
}

pub open spec fn digit_value(c: char) -> int {
    c as int - '0' as int
}

/// The number that a string of decimal digits writes.
pub open spec fn decimal_value(digits: Seq<char>) -> int
    decreases digits.len(),
{
    if digits.len() == 0 {
        0
    } else {
        10 * decimal_value(digits.drop_last()) + digit_value(digits.last())
    }
}

pub open spec fn all_digits(text: Seq<char>) -> bool {
    forall|i: int| 0 <= i < text.len() ==> is_digit(#[trigger] text[i])
}

/// The text without the plus sign that may stand at its head.
pub open spec fn without_sign(text: Seq<char>) -> Seq<char> {
    if text.len() > 0 && text[0] == '+' {
        text.subrange(1, text.len() as int)
    } else {
        text
    }
}

/// The port that `text` names: at least one decimal digit, with or without
/// a plus sign before, and nothing else, no blank either; the number must
/// be one that a port can be.
pub open spec fn parse_port_spec(text: Seq<char>) -> Option<u16> {
    let digits = without_sign(text);
    if digits.len() > 0 && all_digits(digits) && decimal_value(digits) <= u16::MAX {
        Some(decimal_value(digits) as u16)
    } else {
        None
    }
}

/// The number written by the first digits of a string of digits is at most
/// the number written by all of them.
pub proof fn lemma_decimal_value_grows(digits: Seq<char>, n: int)
    requires
        all_digits(digits),
        0 <= n <= digits.len(),
    ensures
        0 <= decimal_value(digits.take(n)) <= decimal_value(digits),
    decreases digits.len() - n,
{
    if n == digits.len() {
        assert(digits.take(n) =~= digits);
        lemma_decimal_value_is_natural(digits);
    } else {
        lemma_decimal_value_grows(digits, n + 1);
        assert(digits.take(n + 1).drop_last() =~= digits.take(n));
        assert(digits.take(n + 1).last() == digits[n]);
        lemma_decimal_value_is_natural(digits.take(n));
    }
}

/// A string of digits writes no negative number.
pub proof fn lemma_decimal_value_is_natural(digits: Seq<char>)
    requires
        all_digits(digits),
    ensures
        0 <= decimal_value(digits),
    decreases digits.len(),
{
    if digits.len() > 0 {
        lemma_decimal_value_is_natural(digits.drop_last());
    }
}

/// Reads a port number.
pub fn parse_port(text: &str) -> (port: Option<u16>)
    ensures
        port == parse_port_spec(text@),
{
    let ghost digits = without_sign(text@);
    let length = text.unicode_len();
    let mut i: usize = 0;
    if length > 0 && text.get_char(0) == '+' {
        i = 1;
    }
    let ghost start = i;
    if i == length {
        return None;
    }
    let mut value: u32 = 0;
    while i < length
        invariant
            start <= i <= length,
            length == text@.len(),
            start == text@.len() - digits.len(),
            digits == text@.subrange(start as int, length as int),
            digits == without_sign(text@),
            all_digits(digits.take(i - start)),
            value == decimal_value(digits.take(i - start)),
            value <= u16::MAX,
        decreases length - i,
    {
        let c = text.get_char(i);
        assert(c == digits[i - start]);
        if c < '0' || c > '9' {
            assert(!is_digit(digits[i - start]));
            return None;
        }
        proof {
            assert(digits.take(i + 1 - start).drop_last() =~= digits.take(i - start));
            assert(digits.take(i + 1 - start).last() == c);
        }
        value = value * 10 + (c as u32 - '0' as u32);
        if value > 65535 {
            proof {
                if all_digits(digits) {
                    lemma_decimal_value_grows(digits, i + 1 - start);
                }
            }
            return None;
        }
        i += 1;
    }
    proof {
        assert(digits.take(length - start) =~= digits);
    }
    Some(value as u16)
}

/// The port to listen on: the one that the setting names, the default
/// where nothing is set, and none where the setting names no port.
pub fn port_from(setting: Option<&str>) -> (port: Option<u16>)
    ensures
        port == match setting {
            Some(text) => parse_port_spec(text@),
            None => Some(DEFAULT_PORT),
        },
{
    match setting {
        Some(text) => parse_port(text),
        None => Some(DEFAULT_PORT),
    }
}

} // verus!
