//! Numbers in text form.

use vstd::prelude::*;
use vstd::string::*;

use crate::text::{chars_of, decimal, digit, signed_decimal};

verus! {

/// Whether a character is a decimal digit.
pub open spec fn is_digit(c: char) -> bool {
    '0' <= c <= '9'
}

pub open spec fn digit_value(c: char) -> nat {
    (c as u32 - 48) as nat
}

/// The number that digits write; `None` where there are none, or other characters too.
pub open spec fn digits_value(text: Seq<char>) -> Option<nat>
    decreases text.len(),
{
    if text.len() == 0 {
        None
    } else if !is_digit(text.last()) {
        None
    } else if text.len() == 1 {
        Some(digit_value(text.last()))
    } else {
        match digits_value(text.drop_last()) {
            Some(high) => Some(high * 10 + digit_value(text.last())),
            None => None,
        }
    }
}

/// The number that a text writes, up to a bound; a plus sign may stand in front.
pub open spec fn natural(text: Seq<char>, max: nat) -> Option<nat> {
    let digits = if text.len() > 0 && text[0] == '+' {
        text.skip(1)
    } else {
        text
    };
    match digits_value(digits) {
        Some(value) => if value <= max {
            Some(value)
        } else {
            None
        },
        None => None,
    }
}

/// The whole number that a text writes, as far as 64 bits go; a sign may stand in front.
pub open spec fn integer(text: Seq<char>) -> Option<int> {
    if text.len() > 0 && text[0] == '-' {
        match digits_value(text.skip(1)) {
            Some(value) => if -(value as int) >= i64::MIN {
                Some(-(value as int))
            } else {
                None
            },
            None => None,
        }
    } else {
        match natural(text, i64::MAX as nat) {
            Some(value) => Some(value as int),
            None => None,
        }
    }
}

proof fn lemma_prefix_grows(text: Seq<char>, n: int)
    requires
        0 < n <= text.len(),
        digits_value(text) is Some,
    ensures
        digits_value(text.take(n)) is Some,
        digits_value(text.take(n))->0 <= digits_value(text)->0,
    decreases text.len(),
{
    if n < text.len() {
        lemma_prefix_grows(text.drop_last(), n);
        assert(text.drop_last().take(n) =~= text.take(n));
    } else {
        assert(text.take(n) =~= text);
    }
}

/// Reads the digits of a text from one place on, up to a bound.
fn read_digits(chars: &Vec<char>, from: usize, max: u64) -> (value: Option<u64>)
    requires
        from <= chars@.len(),
    ensures
        value == match digits_value(chars@.skip(from as int)) {
            Some(value) => if value <= max {
                Some(value as u64)
            } else {
                None
            },
            None => None,
        },
{
    let ghost digits = chars@.skip(from as int);
    if from == chars.len() {
        return None;
    }
    let mut value: u64 = 0;
    let mut i: usize = from;
    while i < chars.len()
        invariant
            from <= i <= chars@.len(),
            from < chars@.len(),
            digits == chars@.skip(from as int),
            i == from ==> value == 0,
            i > from ==> digits_value(digits.take(i - from)) == Some(value as nat),
            value <= max,
        decreases chars@.len() - i,
    {
        let c = chars[i];
        let ghost n = i - from;
        let ghost upto = digits.take(n + 1);
        assert(upto.last() == c);
        assert(upto.drop_last() =~= digits.take(n));
        if c < '0' || c > '9' {
            proof {
                if digits_value(digits) is Some {
                    lemma_prefix_grows(digits, n + 1);
                }
            }
            return None;
        }
        let d: u64 = (c as u32 - 48) as u64;
        assert(digits_value(upto) == Some((value * 10 + d) as nat));
        if d > max || value > (max - d) / 10 {
            proof {
                assert(value * 10 + d > max);
                if digits_value(digits) is Some {
                    lemma_prefix_grows(digits, n + 1);
                }
            }
            return None;
        }
        value = value * 10 + d;
        i = i + 1;
    }
    assert(digits.take(i - from) =~= digits);
    Some(value)
}

/// Reads a number up to a bound.
pub fn parse_natural(text: &str, max: u64) -> (value: Option<u64>)
    ensures
        natural(text@, max as nat) == match value {
            Some(value) => Some(value as nat),
            None => None,
        },
{
    let chars = chars_of(text);
    assert(chars@.skip(0) =~= chars@);
    let from: usize = if chars.len() > 0 && chars[0] == '+' { 1 } else { 0 };
    read_digits(&chars, from, max)
}

/// Reads a whole number.
pub fn parse_integer(text: &str) -> (value: Option<i64>)
    ensures
        integer(text@) == match value {
            Some(value) => Some(value as int),
            None => None,
        },
{
    let chars = chars_of(text);
    if chars.len() > 0 && chars[0] == '-' {
        match read_digits(&chars, 1, 0x8000_0000_0000_0000) {
            Some(value) => if value == 0x8000_0000_0000_0000 {
                Some(i64::MIN)
            } else {
                Some(-(value as i64))
            },
            None => None,
        }
    } else {
        match parse_natural(text, 0x7fff_ffff_ffff_ffff) {
            Some(value) => Some(value as i64),
            None => None,
        }
    }
}

proof fn lemma_digit_char(d: nat)
    requires
        d < 10,
    ensures
        is_digit(digit(d)),
        digit_value(digit(d)) == d,
{
}

proof fn lemma_decimal_value(n: nat)
    ensures
        decimal(n).len() > 0,
        digits_value(decimal(n)) == Some(n),
        is_digit(decimal(n)[0]),
    decreases n,
{
    if n < 10 {
        lemma_digit_char(n);
    } else {
        lemma_decimal_value(n / 10);
        lemma_digit_char(n % 10);
        let text = decimal(n);
        assert(text.drop_last() =~= decimal(n / 10));
    }
}

/// Decimal notation is made of digits alone.
pub proof fn lemma_decimal_digits(n: nat, i: int)
    requires
        0 <= i < decimal(n).len(),
    ensures
        is_digit(decimal(n)[i]),
    decreases n,
{
    if n < 10 {
        lemma_digit_char(n);
    } else {
        lemma_digit_char(n % 10);
        if i < decimal(n / 10).len() {
            lemma_decimal_digits(n / 10, i);
        }
    }
}

/// A number that was written is read back as it was.
pub proof fn law_numbers_round_trip(n: nat, max: nat)
    requires
        n <= max,
    ensures
        natural(decimal(n), max) == Some(n),
{
    lemma_decimal_value(n);
}

/// A whole number that was written is read back as it was.
pub proof fn law_integers_round_trip(n: i64)
    ensures
        integer(signed_decimal(n as int)) == Some(n as int),
{
    let text = signed_decimal(n as int);
    if n < 0 {
        lemma_decimal_value((-n) as nat);
        assert(text.skip(1) =~= decimal((-n) as nat));
    } else {
        lemma_decimal_value(n as nat);
    }
}

} // verus!
