//! Text as sequences of characters.

use vstd::prelude::*;
use vstd::string::*;
use vstd::utf8::{decode_utf8, valid_utf8};

verus! {

/// `String::push` appends one character.
pub assume_specification[ String::push ](s: &mut String, c: char)
    ensures
        final(s)@ == old(s)@.push(c),
;

/// `==` on `str` holds when both hold the same characters.
pub assume_specification[ <str as PartialEq>::eq ](s: &str, other: &str) -> (res: bool)
    ensures
        res == (s@ == other@),
;

/// Whether two texts hold the same characters.
pub fn same_text(a: &str, b: &str) -> (same: bool)
    ensures
        same == (a@ == b@),
{
    <str as PartialEq>::eq(a, b)
}

/// What `str::to_lowercase` gives for a text: the Unicode lowercase mapping of the whole text.
/// A character can turn into several, and a capital sigma goes by whether it ends a word.
pub uninterp spec fn lowercase(text: Seq<char>) -> Seq<char>;

/// Calls `str::to_lowercase`; the result is a function of the characters alone.
#[verifier::external_body]
pub(crate) fn to_lowercase(text: &str) -> (lower: String)
    ensures
        lower@ == lowercase(text@),
{
    text.to_lowercase()
}

/// What `String::from_utf8_lossy` gives for bytes: the text that they encode, with replacement
/// characters where they encode none.
pub uninterp spec fn lossy_text(bytes: Seq<u8>) -> Seq<char>;

/// Calls `String::from_utf8_lossy`: valid UTF-8 gives the text that it encodes.
#[verifier::external_body]
pub(crate) fn text_from_utf8_lossy(bytes: &Vec<u8>) -> (text: String)
    ensures
        text@ == lossy_text(bytes@),
        valid_utf8(bytes@) ==> text@ == decode_utf8(bytes@),
{
    String::from_utf8_lossy(bytes).into_owned()
}

/// Whether a character has the Unicode property `White_Space`.
pub open spec fn white_space(c: char) -> bool {
    ||| '\u{9}' <= c <= '\u{d}'
    ||| c == ' '
    ||| c == '\u{85}'
    ||| c == '\u{a0}'
    ||| c == '\u{1680}'
    ||| '\u{2000}' <= c <= '\u{200a}'
    ||| '\u{2028}' <= c <= '\u{2029}'
    ||| c == '\u{202f}'
    ||| c == '\u{205f}'
    ||| c == '\u{3000}'
}

/// `char::is_whitespace` tells the characters with the property `White_Space` from the others.
#[verifier::external_body]
pub(crate) fn is_whitespace(c: char) -> (white: bool)
    ensures
        white == white_space(c),
{
    c.is_whitespace()
}

/// The characters of a text, one by one.
pub fn chars_of(text: &str) -> (chars: Vec<char>)
    ensures
        chars@ == text@,
{
    let mut chars: Vec<char> = Vec::new();
    for c in it: text.chars()
        invariant
            chars@ == it.seq().take(it.index() as int),
            it.seq() == text@,
    {
        chars.push(c);
        assert(it.seq().take(it.index() + 1) =~= it.seq().take(it.index() as int).push(c));
    }
    assert(chars@ =~= text@);
    chars
}

/// A text made of the given characters.
pub fn text_of(chars: &[char]) -> (text: String)
    ensures
        text@ == chars@,
{
    let mut text = String::new();
    let mut i: usize = 0;
    while i < chars.len()
        invariant
            i <= chars.len(),
            text@ == chars@.take(i as int),
        decreases chars.len() - i,
    {
        text.push(chars[i]);
        i = i + 1;
        assert(chars@.take(i as int) =~= chars@.take(i - 1).push(chars@[i - 1]));
    }
    assert(chars@.take(i as int) =~= chars@);
    text
}

/// The digit `d` as a character.
pub open spec fn digit(d: nat) -> char {
    (48 + d) as u8 as char
}

/// A number in decimal notation, without leading zeros.
pub open spec fn decimal(n: nat) -> Seq<char>
    decreases n,
{
    if n < 10 {
        seq![digit(n)]
    } else {
        decimal(n / 10).push(digit(n % 10))
    }
}

/// A number in decimal notation, with a minus sign where it is negative.
pub open spec fn signed_decimal(n: int) -> Seq<char> {
    if n < 0 {
        seq!['-'] + decimal((-n) as nat)
    } else {
        decimal(n as nat)
    }
}

/// Appends a number in decimal notation.
pub fn push_decimal(text: &mut String, n: u128)
    ensures
        final(text)@ == old(text)@ + decimal(n as nat),
    decreases n,
{
    if n < 10 {
        text.push((48 + n as u8) as char);
    } else {
        push_decimal(text, n / 10);
        text.push((48 + (n % 10) as u8) as char);
    }
    assert(text@ =~= old(text)@ + decimal(n as nat));
}

/// Appends a number in decimal notation.
pub fn append_decimal(text: &mut String, n: u64)
    ensures
        final(text)@ == old(text)@ + decimal(n as nat),
{
    push_decimal(text, n as u128);
}

/// A number in decimal notation.
pub fn decimal_text(n: u64) -> (text: String)
    ensures
        text@ == decimal(n as nat),
{
    let mut text = String::new();
    push_decimal(&mut text, n as u128);
    assert(text@ =~= decimal(n as nat));
    text
}

/// A signed number in decimal notation.
pub fn signed_decimal_text(n: i64) -> (text: String)
    ensures
        text@ == signed_decimal(n as int),
{
    let mut text = String::new();
    if n < 0 {
        text.push('-');
        let magnitude: u64 = if n == i64::MIN { 0x8000_0000_0000_0000 } else { (-n) as u64 };
        push_decimal(&mut text, magnitude as u128);
    } else {
        push_decimal(&mut text, n as u128);
    }
    assert(text@ =~= signed_decimal(n as int));
    text
}

/// Whether `needle` stands somewhere in `hay`.
pub open spec fn occurs(needle: Seq<char>, hay: Seq<char>) -> bool {
    exists|at: int| occurs_at(needle, hay, at)
}

/// Whether `needle` stands in `hay` at the position `at`.
pub open spec fn occurs_at(needle: Seq<char>, hay: Seq<char>, at: int) -> bool {
    0 <= at && at + needle.len() <= hay.len() && hay.subrange(at, at + needle.len()) == needle
}

/// Whether `needle` stands in `hay` at the position `at`.
pub fn stands_at(needle: &[char], hay: &[char], at: usize) -> (found: bool)
    ensures
        found == occurs_at(needle@, hay@, at as int),
{
    if at > hay.len() || needle.len() > hay.len() - at {
        return false;
    }
    let mut k: usize = 0;
    while k < needle.len()
        invariant
            k <= needle.len(),
            at + needle.len() <= hay.len(),
            forall|j: int| 0 <= j < k ==> hay@[at + j] == needle@[j],
        decreases needle.len() - k,
    {
        if hay[at + k] != needle[k] {
            assert(hay@.subrange(at as int, at + needle@.len())[k as int] != needle@[k as int]);
            return false;
        }
        k = k + 1;
    }
    assert(hay@.subrange(at as int, at + needle@.len()) =~= needle@);
    true
}

/// Whether `needle` stands somewhere in `hay`.
pub fn contains_text(hay: &str, needle: &str) -> (found: bool)
    ensures
        found == occurs(needle@, hay@),
{
    let hay_chars = chars_of(hay);
    let needle_chars = chars_of(needle);
    let mut at: usize = 0;
    while at < hay_chars.len()
        invariant
            at <= hay_chars.len(),
            hay_chars@ == hay@,
            needle_chars@ == needle@,
            forall|k: int| 0 <= k < at ==> !occurs_at(needle@, hay@, k),
        decreases hay_chars.len() - at,
    {
        if stands_at(&needle_chars, &hay_chars, at) {
            return true;
        }
        at = at + 1;
    }
    stands_at(&needle_chars, &hay_chars, at)
}

/// The range that is left of a text when its white space at both ends is left out.
pub open spec fn trimmed(text: Seq<char>) -> Seq<char>
    decreases text.len(),
{
    if text.len() == 0 {
        text
    } else if white_space(text[0]) {
        trimmed(text.drop_first())
    } else if white_space(text.last()) {
        trimmed(text.drop_last())
    } else {
        text
    }
}

/// A text without the white space at both ends.
pub fn trim(text: &str) -> (core: String)
    ensures
        core@ == trimmed(text@),
{
    let chars = chars_of(text);
    let mut start: usize = 0;
    let mut end: usize = chars.len();
    assert(chars@.subrange(0, end as int) =~= chars@);
    while start < end && is_whitespace(chars[start])
        invariant
            start <= end == chars.len(),
            trimmed(chars@) == trimmed(chars@.subrange(start as int, end as int)),
        decreases end - start,
    {
        assert(chars@.subrange(start as int, end as int).drop_first()
            =~= chars@.subrange(start + 1, end as int));
        start = start + 1;
    }
    assert(start < end ==> !white_space(chars@[start as int]));
    while start < end && is_whitespace(chars[end - 1])
        invariant
            start <= end <= chars.len(),
            start < end ==> !white_space(chars@[start as int]),
            trimmed(chars@) == trimmed(chars@.subrange(start as int, end as int)),
        decreases end - start,
    {
        assert(chars@.subrange(start as int, end as int).drop_last()
            =~= chars@.subrange(start as int, end - 1));
        end = end - 1;
    }
    assert(chars@.subrange(start as int, end as int) =~= trimmed(text@));
    text_of(vstd::slice::slice_subrange(&chars, start, end))
}

/// A character with `A` to `Z` turned into `a` to `z`.
pub open spec fn ascii_lower(c: char) -> char {
    if 'A' <= c <= 'Z' {
        ((c as u8) + 32) as u8 as char
    } else {
        c
    }
}

/// A text with `A` to `Z` turned into `a` to `z`.
pub open spec fn ascii_lowercase(text: Seq<char>) -> Seq<char> {
    text.map_values(|c: char| ascii_lower(c))
}

/// A text with `A` to `Z` turned into `a` to `z`.
pub fn to_ascii_lowercase(text: &str) -> (lower: String)
    ensures
        lower@ == ascii_lowercase(text@),
{
    let chars = chars_of(text);
    let mut lower = String::new();
    let mut i: usize = 0;
    while i < chars.len()
        invariant
            i <= chars@.len(),
            lower@ == ascii_lowercase(chars@.take(i as int)),
        decreases chars@.len() - i,
    {
        let c = chars[i];
        if 'A' <= c && c <= 'Z' {
            lower.push((c as u8 + 32) as char);
        } else {
            lower.push(c);
        }
        i = i + 1;
        assert(lower@ =~= ascii_lowercase(chars@.take(i as int)));
    }
    assert(chars@.take(i as int) =~= text@);
    lower
}

/// A character with `a` to `z` turned into `A` to `Z`.
pub open spec fn ascii_upper(c: char) -> char {
    if 'a' <= c <= 'z' {
        ((c as u8) - 32) as u8 as char
    } else {
        c
    }
}

/// A text with `a` to `z` turned into `A` to `Z`.
pub open spec fn ascii_uppercase(text: Seq<char>) -> Seq<char> {
    text.map_values(|c: char| ascii_upper(c))
}

/// A text with `a` to `z` turned into `A` to `Z`.
pub fn to_ascii_uppercase(text: &str) -> (upper: String)
    ensures
        upper@ == ascii_uppercase(text@),
{
    let chars = chars_of(text);
    let mut upper = String::new();
    let mut i: usize = 0;
    while i < chars.len()
        invariant
            i <= chars@.len(),
            upper@ == ascii_uppercase(chars@.take(i as int)),
        decreases chars@.len() - i,
    {
        let c = chars[i];
        if 'a' <= c && c <= 'z' {
            upper.push((c as u8 - 32) as char);
        } else {
            upper.push(c);
        }
        i = i + 1;
        assert(upper@ =~= ascii_uppercase(chars@.take(i as int)));
    }
    assert(chars@.take(i as int) =~= text@);
    upper
}

/// Every `from` turned into `to`.
pub open spec fn replaced(text: Seq<char>, from: char, to: char) -> Seq<char> {
    text.map_values(|c: char| if c == from { to } else { c })
}

/// A text with every `from` turned into `to`.
pub fn replace_char(text: &str, from: char, to: char) -> (changed: String)
    ensures
        changed@ == replaced(text@, from, to),
{
    let chars = chars_of(text);
    let mut changed = String::new();
    let mut i: usize = 0;
    while i < chars.len()
        invariant
            i <= chars@.len(),
            changed@ == replaced(chars@.take(i as int), from, to),
        decreases chars@.len() - i,
    {
        changed.push(if chars[i] == from { to } else { chars[i] });
        i = i + 1;
        assert(changed@ =~= replaced(chars@.take(i as int), from, to));
    }
    assert(chars@.take(i as int) =~= text@);
    changed
}

/// The whole number nearest to a fraction; of two that are equally near, the even
/// one.
pub open spec fn half_even(num: nat, den: nat) -> nat {
    let q = num / den;
    let r = num % den;
    if 2 * r > den || (2 * r == den && q % 2 == 1) {
        q + 1
    } else {
        q
    }
}

pub fn round_half_even(num: u128, den: u128) -> (q: u128)
    requires
        0 < den <= 0x7fff_ffff_ffff_ffff,
        num < u128::MAX,
    ensures
        q == half_even(num as nat, den as nat),
{
    let q: u128 = num / den;
    let r: u128 = num % den;
    proof {
        vstd::arithmetic::div_mod::lemma_div_is_ordered_by_denominator(num as int, 1, den as int);
        vstd::arithmetic::div_mod::lemma_div_basics(num as int);
    }
    if 2 * r > den || (2 * r == den && q % 2 == 1) {
        q + 1
    } else {
        q
    }
}

/// The distance between the doubles around a number.
pub open spec fn double_step(n: nat) -> nat
    decreases n,
{
    if n < 0x20_0000_0000_0000 {
        1
    } else {
        2 * double_step(n / 2)
    }
}

/// The double nearest to a whole number; of two that are equally near, the one with
/// the even significand.
pub open spec fn nearest_double(n: nat) -> nat {
    half_even(n, double_step(n)) * double_step(n)
}

fn step_of(n: u64) -> (step: u64)
    ensures
        step == double_step(n as nat),
        1 <= step,
        n < 0x20_0000_0000_0000 ==> step == 1,
        n >= 0x20_0000_0000_0000 ==> step * 0x10_0000_0000_0000 <= n,
    decreases n,
{
    if n < 0x20_0000_0000_0000 {
        1
    } else {
        let half: u64 = step_of(n / 2);
        2 * half
    }
}

pub fn to_double(n: u64) -> (rounded: u128)
    ensures
        rounded == nearest_double(n as nat),
        rounded <= 0x1_0000_0000_0000_0000 * 2,
{
    let step: u64 = step_of(n);
    let q: u128 = round_half_even(n as u128, step as u128);
    proof {
        vstd::arithmetic::div_mod::lemma_fundamental_div_mod(n as int, step as int);
        let d = n as int / step as int;
        assert(q <= d + 1);
        assert(q * step <= d * step + step) by (nonlinear_arith)
            requires
                q <= d + 1,
                step >= 1,
        ;
        assert(d * step == step * d) by (nonlinear_arith);
        assert(q * step <= n + step);
    }
    q * step as u128
}

/// A number of units of `1 / 2^20` with one digit behind the point.
pub open spec fn mebi_tenths(units: nat) -> Seq<char> {
    let tenths = half_even(units * 10, 1_048_576);
    decimal(tenths / 10) + "."@ + decimal(tenths % 10)
}

/// A number of units of `1 / 2^20` with two digits behind the point.
pub open spec fn mebi_hundredths(units: nat) -> Seq<char> {
    let hundredths = half_even(units * 100, 1_048_576);
    decimal(hundredths / 100) + "."@ + decimal((hundredths % 100) / 10) + decimal(hundredths % 10)
}

/// A size in mebibytes with one digit behind the point.
pub fn append_mebi_tenths(text: &mut String, size: u64)
    ensures
        final(text)@ == old(text)@ + mebi_tenths(nearest_double(size as nat)),
{
    let tenths: u128 = round_half_even(to_double(size) * 10, 1_048_576);
    proof {
        assert(half_even((nearest_double(size as nat) * 10) as nat, 1_048_576) == tenths);
    }
    append_decimal(text, (tenths / 10) as u64);
    text.append(".");
    append_decimal(text, (tenths % 10) as u64);
    assert(text@ =~= old(text)@ + mebi_tenths(nearest_double(size as nat)));
}

/// A speed in mebibytes with two digits behind the point.
pub fn append_mebi_hundredths(text: &mut String, speed: u32)
    ensures
        final(text)@ == old(text)@ + mebi_hundredths(speed as nat),
{
    let hundredths: u128 = round_half_even(speed as u128 * 100, 1_048_576);
    append_decimal(text, (hundredths / 100) as u64);
    text.append(".");
    append_decimal(text, ((hundredths % 100) / 10) as u64);
    append_decimal(text, (hundredths % 10) as u64);
    assert(text@ =~= old(text)@ + mebi_hundredths(speed as nat));
}

} // verus!
