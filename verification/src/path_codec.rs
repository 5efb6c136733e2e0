//! Paths of any bytes as text.
//!
//! A byte that is no part of a text is written as a mark and two hexadecimal digits, so that
//! every path has a text of its own and can be had back from it.

use vstd::prelude::*;
use vstd::slice::{slice_subrange, slice_to_vec};
use vstd::string::*;
use vstd::utf8::{decode_utf8, encode_utf8, valid_utf8};

use crate::drop::text_from_utf8;
use crate::net::identity::hex_char;
use crate::text::{chars_of, lossy_text, text_from_utf8_lossy};

verus! {

/// The mark in front of a byte that is no part of a text: a character for private use.
pub open spec fn mark() -> char {
    '\u{f8f7}'
}

/// How many bytes make up the first character; zero where they make up none.
pub open spec fn first_char_bytes(bytes: Seq<u8>, n: int) -> int
    decreases 5 - n,
{
    if n > 4 || n > bytes.len() {
        0
    } else if valid_utf8(bytes.take(n)) {
        n
    } else {
        first_char_bytes(bytes, n + 1)
    }
}

/// A byte behind its mark.
pub open spec fn escaped(byte: u8) -> Seq<char> {
    seq![mark(), hex_char(byte as int / 16), hex_char(byte as int % 16)]
}

/// The text of a path that is given in bytes.
pub open spec fn decoded(bytes: Seq<u8>) -> Seq<char>
    decreases bytes.len(),
{
    if bytes.len() == 0 {
        Seq::empty()
    } else {
        let n = first_char_bytes(bytes, 1);
        if 0 < n <= bytes.len() && !decode_utf8(bytes.take(n)).contains(mark()) {
            decode_utf8(bytes.take(n)) + decoded(bytes.skip(n))
        } else {
            escaped(bytes[0]) + decoded(bytes.skip(1))
        }
    }
}

/// The value of a hexadecimal digit.
pub open spec fn digit_of(c: char) -> Option<int> {
    if '0' <= c <= '9' {
        Some(c as int - 48)
    } else if 'a' <= c <= 'f' {
        Some(c as int - 87)
    } else {
        None
    }
}

/// Whether a text begins with a byte behind its mark.
pub open spec fn begins_escaped(text: Seq<char>) -> bool {
    text.len() >= 3 && text[0] == mark() && digit_of(text[1]) is Some && digit_of(text[2]) is Some
}

/// The bytes of a path that is given as text.
pub open spec fn encoded(text: Seq<char>) -> Seq<u8>
    decreases text.len(),
{
    if text.len() == 0 {
        Seq::empty()
    } else if begins_escaped(text) {
        seq![(digit_of(text[1])->0 * 16 + digit_of(text[2])->0) as u8] + encoded(text.skip(3))
    } else {
        encode_utf8(seq![text[0]]) + encoded(text.skip(1))
    }
}

proof fn lemma_first_char_bytes(bytes: Seq<u8>, n: int)
    requires
        1 <= n,
    ensures
        0 <= first_char_bytes(bytes, n) <= bytes.len(),
        first_char_bytes(bytes, n) > 0 ==> valid_utf8(bytes.take(first_char_bytes(bytes, n))),
    decreases 5 - n,
{
    if n <= 4 && n <= bytes.len() && !valid_utf8(bytes.take(n)) {
        lemma_first_char_bytes(bytes, n + 1);
    }
}

proof fn lemma_digit(value: int)
    requires
        0 <= value < 16,
    ensures
        digit_of(hex_char(value)) == Some(value),
{
}

/// A text without the mark is written as it is.
proof fn lemma_plain(text: Seq<char>, rest: Seq<char>)
    requires
        !text.contains(mark()),
    ensures
        encoded(text + rest) == encode_utf8(text) + encoded(rest),
    decreases text.len(),
{
    if text.len() == 0 {
        assert(text + rest =~= rest);
        assert(encode_utf8(text) + encoded(rest) =~= encoded(rest));
    } else {
        let whole = text + rest;
        let tail = text.skip(1);
        assert(text.contains(text[0]));
        assert(whole[0] == text[0]);
        assert(!tail.contains(mark())) by {
            if tail.contains(mark()) {
                let k = choose|k: int| 0 <= k < tail.len() && tail[k] == mark();
                assert(text[k + 1] == mark());
            }
        }
        lemma_plain(tail, rest);
        assert(whole.skip(1) =~= tail + rest);
        assert(text.drop_first() =~= tail);
        let one = seq![text[0]];
        assert(one.drop_first() =~= Seq::empty());
        reveal_with_fuel(encode_utf8, 2);
        assert(encode_utf8(one) =~= vstd::utf8::encode_scalar(text[0] as u32));
        assert(encoded(whole) =~= encode_utf8(text) + encoded(rest));
    }
}

/// Every path is had back from its text, whatever its bytes are.
pub proof fn law_paths_round_trip(bytes: Seq<u8>)
    ensures
        encoded(decoded(bytes)) == bytes,
    decreases bytes.len(),
{
    if bytes.len() == 0 {
        assert(bytes =~= Seq::empty());
    } else {
        let n = first_char_bytes(bytes, 1);
        lemma_first_char_bytes(bytes, 1);
        if 0 < n <= bytes.len() && !decode_utf8(bytes.take(n)).contains(mark()) {
            let head = decode_utf8(bytes.take(n));
            law_paths_round_trip(bytes.skip(n));
            lemma_plain(head, decoded(bytes.skip(n)));
            vstd::utf8::decode_utf8_encode_utf8(bytes.take(n));
            assert(bytes.take(n) + bytes.skip(n) =~= bytes);
        } else {
            let byte = bytes[0];
            let rest = decoded(bytes.skip(1));
            let text = escaped(byte) + rest;
            law_paths_round_trip(bytes.skip(1));
            lemma_digit(byte as int / 16);
            lemma_digit(byte as int % 16);
            assert(text[0] == mark());
            assert(text[1] == hex_char(byte as int / 16));
            assert(text[2] == hex_char(byte as int % 16));
            assert(text.skip(3) =~= rest);
            assert(encoded(text) =~= seq![byte] + encoded(rest));
            assert(seq![byte] + bytes.skip(1) =~= bytes);
        }
    }
}

fn push_hex(text: &mut String, value: u8)
    requires
        value < 16,
    ensures
        final(text)@ == old(text)@.push(hex_char(value as int)),
{
    if value < 10 {
        text.push((48 + value) as char);
    } else {
        text.push((87 + value) as char);
    }
}

/// The first character in bytes, as text, and how many bytes it takes; `n` bytes are tried
/// first.
fn first_char(bytes: &[u8], n: usize) -> (found: Option<(String, usize)>)
    requires
        1 <= n,
    ensures
        match found {
            Some((text, size)) => size == first_char_bytes(bytes@, n as int) && size > 0 && text@
                == decode_utf8(bytes@.take(size as int)),
            None => first_char_bytes(bytes@, n as int) == 0,
        },
    decreases 5 - n,
{
    if n > 4 || n > bytes.len() {
        return None;
    }
    let head = slice_to_vec(slice_subrange(bytes, 0, n));
    assert(head@ =~= bytes@.take(n as int));
    match text_from_utf8(head) {
        Some(text) => Some((text, n)),
        None => first_char(bytes, n + 1),
    }
}

fn holds_mark(text: &str) -> (found: bool)
    ensures
        found == text@.contains(mark()),
{
    let chars = chars_of(text);
    let mut i: usize = 0;
    while i < chars.len()
        invariant
            i <= chars@.len(),
            chars@ == text@,
            forall|k: int| 0 <= k < i ==> chars@[k] != mark(),
        decreases chars@.len() - i,
    {
        if chars[i] == '\u{f8f7}' {
            assert(text@[i as int] == mark());
            return true;
        }
        i = i + 1;
    }
    false
}

/// The text of a path that is given in bytes.
pub fn decode(bytes: &[u8]) -> (text: String)
    ensures
        text@ == decoded(bytes@),
{
    let mut text = String::new();
    let mut i: usize = 0;
    let ghost whole = decoded(bytes@);
    assert(bytes@.skip(0) =~= bytes@);
    assert(whole =~= text@ + decoded(bytes@.skip(0)));
    while i < bytes.len()
        invariant
            i <= bytes@.len(),
            whole == decoded(bytes@),
            whole == text@ + decoded(bytes@.skip(i as int)),
        decreases bytes@.len() - i,
    {
        let rest = slice_subrange(bytes, i, bytes.len());
        assert(rest@ =~= bytes@.skip(i as int));
        let ghost before = text@;
        proof {
            lemma_first_char_bytes(rest@, 1);
        }
        let mut taken: usize = 0;
        if let Some((head, size)) = first_char(rest, 1) {
            if !holds_mark(&head) {
                text.append(&head);
                taken = size;
                assert(rest@.skip(size as int) =~= bytes@.skip(i + size));
            }
        }
        if taken == 0 {
            text.push('\u{f8f7}');
            push_hex(&mut text, bytes[i] / 16);
            push_hex(&mut text, bytes[i] % 16);
            assert(text@ =~= before + escaped(bytes@[i as int]));
            assert(rest@[0] == bytes@[i as int]);
            assert(rest@.skip(1) =~= bytes@.skip(i + 1));
            taken = 1;
        }
        i = i + taken;
        assert(whole =~= text@ + decoded(bytes@.skip(i as int)));
    }
    assert(bytes@.skip(i as int) =~= Seq::empty());
    assert(whole =~= text@);
    text
}

fn hex_value(c: char) -> (value: Option<u8>)
    ensures
        digit_of(c) == match value {
            Some(value) => Some(value as int),
            None => None,
        },
        value matches Some(v) ==> v < 16,
{
    if '0' <= c && c <= '9' {
        Some(c as u8 - 48)
    } else if 'a' <= c && c <= 'f' {
        Some(c as u8 - 87)
    } else {
        None
    }
}

fn marked_byte(chars: &Vec<char>, i: usize) -> (byte: Option<u8>)
    requires
        i < chars@.len(),
    ensures
        match byte {
            Some(byte) => begins_escaped(chars@.skip(i as int)) && byte == digit_of(
                chars@[i + 1],
            )->0 * 16 + digit_of(chars@[i + 2])->0,
            None => !begins_escaped(chars@.skip(i as int)),
        },
{
    let ghost rest = chars@.skip(i as int);
    assert(rest[0] == chars@[i as int]);
    if chars[i] != '\u{f8f7}' || chars.len() - i < 3 {
        return None;
    }
    assert(rest[1] == chars@[i + 1] && rest[2] == chars@[i + 2]);
    match (hex_value(chars[i + 1]), hex_value(chars[i + 2])) {
        (Some(high), Some(low)) => Some(high * 16 + low),
        _ => None,
    }
}

/// The bytes of a path that is given as text.
pub fn encode(text: &str) -> (bytes: Vec<u8>)
    ensures
        bytes@ == encoded(text@),
{
    let chars = chars_of(text);
    let mut bytes: Vec<u8> = Vec::new();
    let mut i: usize = 0;
    let ghost whole = encoded(chars@);
    assert(chars@.skip(0) =~= chars@);
    assert(whole =~= bytes@ + encoded(chars@.skip(0)));
    while i < chars.len()
        invariant
            i <= chars@.len(),
            whole == encoded(chars@),
            whole == bytes@ + encoded(chars@.skip(i as int)),
        decreases chars@.len() - i,
    {
        let ghost rest = chars@.skip(i as int);
        let ghost before = bytes@;
        assert(rest[0] == chars@[i as int]);
        match marked_byte(&chars, i) {
            Some(byte) => {
                bytes.push(byte);
                assert(rest[1] == chars@[i + 1] && rest[2] == chars@[i + 2]);
                assert(rest.skip(3) =~= chars@.skip(i + 3));
                i = i + 3;
            },
            None => {
                let mut one = String::new();
                one.push(chars[i]);
                assert(one@ =~= seq![chars@[i as int]]);
                let mut raw = slice_to_vec(one.as_str().as_bytes());
                bytes.append(&mut raw);
                assert(rest.skip(1) =~= chars@.skip(i + 1));
                i = i + 1;
            },
        }
        assert(whole =~= bytes@ + encoded(chars@.skip(i as int)));
    }
    assert(chars@.skip(i as int) =~= Seq::empty());
    assert(whole =~= bytes@);
    bytes
}

/// How a path is shown: bytes that are no part of a text have replacement characters in their
/// place.
pub open spec fn shown_path(path: Seq<char>) -> Seq<char> {
    lossy_text(encoded(path))
}

/// How a path is shown; one that is a text is shown as it is.
pub fn show_path(path: &str) -> (text: String)
    ensures
        text@ == shown_path(path@),
        !path@.contains(mark()) ==> text@ == path@,
{
    let bytes = encode(path);
    proof {
        if !path@.contains(mark()) {
            lemma_plain(path@, Seq::empty());
            assert(path@ + Seq::<char>::empty() =~= path@);
            assert(bytes@ =~= encode_utf8(path@));
            vstd::utf8::encode_utf8_valid_utf8(path@);
            vstd::utf8::encode_utf8_decode_utf8(path@);
        }
    }
    text_from_utf8_lossy(&bytes)
}

} // verus!
