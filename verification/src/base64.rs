//! Bytes in base 64.

use vstd::prelude::*;
use vstd::string::*;
use vstd::utf8::{encode_utf8, is_ascii_chars};

verus! {

/// The value of a character of the base 64 alphabet.
pub open spec fn sextet(byte: u8) -> Option<u8> {
    if 65 <= byte <= 90 {
        Some((byte - 65) as u8)
    } else if 97 <= byte <= 122 {
        Some((byte - 71) as u8)
    } else if 48 <= byte <= 57 {
        Some((byte + 4) as u8)
    } else if byte == 43 {
        Some(62)
    } else if byte == 47 {
        Some(63)
    } else {
        None
    }
}

fn sextet_of(byte: u8) -> (value: Option<u8>)
    ensures
        value == sextet(byte),
        value matches Some(v) ==> v < 64,
{
    if 65 <= byte && byte <= 90 {
        Some(byte - 65)
    } else if 97 <= byte && byte <= 122 {
        Some(byte - 71)
    } else if 48 <= byte && byte <= 57 {
        Some(byte + 4)
    } else if byte == 43 {
        Some(62)
    } else if byte == 47 {
        Some(63)
    } else {
        None
    }
}

/// Whether a byte carries data: it is neither white space nor padding.
pub open spec fn carries(byte: u8) -> bool {
    !(byte == 32 || byte == 9 || byte == 10 || byte == 12 || byte == 13 || byte == 61)
}

/// The bytes that at most four characters of the base 64 alphabet write.
pub open spec fn group_bytes(group: Seq<u8>) -> Option<Seq<u8>> {
    if group.len() < 2 {
        None
    } else {
        match (sextet(group[0]), sextet(group[1])) {
            (Some(a), Some(b)) => {
                let first = seq![(a * 4 + b / 16) as u8];
                if group.len() == 2 {
                    Some(first)
                } else {
                    match sextet(group[2]) {
                        Some(c) => {
                            let second = first.push(((b % 16) * 16 + c / 4) as u8);
                            if group.len() == 3 {
                                Some(second)
                            } else {
                                match sextet(group[3]) {
                                    Some(d) => Some(second.push(((c % 4) * 64 + d) as u8)),
                                    None => None,
                                }
                            }
                        },
                        None => None,
                    }
                }
            },
            _ => None,
        }
    }
}

/// The bytes that characters of the base 64 alphabet write, four at a time.
pub open spec fn ungrouped(data: Seq<u8>) -> Option<Seq<u8>>
    decreases data.len(),
{
    if data.len() == 0 {
        Some(Seq::empty())
    } else if data.len() <= 4 {
        group_bytes(data)
    } else {
        match (group_bytes(data.take(4)), ungrouped(data.skip(4))) {
            (Some(first), Some(rest)) => Some(first + rest),
            _ => None,
        }
    }
}

/// The bytes that a text writes in base 64; white space and padding count for nothing.
pub open spec fn base64(text: Seq<char>) -> Option<Seq<u8>> {
    ungrouped(encode_utf8(text).filter(|byte: u8| carries(byte)))
}

fn carrying(input: &str) -> (data: Vec<u8>)
    ensures
        data@ == encode_utf8(input@).filter(|byte: u8| carries(byte)),
{
    let bytes = input.as_bytes();
    let ghost keep = |byte: u8| carries(byte);
    let mut data: Vec<u8> = Vec::new();
    let mut i: usize = 0;
    proof {
        reveal(Seq::filter);
    }
    assert(data@ =~= bytes@.take(0).filter(keep));
    while i < bytes.len()
        invariant
            i <= bytes@.len(),
            keep == (|byte: u8| carries(byte)),
            data@ == bytes@.take(i as int).filter(keep),
        decreases bytes@.len() - i,
    {
        proof {
            crate::order::lemma_filter_take(bytes@, keep, i as int);
        }
        let byte: u8 = bytes[i];
        if !(byte == 32 || byte == 9 || byte == 10 || byte == 12 || byte == 13 || byte == 61) {
            data.push(byte);
        }
        i = i + 1;
    }
    assert(bytes@.take(i as int) =~= bytes@);
    data
}

/// Reads base 64.
pub fn decode_base64(input: &str) -> (decoded: Option<Vec<u8>>)
    ensures
        base64(input@) == match decoded {
            Some(bytes) => Some(bytes@),
            None => None,
        },
{
    let data = carrying(input);
    let mut out: Vec<u8> = Vec::new();
    let mut i: usize = 0;
    let ghost whole = ungrouped(data@);
    assert(data@.skip(0) =~= data@);
    assert(whole is Some ==> whole->0 =~= out@ + ungrouped(data@.skip(0))->0);
    while i < data.len()
        invariant
            i <= data@.len(),
            whole == ungrouped(data@),
            data@ == encode_utf8(input@).filter(|byte: u8| carries(byte)),
            whole is Some <==> ungrouped(data@.skip(i as int)) is Some,
            whole is Some ==> whole->0 == out@ + ungrouped(data@.skip(i as int))->0,
        decreases data@.len() - i,
    {
        let ghost rest = data@.skip(i as int);
        let left: usize = data.len() - i;
        let size: usize = if left < 4 { left } else { 4 };
        let ghost group = rest.take(size as int);
        assert(forall|k: int| 0 <= k < size ==> group[k] == #[trigger] data@[i + k]);
        assert(rest.len() <= 4 ==> group =~= rest);
        assert(rest.len() > 4 ==> rest.skip(4) =~= data@.skip(i + 4));
        let ghost before = out@;
        if size < 2 {
            return None;
        }
        assert(group[0] == data@[i + 0] && group[1] == data@[i + 1]);
        let (a, b) = match (sextet_of(data[i]), sextet_of(data[i + 1])) {
            (Some(a), Some(b)) => (a, b),
            _ => {
                return None;
            },
        };
        out.push(a * 4 + b / 16);
        if size >= 3 {
            assert(group[2] == data@[i + 2]);
            let c: u8 = match sextet_of(data[i + 2]) {
                Some(c) => c,
                None => {
                    return None;
                },
            };
            out.push((b % 16) * 16 + c / 4);
            if size == 4 {
                assert(group[3] == data@[i + 3]);
                let d: u8 = match sextet_of(data[i + 3]) {
                    Some(d) => d,
                    None => {
                        return None;
                    },
                };
                out.push((c % 4) * 64 + d);
            }
        }
        assert(group_bytes(group) is Some);
        assert(out@ =~= before + group_bytes(group)->0);
        i = i + size;
        assert(data@.skip(data@.len() as int) =~= Seq::empty());
        assert(whole is Some ==> whole->0 =~= out@ + ungrouped(data@.skip(i as int))->0);
    }
    assert(data@.skip(i as int) =~= Seq::empty());
    assert(whole->0 =~= out@);
    Some(out)
}

/// The character that writes a number below 64 in base 64.
pub open spec fn sextet_byte(value: int) -> u8 {
    if value < 26 {
        (65 + value) as u8
    } else if value < 52 {
        (71 + value) as u8
    } else if value < 62 {
        (value - 4) as u8
    } else if value == 62 {
        43
    } else {
        47
    }
}

/// Bytes written in base 64, without padding.
pub open spec fn base64_data(bytes: Seq<u8>) -> Seq<u8>
    decreases bytes.len(),
{
    if bytes.len() == 0 {
        Seq::empty()
    } else if bytes.len() == 1 {
        seq![sextet_byte(bytes[0] as int / 4), sextet_byte((bytes[0] % 4) * 16)]
    } else if bytes.len() == 2 {
        seq![
            sextet_byte(bytes[0] as int / 4),
            sextet_byte((bytes[0] % 4) * 16 + bytes[1] / 16),
            sextet_byte((bytes[1] % 16) * 4),
        ]
    } else {
        seq![
            sextet_byte(bytes[0] as int / 4),
            sextet_byte((bytes[0] % 4) * 16 + bytes[1] / 16),
            sextet_byte((bytes[1] % 16) * 4 + bytes[2] / 64),
            sextet_byte(bytes[2] as int % 64),
        ] + base64_data(bytes.skip(3))
    }
}

proof fn lemma_sextet(value: int)
    requires
        0 <= value < 64,
    ensures
        sextet(sextet_byte(value)) == Some(value as u8),
{
}

/// Three bytes, or fewer, make four characters, or one more than they are, which write them.
proof fn lemma_group(bytes: Seq<u8>)
    requires
        0 < bytes.len() <= 3,
    ensures
        group_bytes(base64_data(bytes).take(bytes.len() as int + 1)) == Some(bytes),
        base64_data(bytes).len() == bytes.len() + 1,
{
    let data = base64_data(bytes);
    let a = bytes[0] as int;
    lemma_sextet(a / 4);
    if bytes.len() == 1 {
        lemma_sextet((a % 4) * 16);
        assert(data.take(2) =~= data);
        assert(group_bytes(data)->0 =~= bytes);
    } else {
        let b = bytes[1] as int;
        lemma_sextet((a % 4) * 16 + b / 16);
        if bytes.len() == 2 {
            lemma_sextet((b % 16) * 4);
            assert(data.take(3) =~= data);
            assert(group_bytes(data)->0 =~= bytes);
        } else {
            let c = bytes[2] as int;
            lemma_sextet((b % 16) * 4 + c / 64);
            lemma_sextet(c % 64);
            assert(bytes.skip(3) =~= Seq::empty());
            assert(base64_data(bytes.skip(3)) =~= Seq::empty());
            assert(data.take(4) =~= data);
            assert(group_bytes(data)->0 =~= bytes);
        }
    }
}

/// What was written in base 64 is read back as it was.
pub proof fn law_base64_round_trips(bytes: Seq<u8>)
    ensures
        ungrouped(base64_data(bytes)) == Some(bytes),
    decreases bytes.len(),
{
    let data = base64_data(bytes);
    if bytes.len() == 0 {
        assert(bytes =~= Seq::empty());
    } else if bytes.len() <= 3 {
        lemma_group(bytes);
        assert(data.take(bytes.len() as int + 1) =~= data);
    } else {
        let first = bytes.take(3);
        let rest = bytes.skip(3);
        law_base64_round_trips(rest);
        lemma_group(first);
        assert(first.skip(3) =~= Seq::empty());
        assert(data.take(4) =~= base64_data(first));
        assert(base64_data(first).take(4) =~= base64_data(first));
        assert(data.skip(4) =~= base64_data(rest));
        lemma_data_is_longer(rest);
        assert(first + rest =~= bytes);
    }
}

proof fn lemma_data_is_longer(bytes: Seq<u8>)
    ensures
        base64_data(bytes).len() >= bytes.len(),
    decreases bytes.len(),
{
    if bytes.len() >= 3 {
        lemma_data_is_longer(bytes.skip(3));
    }
}

/// The padding that fills up the last four characters.
pub open spec fn padding(data: int) -> int {
    (4 - data % 4) % 4
}

/// Bytes written in base 64, filled up to a multiple of four characters.
pub open spec fn base64_text(bytes: Seq<u8>) -> Seq<char> {
    let data = base64_data(bytes);
    data.map_values(|byte: u8| byte as char) + Seq::new(
        padding(data.len() as int) as nat,
        |i: int| '=',
    )
}

fn sextet_char(value: u8) -> (c: char)
    requires
        value < 64,
    ensures
        c == sextet_byte(value as int) as char,
{
    if value < 26 {
        (65 + value) as char
    } else if value < 52 {
        (71 + value) as char
    } else if value < 62 {
        (value - 4) as char
    } else if value == 62 {
        '+'
    } else {
        '/'
    }
}

/// Writes bytes in base 64.
pub fn encode_base64(bytes: &Vec<u8>) -> (text: String)
    ensures
        text@ == base64_text(bytes@),
{
    let mut text = String::new();
    let mut i: usize = 0;
    let ghost whole = base64_data(bytes@).map_values(|byte: u8| byte as char);
    assert(bytes@.skip(0) =~= bytes@);
    assert(whole =~= text@ + base64_data(bytes@.skip(0)).map_values(|byte: u8| byte as char));
    while i < bytes.len()
        invariant
            i <= bytes@.len(),
            text@.len() % 4 == 0,
            whole == base64_data(bytes@).map_values(|byte: u8| byte as char),
            whole == text@ + base64_data(bytes@.skip(i as int)).map_values(
                |byte: u8| byte as char,
            ),
        decreases bytes@.len() - i,
    {
        let ghost rest = bytes@.skip(i as int);
        let left: usize = bytes.len() - i;
        let a: u8 = bytes[i];
        assert(rest[0] == a);
        let ghost before = text@;
        text.push(sextet_char(a / 4));
        if left == 1 {
            text.push(sextet_char((a % 4) * 16));
            assert(whole =~= text@);
            text.push('=');
            text.push('=');
            assert(text@ =~= base64_text(bytes@));
            return text;
        }
        let b: u8 = bytes[i + 1];
        assert(rest[1] == b);
        text.push(sextet_char((a % 4) * 16 + b / 16));
        if left == 2 {
            text.push(sextet_char((b % 16) * 4));
            assert(whole =~= text@);
            text.push('=');
            assert(text@ =~= base64_text(bytes@));
            return text;
        }
        let c: u8 = bytes[i + 2];
        assert(rest[2] == c);
        text.push(sextet_char((b % 16) * 4 + c / 64));
        text.push(sextet_char(c % 64));
        assert(rest.skip(3) =~= bytes@.skip(i + 3));
        i = i + 3;
        assert(whole =~= text@ + base64_data(bytes@.skip(i as int)).map_values(
            |byte: u8| byte as char,
        ));
    }
    assert(bytes@.skip(i as int) =~= Seq::empty());
    assert(whole =~= text@);
    assert(text@ =~= base64_text(bytes@));
    text
}

proof fn lemma_data_carries(bytes: Seq<u8>, i: int)
    requires
        0 <= i < base64_data(bytes).len(),
    ensures
        carries(base64_data(bytes)[i]),
        base64_data(bytes)[i] < 128,
    decreases bytes.len(),
{
    if bytes.len() >= 3 && i >= 4 {
        lemma_data_carries(bytes.skip(3), i - 4);
        assert(base64_data(bytes)[i] == base64_data(bytes.skip(3))[i - 4]);
    }
}

/// Bytes that were written with padding are read back as they were.
pub proof fn law_padded_base64_round_trips(bytes: Seq<u8>)
    ensures
        base64(base64_text(bytes)) == Some(bytes),
{
    let data = base64_data(bytes);
    let text = base64_text(bytes);
    let keep = |byte: u8| carries(byte);
    assert forall|i: int| 0 <= i < data.len() implies carries(#[trigger] data[i]) && data[i]
        < 128 by {
        lemma_data_carries(bytes, i);
    }
    assert(is_ascii_chars(text));
    vstd::utf8::is_ascii_chars_encode_utf8(text);
    let pad = Seq::new(padding(data.len() as int) as nat, |i: int| 61u8);
    assert(encode_utf8(text) =~= data + pad);
    crate::order::lemma_filter_concat(data, pad, keep);
    crate::order::lemma_filter_all(data, keep);
    crate::order::lemma_filter_none(pad, keep);
    assert(data + pad.filter(keep) =~= data);
    law_base64_round_trips(bytes);
}

} // verus!
