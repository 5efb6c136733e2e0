//! Fingerprints, identifiers, codes and tokens.

use rand::Rng;
use sha2::Digest;
use vstd::prelude::*;
use vstd::string::*;

use crate::net::client::plain_component;
use crate::path_codec::{encode, encoded};
use crate::text::{digit, same_text};

verus! {

/// The character of a hexadecimal digit.
pub open spec fn hex_char(value: int) -> char {
    if value < 10 {
        (48 + value) as u8 as char
    } else {
        (87 + value) as u8 as char
    }
}

/// Bytes in hexadecimal notation: two lower-case digits for each.
pub open spec fn hex_text(bytes: Seq<u8>) -> Seq<char>
    decreases bytes.len(),
{
    if bytes.len() == 0 {
        Seq::empty()
    } else {
        hex_text(bytes.drop_last()).push(hex_char(bytes.last() as int / 16)).push(
            hex_char(bytes.last() as int % 16),
        )
    }
}

/// Calls `hex::encode`: every byte becomes two lower-case digits, in order.
#[verifier::external_body]
pub(crate) fn encode_hex(bytes: &[u8]) -> (text: String)
    ensures
        text@ == hex_text(bytes@),
{
    hex::encode(bytes)
}

/// The SHA-256 digest of bytes, as `sha2` computes it.
pub uninterp spec fn sha256(bytes: Seq<u8>) -> Seq<u8>;

/// Calls `Sha256::digest`: the digest is a function of the bytes alone, and has 32 bytes.
#[verifier::external_body]
pub(crate) fn sha256_digest(bytes: &[u8]) -> (digest: Vec<u8>)
    ensures
        digest@ == sha256(bytes@),
        digest@.len() == 32,
{
    sha2::Sha256::digest(bytes).to_vec()
}

/// Calls `Rng::gen_range` on the thread's generator: some number of the range. It panics on an
/// empty range.
#[verifier::external_body]
pub(crate) fn random_below(bound: u32) -> (n: u32)
    requires
        bound > 0,
    ensures
        n < bound,
{
    rand::thread_rng().gen_range(0..bound)
}

/// Calls `Rng::fill` on the thread's generator. Nothing can be said of the bytes.
#[verifier::external_body]
pub(crate) fn random_bytes() -> (bytes: [u8; 32])
{
    let mut bytes = [0u8; 32];
    rand::thread_rng().fill(&mut bytes);
    bytes
}

/// Whether a text is made of lower-case hexadecimal digits.
pub open spec fn is_hex(text: Seq<char>) -> bool {
    forall|i: int|
        0 <= i < text.len() ==> ('0' <= #[trigger] text[i] <= '9' || 'a' <= text[i] <= 'f')
}

/// Hexadecimal notation has two digits for each byte.
pub proof fn law_hex_digits(bytes: Seq<u8>)
    ensures
        hex_text(bytes).len() == 2 * bytes.len(),
        is_hex(hex_text(bytes)),
    decreases bytes.len(),
{
    if bytes.len() > 0 {
        law_hex_digits(bytes.drop_last());
        let text = hex_text(bytes);
        let before = hex_text(bytes.drop_last());
        assert forall|i: int| 0 <= i < text.len() implies ('0' <= #[trigger] text[i] <= '9' || 'a'
            <= text[i] <= 'f') by {
            if i < before.len() {
                assert(text[i] == before[i]);
            }
        }
    }
}

proof fn lemma_hex_char(a: int, b: int)
    requires
        0 <= a < 16,
        0 <= b < 16,
        hex_char(a) == hex_char(b),
    ensures
        a == b,
{
    assert(hex_char(a) as u32 == if a < 10 {
        48 + a
    } else {
        87 + a
    });
    assert(hex_char(b) as u32 == if b < 10 {
        48 + b
    } else {
        87 + b
    });
}

/// Different bytes are written differently.
pub proof fn law_hex_tells_bytes_apart(a: Seq<u8>, b: Seq<u8>)
    requires
        hex_text(a) == hex_text(b),
    ensures
        a == b,
    decreases a.len(),
{
    law_hex_digits(a);
    law_hex_digits(b);
    if a.len() > 0 {
        let x = hex_text(a);
        let n = x.len() as int;
        let left = hex_text(a.drop_last());
        let right = hex_text(b.drop_last());
        law_hex_digits(a.drop_last());
        law_hex_digits(b.drop_last());
        assert(left =~= x.take(n - 2));
        assert(right =~= x.take(n - 2));
        law_hex_tells_bytes_apart(a.drop_last(), b.drop_last());
        assert(x[n - 1] == hex_char(a.last() as int % 16));
        assert(x[n - 1] == hex_char(b.last() as int % 16));
        assert(x[n - 2] == hex_char(a.last() as int / 16));
        assert(x[n - 2] == hex_char(b.last() as int / 16));
        lemma_hex_char(a.last() as int % 16, b.last() as int % 16);
        lemma_hex_char(a.last() as int / 16, b.last() as int / 16);
        assert(a =~= a.drop_last().push(a.last()));
        assert(b =~= b.drop_last().push(b.last()));
    } else {
        assert(a =~= b);
    }
}

/// The digest of bytes in hexadecimal notation.
pub open spec fn digest_text(bytes: Seq<u8>) -> Seq<char> {
    hex_text(sha256(bytes))
}

fn digest_of(bytes: &[u8]) -> (text: String)
    ensures
        text@ == digest_text(bytes@),
        text@.len() == 64,
        is_hex(text@),
{
    let digest = sha256_digest(bytes);
    proof {
        law_hex_digits(digest@);
    }
    encode_hex(&digest)
}

/// The fingerprint of a certificate.
pub fn fingerprint(cert: &[u8]) -> (text: String)
    ensures
        text@ == digest_text(cert@),
        text@.len() == 64,
        is_hex(text@),
{
    digest_of(cert)
}

/// The identifier that a server gives the track at a path: the digest of the path's bytes.
pub fn remote_id_for(path: &str) -> (id: String)
    ensures
        id@ == digest_text(encoded(path@)),
        id@.len() == 64,
        is_hex(id@),
{
    let bytes = encode(path);
    digest_of(&bytes)
}

/// Fingerprints and identifiers can be names of files.
pub proof fn law_hex_is_a_file_name(text: Seq<char>)
    requires
        is_hex(text),
        text.len() > 0,
    ensures
        plain_component(text),
{
    assert forall|i: int| 0 <= i < text.len() implies text[i] != '/' by {
        assert('0' <= text[i] <= '9' || 'a' <= text[i] <= 'f');
    }
}

/// What is said of a certificate that is not the pinned one.
pub open spec fn mismatch_text(found: Seq<char>, expected: Seq<char>) -> Seq<char> {
    "server certificate fingerprint "@ + found + " does not match pinned "@ + expected
}

/// Whether a certificate is trusted: any is where none is pinned, and then the pinned one
/// alone. Gives the fingerprint, or what is wrong.
pub fn check_certificate(expected: Option<&str>, cert: &[u8]) -> (outcome: Result<String, String>)
    ensures
        match outcome {
            Ok(found) => found@ == digest_text(cert@) && (expected matches Some(pinned) ==> pinned@
                == found@),
            Err(error) => expected matches Some(pinned) && pinned@ != digest_text(cert@) && error@
                == mismatch_text(digest_text(cert@), pinned@),
        },
{
    let found = fingerprint(cert);
    if let Some(pinned) = expected {
        if !same_text(pinned, &found) {
            let mut error = "server certificate fingerprint ".to_owned();
            error.append(&found);
            error.append(" does not match pinned ");
            error.append(pinned);
            return Err(error);
        }
    }
    Ok(found)
}

/// A number below a million in six digits.
pub open spec fn six_digits(n: nat) -> Seq<char> {
    seq![
        digit(n / 100_000 % 10),
        digit(n / 10_000 % 10),
        digit(n / 1000 % 10),
        digit(n / 100 % 10),
        digit(n / 10 % 10),
        digit(n % 10),
    ]
}

/// Writes a number below a million in six digits.
pub fn pairing_code_text(n: u32) -> (code: String)
    requires
        n < 1_000_000,
    ensures
        code@ == six_digits(n as nat),
{
    let mut code = String::new();
    code.push((48 + (n / 100_000 % 10) as u8) as char);
    code.push((48 + (n / 10_000 % 10) as u8) as char);
    code.push((48 + (n / 1000 % 10) as u8) as char);
    code.push((48 + (n / 100 % 10) as u8) as char);
    code.push((48 + (n / 10 % 10) as u8) as char);
    code.push((48 + (n % 10) as u8) as char);
    assert(code@ =~= six_digits(n as nat));
    code
}

/// Whether a text is a pairing code.
pub open spec fn is_code(code: Seq<char>) -> bool {
    exists|n: nat| n < 1_000_000 && code == #[trigger] six_digits(n)
}

/// Makes up a pairing code.
pub fn generate_pairing_code() -> (code: String)
    ensures
        is_code(code@),
{
    let n: u32 = random_below(1_000_000);
    pairing_code_text(n)
}

/// Different numbers give different codes, and a code is six digits long.
pub proof fn law_codes_tell_numbers_apart(a: nat, b: nat)
    requires
        a < 1_000_000,
        b < 1_000_000,
    ensures
        six_digits(a).len() == 6,
        six_digits(a) == six_digits(b) ==> a == b,
{
    if six_digits(a) == six_digits(b) {
        lemma_same_digits(a, b);
        lemma_digits_make_up(a);
        lemma_digits_make_up(b);
    }
}

proof fn lemma_same_digits(a: nat, b: nat)
    requires
        six_digits(a) == six_digits(b),
    ensures
        a / 100_000 % 10 == b / 100_000 % 10,
        a / 10_000 % 10 == b / 10_000 % 10,
        a / 1000 % 10 == b / 1000 % 10,
        a / 100 % 10 == b / 100 % 10,
        a / 10 % 10 == b / 10 % 10,
        a % 10 == b % 10,
{
    let x = six_digits(a);
    let y = six_digits(b);
    assert(x[0] == y[0] && x[1] == y[1] && x[2] == y[2]);
    assert(x[3] == y[3] && x[4] == y[4] && x[5] == y[5]);
    lemma_digit(a / 100_000 % 10, b / 100_000 % 10);
    lemma_digit(a / 10_000 % 10, b / 10_000 % 10);
    lemma_digit(a / 1000 % 10, b / 1000 % 10);
    lemma_digit(a / 100 % 10, b / 100 % 10);
    lemma_digit(a / 10 % 10, b / 10 % 10);
    lemma_digit(a % 10, b % 10);
}

/// A number is what its digits say.
proof fn lemma_digits_make_up(n: nat)
    requires
        n < 1_000_000,
    ensures
        n == 100_000 * (n / 100_000 % 10) + 10_000 * (n / 10_000 % 10) + 1000 * (n / 1000 % 10)
            + 100 * (n / 100 % 10) + 10 * (n / 10 % 10) + n % 10,
{
    let a = n / 10;
    let b = n / 100;
    let c = n / 1000;
    let d = n / 10_000;
    let e = n / 100_000;
    assert(n == 10 * a + n % 10);
    assert(a == 10 * b + a % 10) by {
        assert(b == a / 10);
    }
    assert(b == 10 * c + b % 10) by {
        assert(c == b / 10);
    }
    assert(c == 10 * d + c % 10) by {
        assert(d == c / 10);
    }
    assert(d == 10 * e + d % 10) by {
        assert(e == d / 10);
    }
    assert(e % 10 == e);
}

proof fn lemma_digit(a: nat, b: nat)
    requires
        a < 10,
        b < 10,
        digit(a) == digit(b),
    ensures
        a == b,
{
    assert(digit(a) as u32 == 48 + a);
    assert(digit(b) as u32 == 48 + b);
}

/// Makes up a token: 32 random bytes in hexadecimal notation.
pub fn generate_token() -> (token: String)
    ensures
        token@.len() == 64,
        is_hex(token@),
{
    let bytes = random_bytes();
    let slice: &[u8] = &bytes;
    proof {
        law_hex_digits(slice@);
    }
    encode_hex(slice)
}

} // verus!
