//! SHA-256 digests as lowercase hex, for archive names and telemetry.

use sha2::Digest;
use vstd::prelude::*;

use crate::text::string_from;

verus! {

/// The SHA-256 digest of `bytes`.
pub uninterp spec fn sha256(bytes: Seq<u8>) -> Seq<u8>;

/// `sha2::Sha256::digest`: the SHA-256 digest of `bytes`, which is 32
/// bytes long (the hash's fixed output size). What the digest is, is not
/// stated beyond naming it [`sha256`].
#[verifier::external_body]
fn sha256_digest(bytes: &[u8]) -> (r: Vec<u8>)
    ensures
        r@ == sha256(bytes@),
        r@.len() == 32,
{
    sha2::Sha256::digest(bytes).to_vec()
}

/// One lowercase hex digit.
pub open spec fn hex_digit(d: u8) -> char {
    if d < 10 {
        ((d + 48) as u8) as char
    } else {
        ((d + 87) as u8) as char
    }
}

/// Bytes as lowercase hex, two digits each (`{:x}` on a digest).
pub open spec fn hex(bs: Seq<u8>) -> Seq<char>
    decreases bs.len(),
{
    if bs.len() == 0 {
        Seq::empty()
    } else {
        hex(bs.drop_last()) + seq![hex_digit(bs.last() / 16), hex_digit(bs.last() % 16)]
    }
}

/// The lowercase hex SHA-256 digest of the UTF-8 bytes of `text`.
pub open spec fn sha256_hex_of(text: Seq<char>) -> Seq<char> {
    hex(sha256(vstd::utf8::encode_utf8(text)))
}

fn hex_char(d: u8) -> (r: char)
    requires
        d < 16,
    ensures
        r == hex_digit(d),
{
    if d < 10 {
        (d + 48) as char
    } else {
        (d + 87) as char
    }
}

/// `bs` as lowercase hex.
pub fn to_hex(bs: &[u8]) -> (r: Vec<char>)
    ensures
        r@ == hex(bs@),
        r@.len() == 2 * bs@.len(),
{
    let mut out: Vec<char> = Vec::new();
    let mut i: usize = 0;
    while i < bs.len()
        invariant
            i <= bs.len(),
            out@ == hex(bs@.take(i as int)),
            out@.len() == 2 * i,
        decreases bs.len() - i,
    {
        let b = bs[i];
        out.push(hex_char(b / 16));
        out.push(hex_char(b % 16));
        assert(bs@.take(i + 1).drop_last() == bs@.take(i as int));
        i = i + 1;
    }
    assert(bs@.take(bs.len() as int) == bs@);
    out
}

/// The lowercase hex SHA-256 digest of `text`.
pub fn sha256_hex(text: &str) -> (r: String)
    ensures
        r@ == sha256_hex_of(text@),
        r@.len() == 64,
{
    let d = sha256_digest(text.as_bytes());
    let h = to_hex(d.as_slice());
    string_from(h.as_slice())
}

} // verus!
