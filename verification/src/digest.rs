//! The one-way digest that every component hashes with: SHA-256 over the
//! UTF-8 bytes of a string, rendered as 64 lowercase hex characters.
use vstd::prelude::*;

verus! {

/// What SHA-256 returns for the given bytes. The digest depends on the input
/// bytes alone; nothing shorter than the algorithm itself says which bytes
/// come back, so the result only carries a name here.
pub uninterp spec fn sha256_of(bytes: Seq<u8>) -> Seq<u8>;

/// A hex digit rendered as a lowercase character; `d` is a nibble.
pub open spec fn hex_digit(d: u8) -> char {
    if d < 10 {
        crate::text::dec_digit(d as nat)
    } else if d == 10 {
        'a'
    } else if d == 11 {
        'b'
    } else if d == 12 {
        'c'
    } else if d == 13 {
        'd'
    } else if d == 14 {
        'e'
    } else {
        'f'
    }
}

/// Lowercase hex rendering of a byte sequence: two characters per byte, the
/// high nibble first.
pub open spec fn hex_of(bytes: Seq<u8>) -> Seq<char> {
    Seq::new(
        (bytes.len() * 2) as nat,
        |i: int| if i % 2 == 0 {
            hex_digit(bytes[i / 2] >> 4u8)
        } else {
            hex_digit(bytes[i / 2] & 0xfu8)
        },
    )
}

/// The digest of a string: SHA-256 over its UTF-8 bytes, hex encoded.
pub open spec fn digest_of(s: Seq<char>) -> Seq<char> {
    hex_of(sha256_of(vstd::utf8::encode_utf8(s)))
}

/// Relies on `sha2::Sha256` through `Digest::digest`: the digest is 32 bytes
/// and depends on the input bytes alone.
#[verifier::external_body]
fn sha256(bytes: &[u8]) -> (r: Vec<u8>)
    ensures
        r@ == sha256_of(bytes@),
        r@.len() == 32,
{
    <sha2::Sha256 as sha2::Digest>::digest(bytes).to_vec()
}

/// Relies on `hex::encode`: each input byte becomes two lowercase hex
/// characters, the high nibble first.
#[verifier::external_body]
fn hex_encode(bytes: &[u8]) -> (r: String)
    ensures
        r@ == hex_of(bytes@),
{
    hex::encode(bytes)
}

/// The digest of a string, as 64 lowercase hex characters.
pub fn digest(s: &str) -> (r: String)
    ensures
        r@ == digest_of(s@),
        r@.len() == 64,
{
    let bytes = s.as_bytes();
    let d = sha256(bytes);
    hex_encode(d.as_slice())
}

} // verus!
