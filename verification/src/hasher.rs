//! Content hashing: SHA-256 of a blob, rendered as lowercase hexadecimal.

use vstd::prelude::*;
use sha2::Digest;
use crate::text::push_char;

verus! {

/// The SHA-256 digest of a byte string, as the `sha2` crate computes it.
pub uninterp spec fn sha256(data: Seq<u8>) -> Seq<u8>;

/// Computes the SHA-256 digest of `data`.
///
/// Trusted: calls `sha2::Sha256::digest`, whose result is the 32-byte
/// SHA-256 digest of the bytes given and depends on nothing else.
#[verifier::external_body]
pub(crate) fn sha256_digest(data: &[u8]) -> (digest: Vec<u8>)
    ensures
        digest@ == sha256(data@),
        digest@.len() == 32,
{
    sha2::Sha256::digest(data).to_vec()
}

/// The lowercase hexadecimal digit for a value below sixteen.
pub open spec fn spec_hex_digit(nibble: u8) -> char {
    if nibble < 10 {
        ((48 + nibble) as u8) as char
    } else {
        ((87 + nibble) as u8) as char
    }
}

/// The high or low half of the byte that position `i` of a hex string renders.
pub open spec fn spec_nibble_at(bytes: Seq<u8>, i: int) -> u8 {
    if i % 2 == 0 {
        bytes[i / 2] >> 4
    } else {
        bytes[i / 2] & 0x0f
    }
}

/// Lowercase hexadecimal rendering: two digits per byte, high half first.
pub open spec fn spec_hex(bytes: Seq<u8>) -> Seq<char> {
    Seq::new(2 * bytes.len(), |i: int| spec_hex_digit(spec_nibble_at(bytes, i)))
}

fn hex_digit(nibble: u8) -> (c: char)
    requires
        nibble < 16,
    ensures
        c == spec_hex_digit(nibble),
{
    if nibble < 10 {
        (48 + nibble) as char
    } else {
        (87 + nibble) as char
    }
}

/// Renders bytes as lowercase hexadecimal.
pub fn to_hex(bytes: &[u8]) -> (hex: String)
    ensures
        hex@ == spec_hex(bytes@),
{
    let mut hex = String::new();
    let mut i: usize = 0;
    while i < bytes.len()
        invariant
            i <= bytes.len(),
            hex@.len() == 2 * i,
            forall|k: int| 0 <= k < 2 * i ==> hex@[k] == spec_hex_digit(spec_nibble_at(bytes@, k)),
        decreases bytes.len() - i,
    {
        let b = bytes[i];
        let hi = b >> 4;
        let lo = b & 0x0f;
        assert(hi < 16 && lo < 16) by (bit_vector)
            requires
                hi == b >> 4,
                lo == b & 0x0f,
        ;
        push_char(&mut hex, hex_digit(hi));
        push_char(&mut hex, hex_digit(lo));
        i += 1;
    }
    assert(hex@ =~= spec_hex(bytes@));
    hex
}

/// The content address of a blob: the lowercase hex SHA-256 of its bytes.
pub open spec fn spec_hash_bytes(bytes: Seq<u8>) -> Seq<char> {
    spec_hex(sha256(bytes))
}

/// Hashes an in-memory blob.
pub fn hash_bytes(bytes: &[u8]) -> (hash: String)
    ensures
        hash@ == spec_hash_bytes(bytes@),
        hash@.len() == 64,
{
    let digest = sha256_digest(bytes);
    to_hex(digest.as_slice())
}

} // verus!
