//! Content hashing: SHA-256 digests over whole files, and hex rendering of
//! digests for diagnostic messages.

use vstd::prelude::*;
use crate::proto::SHASUM_LEN;

verus! {

/// The SHA-256 digest of a byte sequence. The digest is a pure function of
/// the input bytes; its value is not spelled out here.
pub uninterp spec fn sha256_of(data: Seq<u8>) -> Seq<u8>;

/// Relies on sha2::Sha256 (via the Digest trait): the SHA-256 digest is a
/// 32-byte value computed from the input bytes alone.
#[verifier::external_body]
pub fn shasum_bytes(data: &[u8]) -> (r: Vec<u8>)
    ensures
        r@ == sha256_of(data@),
        r@.len() == SHASUM_LEN,
{
    <sha2::Sha256 as sha2::Digest>::digest(data).to_vec()
}

/// The lower-case hex digit for a value below 16.
pub open spec fn hex_digit(n: u8) -> char
    recommends
        n < 16,
{
    if n < 10 {
        ((n + 48) as char)
    } else {
        ((n + 87) as char)
    }
}

/// Lower-case hex rendering of bytes: two digits per byte, high digit first.
pub open spec fn hex_of(data: Seq<u8>) -> Seq<char>
    decreases data.len(),
{
    if data.len() == 0 {
        Seq::empty()
    } else {
        seq![hex_digit(data[0] / 16), hex_digit(data[0] % 16)] + hex_of(data.drop_first())
    }
}

/// Relies on hex::encode: lower-case hex, two digits per byte, most
/// significant digit first.
#[verifier::external_body]
pub fn to_hex(data: &[u8]) -> (r: String)
    ensures
        r@ == hex_of(data@),
{
    hex::encode(data)
}

} // verus!
