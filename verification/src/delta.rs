//! Delta engine integration: signature computation, delta computation and
//! length-limited delta application over the rolling-checksum library.
//!
//! The signature parameters are fixed on both sides and form part of the
//! wire contract: block size 4096 bytes, strong hash truncated to 8 bytes.

use vstd::prelude::*;
use crate::codec::be_val;

verus! {

/// Signature block size in bytes.
pub const BLOCK_SIZE: u32 = 4096;

/// Number of bytes kept of each block's strong hash.
pub const CRYPTO_HASH_SIZE: u32 = 8;

/// The serialized signature of a byte sequence, computed with the fixed
/// parameters above. A pure function of the input bytes.
pub uninterp spec fn signature_of(data: Seq<u8>) -> Seq<u8>;

/// The block-size field of a serialized signature: a big-endian 32-bit
/// value at bytes 4 to 8, after the leading magic.
pub open spec fn sig_block_size(sig: Seq<u8>) -> u32
    recommends
        sig.len() >= 12,
{
    be_val(sig[4], sig[5], sig[6], sig[7])
}

/// A serialized signature whose header is long enough to carry its fields
/// and declares a nonzero block size. Computing a delta is defined only on
/// such signatures; the delta library neither returns nor stays in bounds
/// on a signature that declares block size zero.
pub open spec fn well_headed_sig(sig: Seq<u8>) -> bool {
    sig.len() >= 12 && sig_block_size(sig) != 0
}

/// The delta that reconstructs `data` from the base described by the
/// serialized signature `sig`. A pure function of the two byte sequences.
pub uninterp spec fn delta_of(sig: Seq<u8>, data: Seq<u8>) -> Seq<u8>;

/// The result of applying `delta` to `base`: the reconstructed bytes, or
/// nothing when the delta is not a well-formed delta against `base`. A pure
/// function of the two byte sequences.
pub uninterp spec fn apply_of(base: Seq<u8>, delta: Seq<u8>) -> Option<Seq<u8>>;

/// Relies on fast_rsync::Signature::calculate and Signature::into_serialized:
/// with fixed options the serialized signature is computed from the input
/// bytes alone, and starts with a 12-byte header carrying the fixed block
/// size after the 4-byte magic.
#[verifier::external_body]
pub fn calculate_signature(data: &[u8]) -> (r: Vec<u8>)
    ensures
        r@ == signature_of(data@),
        r@.len() >= 12,
        sig_block_size(r@) == BLOCK_SIZE,
{
    let options = fast_rsync::SignatureOptions {
        block_size: BLOCK_SIZE,
        crypto_hash_size: CRYPTO_HASH_SIZE,
    };
    fast_rsync::Signature::calculate(data, options).into_serialized()
}

/// Relies on fast_rsync::Signature::deserialize, Signature::index and
/// fast_rsync::diff: the delta is computed from the signature bytes and the
/// data alone; computing it fails only when the signature bytes do not
/// parse as a supported signature, so it succeeds on every serialized
/// signature the library itself produced. The caller must have checked the
/// header: on a signature that declares block size zero the delta
/// computation indexes out of range or never terminates, so that input is
/// left out here and rejected in verified code before the call.
#[verifier::external_body]
pub fn compute_delta(sig: &[u8], data: &[u8]) -> (r: Result<Vec<u8>, String>)
    requires
        well_headed_sig(sig@),
    ensures
        r is Ok ==> r->Ok_0@ == delta_of(sig@, data@),
        (exists|b: Seq<u8>| sig@ == signature_of(b)) ==> r is Ok,
{
    let parsed = match fast_rsync::Signature::deserialize(sig.to_vec()) {
        Ok(parsed) => parsed,
        Err(e) => return Err(e.to_string()),
    };
    let indexed = parsed.index();
    let mut delta = Vec::new();
    match fast_rsync::diff(&indexed, data, &mut delta) {
        Ok(()) => Ok(delta),
        Err(e) => Err(e.to_string()),
    }
}

/// Relies on fast_rsync::apply_limited: applying a delta to a base is a
/// function of the two byte sequences; it succeeds exactly when the delta
/// is well formed against the base and the output stays within `limit`
/// bytes, and then never returns more than `limit` bytes.
#[verifier::external_body]
pub fn apply_delta(base: &[u8], delta: &[u8], limit: usize) -> (r: Result<Vec<u8>, String>)
    ensures
        r is Ok ==> {
            &&& apply_of(base@, delta@) == Some(r->Ok_0@)
            &&& r->Ok_0@.len() <= limit
        },
        r is Err ==> !(apply_of(base@, delta@) is Some && apply_of(base@, delta@)->0.len()
            <= limit),
    {
    let mut out = Vec::new();
    match fast_rsync::apply_limited(base, delta, &mut out, limit) {
        Ok(()) => Ok(out),
        Err(e) => Err(e.to_string()),
    }
}

} // verus!
