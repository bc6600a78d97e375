//! The wire codec: a deterministic, schema-driven binary encoding of the
//! protocol records, and length-prefixed framing.
//!
//! Both peers must use the same codec. Integers travel little-endian;
//! lengths as 64-bit values; enums as 32-bit variant indices in
//! declaration order; options as one tag byte (0 absent, 1 present); byte
//! arrays as a length followed by the raw bytes; text as the length of its
//! UTF-8 encoding followed by that encoding. A frame is a 4-byte
//! big-endian length prefix followed by one encoded record.
//!
//! Encoding and decoding are proved inverse to each other in both
//! directions: every record survives the round trip, and every byte string
//! the decoder accepts re-encodes to exactly itself.

use vstd::prelude::*;
use vstd::bytes::{
    lemma_auto_spec_u128_to_from_le_bytes, lemma_auto_spec_u32_to_from_le_bytes,
    lemma_auto_spec_u64_to_from_le_bytes, spec_u128_to_le_bytes, spec_u128_from_le_bytes,
    spec_u32_to_le_bytes, spec_u32_from_le_bytes, spec_u64_to_le_bytes, spec_u64_from_le_bytes,
    u128_from_le_bytes, u128_to_le_bytes, u32_from_le_bytes, u32_to_le_bytes, u64_from_le_bytes,
    u64_to_le_bytes,
};
use vstd::utf8::{
    decode_utf8, decode_utf8_encode_utf8, encode_utf8, encode_utf8_decode_utf8,
    encode_utf8_valid_utf8, valid_utf8,
};
use vstd::slice::slice_subrange;
use crate::proto::{
    copy_slice, FileType, RequestKindV, RequestV, ResponseKindV, ResponseV, Transfer,
    TransferKind, TransferRequest, TransferRequestKind, TransferResponse, TransferResponseKind,
    TransferV,
};

verus! {

// ---------------------------------------------------------------------
// Spec-level encoders.
// ---------------------------------------------------------------------
/// Encoding of a byte string: its length, then the bytes.
pub open spec fn enc_bytes(b: Seq<u8>) -> Seq<u8> {
    spec_u64_to_le_bytes(b.len() as u64) + b
}

/// Encoding of an optional size: a tag byte, then the value when present.
pub open spec fn enc_opt_size(v: Option<usize>) -> Seq<u8> {
    match v {
        None => seq![0u8],
        Some(x) => seq![1u8] + spec_u64_to_le_bytes(x as u64),
    }
}

/// The variant index of a file type.
pub open spec fn file_type_tag(ft: FileType) -> u32 {
    match ft {
        FileType::Dir => 0,
        FileType::File => 1,
        FileType::Symlink => 2,
    }
}

/// The variant index of a transfer kind.
pub open spec fn transfer_kind_tag(k: TransferKind) -> u32 {
    match k {
        TransferKind::Empty => 0,
        TransferKind::Contents => 1,
        TransferKind::Delta => 2,
        TransferKind::Signature => 3,
    }
}

/// Encoding of a transfer payload.
pub open spec fn enc_transfer(t: TransferV) -> Seq<u8> {
    spec_u32_to_le_bytes(transfer_kind_tag(t.kind)) + enc_bytes(t.data) + enc_bytes(t.shasum)
        + enc_opt_size(t.file_size) + enc_opt_size(t.data_size)
}

/// Encoding of an optional transfer payload.
pub open spec fn enc_opt_transfer(t: Option<TransferV>) -> Seq<u8> {
    match t {
        None => seq![0u8],
        Some(tv) => seq![1u8] + enc_transfer(tv),
    }
}

/// Encoding of a request kind: its variant index, then the new path for a
/// rename.
pub open spec fn enc_request_kind(k: RequestKindV) -> Seq<u8> {
    match k {
        RequestKindV::Check => spec_u32_to_le_bytes(0),
        RequestKindV::Delta => spec_u32_to_le_bytes(1),
        RequestKindV::Contents => spec_u32_to_le_bytes(2),
        RequestKindV::Remove => spec_u32_to_le_bytes(3),
        RequestKindV::Rename { new_path } => spec_u32_to_le_bytes(4) + enc_bytes(new_path),
    }
}

/// Encoding of a request record.
pub open spec fn enc_request(r: RequestV) -> Seq<u8> {
    spec_u128_to_le_bytes(r.id) + enc_bytes(r.path) + spec_u32_to_le_bytes(
        file_type_tag(r.file_type),
    ) + enc_request_kind(r.kind) + enc_opt_transfer(r.transfer)
}

/// Encoding of a response kind: its variant index, then its payload.
pub open spec fn enc_response_kind(k: ResponseKindV) -> Seq<u8> {
    match k {
        ResponseKindV::Okay => spec_u32_to_le_bytes(0),
        ResponseKindV::Different { signature } => spec_u32_to_le_bytes(1) + enc_bytes(signature),
        ResponseKindV::NeedContents => spec_u32_to_le_bytes(2),
        ResponseKindV::CantHandle { reason } => spec_u32_to_le_bytes(3) + enc_bytes(
            encode_utf8(reason),
        ),
    }
}

/// Encoding of a response record.
pub open spec fn enc_response(r: ResponseV) -> Seq<u8> {
    spec_u128_to_le_bytes(r.id) + enc_response_kind(r.kind)
}

// ---------------------------------------------------------------------
// Spec-level decoders. Each consumes a prefix and returns the rest.
// ---------------------------------------------------------------------
/// Decode one byte.
pub open spec fn dec_u8(b: Seq<u8>) -> Option<(u8, Seq<u8>)> {
    if b.len() >= 1 {
        Some((b[0], b.subrange(1, b.len() as int)))
    } else {
        None
    }
}

/// Decode a 32-bit little-endian value.
pub open spec fn dec_u32(b: Seq<u8>) -> Option<(u32, Seq<u8>)> {
    if b.len() >= 4 {
        Some((spec_u32_from_le_bytes(b.subrange(0, 4)), b.subrange(4, b.len() as int)))
    } else {
        None
    }
}

/// Decode a 64-bit little-endian value.
pub open spec fn dec_u64(b: Seq<u8>) -> Option<(u64, Seq<u8>)> {
    if b.len() >= 8 {
        Some((spec_u64_from_le_bytes(b.subrange(0, 8)), b.subrange(8, b.len() as int)))
    } else {
        None
    }
}

/// Decode a 128-bit little-endian value.
pub open spec fn dec_u128(b: Seq<u8>) -> Option<(u128, Seq<u8>)> {
    if b.len() >= 16 {
        Some((spec_u128_from_le_bytes(b.subrange(0, 16)), b.subrange(16, b.len() as int)))
    } else {
        None
    }
}

/// Decode a length-prefixed byte string.
pub open spec fn dec_bytes(b: Seq<u8>) -> Option<(Seq<u8>, Seq<u8>)> {
    match dec_u64(b) {
        Some((n, r)) => if n as int <= r.len() {
            Some((r.subrange(0, n as int), r.subrange(n as int, r.len() as int)))
        } else {
            None
        },
        None => None,
    }
}

/// Decode an optional size.
pub open spec fn dec_opt_size(b: Seq<u8>) -> Option<(Option<usize>, Seq<u8>)> {
    match dec_u8(b) {
        Some((tag, r)) => if tag == 0 {
            Some((None, r))
        } else if tag == 1 {
            match dec_u64(r) {
                Some((v, r2)) => if v <= usize::MAX as u64 {
                    Some((Some(v as usize), r2))
                } else {
                    None
                },
                None => None,
            }
        } else {
            None
        },
        None => None,
    }
}

/// Decode a file type from its variant index.
pub open spec fn dec_file_type(b: Seq<u8>) -> Option<(FileType, Seq<u8>)> {
    match dec_u32(b) {
        Some((t, r)) => if t == 0 {
            Some((FileType::Dir, r))
        } else if t == 1 {
            Some((FileType::File, r))
        } else if t == 2 {
            Some((FileType::Symlink, r))
        } else {
            None
        },
        None => None,
    }
}

/// Decode a transfer kind from its variant index.
pub open spec fn dec_transfer_kind(b: Seq<u8>) -> Option<(TransferKind, Seq<u8>)> {
    match dec_u32(b) {
        Some((t, r)) => if t == 0 {
            Some((TransferKind::Empty, r))
        } else if t == 1 {
            Some((TransferKind::Contents, r))
        } else if t == 2 {
            Some((TransferKind::Delta, r))
        } else if t == 3 {
            Some((TransferKind::Signature, r))
        } else {
            None
        },
        None => None,
    }
}

/// Decode a transfer payload.
pub open spec fn dec_transfer(b: Seq<u8>) -> Option<(TransferV, Seq<u8>)> {
    match dec_transfer_kind(b) {
        Some((kind, r)) => match dec_bytes(r) {
            Some((data, r)) => match dec_bytes(r) {
                Some((shasum, r)) => match dec_opt_size(r) {
                    Some((file_size, r)) => match dec_opt_size(r) {
                        Some((data_size, r)) => Some(
                            (TransferV { kind, data, shasum, file_size, data_size }, r),
                        ),
                        None => None,
                    },
                    None => None,
                },
                None => None,
            },
            None => None,
        },
        None => None,
    }
}

/// Decode an optional transfer payload.
pub open spec fn dec_opt_transfer(b: Seq<u8>) -> Option<(Option<TransferV>, Seq<u8>)> {
    match dec_u8(b) {
        Some((tag, r)) => if tag == 0 {
            Some((None, r))
        } else if tag == 1 {
            match dec_transfer(r) {
                Some((t, r2)) => Some((Some(t), r2)),
                None => None,
            }
        } else {
            None
        },
        None => None,
    }
}

/// Decode a request kind.
pub open spec fn dec_request_kind(b: Seq<u8>) -> Option<(RequestKindV, Seq<u8>)> {
    match dec_u32(b) {
        Some((t, r)) => if t == 0 {
            Some((RequestKindV::Check, r))
        } else if t == 1 {
            Some((RequestKindV::Delta, r))
        } else if t == 2 {
            Some((RequestKindV::Contents, r))
        } else if t == 3 {
            Some((RequestKindV::Remove, r))
        } else if t == 4 {
            match dec_bytes(r) {
                Some((new_path, r2)) => Some(((RequestKindV::Rename { new_path }), r2)),
                None => None,
            }
        } else {
            None
        },
        None => None,
    }
}

/// Decode a request record.
pub open spec fn dec_request(b: Seq<u8>) -> Option<(RequestV, Seq<u8>)> {
    match dec_u128(b) {
        Some((id, r)) => match dec_bytes(r) {
            Some((path, r)) => match dec_file_type(r) {
                Some((file_type, r)) => match dec_request_kind(r) {
                    Some((kind, r)) => match dec_opt_transfer(r) {
                        Some((transfer, r)) => Some(
                            (RequestV { id, path, file_type, kind, transfer }, r),
                        ),
                        None => None,
                    },
                    None => None,
                },
                None => None,
            },
            None => None,
        },
        None => None,
    }
}

/// Decode a response kind. Text must be valid UTF-8.
pub open spec fn dec_response_kind(b: Seq<u8>) -> Option<(ResponseKindV, Seq<u8>)> {
    match dec_u32(b) {
        Some((t, r)) => if t == 0 {
            Some((ResponseKindV::Okay, r))
        } else if t == 1 {
            match dec_bytes(r) {
                Some((signature, r2)) => Some(((ResponseKindV::Different { signature }), r2)),
                None => None,
            }
        } else if t == 2 {
            Some((ResponseKindV::NeedContents, r))
        } else if t == 3 {
            match dec_bytes(r) {
                Some((bytes, r2)) => if valid_utf8(bytes) {
                    Some(((ResponseKindV::CantHandle { reason: decode_utf8(bytes) }), r2))
                } else {
                    None
                },
                None => None,
            }
        } else {
            None
        },
        None => None,
    }
}

/// Decode a response record.
pub open spec fn dec_response(b: Seq<u8>) -> Option<(ResponseV, Seq<u8>)> {
    match dec_u128(b) {
        Some((id, r)) => match dec_response_kind(r) {
            Some((kind, r)) => Some((ResponseV { id, kind }, r)),
            None => None,
        },
        None => None,
    }
}

/// Decode a whole request payload: the record must fill the payload.
pub open spec fn spec_decode_request(b: Seq<u8>) -> Option<RequestV> {
    match dec_request(b) {
        Some((v, rest)) => if rest.len() == 0 {
            Some(v)
        } else {
            None
        },
        None => None,
    }
}

/// Decode a whole response payload: the record must fill the payload.
pub open spec fn spec_decode_response(b: Seq<u8>) -> Option<ResponseV> {
    match dec_response(b) {
        Some((v, rest)) => if rest.len() == 0 {
            Some(v)
        } else {
            None
        },
        None => None,
    }
}

// ---------------------------------------------------------------------
// Round-trip lemmas, component by component.
// ---------------------------------------------------------------------
proof fn lemma_assoc5(a: Seq<u8>, b: Seq<u8>, c: Seq<u8>, d: Seq<u8>, e: Seq<u8>)
    ensures
        a + b + c + d + e == a + (b + (c + (d + e))),
{
    assert(a + b + c + d + e =~= a + (b + (c + (d + e))));
}

proof fn lemma_assoc6(a: Seq<u8>, b: Seq<u8>, c: Seq<u8>, d: Seq<u8>, e: Seq<u8>, f: Seq<u8>)
    ensures
        a + b + c + d + e + f == a + (b + (c + (d + (e + f)))),
{
    assert(a + b + c + d + e + f =~= a + (b + (c + (d + (e + f)))));
}

proof fn lemma_concat_split(a: Seq<u8>, rest: Seq<u8>)
    ensures
        (a + rest).subrange(0, a.len() as int) == a,
        (a + rest).subrange(a.len() as int, (a + rest).len() as int) == rest,
        (a + rest).len() == a.len() + rest.len(),
{
    assert((a + rest).subrange(0, a.len() as int) =~= a);
    assert((a + rest).subrange(a.len() as int, (a + rest).len() as int) =~= rest);
}

proof fn lemma_dec_enc_u8(v: u8, rest: Seq<u8>)
    ensures
        dec_u8(seq![v] + rest) == Some((v, rest)),
{
    lemma_concat_split(seq![v], rest);
    assert((seq![v] + rest)[0] == v);
    assert((seq![v] + rest).subrange(1, (seq![v] + rest).len() as int) =~= rest);
}

proof fn lemma_enc_dec_u8(b: Seq<u8>)
    requires
        dec_u8(b) is Some,
    ensures
        seq![(dec_u8(b)->0).0] + (dec_u8(b)->0).1 == b,
{
    assert(seq![b[0]] + b.subrange(1, b.len() as int) =~= b);
}

proof fn lemma_dec_enc_u32(v: u32, rest: Seq<u8>)
    ensures
        dec_u32(spec_u32_to_le_bytes(v) + rest) == Some((v, rest)),
{
    lemma_auto_spec_u32_to_from_le_bytes();
    lemma_concat_split(spec_u32_to_le_bytes(v), rest);
}

proof fn lemma_enc_dec_u32(b: Seq<u8>)
    requires
        dec_u32(b) is Some,
    ensures
        spec_u32_to_le_bytes((dec_u32(b)->0).0) + (dec_u32(b)->0).1 == b,
{
    lemma_auto_spec_u32_to_from_le_bytes();
    assert(b.subrange(0, 4) + b.subrange(4, b.len() as int) =~= b);
}

proof fn lemma_dec_enc_u64(v: u64, rest: Seq<u8>)
    ensures
        dec_u64(spec_u64_to_le_bytes(v) + rest) == Some((v, rest)),
{
    lemma_auto_spec_u64_to_from_le_bytes();
    lemma_concat_split(spec_u64_to_le_bytes(v), rest);
}

proof fn lemma_enc_dec_u64(b: Seq<u8>)
    requires
        dec_u64(b) is Some,
    ensures
        spec_u64_to_le_bytes((dec_u64(b)->0).0) + (dec_u64(b)->0).1 == b,
{
    lemma_auto_spec_u64_to_from_le_bytes();
    assert(b.subrange(0, 8) + b.subrange(8, b.len() as int) =~= b);
}

proof fn lemma_dec_enc_u128(v: u128, rest: Seq<u8>)
    ensures
        dec_u128(spec_u128_to_le_bytes(v) + rest) == Some((v, rest)),
{
    lemma_auto_spec_u128_to_from_le_bytes();
    lemma_concat_split(spec_u128_to_le_bytes(v), rest);
}

proof fn lemma_enc_dec_u128(b: Seq<u8>)
    requires
        dec_u128(b) is Some,
    ensures
        spec_u128_to_le_bytes((dec_u128(b)->0).0) + (dec_u128(b)->0).1 == b,
{
    lemma_auto_spec_u128_to_from_le_bytes();
    assert(b.subrange(0, 16) + b.subrange(16, b.len() as int) =~= b);
}

proof fn lemma_dec_enc_bytes(v: Seq<u8>, rest: Seq<u8>)
    requires
        v.len() <= u64::MAX,
    ensures
        dec_bytes(enc_bytes(v) + rest) == Some((v, rest)),
{
    lemma_auto_spec_u64_to_from_le_bytes();
    assert(enc_bytes(v) + rest =~= spec_u64_to_le_bytes(v.len() as u64) + (v + rest));
    lemma_dec_enc_u64(v.len() as u64, v + rest);
    lemma_concat_split(v, rest);
}

proof fn lemma_enc_dec_bytes(b: Seq<u8>)
    requires
        dec_bytes(b) is Some,
    ensures
        enc_bytes((dec_bytes(b)->0).0) + (dec_bytes(b)->0).1 == b,
{
    lemma_auto_spec_u64_to_from_le_bytes();
    let n = (dec_u64(b)->0).0;
    let r = (dec_u64(b)->0).1;
    lemma_enc_dec_u64(b);
    assert(r.subrange(0, n as int).len() as u64 == n);
    assert(r.subrange(0, n as int) + r.subrange(n as int, r.len() as int) =~= r);
    assert(enc_bytes((dec_bytes(b)->0).0) + (dec_bytes(b)->0).1 =~= spec_u64_to_le_bytes(n) + r);
}

proof fn lemma_dec_enc_opt_size(v: Option<usize>, rest: Seq<u8>)
    ensures
        dec_opt_size(enc_opt_size(v) + rest) == Some((v, rest)),
{
    match v {
        None => {
            lemma_dec_enc_u8(0, rest);
        },
        Some(x) => {
            assert(enc_opt_size(v) + rest =~= seq![1u8] + (spec_u64_to_le_bytes(x as u64)
                + rest));
            lemma_dec_enc_u8(1, spec_u64_to_le_bytes(x as u64) + rest);
            lemma_dec_enc_u64(x as u64, rest);
        },
    }
}

proof fn lemma_enc_dec_opt_size(b: Seq<u8>)
    requires
        dec_opt_size(b) is Some,
    ensures
        enc_opt_size((dec_opt_size(b)->0).0) + (dec_opt_size(b)->0).1 == b,
{
    let tag = (dec_u8(b)->0).0;
    let r = (dec_u8(b)->0).1;
    lemma_enc_dec_u8(b);
    if tag == 0 {
        assert(enc_opt_size(None) + r =~= seq![0u8] + r);
    } else {
        lemma_enc_dec_u64(r);
        let x = (dec_u64(r)->0).0;
        assert(enc_opt_size(Some(x as usize)) + (dec_u64(r)->0).1 =~= seq![1u8] + (
        spec_u64_to_le_bytes(x) + (dec_u64(r)->0).1));
        assert(seq![1u8] + (spec_u64_to_le_bytes(x) + (dec_u64(r)->0).1) =~= seq![tag] + r);
    }
}

proof fn lemma_dec_enc_transfer(t: TransferV, rest: Seq<u8>)
    requires
        t.data.len() <= u64::MAX,
        t.shasum.len() <= u64::MAX,
    ensures
        dec_transfer(enc_transfer(t) + rest) == Some((t, rest)),
{
    let k = spec_u32_to_le_bytes(transfer_kind_tag(t.kind));
    let b1 = enc_bytes(t.data);
    let b2 = enc_bytes(t.shasum);
    let o1 = enc_opt_size(t.file_size);
    let o2 = enc_opt_size(t.data_size);
    assert(enc_transfer(t) + rest =~= k + (b1 + (b2 + (o1 + (o2 + rest)))));
    lemma_dec_enc_u32(transfer_kind_tag(t.kind), b1 + (b2 + (o1 + (o2 + rest))));
    lemma_dec_enc_bytes(t.data, b2 + (o1 + (o2 + rest)));
    lemma_dec_enc_bytes(t.shasum, o1 + (o2 + rest));
    lemma_dec_enc_opt_size(t.file_size, o2 + rest);
    lemma_dec_enc_opt_size(t.data_size, rest);
}

proof fn lemma_enc_dec_transfer(b: Seq<u8>)
    requires
        dec_transfer(b) is Some,
    ensures
        enc_transfer((dec_transfer(b)->0).0) + (dec_transfer(b)->0).1 == b,
{
    let r0 = (dec_u32(b)->0).1;
    lemma_enc_dec_u32(b);
    let r1 = (dec_bytes(r0)->0).1;
    lemma_enc_dec_bytes(r0);
    let r2 = (dec_bytes(r1)->0).1;
    lemma_enc_dec_bytes(r1);
    let r3 = (dec_opt_size(r2)->0).1;
    lemma_enc_dec_opt_size(r2);
    let r4 = (dec_opt_size(r3)->0).1;
    lemma_enc_dec_opt_size(r3);
    let t = (dec_transfer(b)->0).0;
    let k = spec_u32_to_le_bytes(transfer_kind_tag(t.kind));
    let d = enc_bytes(t.data);
    let sh = enc_bytes(t.shasum);
    let f = enc_opt_size(t.file_size);
    let g = enc_opt_size(t.data_size);
    assert(b == k + (d + (sh + (f + (g + r4)))));
    lemma_assoc6(k, d, sh, f, g, r4);
}

proof fn lemma_dec_enc_opt_transfer(t: Option<TransferV>, rest: Seq<u8>)
    requires
        t matches Some(tv) ==> tv.data.len() <= u64::MAX && tv.shasum.len() <= u64::MAX,
    ensures
        dec_opt_transfer(enc_opt_transfer(t) + rest) == Some((t, rest)),
{
    match t {
        None => {
            lemma_dec_enc_u8(0, rest);
        },
        Some(tv) => {
            assert(enc_opt_transfer(t) + rest =~= seq![1u8] + (enc_transfer(tv) + rest));
            lemma_dec_enc_u8(1, enc_transfer(tv) + rest);
            lemma_dec_enc_transfer(tv, rest);
        },
    }
}

proof fn lemma_enc_dec_opt_transfer(b: Seq<u8>)
    requires
        dec_opt_transfer(b) is Some,
    ensures
        enc_opt_transfer((dec_opt_transfer(b)->0).0) + (dec_opt_transfer(b)->0).1 == b,
{
    let tag = (dec_u8(b)->0).0;
    let r = (dec_u8(b)->0).1;
    lemma_enc_dec_u8(b);
    if tag == 0 {
        assert(enc_opt_transfer(None) + r =~= seq![0u8] + r);
    } else {
        lemma_enc_dec_transfer(r);
        let tv = (dec_transfer(r)->0).0;
        assert(enc_opt_transfer(Some(tv)) + (dec_transfer(r)->0).1 =~= seq![1u8] + (enc_transfer(tv)
            + (dec_transfer(r)->0).1));
        assert(seq![1u8] + (enc_transfer(tv) + (dec_transfer(r)->0).1) =~= seq![tag] + r);
    }
}

proof fn lemma_dec_enc_request_kind(k: RequestKindV, rest: Seq<u8>)
    requires
        k matches RequestKindV::Rename { new_path } ==> new_path.len() <= u64::MAX,
    ensures
        dec_request_kind(enc_request_kind(k) + rest) == Some((k, rest)),
{
    match k {
        RequestKindV::Check => {
            lemma_dec_enc_u32(0, rest);
        },
        RequestKindV::Delta => {
            lemma_dec_enc_u32(1, rest);
        },
        RequestKindV::Contents => {
            lemma_dec_enc_u32(2, rest);
        },
        RequestKindV::Remove => {
            lemma_dec_enc_u32(3, rest);
        },
        RequestKindV::Rename { new_path } => {
            assert(enc_request_kind(k) + rest =~= spec_u32_to_le_bytes(4) + (enc_bytes(new_path)
                + rest));
            lemma_dec_enc_u32(4, enc_bytes(new_path) + rest);
            lemma_dec_enc_bytes(new_path, rest);
        },
    }
}

proof fn lemma_enc_dec_request_kind(b: Seq<u8>)
    requires
        dec_request_kind(b) is Some,
    ensures
        enc_request_kind((dec_request_kind(b)->0).0) + (dec_request_kind(b)->0).1 == b,
{
    let t = (dec_u32(b)->0).0;
    let r = (dec_u32(b)->0).1;
    lemma_enc_dec_u32(b);
    if t == 4 {
        lemma_enc_dec_bytes(r);
        let p = (dec_bytes(r)->0).0;
        assert(enc_request_kind((RequestKindV::Rename { new_path: p })) + (dec_bytes(r)->0).1
            =~= spec_u32_to_le_bytes(4) + (enc_bytes(p) + (dec_bytes(r)->0).1));
        assert(spec_u32_to_le_bytes(4) + (enc_bytes(p) + (dec_bytes(r)->0).1)
            =~= spec_u32_to_le_bytes(t) + r);
    }
}

/// A request value every field of which fits its length prefix.
pub open spec fn wf_request_v(r: RequestV) -> bool {
    &&& r.path.len() <= u64::MAX
    &&& (r.kind matches RequestKindV::Rename { new_path } ==> new_path.len() <= u64::MAX)
    &&& (r.transfer matches Some(tv) ==> tv.data.len() <= u64::MAX && tv.shasum.len()
        <= u64::MAX)
}

/// A response value every field of which fits its length prefix.
pub open spec fn wf_response_v(r: ResponseV) -> bool {
    &&& (r.kind matches ResponseKindV::Different { signature } ==> signature.len() <= u64::MAX)
    &&& (r.kind matches ResponseKindV::CantHandle { reason } ==> encode_utf8(reason).len()
        <= u64::MAX)
}

/// Every well-formed request value survives the round trip: decoding its
/// encoding yields it back.
pub proof fn lemma_decode_encode_request(r: RequestV)
    requires
        wf_request_v(r),
    ensures
        spec_decode_request(enc_request(r)) == Some(r),
{
    let a = spec_u128_to_le_bytes(r.id);
    let e1 = enc_bytes(r.path);
    let e2 = spec_u32_to_le_bytes(file_type_tag(r.file_type));
    let e3 = enc_request_kind(r.kind);
    let e4 = enc_opt_transfer(r.transfer);
    lemma_assoc5(a, e1, e2, e3, e4);
    assert(e4 + Seq::<u8>::empty() =~= e4);
    lemma_dec_enc_u128(r.id, e1 + (e2 + (e3 + e4)));
    lemma_dec_enc_bytes(r.path, e2 + (e3 + e4));
    lemma_dec_enc_u32(file_type_tag(r.file_type), e3 + e4);
    lemma_dec_enc_request_kind(r.kind, e4);
    lemma_dec_enc_opt_transfer(r.transfer, Seq::<u8>::empty());
}

/// Every byte string the request decoder accepts is exactly the encoding
/// of the request it returns.
pub proof fn lemma_encode_decode_request(b: Seq<u8>)
    requires
        spec_decode_request(b) is Some,
    ensures
        enc_request(spec_decode_request(b)->0) == b,
{
    let r0 = (dec_u128(b)->0).1;
    lemma_enc_dec_u128(b);
    let r1 = (dec_bytes(r0)->0).1;
    lemma_enc_dec_bytes(r0);
    let r2 = (dec_file_type(r1)->0).1;
    lemma_enc_dec_u32(r1);
    let r3 = (dec_request_kind(r2)->0).1;
    lemma_enc_dec_request_kind(r2);
    let r4 = (dec_opt_transfer(r3)->0).1;
    lemma_enc_dec_opt_transfer(r3);
    let v = spec_decode_request(b)->0;
    let a = spec_u128_to_le_bytes(v.id);
    let c = enc_bytes(v.path);
    let d = spec_u32_to_le_bytes(file_type_tag(v.file_type));
    let e = enc_request_kind(v.kind);
    let f = enc_opt_transfer(v.transfer);
    assert(file_type_tag(v.file_type) == (dec_u32(r1)->0).0);
    assert(r4 =~= Seq::<u8>::empty());
    assert(f + r4 =~= f);
    assert(b == a + (c + (d + (e + f))));
    lemma_assoc5(a, c, d, e, f);
}

proof fn lemma_dec_enc_response_kind(k: ResponseKindV, rest: Seq<u8>)
    requires
        k matches ResponseKindV::Different { signature } ==> signature.len() <= u64::MAX,
        k matches ResponseKindV::CantHandle { reason } ==> encode_utf8(reason).len() <= u64::MAX,
    ensures
        dec_response_kind(enc_response_kind(k) + rest) == Some((k, rest)),
{
    match k {
        ResponseKindV::Okay => {
            lemma_dec_enc_u32(0, rest);
        },
        ResponseKindV::Different { signature } => {
            assert(enc_response_kind(k) + rest =~= spec_u32_to_le_bytes(1) + (enc_bytes(signature)
                + rest));
            lemma_dec_enc_u32(1, enc_bytes(signature) + rest);
            lemma_dec_enc_bytes(signature, rest);
        },
        ResponseKindV::NeedContents => {
            lemma_dec_enc_u32(2, rest);
        },
        ResponseKindV::CantHandle { reason } => {
            let bytes = encode_utf8(reason);
            assert(enc_response_kind(k) + rest =~= spec_u32_to_le_bytes(3) + (enc_bytes(bytes)
                + rest));
            lemma_dec_enc_u32(3, enc_bytes(bytes) + rest);
            lemma_dec_enc_bytes(bytes, rest);
            encode_utf8_valid_utf8(reason);
            encode_utf8_decode_utf8(reason);
        },
    }
}

proof fn lemma_enc_dec_response_kind(b: Seq<u8>)
    requires
        dec_response_kind(b) is Some,
    ensures
        enc_response_kind((dec_response_kind(b)->0).0) + (dec_response_kind(b)->0).1 == b,
{
    let t = (dec_u32(b)->0).0;
    let r = (dec_u32(b)->0).1;
    lemma_enc_dec_u32(b);
    if t == 1 {
        lemma_enc_dec_bytes(r);
        let s = (dec_bytes(r)->0).0;
        assert(enc_response_kind((ResponseKindV::Different { signature: s })) + (dec_bytes(r)->0).1
            =~= spec_u32_to_le_bytes(1) + (enc_bytes(s) + (dec_bytes(r)->0).1));
        assert(spec_u32_to_le_bytes(1) + (enc_bytes(s) + (dec_bytes(r)->0).1)
            =~= spec_u32_to_le_bytes(t) + r);
    } else if t == 3 {
        lemma_enc_dec_bytes(r);
        let bytes = (dec_bytes(r)->0).0;
        decode_utf8_encode_utf8(bytes);
        assert(enc_response_kind((ResponseKindV::CantHandle { reason: decode_utf8(bytes) }))
            + (dec_bytes(r)->0).1 =~= spec_u32_to_le_bytes(3) + (enc_bytes(bytes) + (dec_bytes(
            r,
        )->0).1));
        assert(spec_u32_to_le_bytes(3) + (enc_bytes(bytes) + (dec_bytes(r)->0).1)
            =~= spec_u32_to_le_bytes(t) + r);
    }
}

/// Every well-formed response value survives the round trip: decoding its
/// encoding yields it back.
pub proof fn lemma_decode_encode_response(r: ResponseV)
    requires
        wf_response_v(r),
    ensures
        spec_decode_response(enc_response(r)) == Some(r),
{
    assert(enc_response(r) =~= spec_u128_to_le_bytes(r.id) + (enc_response_kind(r.kind)
        + Seq::<u8>::empty()));
    lemma_dec_enc_u128(r.id, enc_response_kind(r.kind) + Seq::<u8>::empty());
    lemma_dec_enc_response_kind(r.kind, Seq::<u8>::empty());
}

/// Every byte string the response decoder accepts is exactly the encoding
/// of the response it returns.
pub proof fn lemma_encode_decode_response(b: Seq<u8>)
    requires
        spec_decode_response(b) is Some,
    ensures
        enc_response(spec_decode_response(b)->0) == b,
{
    let r0 = (dec_u128(b)->0).1;
    lemma_enc_dec_u128(b);
    lemma_enc_dec_response_kind(r0);
    let v = spec_decode_response(b)->0;
    assert(enc_response(v) =~= spec_u128_to_le_bytes(v.id) + (enc_response_kind(v.kind)
        + (dec_response_kind(r0)->0).1));
}

// ---------------------------------------------------------------------
// Executable encoders.
// ---------------------------------------------------------------------
fn put_u8(out: &mut Vec<u8>, v: u8)
    ensures
        final(out)@ == old(out)@ + seq![v],
{
    out.push(v);
    proof {
        assert(final(out)@ =~= old(out)@ + seq![v]);
    }
}

fn put_u32(out: &mut Vec<u8>, v: u32)
    ensures
        final(out)@ == old(out)@ + spec_u32_to_le_bytes(v),
{
    let mut b = u32_to_le_bytes(v);
    out.append(&mut b);
}

fn put_u64(out: &mut Vec<u8>, v: u64)
    ensures
        final(out)@ == old(out)@ + spec_u64_to_le_bytes(v),
{
    let mut b = u64_to_le_bytes(v);
    out.append(&mut b);
}

fn put_u128(out: &mut Vec<u8>, v: u128)
    ensures
        final(out)@ == old(out)@ + spec_u128_to_le_bytes(v),
{
    let mut b = u128_to_le_bytes(v);
    out.append(&mut b);
}

fn put_bytes(out: &mut Vec<u8>, b: &Vec<u8>)
    ensures
        final(out)@ == old(out)@ + enc_bytes(b@),
{
    let n = b.len();
    put_u64(out, n as u64);
    let ghost mid = out@;
    out.extend_from_slice(b.as_slice());
    proof {
        assert(out@ =~= mid + b@);
        assert(out@ =~= old(out)@ + enc_bytes(b@));
    }
}

fn put_opt_size(out: &mut Vec<u8>, v: &Option<usize>)
    ensures
        final(out)@ == old(out)@ + enc_opt_size(*v),
{
    match v {
        None => {
            put_u8(out, 0);
        },
        Some(x) => {
            put_u8(out, 1);
            put_u64(out, *x as u64);
            proof {
                assert(out@ =~= old(out)@ + enc_opt_size(*v));
            }
        },
    }
}

fn put_transfer(out: &mut Vec<u8>, t: &Transfer)
    ensures
        final(out)@ == old(out)@ + enc_transfer(t@),
{
    let tag: u32 = match t.kind {
        TransferKind::Empty => 0,
        TransferKind::Contents => 1,
        TransferKind::Delta => 2,
        TransferKind::Signature => 3,
    };
    put_u32(out, tag);
    put_bytes(out, &t.data);
    put_bytes(out, &t.shasum);
    put_opt_size(out, &t.file_size);
    put_opt_size(out, &t.data_size);
    proof {
        assert(out@ =~= old(out)@ + enc_transfer(t@));
    }
}

/// Encode one request record.
pub fn encode_request(req: &TransferRequest) -> (out: Vec<u8>)
    ensures
        out@ == enc_request(req@),
{
    let mut out: Vec<u8> = Vec::new();
    put_u128(&mut out, req.id);
    put_bytes(&mut out, &req.path);
    let ft: u32 = match req.file_type {
        FileType::Dir => 0,
        FileType::File => 1,
        FileType::Symlink => 2,
    };
    put_u32(&mut out, ft);
    match &req.kind {
        TransferRequestKind::Check => {
            put_u32(&mut out, 0);
        },
        TransferRequestKind::Delta => {
            put_u32(&mut out, 1);
        },
        TransferRequestKind::Contents => {
            put_u32(&mut out, 2);
        },
        TransferRequestKind::Remove => {
            put_u32(&mut out, 3);
        },
        TransferRequestKind::Rename { new_path } => {
            put_u32(&mut out, 4);
            put_bytes(&mut out, new_path);
        },
    }
    match &req.transfer {
        None => {
            put_u8(&mut out, 0);
        },
        Some(t) => {
            put_u8(&mut out, 1);
            put_transfer(&mut out, t);
        },
    }
    proof {
        assert(out@ =~= enc_request(req@));
    }
    out
}

/// Encode one response record.
pub fn encode_response(resp: &TransferResponse) -> (out: Vec<u8>)
    ensures
        out@ == enc_response(resp@),
{
    let mut out: Vec<u8> = Vec::new();
    put_u128(&mut out, resp.id);
    match &resp.kind {
        TransferResponseKind::Okay => {
            put_u32(&mut out, 0);
        },
        TransferResponseKind::Different { signature } => {
            put_u32(&mut out, 1);
            put_bytes(&mut out, signature);
        },
        TransferResponseKind::NeedContents => {
            put_u32(&mut out, 2);
        },
        TransferResponseKind::CantHandle { reason } => {
            put_u32(&mut out, 3);
            let bytes = copy_slice(reason.as_str().as_bytes());
            put_bytes(&mut out, &bytes);
        },
    }
    proof {
        assert(out@ =~= enc_response(resp@));
    }
    out
}

// ---------------------------------------------------------------------
// Executable decoders. Each consumes a prefix of the slice and returns
// the rest.
// ---------------------------------------------------------------------
fn take_u8<'a>(buf: &'a [u8]) -> (r: Option<(u8, &'a [u8])>)
    ensures
        match r {
            Some((v, rest)) => dec_u8(buf@) == Some((v, rest@)),
            None => dec_u8(buf@) is None,
        },
{
    if buf.len() < 1 {
        return None;
    }
    let v = *vstd::slice::slice_index_get(buf, 0);
    let rest = slice_subrange(buf, 1, buf.len());
    Some((v, rest))
}

fn take_u32<'a>(buf: &'a [u8]) -> (r: Option<(u32, &'a [u8])>)
    ensures
        match r {
            Some((v, rest)) => dec_u32(buf@) == Some((v, rest@)),
            None => dec_u32(buf@) is None,
        },
{
    if buf.len() < 4 {
        return None;
    }
    let v = u32_from_le_bytes(slice_subrange(buf, 0, 4));
    let rest = slice_subrange(buf, 4, buf.len());
    Some((v, rest))
}

fn take_u64<'a>(buf: &'a [u8]) -> (r: Option<(u64, &'a [u8])>)
    ensures
        match r {
            Some((v, rest)) => dec_u64(buf@) == Some((v, rest@)),
            None => dec_u64(buf@) is None,
        },
{
    if buf.len() < 8 {
        return None;
    }
    let v = u64_from_le_bytes(slice_subrange(buf, 0, 8));
    let rest = slice_subrange(buf, 8, buf.len());
    Some((v, rest))
}

fn take_u128<'a>(buf: &'a [u8]) -> (r: Option<(u128, &'a [u8])>)
    ensures
        match r {
            Some((v, rest)) => dec_u128(buf@) == Some((v, rest@)),
            None => dec_u128(buf@) is None,
        },
{
    if buf.len() < 16 {
        return None;
    }
    let v = u128_from_le_bytes(slice_subrange(buf, 0, 16));
    let rest = slice_subrange(buf, 16, buf.len());
    Some((v, rest))
}

fn take_bytes<'a>(buf: &'a [u8]) -> (r: Option<(Vec<u8>, &'a [u8])>)
    ensures
        match r {
            Some((v, rest)) => dec_bytes(buf@) == Some((v@, rest@)),
            None => dec_bytes(buf@) is None,
        },
{
    let (n, rest) = match take_u64(buf) {
        Some(x) => x,
        None => {
            return None;
        },
    };
    if n > rest.len() as u64 {
        return None;
    }
    let n = n as usize;
    let v = copy_slice(slice_subrange(rest, 0, n));
    let rest2 = slice_subrange(rest, n, rest.len());
    Some((v, rest2))
}

fn take_opt_size<'a>(buf: &'a [u8]) -> (r: Option<(Option<usize>, &'a [u8])>)
    ensures
        match r {
            Some((v, rest)) => dec_opt_size(buf@) == Some((v, rest@)),
            None => dec_opt_size(buf@) is None,
        },
{
    let (tag, rest) = match take_u8(buf) {
        Some(x) => x,
        None => {
            return None;
        },
    };
    if tag == 0 {
        Some((None, rest))
    } else if tag == 1 {
        let (v, rest2) = match take_u64(rest) {
            Some(x) => x,
            None => {
                return None;
            },
        };
        if v <= usize::MAX as u64 {
            Some((Some(v as usize), rest2))
        } else {
            None
        }
    } else {
        None
    }
}

fn take_transfer<'a>(buf: &'a [u8]) -> (r: Option<(Transfer, &'a [u8])>)
    ensures
        match r {
            Some((t, rest)) => dec_transfer(buf@) == Some((t@, rest@)),
            None => dec_transfer(buf@) is None,
        },
{
    let (tag, rest) = match take_u32(buf) {
        Some(x) => x,
        None => {
            return None;
        },
    };
    let kind = if tag == 0 {
        TransferKind::Empty
    } else if tag == 1 {
        TransferKind::Contents
    } else if tag == 2 {
        TransferKind::Delta
    } else if tag == 3 {
        TransferKind::Signature
    } else {
        return None;
    };
    let (data, rest) = match take_bytes(rest) {
        Some(x) => x,
        None => {
            return None;
        },
    };
    let (shasum, rest) = match take_bytes(rest) {
        Some(x) => x,
        None => {
            return None;
        },
    };
    let (file_size, rest) = match take_opt_size(rest) {
        Some(x) => x,
        None => {
            return None;
        },
    };
    let (data_size, rest) = match take_opt_size(rest) {
        Some(x) => x,
        None => {
            return None;
        },
    };
    Some((Transfer { kind, data, shasum, file_size, data_size }, rest))
}

/// Decode one request payload; the record must fill the payload exactly.
pub fn decode_request(buf: &[u8]) -> (r: Option<TransferRequest>)
    ensures
        match r {
            Some(req) => spec_decode_request(buf@) == Some(req@),
            None => spec_decode_request(buf@) is None,
        },
{
    let (id, rest) = match take_u128(buf) {
        Some(x) => x,
        None => {
            return None;
        },
    };
    let (path, rest) = match take_bytes(rest) {
        Some(x) => x,
        None => {
            return None;
        },
    };
    let (ft_tag, rest) = match take_u32(rest) {
        Some(x) => x,
        None => {
            return None;
        },
    };
    let file_type = if ft_tag == 0 {
        FileType::Dir
    } else if ft_tag == 1 {
        FileType::File
    } else if ft_tag == 2 {
        FileType::Symlink
    } else {
        return None;
    };
    let (k_tag, rest) = match take_u32(rest) {
        Some(x) => x,
        None => {
            return None;
        },
    };
    let (kind, rest) = if k_tag == 0 {
        (TransferRequestKind::Check, rest)
    } else if k_tag == 1 {
        (TransferRequestKind::Delta, rest)
    } else if k_tag == 2 {
        (TransferRequestKind::Contents, rest)
    } else if k_tag == 3 {
        (TransferRequestKind::Remove, rest)
    } else if k_tag == 4 {
        let (new_path, rest2) = match take_bytes(rest) {
            Some(x) => x,
            None => {
                return None;
            },
        };
        (TransferRequestKind::Rename { new_path }, rest2)
    } else {
        return None;
    };
    let (t_tag, rest) = match take_u8(rest) {
        Some(x) => x,
        None => {
            return None;
        },
    };
    let (transfer, rest) = if t_tag == 0 {
        (None, rest)
    } else if t_tag == 1 {
        let (t, rest2) = match take_transfer(rest) {
            Some(x) => x,
            None => {
                return None;
            },
        };
        (Some(t), rest2)
    } else {
        return None;
    };
    if rest.len() != 0 {
        return None;
    }
    Some(TransferRequest { id, path, file_type, kind, transfer })
}

/// Relies on String::from_utf8: it succeeds exactly on valid UTF-8 input
/// and decodes it to the characters that input encodes.
#[verifier::external_body]
fn string_from_utf8(bytes: Vec<u8>) -> (r: Option<String>)
    ensures
        r is Some <==> valid_utf8(bytes@),
        (r matches Some(s) ==> s@ == decode_utf8(bytes@)),
{
    String::from_utf8(bytes).ok()
}

/// Decode one response payload; the record must fill the payload exactly.
pub fn decode_response(buf: &[u8]) -> (r: Option<TransferResponse>)
    ensures
        match r {
            Some(resp) => spec_decode_response(buf@) == Some(resp@),
            None => spec_decode_response(buf@) is None,
        },
{
    let (id, rest) = match take_u128(buf) {
        Some(x) => x,
        None => {
            return None;
        },
    };
    let (tag, rest) = match take_u32(rest) {
        Some(x) => x,
        None => {
            return None;
        },
    };
    let (kind, rest) = if tag == 0 {
        (TransferResponseKind::Okay, rest)
    } else if tag == 1 {
        let (signature, rest2) = match take_bytes(rest) {
            Some(x) => x,
            None => {
                return None;
            },
        };
        (TransferResponseKind::Different { signature }, rest2)
    } else if tag == 2 {
        (TransferResponseKind::NeedContents, rest)
    } else if tag == 3 {
        let (bytes, rest2) = match take_bytes(rest) {
            Some(x) => x,
            None => {
                return None;
            },
        };
        let reason = match string_from_utf8(bytes) {
            Some(s) => s,
            None => {
                return None;
            },
        };
        (TransferResponseKind::CantHandle { reason }, rest2)
    } else {
        return None;
    };
    if rest.len() != 0 {
        return None;
    }
    Some(TransferResponse { id, kind })
}

// ---------------------------------------------------------------------
// Length-prefixed framing: a 4-byte big-endian length, then the payload.
// ---------------------------------------------------------------------
/// The big-endian value of four bytes.
pub open spec fn be_val(b0: u8, b1: u8, b2: u8, b3: u8) -> u32 {
    ((b0 as u32) << 24) | ((b1 as u32) << 16) | ((b2 as u32) << 8) | (b3 as u32)
}

/// The four big-endian bytes of a 32-bit value.
pub open spec fn enc_u32_be(v: u32) -> Seq<u8> {
    seq![
        ((v >> 24) & 0xff) as u8,
        ((v >> 16) & 0xff) as u8,
        ((v >> 8) & 0xff) as u8,
        (v & 0xff) as u8,
    ]
}

/// One frame: the payload's length in four big-endian bytes, then the
/// payload, no padding.
pub open spec fn enc_frame(payload: Seq<u8>) -> Seq<u8> {
    enc_u32_be(payload.len() as u32) + payload
}

/// Split one frame off the front of a byte stream: the payload and what
/// follows it. Nothing when the stream does not yet hold a whole frame.
pub open spec fn dec_frame(b: Seq<u8>) -> Option<(Seq<u8>, Seq<u8>)> {
    if b.len() >= 4 {
        let n = be_val(b[0], b[1], b[2], b[3]) as int;
        if n + 4 <= b.len() {
            Some((b.subrange(4, 4 + n), b.subrange(4 + n, b.len() as int)))
        } else {
            None
        }
    } else {
        None
    }
}

proof fn lemma_be_compose(v: u32)
    ensures
        be_val(
            ((v >> 24) & 0xff) as u8,
            ((v >> 16) & 0xff) as u8,
            ((v >> 8) & 0xff) as u8,
            (v & 0xff) as u8,
        ) == v,
{
    assert(((((v >> 24) & 0xff) as u8 as u32) << 24) | ((((v >> 16) & 0xff) as u8 as u32) << 16)
        | ((((v >> 8) & 0xff) as u8 as u32) << 8) | ((v & 0xff) as u8 as u32) == v)
        by (bit_vector);
}

proof fn lemma_be_decompose(b0: u8, b1: u8, b2: u8, b3: u8)
    ensures
        ((be_val(b0, b1, b2, b3) >> 24) & 0xff) as u8 == b0,
        ((be_val(b0, b1, b2, b3) >> 16) & 0xff) as u8 == b1,
        ((be_val(b0, b1, b2, b3) >> 8) & 0xff) as u8 == b2,
        (be_val(b0, b1, b2, b3) & 0xff) as u8 == b3,
{
    assert({
        let v = ((b0 as u32) << 24) | ((b1 as u32) << 16) | ((b2 as u32) << 8) | (b3 as u32);
        ((v >> 24) & 0xff) as u8 == b0 && ((v >> 16) & 0xff) as u8 == b1 && ((v >> 8) & 0xff)
            as u8 == b2 && (v & 0xff) as u8 == b3
    }) by (bit_vector);
}

/// Every payload that fits the length prefix survives framing: splitting
/// the frame off any stream that starts with it yields the payload and the
/// rest of the stream.
pub proof fn lemma_decode_encode_frame(payload: Seq<u8>, rest: Seq<u8>)
    requires
        payload.len() <= u32::MAX,
    ensures
        dec_frame(enc_frame(payload) + rest) == Some((payload, rest)),
{
    let v = payload.len() as u32;
    lemma_be_compose(v);
    let b = enc_frame(payload) + rest;
    assert(b[0] == ((v >> 24) & 0xff) as u8);
    assert(b[1] == ((v >> 16) & 0xff) as u8);
    assert(b[2] == ((v >> 8) & 0xff) as u8);
    assert(b[3] == (v & 0xff) as u8);
    assert(b.subrange(4, 4 + payload.len() as int) =~= payload);
    assert(b.subrange(4 + payload.len() as int, b.len() as int) =~= rest);
}

/// Every stream the splitter accepts is exactly the frame of the payload
/// it returns, followed by the rest.
pub proof fn lemma_encode_decode_frame(b: Seq<u8>)
    requires
        dec_frame(b) is Some,
    ensures
        enc_frame((dec_frame(b)->0).0) + (dec_frame(b)->0).1 == b,
{
    let n = be_val(b[0], b[1], b[2], b[3]);
    lemma_be_decompose(b[0], b[1], b[2], b[3]);
    let payload = (dec_frame(b)->0).0;
    assert(payload.len() as u32 == n);
    assert(enc_frame(payload) + (dec_frame(b)->0).1 =~= b);
}

/// Frame one payload. Nothing when the payload is too long for the
/// 4-byte length prefix.
pub fn encode_frame(payload: &Vec<u8>) -> (r: Option<Vec<u8>>)
    ensures
        payload@.len() <= u32::MAX <==> r is Some,
        (r matches Some(out) ==> out@ == enc_frame(payload@)),
{
    let len = payload.len();
    if len as u64 > u32::MAX as u64 {
        return None;
    }
    let v = len as u32;
    let mut out: Vec<u8> = Vec::new();
    out.push(((v >> 24) & 0xff) as u8);
    out.push(((v >> 16) & 0xff) as u8);
    out.push(((v >> 8) & 0xff) as u8);
    out.push((v & 0xff) as u8);
    let ghost head = out@;
    out.extend_from_slice(payload.as_slice());
    proof {
        assert(head =~= enc_u32_be(v));
        assert(out@ =~= head + payload@);
    }
    Some(out)
}

/// Split one frame off the front of the buffered stream: the payload and
/// the bytes after it. Nothing when the buffer does not yet hold a whole
/// frame; the caller reads more and tries again.
pub fn decode_frame<'a>(buf: &'a [u8]) -> (r: Option<(Vec<u8>, &'a [u8])>)
    ensures
        match r {
            Some((payload, rest)) => dec_frame(buf@) == Some((payload@, rest@)),
            None => dec_frame(buf@) is None,
        },
{
    if buf.len() < 4 {
        return None;
    }
    let b0 = *vstd::slice::slice_index_get(buf, 0);
    let b1 = *vstd::slice::slice_index_get(buf, 1);
    let b2 = *vstd::slice::slice_index_get(buf, 2);
    let b3 = *vstd::slice::slice_index_get(buf, 3);
    let n = ((b0 as u32) << 24) | ((b1 as u32) << 16) | ((b2 as u32) << 8) | (b3 as u32);
    if (n as u64) + 4 > buf.len() as u64 {
        return None;
    }
    let n = n as usize;
    let payload = copy_slice(slice_subrange(buf, 4, 4 + n));
    let rest = slice_subrange(buf, 4 + n, buf.len());
    Some((payload, rest))
}

} // verus!
