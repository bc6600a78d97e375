//! Protocol records exchanged between the sender and the receiver.
//!
//! A request carries an identifier, a path relative to the root (as bytes),
//! a file-type tag, a request kind, and an optional transfer payload. A
//! response carries the identifier of the request it answers and a response
//! kind. Paths travel as byte strings; identifiers as 128-bit values.

use vstd::prelude::*;

verus! {

/// Number of bytes in a SHA-256 digest.
pub const SHASUM_LEN: usize = 32;

#[derive(Debug, Clone, Copy, PartialEq, Eq, Structural)]
pub enum FileType {
    Dir,
    File,
    Symlink,
}

#[derive(Debug, Clone, PartialEq, Eq)]
pub enum TransferRequestKind {
    Check,
    Delta,
    Contents,
    Remove,
    Rename { new_path: Vec<u8> },
}

#[derive(Debug, Clone, Copy, PartialEq, Eq, Structural)]
pub enum TransferKind {
    Empty,
    Contents,
    Delta,
    Signature,
}

/// Payload of a chunked transfer: one chunk of data, the SHA-256 of the
/// whole sender-side file the chunk belongs to, and the sender-side totals
/// that let the receiver recognize the terminal chunk.
#[derive(Debug, Clone, PartialEq, Eq)]
pub struct Transfer {
    pub kind: TransferKind,
    /// Data of one chunk.
    pub data: Vec<u8>,
    /// SHA-256 sum of the whole file.
    pub shasum: Vec<u8>,
    /// Total size of the file in bytes.
    pub file_size: Option<usize>,
    /// Total size of the transferred data (contents or delta) in bytes.
    pub data_size: Option<usize>,
}

/// A copy of a byte vector holding the same bytes.
pub fn clone_bytes(v: &Vec<u8>) -> (r: Vec<u8>)
    ensures
        r@ == v@,
{
    let r = v.clone();
    proof {
        assert(r@ =~= v@);
    }
    r
}

/// Copy a byte slice into a fresh vector.
pub fn copy_slice(data: &[u8]) -> (r: Vec<u8>)
    ensures
        r@ == data@,
{
    let mut r: Vec<u8> = Vec::new();
    r.extend_from_slice(data);
    proof {
        assert(r@ =~= data@);
    }
    r
}

impl Transfer {
    /// A copy with the same fields.
    pub fn duplicate(&self) -> (r: Transfer)
        ensures
            r.kind == self.kind,
            r.data@ == self.data@,
            r.shasum@ == self.shasum@,
            r.file_size == self.file_size,
            r.data_size == self.data_size,
    {
        Transfer {
            kind: self.kind,
            data: clone_bytes(&self.data),
            shasum: clone_bytes(&self.shasum),
            file_size: self.file_size,
            data_size: self.data_size,
        }
    }
}

#[derive(Debug, Clone, PartialEq, Eq)]
pub struct TransferRequest {
    pub id: u128,
    /// Path relative to the root, as bytes.
    pub path: Vec<u8>,
    pub file_type: FileType,
    pub kind: TransferRequestKind,
    pub transfer: Option<Transfer>,
}

#[derive(Debug, Clone, PartialEq, Eq)]
pub enum TransferResponseKind {
    Okay,
    Different { signature: Vec<u8> },
    NeedContents,
    CantHandle { reason: String },
}

#[derive(Debug, Clone, PartialEq, Eq)]
pub struct TransferResponse {
    pub id: u128,
    pub kind: TransferResponseKind,
}

/// Spec-level value of a transfer payload.
pub struct TransferV {
    pub kind: TransferKind,
    pub data: Seq<u8>,
    pub shasum: Seq<u8>,
    pub file_size: Option<usize>,
    pub data_size: Option<usize>,
}

/// Spec-level value of a request kind.
pub enum RequestKindV {
    Check,
    Delta,
    Contents,
    Remove,
    Rename { new_path: Seq<u8> },
}

/// Spec-level value of a request.
pub struct RequestV {
    pub id: u128,
    pub path: Seq<u8>,
    pub file_type: FileType,
    pub kind: RequestKindV,
    pub transfer: Option<TransferV>,
}

/// Spec-level value of a response kind.
pub enum ResponseKindV {
    Okay,
    Different { signature: Seq<u8> },
    NeedContents,
    CantHandle { reason: Seq<char> },
}

/// Spec-level value of a response.
pub struct ResponseV {
    pub id: u128,
    pub kind: ResponseKindV,
}

impl View for Transfer {
    type V = TransferV;

    open spec fn view(&self) -> TransferV {
        TransferV {
            kind: self.kind,
            data: self.data@,
            shasum: self.shasum@,
            file_size: self.file_size,
            data_size: self.data_size,
        }
    }
}

impl View for TransferRequestKind {
    type V = RequestKindV;

    open spec fn view(&self) -> RequestKindV {
        match self {
            TransferRequestKind::Check => RequestKindV::Check,
            TransferRequestKind::Delta => RequestKindV::Delta,
            TransferRequestKind::Contents => RequestKindV::Contents,
            TransferRequestKind::Remove => RequestKindV::Remove,
            TransferRequestKind::Rename { new_path } => (RequestKindV::Rename {
                new_path: new_path@,
            }),
        }
    }
}

impl View for TransferRequest {
    type V = RequestV;

    open spec fn view(&self) -> RequestV {
        RequestV {
            id: self.id,
            path: self.path@,
            file_type: self.file_type,
            kind: self.kind@,
            transfer: match self.transfer {
                Some(t) => Some(t@),
                None => None,
            },
        }
    }
}

impl View for TransferResponseKind {
    type V = ResponseKindV;

    open spec fn view(&self) -> ResponseKindV {
        match self {
            TransferResponseKind::Okay => ResponseKindV::Okay,
            TransferResponseKind::Different { signature } => (ResponseKindV::Different {
                signature: signature@,
            }),
            TransferResponseKind::NeedContents => ResponseKindV::NeedContents,
            TransferResponseKind::CantHandle { reason } => (ResponseKindV::CantHandle {
                reason: reason@,
            }),
        }
    }
}

impl View for TransferResponse {
    type V = ResponseV;

    open spec fn view(&self) -> ResponseV {
        ResponseV { id: self.id, kind: self.kind@ }
    }
}

impl TransferResponse {
    /// The affirmative reply.
    pub fn ok(id: u128) -> (r: TransferResponse)
        ensures
            r.id == id,
            r.kind == TransferResponseKind::Okay,
    {
        TransferResponse { id, kind: TransferResponseKind::Okay }
    }

    /// The reply that asks the sender for the full file contents.
    pub fn need_contents(id: u128) -> (r: TransferResponse)
        ensures
            r.id == id,
            r.kind == TransferResponseKind::NeedContents,
    {
        TransferResponse { id, kind: TransferResponseKind::NeedContents }
    }

    /// The reply that reports a per-request handler failure.
    pub fn cant_handle(id: u128, reason: String) -> (r: TransferResponse)
        ensures
            r.id == id,
            r.kind == (TransferResponseKind::CantHandle { reason }),
    {
        TransferResponse { id, kind: TransferResponseKind::CantHandle { reason } }
    }
}

} // verus!
