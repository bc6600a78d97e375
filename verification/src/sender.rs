//! The sender's side of the protocol: request construction, chunking of
//! contents and deltas, classification of replies, and classification of
//! filesystem events.
//!
//! Sending and awaiting live outside the library; every decision in
//! between is made here. Chunks are fixed-size fragments of the file's
//! bytes or of the computed delta; every chunk of one upload carries the
//! same whole-file hash, and the totals that let the receiver recognize
//! the terminal chunk.

use vstd::prelude::*;
use crate::proto::{
    clone_bytes, FileType, Transfer, TransferKind, TransferRequest, TransferRequestKind,
    TransferResponse, TransferResponseKind,
};
use crate::codec::be_val;
use crate::delta::{compute_delta, delta_of, sig_block_size, signature_of, well_headed_sig};

verus! {

/// Size of one transfer chunk in bytes (1 MiB).
pub const FILE_CHUNK_SIZE: usize = 1048576;

/// Number of chunks a payload of `len` bytes is split into. An empty
/// payload yields no chunks.
pub open spec fn num_chunks(len: nat) -> nat
    decreases len,
{
    if len == 0 {
        0
    } else if len <= FILE_CHUNK_SIZE {
        1
    } else {
        1 + num_chunks((len - FILE_CHUNK_SIZE) as nat)
    }
}

/// The bytes of chunk `i` of `data`.
pub open spec fn chunk_at(data: Seq<u8>, i: int) -> Seq<u8> {
    data.subrange(
        i * FILE_CHUNK_SIZE,
        if (i + 1) * FILE_CHUNK_SIZE <= data.len() {
            (i + 1) * FILE_CHUNK_SIZE
        } else {
            data.len() as int
        },
    )
}

/// Chunk `i` of a payload of `len` bytes starts inside the payload, and the
/// last chunk is exactly the one that reaches the payload's end.
pub proof fn lemma_chunk_bounds(len: nat, j: nat)
    requires
        j < num_chunks(len),
    ensures
        j * FILE_CHUNK_SIZE < len,
        (j + 1 == num_chunks(len)) <==> len <= (j + 1) * FILE_CHUNK_SIZE,
    decreases j,
{
    if j == 0 {
        if len > FILE_CHUNK_SIZE {
            assert(num_chunks((len - FILE_CHUNK_SIZE) as nat) > 0);
        }
    } else {
        lemma_chunk_bounds((len - FILE_CHUNK_SIZE) as nat, (j - 1) as nat);
        assert(j * FILE_CHUNK_SIZE == (j - 1) * FILE_CHUNK_SIZE + FILE_CHUNK_SIZE) by (nonlinear_arith);
        assert((j + 1) * FILE_CHUNK_SIZE == j * FILE_CHUNK_SIZE + FILE_CHUNK_SIZE) by (nonlinear_arith);
    }
}

/// Number of Contents requests a file of `len` bytes produces: its chunks,
/// or one empty chunk for an empty file, so that an empty file still
/// reaches the destination.
pub open spec fn contents_chunks(len: nat) -> nat {
    if len == 0 {
        1
    } else {
        num_chunks(len)
    }
}

/// A request that carries chunk `i` of `payload` for the file at `path`,
/// with the given request and transfer kinds, whole-file hash and totals.
pub open spec fn chunk_request_ok(
    req: TransferRequest,
    rkind: TransferRequestKind,
    tkind: TransferKind,
    path: Seq<u8>,
    payload: Seq<u8>,
    shasum: Seq<u8>,
    file_size: usize,
    data_size: usize,
    i: int,
) -> bool {
    &&& req.path@ == path
    &&& req.file_type == FileType::File
    &&& req.kind == rkind
    &&& (req.transfer matches Some(t) && t.kind == tkind && t.shasum@ == shasum && t.file_size
        == Some(file_size) && t.data_size == Some(data_size) && t.data@ == chunk_at(payload, i))
}

/// Build the request for one chunk.
fn chunk_request(
    contents: bool,
    path: &Vec<u8>,
    shasum: &Vec<u8>,
    data: Vec<u8>,
    file_size: usize,
    data_size: usize,
) -> (r: TransferRequest)
    ensures
        r.path@ == path@,
        r.file_type == FileType::File,
        r.kind == if contents {
            TransferRequestKind::Contents
        } else {
            TransferRequestKind::Delta
        },
        (r.transfer matches Some(t) && t.kind == (if contents {
            TransferKind::Contents
        } else {
            TransferKind::Delta
        }) && t.shasum@ == shasum@ && t.file_size == Some(file_size) && t.data_size == Some(
            data_size,
        ) && t.data@ == data@),
{
    TransferRequest {
        id: fresh_id(),
        path: clone_bytes(path),
        file_type: FileType::File,
        kind: if contents {
            TransferRequestKind::Contents
        } else {
            TransferRequestKind::Delta
        },
        transfer: Some(
            Transfer {
                kind: if contents {
                    TransferKind::Contents
                } else {
                    TransferKind::Delta
                },
                data,
                shasum: clone_bytes(shasum),
                file_size: Some(file_size),
                data_size: Some(data_size),
            },
        ),
    }
}

/// Split `payload` into fixed-size chunks and build one request per chunk.
fn chunked_requests(
    contents: bool,
    path: &Vec<u8>,
    payload: &[u8],
    shasum: &Vec<u8>,
    file_size: usize,
) -> (r: Vec<TransferRequest>)
    ensures
        r@.len() == num_chunks(payload@.len()),
        forall|i: int|
            0 <= i < r@.len() ==> chunk_request_ok(
                #[trigger] r@[i],
                if contents {
                    TransferRequestKind::Contents
                } else {
                    TransferRequestKind::Delta
                },
                if contents {
                    TransferKind::Contents
                } else {
                    TransferKind::Delta
                },
                path@,
                payload@,
                shasum@,
                file_size,
                payload@.len() as usize,
                i,
            ),
{
    let len = payload.len();
    let data_size = len;
    let mut reqs: Vec<TransferRequest> = Vec::new();
    let mut off: usize = 0;
    let mut i: usize = 0;
    while off < len
        invariant
            len == payload@.len(),
            data_size == len,
            off <= len,
            off < len ==> off == i * FILE_CHUNK_SIZE,
            off == len || off == i * FILE_CHUNK_SIZE,
            i == reqs@.len(),
            num_chunks(payload@.len()) == i + num_chunks((len - off) as nat),
            forall|j: int|
                0 <= j < i ==> chunk_request_ok(
                    #[trigger] reqs@[j],
                    if contents {
                        TransferRequestKind::Contents
                    } else {
                        TransferRequestKind::Delta
                    },
                    if contents {
                        TransferKind::Contents
                    } else {
                        TransferKind::Delta
                    },
                    path@,
                    payload@,
                    shasum@,
                    file_size,
                    data_size,
                    j,
                ),
        decreases len - off,
    {
        let end = if len - off > FILE_CHUNK_SIZE {
            off + FILE_CHUNK_SIZE
        } else {
            len
        };
        let chunk = vstd::slice::slice_subrange(payload, off, end);
        let data = crate::proto::copy_slice(chunk);
        proof {
            assert(data@ =~= chunk_at(payload@, i as int));
        }
        let req = chunk_request(contents, path, shasum, data, file_size, data_size);
        reqs.push(req);
        proof {
            assert((i + 1) * FILE_CHUNK_SIZE == i * FILE_CHUNK_SIZE + FILE_CHUNK_SIZE)
                by (nonlinear_arith);
            if len - off > FILE_CHUNK_SIZE {
                assert(num_chunks((len - off) as nat) == 1 + num_chunks(
                    (len - (off + FILE_CHUNK_SIZE)) as nat,
                ));
            } else {
                assert(num_chunks((len - off) as nat) == 1);
                assert(num_chunks((len - len) as nat) == 0);
            }
        }
        off = end;
        i = i + 1;
    }
    proof {
        assert(num_chunks((len - off) as nat) == 0);
    }
    reqs
}

/// Build the Contents requests for a whole file: its bytes split into
/// chunks, each carrying the whole-file hash and the file's size as both
/// totals. An empty file yields one request with an empty chunk, so the
/// receiver materializes the empty file.
pub fn contents_requests(path: &Vec<u8>, data: &[u8], shasum: &Vec<u8>) -> (r: Vec<
    TransferRequest,
>)
    ensures
        r@.len() == contents_chunks(data@.len()),
        forall|i: int|
            0 <= i < r@.len() ==> chunk_request_ok(
                #[trigger] r@[i],
                TransferRequestKind::Contents,
                TransferKind::Contents,
                path@,
                data@,
                shasum@,
                data@.len() as usize,
                data@.len() as usize,
                i,
            ),
{
    if data.len() == 0 {
        let req = chunk_request(true, path, shasum, Vec::new(), 0, 0);
        proof {
            assert(Seq::<u8>::empty() =~= chunk_at(data@, 0));
        }
        let mut reqs: Vec<TransferRequest> = Vec::new();
        reqs.push(req);
        reqs
    } else {
        chunked_requests(true, path, data, shasum, data.len())
    }
}

/// Build the Delta requests for a file: compute the delta of the file's
/// bytes against the signature the receiver sent, and split it into
/// chunks carrying the whole-file hash, the file's size, and the delta's
/// total size. A signature whose header is too short or declares a zero
/// block size is rejected here, before the delta library sees it; every
/// well-headed signature the receiver itself computed is accepted.
pub fn build_delta_requests(
    path: &Vec<u8>,
    data: &[u8],
    shasum: &Vec<u8>,
    signature: &[u8],
) -> (r: Result<Vec<TransferRequest>, String>)
    ensures
        ((exists|b: Seq<u8>| signature@ == signature_of(b)) && well_headed_sig(signature@))
            ==> r is Ok,
        r matches Ok(reqs) ==> {
            let delta = delta_of(signature@, data@);
            &&& delta.len() <= usize::MAX
            &&& reqs@.len() == num_chunks(delta.len())
            &&& forall|i: int|
                0 <= i < reqs@.len() ==> chunk_request_ok(
                    #[trigger] reqs@[i],
                    TransferRequestKind::Delta,
                    TransferKind::Delta,
                    path@,
                    delta,
                    shasum@,
                    data@.len() as usize,
                    delta.len() as usize,
                    i,
                )
        },
{
    if signature.len() < 12 {
        return Err("invalid or unsupported signature: header too short".to_owned());
    }
    let b4 = *vstd::slice::slice_index_get(signature, 4);
    let b5 = *vstd::slice::slice_index_get(signature, 5);
    let b6 = *vstd::slice::slice_index_get(signature, 6);
    let b7 = *vstd::slice::slice_index_get(signature, 7);
    let block_size = ((b4 as u32) << 24) | ((b5 as u32) << 16) | ((b6 as u32) << 8) | (b7 as u32);
    proof {
        assert(block_size == sig_block_size(signature@));
    }
    if block_size == 0 {
        return Err("invalid or unsupported signature: block size is zero".to_owned());
    }
    let delta = match compute_delta(signature, data) {
        Ok(d) => d,
        Err(e) => {
            return Err(e);
        },
    };
    let delta_len = delta.len();
    proof {
        assert(delta_len == delta@.len());
    }
    Ok(chunked_requests(false, path, delta.as_slice(), shasum, data.len()))
}

/// Build the Check request for a file: an empty payload carrying the hash
/// of the sender's bytes.
pub fn check_file_request(path: &Vec<u8>, shasum: &Vec<u8>) -> (r: TransferRequest)
    ensures
        r.path@ == path@,
        r.file_type == FileType::File,
        r.kind == TransferRequestKind::Check,
        (r.transfer matches Some(t) && t.kind == TransferKind::Empty && t.shasum@ == shasum@
            && t.data@ == Seq::<u8>::empty() && t.file_size is None && t.data_size is None),
{
    TransferRequest {
        id: fresh_id(),
        path: clone_bytes(path),
        file_type: FileType::File,
        kind: TransferRequestKind::Check,
        transfer: Some(
            Transfer {
                kind: TransferKind::Empty,
                data: Vec::new(),
                shasum: clone_bytes(shasum),
                file_size: None,
                data_size: None,
            },
        ),
    }
}

/// Build the Check request for a directory.
pub fn check_dir_request(path: &Vec<u8>) -> (r: TransferRequest)
    ensures
        r.path@ == path@,
        r.file_type == FileType::Dir,
        r.kind == TransferRequestKind::Check,
        r.transfer is None,
{
    TransferRequest {
        id: fresh_id(),
        path: clone_bytes(path),
        file_type: FileType::Dir,
        kind: TransferRequestKind::Check,
        transfer: None,
    }
}

/// Build the Remove request for a path.
pub fn remove_request(path: &Vec<u8>, is_dir: bool) -> (r: TransferRequest)
    ensures
        r.path@ == path@,
        r.file_type == (if is_dir {
            FileType::Dir
        } else {
            FileType::File
        }),
        r.kind == TransferRequestKind::Remove,
        r.transfer is None,
{
    TransferRequest {
        id: fresh_id(),
        path: clone_bytes(path),
        file_type: if is_dir {
            FileType::Dir
        } else {
            FileType::File
        },
        kind: TransferRequestKind::Remove,
        transfer: None,
    }
}

/// Build the Rename request from one path to another.
pub fn rename_request(from: &Vec<u8>, to: &Vec<u8>) -> (r: TransferRequest)
    ensures
        r.path@ == from@,
        r.file_type == FileType::File,
        (r.kind matches TransferRequestKind::Rename { new_path } && new_path@ == to@),
        r.transfer is None,
{
    TransferRequest {
        id: fresh_id(),
        path: clone_bytes(from),
        file_type: FileType::File,
        kind: TransferRequestKind::Rename { new_path: clone_bytes(to) },
        transfer: None,
    }
}

/// Relies on uuid::Uuid::new_v4 and Uuid::as_u128: a fresh random
/// identifier; nothing is assumed of its value.
#[verifier::external_body]
fn fresh_id() -> u128 {
    uuid::Uuid::new_v4().as_u128()
}

/// Outcome of a reply to a request that only an affirmative answer
/// completes: a directory check, a removal, a rename, or one contents
/// chunk.
#[derive(Debug)]
pub enum AckOutcome {
    /// The receiver acknowledged.
    Done,
    /// The receiver could not handle the request; this file fails, the
    /// connection lives on.
    HandlerFailed { reason: String },
    /// Any other reply is a protocol violation.
    ProtocolViolation,
}

/// The outcome an acknowledgement-only reply maps to.
pub open spec fn spec_ack_outcome(kind: TransferResponseKind) -> AckOutcome {
    match kind {
        TransferResponseKind::Okay => AckOutcome::Done,
        TransferResponseKind::CantHandle { reason } => AckOutcome::HandlerFailed { reason },
        _ => AckOutcome::ProtocolViolation,
    }
}

/// Classify a reply to a request that only an affirmative answer
/// completes.
pub fn ack_outcome(resp: &TransferResponse) -> (r: AckOutcome)
    ensures
        r == spec_ack_outcome(resp.kind),
{
    match &resp.kind {
        TransferResponseKind::Okay => AckOutcome::Done,
        TransferResponseKind::CantHandle { reason } => AckOutcome::HandlerFailed {
            reason: reason.clone(),
        },
        TransferResponseKind::Different { .. } => AckOutcome::ProtocolViolation,
        TransferResponseKind::NeedContents => AckOutcome::ProtocolViolation,
    }
}

/// Outcome of the reply to Check on a file: what the sender does next.
#[derive(Debug)]
pub enum CheckOutcome {
    /// The destination already holds these bytes.
    UpToDate,
    /// The destination wants the full contents.
    SendContents,
    /// The destination holds different bytes; its signature came back.
    SendDelta { signature: Vec<u8> },
    /// The receiver could not handle the request; this file fails.
    FileFailed { reason: String },
}

/// Classify the reply to Check on a file.
pub fn check_reply_outcome(resp: TransferResponse) -> (r: CheckOutcome)
    ensures
        match resp.kind {
            TransferResponseKind::Okay => r is UpToDate,
            TransferResponseKind::NeedContents => r is SendContents,
            TransferResponseKind::Different { signature } => (
            r matches CheckOutcome::SendDelta { signature: s } && s@ == signature@),
            TransferResponseKind::CantHandle { reason } => (
            r matches CheckOutcome::FileFailed { reason: s } && s@ == reason@),
        },
{
    match resp.kind {
        TransferResponseKind::Okay => CheckOutcome::UpToDate,
        TransferResponseKind::NeedContents => CheckOutcome::SendContents,
        TransferResponseKind::Different { signature } => CheckOutcome::SendDelta { signature },
        TransferResponseKind::CantHandle { reason } => CheckOutcome::FileFailed { reason },
    }
}

/// Outcome of a reply to one delta chunk.
#[derive(Debug)]
pub enum DeltaReplyOutcome {
    /// The receiver acknowledged; continue with the next chunk, or finish
    /// when this was the last one.
    Proceed,
    /// Delta application failed at the receiver; fall back to sending the
    /// full contents. Only the reply to the final chunk may say this.
    FallbackToContents,
    /// The receiver could not handle the request; this file fails.
    HandlerFailed { reason: String },
    /// Any other reply is a protocol violation.
    ProtocolViolation,
}

/// The outcome a delta-chunk reply maps to, given whether the chunk was
/// the final one.
pub open spec fn spec_delta_reply_outcome(
    is_final: bool,
    kind: TransferResponseKind,
) -> DeltaReplyOutcome {
    match kind {
        TransferResponseKind::Okay => DeltaReplyOutcome::Proceed,
        TransferResponseKind::NeedContents => if is_final {
            DeltaReplyOutcome::FallbackToContents
        } else {
            DeltaReplyOutcome::ProtocolViolation
        },
        TransferResponseKind::CantHandle { reason } => DeltaReplyOutcome::HandlerFailed { reason },
        TransferResponseKind::Different { .. } => DeltaReplyOutcome::ProtocolViolation,
    }
}

/// Classify a reply to one delta chunk.
pub fn delta_reply_outcome(is_final: bool, resp: TransferResponse) -> (r: DeltaReplyOutcome)
    ensures
        r == spec_delta_reply_outcome(is_final, resp.kind),
{
    match resp.kind {
        TransferResponseKind::Okay => DeltaReplyOutcome::Proceed,
        TransferResponseKind::NeedContents => if is_final {
            DeltaReplyOutcome::FallbackToContents
        } else {
            DeltaReplyOutcome::ProtocolViolation
        },
        TransferResponseKind::CantHandle { reason } => DeltaReplyOutcome::HandlerFailed { reason },
        TransferResponseKind::Different { .. } => DeltaReplyOutcome::ProtocolViolation,
    }
}

/// Before the final chunk of a delta exchange, any reply other than the
/// affirmative one never lets the exchange proceed, and never passes for
/// the fallback: it is a protocol violation or a handler failure.
pub proof fn lemma_early_delta_reply(is_final: bool, kind: TransferResponseKind)
    requires
        !is_final,
        !(kind is Okay),
    ensures
        !(spec_delta_reply_outcome(is_final, kind) is Proceed),
        !(spec_delta_reply_outcome(is_final, kind) is FallbackToContents),
        kind is CantHandle <==> spec_delta_reply_outcome(is_final, kind) is HandlerFailed,
{
}

/// A filesystem event of the source tree, as the sender classifies it.
#[derive(Debug)]
pub enum FsEventKind {
    CreateFolder,
    CreateFile,
    ModifyData,
    RenameBoth,
    RemoveFolder,
    RemoveFile,
    Other,
}

/// What the sender does for one filesystem event.
#[derive(Debug)]
pub enum SenderAction {
    /// Ensure the directory exists at the destination.
    CheckDir { path: Vec<u8> },
    /// Send the full contents without a Check round trip (a fresh file is
    /// assumed absent at the destination).
    TransferContents { path: Vec<u8> },
    /// Run the file check-and-transfer protocol.
    CheckFile { path: Vec<u8> },
    /// Ask the receiver to rename the path.
    Rename { from: Vec<u8>, to: Vec<u8> },
    /// Ask the receiver to remove the path.
    Remove { path: Vec<u8>, is_dir: bool },
    /// Nothing to send.
    Skip,
}

/// Classify one filesystem event into the sender's next action. The caller
/// supplies the event's paths, whether the ignore filter skips each, and
/// whether the first path is a directory. A rename whose old path is
/// ignored but whose new path is not is treated as a creation; a rename
/// onto an ignored path is dropped.
pub fn classify_event(
    kind: FsEventKind,
    p1: Option<&Vec<u8>>,
    p2: Option<&Vec<u8>>,
    skip_p1: bool,
    skip_p2: bool,
    p1_is_dir: bool,
) -> (r: SenderAction)
    ensures
        match kind {
            FsEventKind::CreateFolder => if p1 is Some && !skip_p1 {
                r matches SenderAction::CheckDir { path } && path@ == p1->0@
            } else {
                r is Skip
            },
            FsEventKind::CreateFile => if p1 is Some && !skip_p1 {
                r matches SenderAction::TransferContents { path } && path@ == p1->0@
            } else {
                r is Skip
            },
            FsEventKind::ModifyData => if p1 is Some && !skip_p1 {
                r matches SenderAction::CheckFile { path } && path@ == p1->0@
            } else {
                r is Skip
            },
            FsEventKind::RenameBoth => if p1 is Some && p2 is Some {
                if skip_p1 && !skip_p2 {
                    if p1_is_dir {
                        r matches SenderAction::CheckDir { path } && path@ == p2->0@
                    } else {
                        r matches SenderAction::CheckFile { path } && path@ == p2->0@
                    }
                } else if !skip_p2 {
                    r matches SenderAction::Rename { from, to } && from@ == p1->0@ && to@
                        == p2->0@
                } else {
                    r is Skip
                }
            } else {
                r is Skip
            },
            FsEventKind::RemoveFolder => if p1 is Some && !skip_p1 {
                r matches SenderAction::Remove { path, is_dir } && path@ == p1->0@ && is_dir
            } else {
                r is Skip
            },
            FsEventKind::RemoveFile => if p1 is Some && !skip_p1 {
                r matches SenderAction::Remove { path, is_dir } && path@ == p1->0@ && !is_dir
            } else {
                r is Skip
            },
            FsEventKind::Other => r is Skip,
        },
{
    match kind {
        FsEventKind::CreateFolder => {
            match p1 {
                Some(path) if !skip_p1 => SenderAction::CheckDir { path: clone_bytes(path) },
                _ => SenderAction::Skip,
            }
        },
        FsEventKind::CreateFile => {
            match p1 {
                Some(path) if !skip_p1 => SenderAction::TransferContents {
                    path: clone_bytes(path),
                },
                _ => SenderAction::Skip,
            }
        },
        FsEventKind::ModifyData => {
            match p1 {
                Some(path) if !skip_p1 => SenderAction::CheckFile { path: clone_bytes(path) },
                _ => SenderAction::Skip,
            }
        },
        FsEventKind::RenameBoth => {
            match (p1, p2) {
                (Some(from), Some(to)) => {
                    if skip_p1 && !skip_p2 {
                        if p1_is_dir {
                            SenderAction::CheckDir { path: clone_bytes(to) }
                        } else {
                            SenderAction::CheckFile { path: clone_bytes(to) }
                        }
                    } else if !skip_p2 {
                        SenderAction::Rename { from: clone_bytes(from), to: clone_bytes(to) }
                    } else {
                        SenderAction::Skip
                    }
                },
                _ => SenderAction::Skip,
            }
        },
        FsEventKind::RemoveFolder => {
            match p1 {
                Some(path) if !skip_p1 => SenderAction::Remove {
                    path: clone_bytes(path),
                    is_dir: true,
                },
                _ => SenderAction::Skip,
            }
        },
        FsEventKind::RemoveFile => {
            match p1 {
                Some(path) if !skip_p1 => SenderAction::Remove {
                    path: clone_bytes(path),
                    is_dir: false,
                },
                _ => SenderAction::Skip,
            }
        },
        FsEventKind::Other => SenderAction::Skip,
    }
}

/// What the initial walk does with one directory entry, by its stat
/// result: a directory is checked as a directory, a regular file runs the
/// file check-and-transfer protocol, and anything else (a symlink among
/// them) is unsupported.
#[derive(Debug)]
pub enum EntryAction {
    CheckDir,
    CheckFile,
    Unsupported,
}

/// Classify one directory entry of the initial walk.
pub fn classify_entry(is_dir: bool, is_file: bool) -> (r: EntryAction)
    ensures
        is_dir ==> r is CheckDir,
        !is_dir && is_file ==> r is CheckFile,
        !is_dir && !is_file ==> r is Unsupported,
{
    if is_dir {
        EntryAction::CheckDir
    } else if is_file {
        EntryAction::CheckFile
    } else {
        EntryAction::Unsupported
    }
}

} // verus!
