//! The receiver's request dispatcher: decisions for each request kind.
//!
//! Filesystem work stays outside the library; each handler returns the
//! response together with the filesystem action the caller must perform, or
//! asks the caller for the current bytes of a destination file when the
//! decision needs them. Destination paths are produced here, and a request
//! whose relative path is absolute or escapes the root through a `..`
//! component is rejected.

use vstd::prelude::*;
use vstd::pervasive::unreached;
use vstd::std_specs::cmp::PartialEqSpec;
use crate::proto::{
    FileType, Transfer, TransferKind, TransferRequest, TransferRequestKind, TransferResponse,
    TransferResponseKind,
};
use crate::hash::{sha256_of, shasum_bytes, to_hex};
use crate::delta::{
    apply_delta, apply_of, calculate_signature, sig_block_size, signature_of, BLOCK_SIZE,
};
use crate::store::{pushed_bytes, Store};

verus! {

/// Path separator byte, `/`.
pub const SEP: u8 = 47;

/// Dot byte, `.`.
pub const DOT: u8 = 46;

/// The relative path starts with a separator.
pub open spec fn is_abs(rel: Seq<u8>) -> bool {
    rel.len() > 0 && rel[0] == SEP
}

/// Some complete component of the relative path is `..`.
pub open spec fn has_dotdot_component(rel: Seq<u8>) -> bool {
    exists|i: int|
        #![trigger rel[i]]
        {
            &&& 0 <= i
            &&& i + 2 <= rel.len()
            &&& (i == 0 || rel[i - 1] == SEP)
            &&& rel[i] == DOT
            &&& rel[i + 1] == DOT
            &&& (i + 2 == rel.len() || rel[i + 2] == SEP)
        }
}

/// A relative path that stays under the root: not absolute, and without any
/// `..` component.
pub open spec fn safe_rel(rel: Seq<u8>) -> bool {
    !is_abs(rel) && !has_dotdot_component(rel)
}

/// The destination path for a relative path under the root.
pub open spec fn joined(root: Seq<u8>, rel: Seq<u8>) -> Seq<u8> {
    if rel.len() == 0 {
        root
    } else {
        root + seq![SEP] + rel
    }
}

/// Whether the bytes at `i` start a `..` component of `rel`.
fn dotdot_at(rel: &Vec<u8>, i: usize) -> (r: bool)
    requires
        i < rel@.len(),
    ensures
        r == {
            &&& i + 2 <= rel@.len()
            &&& (i == 0 || rel@[i as int - 1] == SEP)
            &&& rel@[i as int] == DOT
            &&& rel@[i as int + 1] == DOT
            &&& (i + 2 == rel@.len() || rel@[i as int + 2] == SEP)
        },
{
    if rel.len() - i < 2 {
        return false;
    }
    if !(i == 0 || rel[i - 1] == SEP) {
        return false;
    }
    if rel[i] != DOT || rel[i + 1] != DOT {
        return false;
    }
    i + 2 == rel.len() || rel[i + 2] == SEP
}

/// Join a relative path under the root, rejecting absolute paths and `..`
/// traversal.
pub fn join_under_root(root: &Vec<u8>, rel: &Vec<u8>) -> (r: Option<Vec<u8>>)
    ensures
        r is Some <==> safe_rel(rel@),
        r is Some ==> r->0@ == joined(root@, rel@),
{
    let n = rel.len();
    if n > 0 && rel[0] == SEP {
        return None;
    }
    let mut i: usize = 0;
    while i < n
        invariant
            i <= n,
            n == rel@.len(),
            !is_abs(rel@),
            forall|k: int|
                #![trigger rel@[k]]
                0 <= k < i ==> !{
                &&& k + 2 <= rel@.len()
                &&& (k == 0 || rel@[k - 1] == SEP)
                &&& rel@[k] == DOT
                &&& rel@[k + 1] == DOT
                &&& (k + 2 == rel@.len() || rel@[k + 2] == SEP)
            },
        decreases n - i,
    {
        if dotdot_at(rel, i) {
            assert(has_dotdot_component(rel@));
            return None;
        }
        i = i + 1;
    }
    assert(!has_dotdot_component(rel@));
    let mut out = root.clone();
    if n > 0 {
        out.push(SEP);
        out.extend_from_slice(rel.as_slice());
    }
    proof {
        assert(out@ =~= joined(root@, rel@));
    }
    Some(out)
}

/// Equality of two byte vectors agrees with equality of their views.
pub fn bytes_eq(a: &Vec<u8>, b: &Vec<u8>) -> (r: bool)
    ensures
        r == (a@ == b@),
{
    let r = *a == *b;
    proof {
        if r {
            assert(a@ =~= b@);
        } else {
            if a@ == b@ {
                assert(a.eq_spec(b));
            }
        }
    }
    r
}

/// The reply to Check on a file: ask for the contents when the destination
/// file is absent, acknowledge when its hash already matches the sender's,
/// and answer with a signature of the current bytes otherwise. The emitted
/// signature carries its 12-byte header with the fixed block size, so the
/// sender's delta computation accepts it.
pub fn check_file_reply(id: u128, current: Option<&Vec<u8>>, transfer: &Transfer) -> (r:
    TransferResponse)
    ensures
        r.id == id,
        match current {
            None => r.kind == TransferResponseKind::NeedContents,
            Some(cur) => if sha256_of(cur@) == transfer.shasum@ {
                r.kind == TransferResponseKind::Okay
            } else {
                r.kind matches TransferResponseKind::Different { signature }
                    && signature@ == signature_of(cur@) && signature@.len() >= 12
                    && sig_block_size(signature@) == BLOCK_SIZE
            },
        },
{
    match current {
        None => TransferResponse::need_contents(id),
        Some(cur) => {
            let h = shasum_bytes(cur.as_slice());
            if bytes_eq(&h, &transfer.shasum) {
                TransferResponse::ok(id)
            } else {
                TransferResponse {
                    id,
                    kind: TransferResponseKind::Different {
                        signature: calculate_signature(cur.as_slice()),
                    },
                }
            }
        },
    }
}

/// A filesystem action the caller must perform on the destination tree.
#[derive(Debug)]
pub enum FsAction {
    /// Ensure a directory exists at `path`, replacing a non-directory and
    /// creating ancestors as needed.
    EnsureDir { path: Vec<u8> },
    /// Remove the directory at `path`.
    RemoveDir { path: Vec<u8> },
    /// Remove the file at `path`.
    RemoveFile { path: Vec<u8> },
    /// Rename `from` to `to`, removing `to` first when it exists
    /// (recursively for a directory).
    Rename { from: Vec<u8>, to: Vec<u8> },
    /// Write `data` as the complete contents of the file at `path`.
    WriteFile { path: Vec<u8>, data: Vec<u8> },
}

/// A contents request is well formed when it addresses a file, carries a
/// contents payload with a total file size, and its path stays under the
/// root.
pub open spec fn valid_contents_req(req: TransferRequest) -> bool {
    &&& req.file_type == FileType::File
    &&& req.transfer is Some
    &&& req.transfer->0.kind == TransferKind::Contents
    &&& req.transfer->0.file_size is Some
    &&& safe_rel(req.path@)
}

/// Serve one Contents request: accumulate the chunk in the store; when the
/// accumulated bytes reach the announced file size, finalize the entry,
/// verify the hash, and on success hand back the materializing write.
/// The reply is affirmative on every chunk, including the terminal one; an
/// integrity failure surfaces only on the terminal chunk, as a handler
/// failure.
pub fn handle_contents(store: &mut Store, root: &Vec<u8>, req: &TransferRequest) -> (r: (
    TransferResponse,
    Option<FsAction>,
))
    requires
        old(store).wf(),
    ensures
        final(store).wf(),
        r.0.id == req.id,
        (r.1 matches Some(FsAction::WriteFile { path, data }) ==> sha256_of(data@)
            == req.transfer->0.shasum@),
        forall|p: Seq<u8>| final(store).delta_at(p) == old(store).delta_at(p),
        !valid_contents_req(*req) ==> {
            &&& r.0.kind is CantHandle
            &&& r.1 is None
            &&& forall|p: Seq<u8>| final(store).file_at(p) == old(store).file_at(p)
        },
        valid_contents_req(*req) ==> {
            let t = req.transfer->0;
            let dest = joined(root@, req.path@);
            let nb = pushed_bytes(old(store).file_at(dest), t.shasum@, t.data@);
            &&& (forall|p: Seq<u8>| p != dest ==> final(store).file_at(p) == old(
                store,
            ).file_at(p))
            &&& if nb.len() != t.file_size->0 {
                &&& r.0.kind is Okay
                &&& r.1 is None
                &&& final(store).file_at(dest) == Some((t.shasum@, nb))
            } else {
                &&& final(store).file_at(dest) == None::<(Seq<u8>, Seq<u8>)>
                &&& if sha256_of(nb) == t.shasum@ {
                    &&& r.0.kind is Okay
                    &&& (r.1 matches Some(FsAction::WriteFile { path, data }) && path@ == dest
                        && data@ == nb)
                } else {
                    &&& r.0.kind is CantHandle
                    &&& r.1 is None
                }
            }
        },
{
    if !matches!(req.file_type, FileType::File) {
        return (
            TransferResponse::cant_handle(req.id, "contents request for a non-file".to_owned()),
            None,
        );
    }
    let t = match &req.transfer {
        Some(t) => t,
        None => {
            return (
                TransferResponse::cant_handle(
                    req.id,
                    "transfer data missing for contents request".to_owned(),
                ),
                None,
            );
        },
    };
    if !matches!(t.kind, TransferKind::Contents) {
        return (
            TransferResponse::cant_handle(
                req.id,
                "transfer kind is not contents for contents request".to_owned(),
            ),
            None,
        );
    }
    let file_size = match t.file_size {
        Some(s) => s,
        None => {
            return (
                TransferResponse::cant_handle(
                    req.id,
                    "contents transfer does not have file_size".to_owned(),
                ),
                None,
            );
        },
    };
    let dest = match join_under_root(root, &req.path) {
        Some(d) => d,
        None => {
            return (
                TransferResponse::cant_handle(req.id, "path escapes the root".to_owned()),
                None,
            );
        },
    };
    let total = store.push_file_chunk(&dest, &t.shasum, t.data.as_slice());
    if total != file_size {
        return (TransferResponse::ok(req.id), None);
    }
    let (h, bytes) = match store.remove_file(&dest) {
        Some(x) => x,
        None => {
            proof {
                assert(false);
            }
            unreached()
        },
    };
    if bytes_eq(&h, &t.shasum) {
        (
            TransferResponse::ok(req.id),
            Some(FsAction::WriteFile { path: dest, data: bytes }),
        )
    } else {
        let mut reason = "data integrity failed: ".to_owned();
        reason.append(to_hex(h.as_slice()).as_str());
        reason.append(" vs expected ");
        reason.append(to_hex(t.shasum.as_slice()).as_str());
        (TransferResponse::cant_handle(req.id, reason), None)
    }
}

/// A delta request is well formed when it addresses a file, carries a delta
/// payload with both totals, and its path stays under the root.
pub open spec fn valid_delta_req(req: TransferRequest) -> bool {
    &&& req.file_type == FileType::File
    &&& req.transfer is Some
    &&& req.transfer->0.kind == TransferKind::Delta
    &&& req.transfer->0.file_size is Some
    &&& req.transfer->0.data_size is Some
    &&& safe_rel(req.path@)
}

/// What one Delta request asks of the caller: reply at once, or apply the
/// now-complete delta to the current destination file.
#[derive(Debug)]
pub enum DeltaStep {
    /// The reply is already decided: a malformed request, or a chunk of a
    /// delta that is still incomplete.
    Reply(TransferResponse),
    /// The delta for `path` is complete: read the current file at `path`
    /// and hand its bytes, with this data, to the delta application step.
    Apply { id: u128, path: Vec<u8>, delta: Vec<u8>, shasum: Vec<u8>, file_size: usize },
}

/// Serve one Delta request up to the point where filesystem work is needed:
/// accumulate the chunk; while the accumulated delta is shorter than the
/// announced delta size, reply affirmatively and wait for more; once
/// complete, drop the entry and ask the caller to apply the delta.
pub fn handle_delta(store: &mut Store, root: &Vec<u8>, req: &TransferRequest) -> (r: DeltaStep)
    requires
        old(store).wf(),
    ensures
        final(store).wf(),
        forall|p: Seq<u8>| final(store).file_at(p) == old(store).file_at(p),
        !valid_delta_req(*req) ==> {
            &&& (r matches DeltaStep::Reply(resp) && resp.id == req.id && resp.kind is CantHandle)
            &&& forall|p: Seq<u8>| final(store).delta_at(p) == old(store).delta_at(p)
        },
        valid_delta_req(*req) ==> {
            let t = req.transfer->0;
            let dest = joined(root@, req.path@);
            let nd = pushed_bytes(old(store).delta_at(dest), t.shasum@, t.data@);
            &&& (forall|p: Seq<u8>| p != dest ==> final(store).delta_at(p) == old(
                store,
            ).delta_at(p))
            &&& if nd.len() != t.data_size->0 {
                &&& (r matches DeltaStep::Reply(resp) && resp.id == req.id && resp.kind is Okay)
                &&& final(store).delta_at(dest) == Some((t.shasum@, nd))
            } else {
                &&& (r matches DeltaStep::Apply { id, path, delta, shasum, file_size } && id
                    == req.id && path@ == dest && delta@ == nd && shasum@ == t.shasum@
                    && file_size == t.file_size->0)
                &&& final(store).delta_at(dest) == None::<(Seq<u8>, Seq<u8>)>
            }
        },
{
    if !matches!(req.file_type, FileType::File) {
        return DeltaStep::Reply(
            TransferResponse::cant_handle(req.id, "delta request for a non-file".to_owned()),
        );
    }
    let t = match &req.transfer {
        Some(t) => t,
        None => {
            return DeltaStep::Reply(
                TransferResponse::cant_handle(
                    req.id,
                    "transfer data missing for delta request".to_owned(),
                ),
            );
        },
    };
    if !matches!(t.kind, TransferKind::Delta) {
        return DeltaStep::Reply(
            TransferResponse::cant_handle(
                req.id,
                "transfer kind is not delta for delta request".to_owned(),
            ),
        );
    }
    let file_size = match t.file_size {
        Some(s) => s,
        None => {
            return DeltaStep::Reply(
                TransferResponse::cant_handle(
                    req.id,
                    "delta transfer does not have file_size".to_owned(),
                ),
            );
        },
    };
    let data_size = match t.data_size {
        Some(s) => s,
        None => {
            return DeltaStep::Reply(
                TransferResponse::cant_handle(
                    req.id,
                    "delta transfer does not have data_size".to_owned(),
                ),
            );
        },
    };
    let dest = match join_under_root(root, &req.path) {
        Some(d) => d,
        None => {
            return DeltaStep::Reply(
                TransferResponse::cant_handle(req.id, "path escapes the root".to_owned()),
            );
        },
    };
    let total = store.push_delta_chunk(&dest, &t.shasum, t.data.as_slice());
    if total != data_size {
        return DeltaStep::Reply(TransferResponse::ok(req.id));
    }
    let delta = match store.remove_delta(&dest) {
        Some(d) => d,
        None => {
            proof {
                assert(false);
            }
            unreached()
        },
    };
    DeltaStep::Apply { id: req.id, path: dest, delta, shasum: t.shasum.clone(), file_size }
}

/// Apply a complete delta: the caller hands in the current bytes of the
/// destination file (or nothing when it could not be read). On a successful
/// application whose result carries the announced hash, the reply is
/// affirmative and the result is written back; any failure of the
/// application or of the integrity check asks the sender for the full
/// contents instead. The written bytes never exceed the announced file
/// size.
pub fn apply_complete_delta(
    id: u128,
    path: Vec<u8>,
    base: Option<&Vec<u8>>,
    delta: &Vec<u8>,
    shasum: &Vec<u8>,
    file_size: usize,
) -> (r: (TransferResponse, Option<FsAction>))
    ensures
        r.0.id == id,
        base is None ==> r.0.kind is CantHandle && r.1 is None,
        base is Some ==> {
            let ap = apply_of(base->0@, delta@);
            if ap is Some && ap->0.len() <= file_size && sha256_of(ap->0) == shasum@ {
                &&& r.0.kind is Okay
                &&& (r.1 matches Some(FsAction::WriteFile { path: p, data }) && p@ == path@
                    && data@ == ap->0)
            } else {
                &&& r.0.kind is NeedContents
                &&& r.1 is None
            }
        },
        r.1 is Some ==> (r.1 matches Some(FsAction::WriteFile { path: p, data }) && data@.len()
            <= file_size && sha256_of(data@) == shasum@),
{
    let base = match base {
        Some(b) => b,
        None => {
            return (
                TransferResponse::cant_handle(
                    id,
                    "cannot read the file the delta applies to".to_owned(),
                ),
                None,
            );
        },
    };
    match apply_delta(base.as_slice(), delta.as_slice(), file_size) {
        Ok(out) => {
            let h = shasum_bytes(out.as_slice());
            if bytes_eq(&h, shasum) {
                (TransferResponse::ok(id), Some(FsAction::WriteFile { path, data: out }))
            } else {
                (TransferResponse::need_contents(id), None)
            }
        },
        Err(_) => (TransferResponse::need_contents(id), None),
    }
}

/// What serving one request asks of the caller.
#[derive(Debug)]
pub enum HandlerStep {
    /// The reply is decided; nothing else to do.
    Reply(TransferResponse),
    /// Perform the action; on success reply affirmatively with `id`, on a
    /// filesystem error reply that the request could not be handled.
    Act { id: u128, action: FsAction },
    /// Read the current bytes of the file at `path` (or none when absent)
    /// and decide the Check reply with them.
    ProbeFile { id: u128, path: Vec<u8>, transfer: Transfer },
    /// Read the current bytes of the file at `path`, remove it, and apply
    /// the complete delta to them.
    ApplyDelta { id: u128, path: Vec<u8>, delta: Vec<u8>, shasum: Vec<u8>, file_size: usize },
}

/// Serve one request: route it by kind, reject malformed or unsafe ones,
/// and hand back either the decided reply or the filesystem step that
/// completes it.
pub fn transfer_handler(store: &mut Store, root: &Vec<u8>, req: &TransferRequest) -> (r:
    HandlerStep)
    requires
        old(store).wf(),
    ensures
        final(store).wf(),
        match req.kind {
            TransferRequestKind::Check => {
                &&& *final(store) == *old(store)
                &&& match req.file_type {
                    FileType::Dir => if safe_rel(req.path@) {
                        r matches HandlerStep::Act { id, action } && id == req.id && (
                        action matches FsAction::EnsureDir { path } && path@ == joined(
                            root@,
                            req.path@,
                        ))
                    } else {
                        r matches HandlerStep::Reply(resp) && resp.id == req.id
                            && resp.kind is CantHandle
                    },
                    FileType::File => if req.transfer is Some && safe_rel(req.path@) {
                        r matches HandlerStep::ProbeFile { id, path, transfer } && id == req.id
                            && path@ == joined(root@, req.path@) && transfer.kind == req.transfer->0.kind
                            && transfer.data@ == req.transfer->0.data@
                            && transfer.shasum@ == req.transfer->0.shasum@
                            && transfer.file_size == req.transfer->0.file_size
                            && transfer.data_size == req.transfer->0.data_size
                    } else {
                        r matches HandlerStep::Reply(resp) && resp.id == req.id
                            && resp.kind is CantHandle
                    },
                    FileType::Symlink => r matches HandlerStep::Reply(resp) && resp.id == req.id
                        && resp.kind is CantHandle,
                }
            },
            TransferRequestKind::Contents => {
                &&& (forall|p: Seq<u8>| final(store).delta_at(p) == old(store).delta_at(p))
                &&& !valid_contents_req(*req) ==> {
                    &&& (r matches HandlerStep::Reply(resp) && resp.id == req.id
                        && resp.kind is CantHandle)
                    &&& forall|p: Seq<u8>| final(store).file_at(p) == old(store).file_at(p)
                }
                &&& valid_contents_req(*req) ==> {
                    let t = req.transfer->0;
                    let dest = joined(root@, req.path@);
                    let nb = pushed_bytes(old(store).file_at(dest), t.shasum@, t.data@);
                    &&& (forall|p: Seq<u8>| p != dest ==> final(store).file_at(p) == old(
                        store,
                    ).file_at(p))
                    &&& if nb.len() != t.file_size->0 {
                        &&& (r matches HandlerStep::Reply(resp) && resp.id == req.id
                            && resp.kind is Okay)
                        &&& final(store).file_at(dest) == Some((t.shasum@, nb))
                    } else {
                        &&& final(store).file_at(dest) == None::<(Seq<u8>, Seq<u8>)>
                        &&& if sha256_of(nb) == t.shasum@ {
                            r matches HandlerStep::Act { id, action } && id == req.id && (
                            action matches FsAction::WriteFile { path, data } && path@ == dest
                                && data@ == nb)
                        } else {
                            r matches HandlerStep::Reply(resp) && resp.id == req.id
                                && resp.kind is CantHandle
                        }
                    }
                }
            },
            TransferRequestKind::Delta => {
                &&& (forall|p: Seq<u8>| final(store).file_at(p) == old(store).file_at(p))
                &&& !valid_delta_req(*req) ==> {
                    &&& (r matches HandlerStep::Reply(resp) && resp.id == req.id
                        && resp.kind is CantHandle)
                    &&& forall|p: Seq<u8>| final(store).delta_at(p) == old(store).delta_at(p)
                }
                &&& valid_delta_req(*req) ==> {
                    let t = req.transfer->0;
                    let dest = joined(root@, req.path@);
                    let nd = pushed_bytes(old(store).delta_at(dest), t.shasum@, t.data@);
                    &&& (forall|p: Seq<u8>| p != dest ==> final(store).delta_at(p) == old(
                        store,
                    ).delta_at(p))
                    &&& if nd.len() != t.data_size->0 {
                        &&& (r matches HandlerStep::Reply(resp) && resp.id == req.id
                            && resp.kind is Okay)
                        &&& final(store).delta_at(dest) == Some((t.shasum@, nd))
                    } else {
                        &&& (r matches HandlerStep::ApplyDelta {
                            id,
                            path,
                            delta,
                            shasum,
                            file_size,
                        } && id == req.id && path@ == dest && delta@ == nd && shasum@ == t.shasum@
                            && file_size == t.file_size->0)
                        &&& final(store).delta_at(dest) == None::<(Seq<u8>, Seq<u8>)>
                    }
                }
            },
            TransferRequestKind::Remove => {
                &&& *final(store) == *old(store)
                &&& if safe_rel(req.path@) {
                    r matches HandlerStep::Act { id, action } && id == req.id && (match req
                        .file_type {
                        FileType::Dir => action matches FsAction::RemoveDir { path } && path@
                            == joined(root@, req.path@),
                        _ => action matches FsAction::RemoveFile { path } && path@ == joined(
                            root@,
                            req.path@,
                        ),
                    })
                } else {
                    r matches HandlerStep::Reply(resp) && resp.id == req.id
                        && resp.kind is CantHandle
                }
            },
            TransferRequestKind::Rename { new_path } => {
                &&& *final(store) == *old(store)
                &&& if safe_rel(req.path@) && safe_rel(new_path@) {
                    r matches HandlerStep::Act { id, action } && id == req.id && (
                    action matches FsAction::Rename { from, to } && from@ == joined(
                        root@,
                        req.path@,
                    ) && to@ == joined(root@, new_path@))
                } else {
                    r matches HandlerStep::Reply(resp) && resp.id == req.id
                        && resp.kind is CantHandle
                }
            },
        },
{
    match &req.kind {
        TransferRequestKind::Check => {
            match req.file_type {
                FileType::Dir => {
                    match join_under_root(root, &req.path) {
                        Some(dest) => HandlerStep::Act {
                            id: req.id,
                            action: FsAction::EnsureDir { path: dest },
                        },
                        None => HandlerStep::Reply(
                            TransferResponse::cant_handle(
                                req.id,
                                "path escapes the root".to_owned(),
                            ),
                        ),
                    }
                },
                FileType::File => {
                    let t = match &req.transfer {
                        Some(t) => t,
                        None => {
                            return HandlerStep::Reply(
                                TransferResponse::cant_handle(
                                    req.id,
                                    "missing transfer data on check file request".to_owned(),
                                ),
                            );
                        },
                    };
                    match join_under_root(root, &req.path) {
                        Some(dest) => HandlerStep::ProbeFile {
                            id: req.id,
                            path: dest,
                            transfer: t.duplicate(),
                        },
                        None => HandlerStep::Reply(
                            TransferResponse::cant_handle(
                                req.id,
                                "path escapes the root".to_owned(),
                            ),
                        ),
                    }
                },
                FileType::Symlink => HandlerStep::Reply(
                    TransferResponse::cant_handle(
                        req.id,
                        "symlinks are not implemented".to_owned(),
                    ),
                ),
            }
        },
        TransferRequestKind::Contents => {
            let (resp, action) = handle_contents(store, root, req);
            match action {
                Some(action) => HandlerStep::Act { id: resp.id, action },
                None => HandlerStep::Reply(resp),
            }
        },
        TransferRequestKind::Delta => {
            match handle_delta(store, root, req) {
                DeltaStep::Reply(resp) => HandlerStep::Reply(resp),
                DeltaStep::Apply { id, path, delta, shasum, file_size } => {
                    HandlerStep::ApplyDelta { id, path, delta, shasum, file_size }
                },
            }
        },
        TransferRequestKind::Remove => {
            match join_under_root(root, &req.path) {
                Some(dest) => {
                    let action = match req.file_type {
                        FileType::Dir => FsAction::RemoveDir { path: dest },
                        FileType::File | FileType::Symlink => FsAction::RemoveFile { path: dest },
                    };
                    HandlerStep::Act { id: req.id, action }
                },
                None => HandlerStep::Reply(
                    TransferResponse::cant_handle(req.id, "path escapes the root".to_owned()),
                ),
            }
        },
        TransferRequestKind::Rename { new_path } => {
            let from = match join_under_root(root, &req.path) {
                Some(d) => d,
                None => {
                    return HandlerStep::Reply(
                        TransferResponse::cant_handle(
                            req.id,
                            "path escapes the root".to_owned(),
                        ),
                    );
                },
            };
            match join_under_root(root, new_path) {
                Some(to) => HandlerStep::Act {
                    id: req.id,
                    action: FsAction::Rename { from, to },
                },
                None => HandlerStep::Reply(
                    TransferResponse::cant_handle(req.id, "path escapes the root".to_owned()),
                ),
            }
        },
    }
}

} // verus!
