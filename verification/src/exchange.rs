//! The full-contents exchange, proved end to end: feeding every Contents
//! request the sender builds for a file through the receiver's handler
//! acknowledges each chunk and materializes exactly the sender's bytes.

use vstd::prelude::*;
use vstd::pervasive::unreached;
use crate::proto::TransferRequest;
use crate::hash::{sha256_of, shasum_bytes};
use crate::delta::{delta_of, signature_of, well_headed_sig};
use crate::handler::{
    bytes_eq, handle_contents, handle_delta, joined, safe_rel, DeltaStep, FsAction,
};
use crate::sender::{
    build_delta_requests, chunk_at, contents_chunks, contents_requests, lemma_chunk_bounds,
    num_chunks, FILE_CHUNK_SIZE,
};
use crate::store::{pushed_bytes, Store};

verus! {

/// Mirror one file through the protocol: hash the sender's bytes, build
/// the Contents requests, and serve each one. Whatever partial upload the
/// store may hold for this path under a different hash — a sender that
/// restarted mid-upload abandons it — the first chunk discards it, every
/// chunk is acknowledged, and the materializing write that comes back from
/// the terminal chunk holds exactly the sender's bytes, the empty file
/// included. An in-flight upload under the same hash is not resumed: the
/// exchange backs off and nothing is decided. This is the full-contents
/// transfer with the wire taken out.
pub fn mirror_file_contents(store: &mut Store, root: &Vec<u8>, rel: &Vec<u8>, data: &[u8]) -> (r:
    Option<FsAction>)
    requires
        old(store).wf(),
        safe_rel(rel@),
    ensures
        final(store).wf(),
        (match old(store).file_at(joined(root@, rel@)) {
            Some(e) => e.0 != sha256_of(data@),
            None => true,
        }) ==> {
            &&& final(store).file_at(joined(root@, rel@)) is None
            &&& (r matches Some(FsAction::WriteFile { path, data: d }) && path@ == joined(
                root@,
                rel@,
            ) && d@ == data@)
        },
{
    let ghost dest = joined(root@, rel@);
    let data_len = data.len();
    let shasum = shasum_bytes(data);
    let dest_path = rel_dest(root, rel);
    match store.file_hash(&dest_path) {
        Some(h) => {
            if bytes_eq(&h, &shasum) {
                return None;
            }
        },
        None => {},
    }
    let reqs = contents_requests(rel, data, &shasum);
    let n = reqs.len();
    proof {
        if data@.len() > 0 {
            assert(num_chunks(data@.len()) > 0);
        }
        assert(contents_chunks(data@.len()) > 0);
    }
    let mut j: usize = 0;
    while j < n
        invariant
            old(store).wf(),
            store.wf(),
            safe_rel(rel@),
            data_len == data@.len(),
            dest == joined(root@, rel@),
            shasum@ == sha256_of(data@),
            shasum@.len() == 32,
            n == reqs@.len(),
            n == contents_chunks(data@.len()),
            j < n,
            forall|i: int|
                0 <= i < n ==> crate::sender::chunk_request_ok(
                    #[trigger] reqs@[i],
                    crate::proto::TransferRequestKind::Contents,
                    crate::proto::TransferKind::Contents,
                    rel@,
                    data@,
                    shasum@,
                    data@.len() as usize,
                    data@.len() as usize,
                    i,
                ),
            store.file_at(dest) == if j == 0 {
                old(store).file_at(dest)
            } else {
                Some((shasum@, data@.subrange(0, j * FILE_CHUNK_SIZE)))
            },
            j == 0 ==> match store.file_at(dest) {
                Some(e) => e.0 != shasum@,
                None => true,
            },
        decreases n - j,
    {
        let req: &TransferRequest = vstd::slice::slice_index_get(reqs.as_slice(), j);
        proof {
            if data_len > 0 {
                lemma_chunk_bounds(data@.len(), j as nat);
            }
            assert(crate::handler::valid_contents_req(*req));
        }
        let ghost prev = store.file_at(dest);
        let (resp, action) = handle_contents(store, root, req);
        proof {
            let t = req.transfer->0;
            let nb = pushed_bytes(prev, t.shasum@, t.data@);
            let hi = if (j + 1) * FILE_CHUNK_SIZE <= data@.len() {
                (j + 1) * FILE_CHUNK_SIZE
            } else {
                data@.len() as int
            };
            assert(t.data@ == chunk_at(data@, j as int));
            if j == 0 {
                assert(nb =~= data@.subrange(0, hi));
            } else {
                assert(prev == Some((shasum@, data@.subrange(0, j * FILE_CHUNK_SIZE))));
                assert(nb =~= data@.subrange(0, j * FILE_CHUNK_SIZE) + data@.subrange(
                    j * FILE_CHUNK_SIZE,
                    hi,
                ));
                assert(nb =~= data@.subrange(0, hi));
            }
            if j + 1 == n {
                assert(data@.len() <= (j + 1) * FILE_CHUNK_SIZE);
                assert(nb =~= data@);
            } else {
                lemma_chunk_bounds(data@.len(), (j + 1) as nat);
                assert((j + 1) * FILE_CHUNK_SIZE < data@.len());
                assert(nb.len() == (j + 1) * FILE_CHUNK_SIZE);
            }
        }
        if j + 1 == n {
            match action {
                Some(act) => {
                    return Some(act);
                },
                None => {
                    proof {
                        assert(false);
                    }
                    return unreached();
                },
            }
        }
        j = j + 1;
    }
    proof {
        assert(false);
    }
    unreached()
}

/// The destination path of a relative path, as a fresh vector.
fn rel_dest(root: &Vec<u8>, rel: &Vec<u8>) -> (r: Vec<u8>)
    requires
        safe_rel(rel@),
    ensures
        r@ == joined(root@, rel@),
{
    match crate::handler::join_under_root(root, rel) {
        Some(d) => d,
        None => {
            proof {
                assert(false);
            }
            unreached()
        },
    }
}

/// Mirror one file's delta exchange through the protocol, with the wire
/// taken out: hash the sender's bytes, compute the delta against the
/// signature the receiver sent, build the Delta requests, and serve each
/// one. Every chunk before the last is acknowledged, and the last hands
/// back the application step carrying exactly the delta the sender
/// computed, the sender's hash, and the sender's file size. Nothing comes
/// back only when the signature bytes do not parse or the delta is empty;
/// on every well-headed signature the receiver itself computed, the delta
/// is handed back whenever it is not empty.
pub fn mirror_file_delta(
    store: &mut Store,
    root: &Vec<u8>,
    rel: &Vec<u8>,
    data: &[u8],
    signature: &[u8],
) -> (r: Option<DeltaStep>)
    requires
        old(store).wf(),
        safe_rel(rel@),
        old(store).delta_at(joined(root@, rel@)) is None,
    ensures
        final(store).wf(),
        final(store).delta_at(joined(root@, rel@)) is None,
        (r matches Some(step) ==> step matches DeltaStep::Apply {
            id,
            path,
            delta,
            shasum,
            file_size,
        } && path@ == joined(root@, rel@) && delta@ == delta_of(signature@, data@) && shasum@
            == sha256_of(data@) && file_size == data@.len()),
        ((exists|b: Seq<u8>| signature@ == signature_of(b)) && well_headed_sig(signature@)
            && delta_of(signature@, data@).len() > 0) ==> r is Some,
{
    let ghost dest = joined(root@, rel@);
    let data_len = data.len();
    let shasum = shasum_bytes(data);
    let reqs = match build_delta_requests(rel, data, &shasum, signature) {
        Ok(reqs) => reqs,
        Err(_) => {
            return None;
        },
    };
    let ghost whole = delta_of(signature@, data@);
    let n = reqs.len();
    if n == 0 {
        proof {
            assert(whole.len() == 0);
        }
        return None;
    }
    let mut j: usize = 0;
    while j < n
        invariant
            old(store).wf(),
            store.wf(),
            safe_rel(rel@),
            dest == joined(root@, rel@),
            data_len == data@.len(),
            shasum@ == sha256_of(data@),
            whole == delta_of(signature@, data@),
            whole.len() <= usize::MAX,
            n == reqs@.len(),
            n == num_chunks(whole.len()),
            0 < n,
            j < n,
            forall|i: int|
                0 <= i < n ==> crate::sender::chunk_request_ok(
                    #[trigger] reqs@[i],
                    crate::proto::TransferRequestKind::Delta,
                    crate::proto::TransferKind::Delta,
                    rel@,
                    whole,
                    shasum@,
                    data@.len() as usize,
                    whole.len() as usize,
                    i,
                ),
            store.delta_at(dest) == if j == 0 {
                None::<(Seq<u8>, Seq<u8>)>
            } else {
                Some((shasum@, whole.subrange(0, j * FILE_CHUNK_SIZE)))
            },
            forall|p: Seq<u8>| p != dest ==> store.delta_at(p) == old(store).delta_at(p),
        decreases n - j,
    {
        let req: &TransferRequest = vstd::slice::slice_index_get(reqs.as_slice(), j);
        proof {
            lemma_chunk_bounds(whole.len(), j as nat);
            assert(crate::handler::valid_delta_req(*req));
        }
        let ghost prev = store.delta_at(dest);
        let step = handle_delta(store, root, req);
        proof {
            let t = req.transfer->0;
            let nd = pushed_bytes(prev, t.shasum@, t.data@);
            let hi = if (j + 1) * FILE_CHUNK_SIZE <= whole.len() {
                (j + 1) * FILE_CHUNK_SIZE
            } else {
                whole.len() as int
            };
            assert(t.data@ == chunk_at(whole, j as int));
            if j == 0 {
                assert(nd =~= whole.subrange(0, hi));
            } else {
                assert(prev == Some((shasum@, whole.subrange(0, j * FILE_CHUNK_SIZE))));
                assert(nd =~= whole.subrange(0, j * FILE_CHUNK_SIZE) + whole.subrange(
                    j * FILE_CHUNK_SIZE,
                    hi,
                ));
                assert(nd =~= whole.subrange(0, hi));
            }
            if j + 1 == n {
                assert(whole.len() <= (j + 1) * FILE_CHUNK_SIZE);
                assert(nd =~= whole);
            } else {
                lemma_chunk_bounds(whole.len(), (j + 1) as nat);
                assert((j + 1) * FILE_CHUNK_SIZE < whole.len());
                assert(nd.len() == (j + 1) * FILE_CHUNK_SIZE);
            }
        }
        if j + 1 == n {
            match step {
                DeltaStep::Apply { id, path, delta, shasum, file_size } => {
                    return Some(DeltaStep::Apply { id, path, delta, shasum, file_size });
                },
                DeltaStep::Reply(_) => {
                    proof {
                        assert(false);
                    }
                    return unreached();
                },
            }
        }
        j = j + 1;
    }
    proof {
        assert(false);
    }
    unreached()
}

} // verus!
