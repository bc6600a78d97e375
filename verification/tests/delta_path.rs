use syncd::exchange::mirror_file_contents;
use syncd::handler::{
    apply_complete_delta, check_file_reply, handle_delta, DeltaStep, FsAction,
};
use syncd::hash::shasum_bytes;
use syncd::proto::{Transfer, TransferKind, TransferRequestKind, TransferResponseKind};
use syncd::sender::build_delta_requests;
use syncd::store::Store;

/// Drive the delta exchange for one file at the library level: Check on
/// the destination's bytes, delta computation against the returned
/// signature, chunked Delta requests through the receiver, and the final
/// application against `base_at_apply` (which may differ from the bytes
/// the signature was computed over, as when the destination file is
/// corrupted mid-exchange).
fn run_delta_exchange(
    source: &[u8],
    dest_at_check: &[u8],
    base_at_apply: &[u8],
) -> (TransferResponseKind, Option<FsAction>) {
    let shasum = shasum_bytes(source);
    let check_transfer = Transfer {
        kind: TransferKind::Empty,
        data: Vec::new(),
        shasum: shasum.clone(),
        file_size: None,
        data_size: None,
    };
    let resp = check_file_reply(1, Some(&dest_at_check.to_vec()), &check_transfer);
    let signature = match resp.kind {
        TransferResponseKind::Different { signature } => signature,
        other => panic!("expected a signature, got {other:?}"),
    };

    let reqs = build_delta_requests(&b"a.txt".to_vec(), source, &shasum, &signature)
        .expect("the receiver's own signature parses");
    assert!(!reqs.is_empty());

    let mut store = Store::new();
    let root = b"/dst".to_vec();
    let n = reqs.len();
    for (i, req) in reqs.iter().enumerate() {
        assert!(matches!(req.kind, TransferRequestKind::Delta));
        match handle_delta(&mut store, &root, req) {
            DeltaStep::Reply(resp) => {
                assert_eq!(resp.kind, TransferResponseKind::Okay);
                assert!(i + 1 < n, "the final chunk must complete the delta");
            }
            DeltaStep::Apply { id, path, delta, shasum: sh, file_size } => {
                assert_eq!(i + 1, n, "only the final chunk completes the delta");
                assert_eq!(path, b"/dst/a.txt".to_vec());
                assert_eq!(file_size, source.len());
                let (resp, action) = apply_complete_delta(
                    id,
                    path,
                    Some(&base_at_apply.to_vec()),
                    &delta,
                    &sh,
                    file_size,
                );
                return (resp.kind, action);
            }
        }
    }
    panic!("the delta never completed");
}

#[test]
fn delta_path_reconstructs_the_source() {
    // Source: 2 MiB of zeros then one 'X'; destination: 2 MiB of zeros.
    // The delta path reproduces the source byte for byte.
    let mut source = vec![0u8; 2 * 1024 * 1024];
    source.push(b'X');
    let dest = vec![0u8; 2 * 1024 * 1024];
    let (kind, action) = run_delta_exchange(&source, &dest, &dest);
    assert_eq!(kind, TransferResponseKind::Okay);
    match action {
        Some(FsAction::WriteFile { data, .. }) => {
            assert_eq!(data.len(), source.len());
            assert!(data == source);
        }
        other => panic!("expected a write, got {other:?}"),
    }
}

#[test]
fn ten_mib_delta_path_byte_equals_source() {
    // Source: 10 MiB of zeros then one 'X' (byte 10485760 = 0x58);
    // destination: 10 MiB of zeros.
    let mut source = vec![0u8; 10 * 1024 * 1024];
    source.push(0x58);
    let dest = vec![0u8; 10 * 1024 * 1024];
    let (kind, action) = run_delta_exchange(&source, &dest, &dest);
    assert_eq!(kind, TransferResponseKind::Okay);
    match action {
        Some(FsAction::WriteFile { data, .. }) => assert!(data == source),
        other => panic!("expected a write, got {other:?}"),
    }
}

#[test]
fn corrupted_base_falls_back_to_contents() {
    // The destination file changes between signature emission and delta
    // application: the apply result fails the hash check and the receiver
    // asks for the full contents; resending the contents reproduces the
    // source.
    let mut source = vec![0u8; 2 * 1024 * 1024];
    source.push(b'X');
    let dest = vec![0u8; 2 * 1024 * 1024];
    // The whole file is swapped out from under the exchange.
    let corrupted = vec![0xAAu8; 2 * 1024 * 1024];
    let (kind, action) = run_delta_exchange(&source, &dest, &corrupted);
    assert_eq!(kind, TransferResponseKind::NeedContents);
    assert!(action.is_none());

    // The sender falls back to the full-contents path with the same bytes
    // and hash; the destination then byte-equals the source.
    let mut store = Store::new();
    let action = mirror_file_contents(
        &mut store,
        &b"/dst".to_vec(),
        &b"a.txt".to_vec(),
        &source,
    );
    match action {
        Some(FsAction::WriteFile { path, data }) => {
            assert_eq!(path, b"/dst/a.txt".to_vec());
            assert!(data == source);
        }
        other => panic!("expected a write, got {other:?}"),
    }
}

#[test]
fn empty_file_reaches_the_destination() {
    // An empty source file is materialized as an empty destination file.
    let mut store = Store::new();
    let action = mirror_file_contents(
        &mut store,
        &b"/dst".to_vec(),
        &b"empty.txt".to_vec(),
        b"",
    );
    match action {
        Some(FsAction::WriteFile { path, data }) => {
            assert_eq!(path, b"/dst/empty.txt".to_vec());
            assert!(data.is_empty());
        }
        other => panic!("expected a write, got {other:?}"),
    }
}

#[test]
fn fresh_file_transfer_end_to_end() {
    // Source holds "hello", destination empty: the full-contents exchange
    // materializes "hello" at the destination path.
    let mut store = Store::new();
    let action = mirror_file_contents(
        &mut store,
        &b"/dst".to_vec(),
        &b"a.txt".to_vec(),
        b"hello",
    );
    match action {
        Some(FsAction::WriteFile { path, data }) => {
            assert_eq!(path, b"/dst/a.txt".to_vec());
            assert_eq!(data, b"hello".to_vec());
        }
        other => panic!("expected a write, got {other:?}"),
    }
}

#[test]
fn signature_serialization_round_trips() {
    // The signature wire format round-trips through the delta library:
    // deserializing a serialized signature and serializing it again gives
    // the same bytes, and the parsed signatures are structurally equal.
    let data = b"some file contents, long enough to span a few blocks".repeat(1000);
    let options = fast_rsync::SignatureOptions { block_size: 4096, crypto_hash_size: 8 };
    let sig = fast_rsync::Signature::calculate(&data, options);
    let serialized = sig.serialized().to_vec();
    let parsed = fast_rsync::Signature::deserialize(serialized.clone()).expect("parses");
    assert_eq!(parsed, sig);
    assert_eq!(parsed.serialized(), serialized.as_slice());
    let reparsed = fast_rsync::Signature::deserialize(parsed.into_serialized()).expect("parses");
    assert_eq!(reparsed, sig);
}

#[test]
fn diff_apply_round_trip() {
    // apply(base, diff(signature(base), new)) reconstructs new while the
    // base is unchanged, exercised through the library's public delta
    // functions.
    let base: Vec<u8> = (0u32..200_000).map(|i| (i % 253) as u8).collect();
    let mut new = base.clone();
    new[100_000] = 7;
    new.extend_from_slice(b"appended tail");

    let shasum = shasum_bytes(&new);
    let check_transfer = Transfer {
        kind: TransferKind::Empty,
        data: Vec::new(),
        shasum: shasum.clone(),
        file_size: None,
        data_size: None,
    };
    let resp = check_file_reply(1, Some(&base), &check_transfer);
    let signature = match resp.kind {
        TransferResponseKind::Different { signature } => signature,
        other => panic!("expected a signature, got {other:?}"),
    };
    let reqs = build_delta_requests(&b"f".to_vec(), &new, &shasum, &signature).expect("parses");
    let mut delta = Vec::new();
    for req in &reqs {
        delta.extend_from_slice(&req.transfer.as_ref().unwrap().data);
    }
    let (resp, action) =
        apply_complete_delta(2, b"/dst/f".to_vec(), Some(&base), &delta, &shasum, new.len());
    assert_eq!(resp.kind, TransferResponseKind::Okay);
    match action {
        Some(FsAction::WriteFile { data, .. }) => assert!(data == new),
        other => panic!("expected a write, got {other:?}"),
    }
}

#[test]
fn delta_exchange_hands_back_the_senders_delta() {
    // The receiver reassembles, across chunked Delta requests, exactly the
    // delta the sender computed, with the sender's hash and file size.
    let mut source = vec![1u8; 3 * 1024 * 1024];
    source[2_000_000] = 9;
    let dest = vec![1u8; 3 * 1024 * 1024];

    let shasum = shasum_bytes(&source);
    let check_transfer = Transfer {
        kind: TransferKind::Empty,
        data: Vec::new(),
        shasum: shasum.clone(),
        file_size: None,
        data_size: None,
    };
    let resp = check_file_reply(1, Some(&dest), &check_transfer);
    let signature = match resp.kind {
        TransferResponseKind::Different { signature } => signature,
        other => panic!("expected a signature, got {other:?}"),
    };

    let mut store = Store::new();
    let step = syncd::exchange::mirror_file_delta(
        &mut store,
        &b"/dst".to_vec(),
        &b"a.bin".to_vec(),
        &source,
        &signature,
    );
    match step {
        Some(DeltaStep::Apply { path, delta, shasum: sh, file_size, .. }) => {
            assert_eq!(path, b"/dst/a.bin".to_vec());
            assert_eq!(sh, shasum);
            assert_eq!(file_size, source.len());
            // Applying the assembled delta reproduces the source.
            let (resp, action) =
                apply_complete_delta(2, path, Some(&dest), &delta, &sh, file_size);
            assert_eq!(resp.kind, TransferResponseKind::Okay);
            match action {
                Some(FsAction::WriteFile { data, .. }) => assert!(data == source),
                other => panic!("expected a write, got {other:?}"),
            }
        }
        other => panic!("expected an application step, got {other:?}"),
    }
}

#[test]
fn multi_chunk_delta_reconstructs_dissimilar_source() {
    // A destination that shares no blocks with the source forces a delta
    // dominated by literal bytes, larger than one chunk; the receiver
    // assembles all chunks and the application reproduces the source.
    let source: Vec<u8> = (0u32..(5 * 1024 * 1024 / 2)).flat_map(|i| i.to_le_bytes()).collect();
    let dest = b"completely unrelated destination bytes".to_vec();
    let (kind, action) = run_delta_exchange(&source, &dest, &dest);
    assert_eq!(kind, TransferResponseKind::Okay);
    match action {
        Some(FsAction::WriteFile { data, .. }) => assert!(data == source),
        other => panic!("expected a write, got {other:?}"),
    }
}
