use syncd::handler::{
    apply_complete_delta, check_file_reply, handle_contents, join_under_root, transfer_handler,
    DeltaStep, FsAction, HandlerStep,
};
use syncd::handler::handle_delta;
use syncd::hash::shasum_bytes;
use syncd::proto::{
    FileType, Transfer, TransferKind, TransferRequest, TransferRequestKind, TransferResponseKind,
};
use syncd::store::Store;

fn contents_request(id: u128, path: &[u8], data: &[u8], shasum: Vec<u8>, file_size: usize) -> TransferRequest {
    TransferRequest {
        id,
        path: path.to_vec(),
        file_type: FileType::File,
        kind: TransferRequestKind::Contents,
        transfer: Some(Transfer {
            kind: TransferKind::Contents,
            data: data.to_vec(),
            shasum,
            file_size: Some(file_size),
            data_size: Some(file_size),
        }),
    }
}

#[test]
fn fresh_file_single_chunk_materializes() {
    // Source file "a.txt" holding "hello": one Contents chunk with
    // file_size 5 completes the upload and writes the bytes.
    let mut store = Store::new();
    let root = b"/dst".to_vec();
    let shasum = shasum_bytes(b"hello");
    let req = contents_request(1, b"a.txt", b"hello", shasum, 5);
    let (resp, action) = handle_contents(&mut store, &root, &req);
    assert_eq!(resp.id, 1);
    assert_eq!(resp.kind, TransferResponseKind::Okay);
    match action {
        Some(FsAction::WriteFile { path, data }) => {
            assert_eq!(path, b"/dst/a.txt".to_vec());
            assert_eq!(data, b"hello".to_vec());
        }
        other => panic!("expected a write, got {other:?}"),
    }
}

#[test]
fn multi_chunk_upload_replies_ok_to_every_chunk() {
    let mut store = Store::new();
    let root = b"/dst".to_vec();
    let whole = b"abcdefgh";
    let shasum = shasum_bytes(whole);
    // Three chunks: 3 + 3 + 2 bytes.
    let (resp, action) = handle_contents(
        &mut store,
        &root,
        &contents_request(1, b"f", &whole[..3], shasum.clone(), whole.len()),
    );
    assert_eq!(resp.kind, TransferResponseKind::Okay);
    assert!(action.is_none());
    let (resp, action) = handle_contents(
        &mut store,
        &root,
        &contents_request(2, b"f", &whole[3..6], shasum.clone(), whole.len()),
    );
    assert_eq!(resp.kind, TransferResponseKind::Okay);
    assert!(action.is_none());
    let (resp, action) = handle_contents(
        &mut store,
        &root,
        &contents_request(3, b"f", &whole[6..], shasum.clone(), whole.len()),
    );
    assert_eq!(resp.kind, TransferResponseKind::Okay);
    match action {
        Some(FsAction::WriteFile { data, .. }) => assert_eq!(data, whole.to_vec()),
        other => panic!("expected a write, got {other:?}"),
    }
}

#[test]
fn integrity_failure_surfaces_only_on_terminal_chunk() {
    let mut store = Store::new();
    let root = b"/dst".to_vec();
    // The announced hash is of different bytes than those sent.
    let wrong = shasum_bytes(b"other bytes entirely");
    let (resp, action) = handle_contents(
        &mut store,
        &root,
        &contents_request(1, b"f", b"abc", wrong.clone(), 6),
    );
    assert_eq!(resp.kind, TransferResponseKind::Okay);
    assert!(action.is_none());
    let (resp, action) = handle_contents(
        &mut store,
        &root,
        &contents_request(2, b"f", b"def", wrong, 6),
    );
    assert!(matches!(resp.kind, TransferResponseKind::CantHandle { .. }));
    assert!(action.is_none());
}

#[test]
fn sender_restart_discards_partial_state() {
    // Two Contents chunks under hash H1, then the sender starts over with
    // H2: the store discards the H1 bytes and the final file carries H2.
    let mut store = Store::new();
    let root = b"/dst".to_vec();
    let h1 = shasum_bytes(b"first contents!!");
    let (resp, _) = handle_contents(
        &mut store,
        &root,
        &contents_request(1, b"a.txt", b"first ", h1.clone(), 16),
    );
    assert_eq!(resp.kind, TransferResponseKind::Okay);
    let (resp, _) = handle_contents(
        &mut store,
        &root,
        &contents_request(2, b"a.txt", b"conte", h1, 16),
    );
    assert_eq!(resp.kind, TransferResponseKind::Okay);

    let new_contents = b"second try";
    let h2 = shasum_bytes(new_contents);
    let (resp, action) = handle_contents(
        &mut store,
        &root,
        &contents_request(3, b"a.txt", new_contents, h2.clone(), new_contents.len()),
    );
    assert_eq!(resp.kind, TransferResponseKind::Okay);
    match action {
        Some(FsAction::WriteFile { data, .. }) => {
            assert_eq!(data, new_contents.to_vec());
            assert_eq!(shasum_bytes(&data), h2);
        }
        other => panic!("expected a write, got {other:?}"),
    }
}

#[test]
fn restart_mid_upload_ends_with_the_new_bytes() {
    // Two chunks of an upload announced under H1 sit in the store when the
    // sender starts over with different contents: the whole new exchange
    // discards the partial state on its first chunk, acknowledges every
    // chunk, and materializes exactly the new bytes.
    let mut store = Store::new();
    let root = b"/dst".to_vec();
    let h1 = shasum_bytes(b"the abandoned contents");
    let (resp, _) = handle_contents(
        &mut store,
        &root,
        &contents_request(1, b"a.txt", b"the aband", h1.clone(), 22),
    );
    assert_eq!(resp.kind, TransferResponseKind::Okay);
    let (resp, _) = handle_contents(
        &mut store,
        &root,
        &contents_request(2, b"a.txt", b"oned", h1, 22),
    );
    assert_eq!(resp.kind, TransferResponseKind::Okay);

    let new_contents = b"what the sender holds now";
    let action = syncd::exchange::mirror_file_contents(
        &mut store,
        &root,
        &b"a.txt".to_vec(),
        new_contents,
    );
    match action {
        Some(FsAction::WriteFile { path, data }) => {
            assert_eq!(path, b"/dst/a.txt".to_vec());
            assert_eq!(data, new_contents.to_vec());
            assert_eq!(shasum_bytes(&data), shasum_bytes(new_contents));
        }
        other => panic!("expected a write, got {other:?}"),
    }
}

#[test]
fn identical_file_is_acknowledged_without_any_write() {
    // Check on a file whose destination bytes already carry the sender's
    // hash: the one reply is affirmative and nothing else happens.
    let current = b"hello".to_vec();
    let shasum = shasum_bytes(b"hello");
    let transfer = Transfer {
        kind: TransferKind::Empty,
        data: Vec::new(),
        shasum,
        file_size: None,
        data_size: None,
    };
    let resp = check_file_reply(9, Some(&current), &transfer);
    assert_eq!(resp.id, 9);
    assert_eq!(resp.kind, TransferResponseKind::Okay);
}

#[test]
fn absent_file_asks_for_contents() {
    let transfer = Transfer {
        kind: TransferKind::Empty,
        data: Vec::new(),
        shasum: shasum_bytes(b"hello"),
        file_size: None,
        data_size: None,
    };
    let resp = check_file_reply(4, None, &transfer);
    assert_eq!(resp.kind, TransferResponseKind::NeedContents);
}

#[test]
fn differing_file_answers_with_a_signature() {
    let current = b"old contents".to_vec();
    let transfer = Transfer {
        kind: TransferKind::Empty,
        data: Vec::new(),
        shasum: shasum_bytes(b"new contents"),
        file_size: None,
        data_size: None,
    };
    let resp = check_file_reply(4, Some(&current), &transfer);
    match resp.kind {
        TransferResponseKind::Different { signature } => assert!(!signature.is_empty()),
        other => panic!("expected a signature, got {other:?}"),
    }
}

#[test]
fn traversal_and_absolute_paths_are_rejected() {
    let root = b"/dst".to_vec();
    assert_eq!(join_under_root(&root, &b"a/b.txt".to_vec()), Some(b"/dst/a/b.txt".to_vec()));
    assert_eq!(join_under_root(&root, &b"".to_vec()), Some(b"/dst".to_vec()));
    assert_eq!(join_under_root(&root, &b"/etc/passwd".to_vec()), None);
    assert_eq!(join_under_root(&root, &b"../x".to_vec()), None);
    assert_eq!(join_under_root(&root, &b"a/../b".to_vec()), None);
    assert_eq!(join_under_root(&root, &b"a/..".to_vec()), None);
    assert_eq!(join_under_root(&root, &b"..".to_vec()), None);
    // A component merely containing dots is fine.
    assert_eq!(join_under_root(&root, &b"a..b/..c".to_vec()), Some(b"/dst/a..b/..c".to_vec()));
}

#[test]
fn traversal_in_a_contents_request_cannot_be_handled() {
    let mut store = Store::new();
    let root = b"/dst".to_vec();
    let shasum = shasum_bytes(b"x");
    let req = contents_request(1, b"../escape", b"x", shasum, 1);
    let (resp, action) = handle_contents(&mut store, &root, &req);
    assert!(matches!(resp.kind, TransferResponseKind::CantHandle { .. }));
    assert!(action.is_none());
}

#[test]
fn delta_chunks_accumulate_until_announced_size() {
    let mut store = Store::new();
    let root = b"/dst".to_vec();
    let shasum = shasum_bytes(b"whatever");
    let mk = |id: u128, data: &[u8]| TransferRequest {
        id,
        path: b"f".to_vec(),
        file_type: FileType::File,
        kind: TransferRequestKind::Delta,
        transfer: Some(Transfer {
            kind: TransferKind::Delta,
            data: data.to_vec(),
            shasum: shasum.clone(),
            file_size: Some(100),
            data_size: Some(6),
        }),
    };
    match handle_delta(&mut store, &root, &mk(1, b"abc")) {
        DeltaStep::Reply(resp) => assert_eq!(resp.kind, TransferResponseKind::Okay),
        DeltaStep::Apply { .. } => panic!("delta is not complete yet"),
    }
    match handle_delta(&mut store, &root, &mk(2, b"def")) {
        DeltaStep::Apply { id, path, delta, file_size, .. } => {
            assert_eq!(id, 2);
            assert_eq!(path, b"/dst/f".to_vec());
            assert_eq!(delta, b"abcdef".to_vec());
            assert_eq!(file_size, 100);
        }
        DeltaStep::Reply(resp) => panic!("expected completion, got {:?}", resp.kind),
    }
}

#[test]
fn malformed_delta_asks_for_contents() {
    // A complete delta that is not a well-formed delta stream: application
    // fails and the receiver falls back to asking for the full contents.
    let base = b"base file".to_vec();
    let (resp, action) = apply_complete_delta(
        7,
        b"/dst/f".to_vec(),
        Some(&base),
        &b"not a delta".to_vec(),
        &shasum_bytes(b"anything"),
        100,
    );
    assert_eq!(resp.id, 7);
    assert_eq!(resp.kind, TransferResponseKind::NeedContents);
    assert!(action.is_none());
}

#[test]
fn unreadable_base_cannot_be_handled() {
    let (resp, action) = apply_complete_delta(
        8,
        b"/dst/f".to_vec(),
        None,
        &b"irrelevant".to_vec(),
        &shasum_bytes(b"anything"),
        100,
    );
    assert!(matches!(resp.kind, TransferResponseKind::CantHandle { .. }));
    assert!(action.is_none());
}

#[test]
fn dispatcher_routes_by_kind() {
    let mut store = Store::new();
    let root = b"/dst".to_vec();

    let check_dir = TransferRequest {
        id: 1,
        path: b"sub".to_vec(),
        file_type: FileType::Dir,
        kind: TransferRequestKind::Check,
        transfer: None,
    };
    match transfer_handler(&mut store, &root, &check_dir) {
        HandlerStep::Act { id, action: FsAction::EnsureDir { path } } => {
            assert_eq!(id, 1);
            assert_eq!(path, b"/dst/sub".to_vec());
        }
        other => panic!("expected a directory action, got {other:?}"),
    }

    let check_file = TransferRequest {
        id: 2,
        path: b"a.txt".to_vec(),
        file_type: FileType::File,
        kind: TransferRequestKind::Check,
        transfer: Some(Transfer {
            kind: TransferKind::Empty,
            data: Vec::new(),
            shasum: shasum_bytes(b"hello"),
            file_size: None,
            data_size: None,
        }),
    };
    match transfer_handler(&mut store, &root, &check_file) {
        HandlerStep::ProbeFile { id, path, .. } => {
            assert_eq!(id, 2);
            assert_eq!(path, b"/dst/a.txt".to_vec());
        }
        other => panic!("expected a probe, got {other:?}"),
    }

    let check_symlink = TransferRequest {
        id: 3,
        path: b"s".to_vec(),
        file_type: FileType::Symlink,
        kind: TransferRequestKind::Check,
        transfer: None,
    };
    match transfer_handler(&mut store, &root, &check_symlink) {
        HandlerStep::Reply(resp) => {
            assert!(matches!(resp.kind, TransferResponseKind::CantHandle { .. }))
        }
        other => panic!("expected a refusal, got {other:?}"),
    }

    let remove_file = TransferRequest {
        id: 4,
        path: b"a.txt".to_vec(),
        file_type: FileType::File,
        kind: TransferRequestKind::Remove,
        transfer: None,
    };
    match transfer_handler(&mut store, &root, &remove_file) {
        HandlerStep::Act { action: FsAction::RemoveFile { path }, .. } => {
            assert_eq!(path, b"/dst/a.txt".to_vec());
        }
        other => panic!("expected a removal, got {other:?}"),
    }

    let remove_dir = TransferRequest {
        id: 5,
        path: b"sub".to_vec(),
        file_type: FileType::Dir,
        kind: TransferRequestKind::Remove,
        transfer: None,
    };
    match transfer_handler(&mut store, &root, &remove_dir) {
        HandlerStep::Act { action: FsAction::RemoveDir { path }, .. } => {
            assert_eq!(path, b"/dst/sub".to_vec());
        }
        other => panic!("expected a removal, got {other:?}"),
    }

    let rename = TransferRequest {
        id: 6,
        path: b"old".to_vec(),
        file_type: FileType::File,
        kind: TransferRequestKind::Rename { new_path: b"new".to_vec() },
        transfer: None,
    };
    match transfer_handler(&mut store, &root, &rename) {
        HandlerStep::Act { action: FsAction::Rename { from, to }, .. } => {
            assert_eq!(from, b"/dst/old".to_vec());
            assert_eq!(to, b"/dst/new".to_vec());
        }
        other => panic!("expected a rename, got {other:?}"),
    }
}

#[test]
fn integrity_failure_names_both_hashes_in_hex() {
    let mut store = Store::new();
    let root = b"/dst".to_vec();
    let announced = shasum_bytes(b"what the sender promised");
    let (resp, _) = handle_contents(
        &mut store,
        &root,
        &contents_request(1, b"f", b"abc", announced, 3),
    );
    let reason = match resp.kind {
        TransferResponseKind::CantHandle { reason } => reason,
        other => panic!("expected a handler failure, got {other:?}"),
    };
    let computed_hex = "ba7816bf8f01cfea414140de5dae2223b00361a396177a9cb410ff61f20015ad";
    let announced_hex = "6b8c8829313369a6a0daf4caf6c2d4164e9193d08ce5871677b612423dc5ec0d";
    assert!(reason.contains(computed_hex), "computed hash missing from: {reason}");
    assert!(reason.contains(announced_hex), "announced hash missing from: {reason}");
}
