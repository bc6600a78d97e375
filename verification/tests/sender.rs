use syncd::proto::{
    FileType, TransferKind, TransferRequestKind, TransferResponse, TransferResponseKind,
};
use syncd::sender::{
    ack_outcome, build_delta_requests, check_dir_request, check_file_request, check_reply_outcome,
    classify_entry, classify_event, contents_requests, delta_reply_outcome, remove_request,
    rename_request, AckOutcome, CheckOutcome, DeltaReplyOutcome, EntryAction, FsEventKind,
    SenderAction, FILE_CHUNK_SIZE,
};
use syncd::hash::shasum_bytes;

#[test]
fn contents_requests_chunk_the_file() {
    // 2.5 MiB of data: three chunks of 1 MiB, 1 MiB and 0.5 MiB.
    let len = 2 * FILE_CHUNK_SIZE + FILE_CHUNK_SIZE / 2;
    let mut data = vec![0u8; len];
    for (i, b) in data.iter_mut().enumerate() {
        *b = (i % 251) as u8;
    }
    let shasum = shasum_bytes(&data);
    let reqs = contents_requests(&b"big.bin".to_vec(), &data, &shasum);
    assert_eq!(reqs.len(), 3);
    let mut rebuilt = Vec::new();
    for req in &reqs {
        assert_eq!(req.path, b"big.bin".to_vec());
        assert_eq!(req.file_type, FileType::File);
        assert!(matches!(req.kind, TransferRequestKind::Contents));
        let t = req.transfer.as_ref().expect("has transfer");
        assert_eq!(t.kind, TransferKind::Contents);
        assert_eq!(t.shasum, shasum);
        assert_eq!(t.file_size, Some(len));
        assert_eq!(t.data_size, Some(len));
        rebuilt.extend_from_slice(&t.data);
    }
    assert_eq!(reqs[0].transfer.as_ref().unwrap().data.len(), FILE_CHUNK_SIZE);
    assert_eq!(reqs[1].transfer.as_ref().unwrap().data.len(), FILE_CHUNK_SIZE);
    assert_eq!(reqs[2].transfer.as_ref().unwrap().data.len(), FILE_CHUNK_SIZE / 2);
    assert_eq!(rebuilt, data);
}

#[test]
fn empty_file_sends_one_empty_chunk() {
    // An empty source file still reaches the destination: one Contents
    // request with no data and both totals zero.
    let data: Vec<u8> = Vec::new();
    let shasum = shasum_bytes(&data);
    let reqs = contents_requests(&b"empty".to_vec(), &data, &shasum);
    assert_eq!(reqs.len(), 1);
    let t = reqs[0].transfer.as_ref().expect("has transfer");
    assert!(t.data.is_empty());
    assert_eq!(t.shasum, shasum);
    assert_eq!(t.file_size, Some(0));
    assert_eq!(t.data_size, Some(0));
}

#[test]
fn malformed_signatures_are_rejected_before_the_delta_engine() {
    // A signature shorter than its header, or one that declares block size
    // zero, never reaches the delta library: the sender rejects it itself.
    let shasum = shasum_bytes(b"data");
    let short = vec![0x72u8, 0x73, 0x01, 0x36];
    assert!(build_delta_requests(&b"f".to_vec(), b"data", &shasum, &short).is_err());
    // A 12-byte header with the delta library's magic and block size zero.
    let zero_block = vec![0x72u8, 0x73, 0x01, 0x36, 0, 0, 0, 0, 0, 0, 0, 8];
    assert!(build_delta_requests(&b"f".to_vec(), b"data", &shasum, &zero_block).is_err());
}

#[test]
fn walk_entries_classify_by_file_type() {
    assert!(matches!(classify_entry(true, false), EntryAction::CheckDir));
    assert!(matches!(classify_entry(false, true), EntryAction::CheckFile));
    // A symlink's own metadata is neither a directory nor a regular file.
    assert!(matches!(classify_entry(false, false), EntryAction::Unsupported));
}

#[test]
fn check_file_request_carries_the_hash_and_nothing_else() {
    let shasum = shasum_bytes(b"hello");
    let req = check_file_request(&b"a.txt".to_vec(), &shasum);
    assert_eq!(req.path, b"a.txt".to_vec());
    assert_eq!(req.file_type, FileType::File);
    assert!(matches!(req.kind, TransferRequestKind::Check));
    let t = req.transfer.expect("has transfer");
    assert_eq!(t.kind, TransferKind::Empty);
    assert!(t.data.is_empty());
    assert_eq!(t.shasum, shasum);
    assert_eq!(t.file_size, None);
    assert_eq!(t.data_size, None);
}

#[test]
fn plain_request_builders() {
    let req = check_dir_request(&b"d".to_vec());
    assert_eq!(req.file_type, FileType::Dir);
    assert!(matches!(req.kind, TransferRequestKind::Check));
    assert!(req.transfer.is_none());

    let req = remove_request(&b"d".to_vec(), true);
    assert_eq!(req.file_type, FileType::Dir);
    assert!(matches!(req.kind, TransferRequestKind::Remove));

    let req = remove_request(&b"f".to_vec(), false);
    assert_eq!(req.file_type, FileType::File);

    let req = rename_request(&b"old".to_vec(), &b"new".to_vec());
    assert_eq!(req.path, b"old".to_vec());
    match req.kind {
        TransferRequestKind::Rename { new_path } => assert_eq!(new_path, b"new".to_vec()),
        other => panic!("expected a rename, got {other:?}"),
    }
}

#[test]
fn ack_outcomes() {
    let ok = TransferResponse { id: 1, kind: TransferResponseKind::Okay };
    assert!(matches!(ack_outcome(&ok), AckOutcome::Done));
    let fail = TransferResponse {
        id: 1,
        kind: TransferResponseKind::CantHandle { reason: "why".to_string() },
    };
    match ack_outcome(&fail) {
        AckOutcome::HandlerFailed { reason } => assert_eq!(reason, "why"),
        other => panic!("expected a handler failure, got {other:?}"),
    }
    let odd = TransferResponse { id: 1, kind: TransferResponseKind::NeedContents };
    assert!(matches!(ack_outcome(&odd), AckOutcome::ProtocolViolation));
    let odd = TransferResponse {
        id: 1,
        kind: TransferResponseKind::Different { signature: vec![1] },
    };
    assert!(matches!(ack_outcome(&odd), AckOutcome::ProtocolViolation));
}

#[test]
fn check_reply_outcomes() {
    let up = check_reply_outcome(TransferResponse { id: 1, kind: TransferResponseKind::Okay });
    assert!(matches!(up, CheckOutcome::UpToDate));
    let send = check_reply_outcome(TransferResponse {
        id: 1,
        kind: TransferResponseKind::NeedContents,
    });
    assert!(matches!(send, CheckOutcome::SendContents));
    let delta = check_reply_outcome(TransferResponse {
        id: 1,
        kind: TransferResponseKind::Different { signature: vec![4, 2] },
    });
    match delta {
        CheckOutcome::SendDelta { signature } => assert_eq!(signature, vec![4, 2]),
        other => panic!("expected a delta, got {other:?}"),
    }
}

#[test]
fn early_delta_reply_other_than_ok_is_a_violation() {
    // Before the final chunk, NeedContents is a protocol violation, not a
    // fallback.
    let need = TransferResponse { id: 1, kind: TransferResponseKind::NeedContents };
    assert!(matches!(
        delta_reply_outcome(false, need.clone()),
        DeltaReplyOutcome::ProtocolViolation
    ));
    // On the final chunk it is the fallback to full contents.
    assert!(matches!(
        delta_reply_outcome(true, need),
        DeltaReplyOutcome::FallbackToContents
    ));
    let ok = TransferResponse { id: 1, kind: TransferResponseKind::Okay };
    assert!(matches!(delta_reply_outcome(false, ok), DeltaReplyOutcome::Proceed));
    let diff = TransferResponse {
        id: 1,
        kind: TransferResponseKind::Different { signature: vec![] },
    };
    assert!(matches!(delta_reply_outcome(true, diff), DeltaReplyOutcome::ProtocolViolation));
}

#[test]
fn classify_create_and_modify_events() {
    let p = b"/src/a.txt".to_vec();
    match classify_event(FsEventKind::CreateFile, Some(&p), None, false, false, false) {
        SenderAction::TransferContents { path } => assert_eq!(path, p),
        other => panic!("expected contents, got {other:?}"),
    }
    match classify_event(FsEventKind::CreateFolder, Some(&p), None, false, false, true) {
        SenderAction::CheckDir { path } => assert_eq!(path, p),
        other => panic!("expected a dir check, got {other:?}"),
    }
    match classify_event(FsEventKind::ModifyData, Some(&p), None, false, false, false) {
        SenderAction::CheckFile { path } => assert_eq!(path, p),
        other => panic!("expected a file check, got {other:?}"),
    }
    // Ignored paths are dropped.
    assert!(matches!(
        classify_event(FsEventKind::ModifyData, Some(&p), None, true, false, false),
        SenderAction::Skip
    ));
    assert!(matches!(
        classify_event(FsEventKind::Other, Some(&p), None, false, false, false),
        SenderAction::Skip
    ));
}

#[test]
fn rename_across_ignore_boundary_is_a_create() {
    // `.tmp/foo` (ignored) renamed to `foo` (not ignored): the sender
    // treats it as a creation of `foo`, not as a rename.
    let from = b"/src/.tmp/foo".to_vec();
    let to = b"/src/foo".to_vec();
    match classify_event(FsEventKind::RenameBoth, Some(&from), Some(&to), true, false, false) {
        SenderAction::CheckFile { path } => assert_eq!(path, to),
        other => panic!("expected a file check, got {other:?}"),
    }
    // The same boundary crossing for a directory ensures the directory.
    match classify_event(FsEventKind::RenameBoth, Some(&from), Some(&to), true, false, true) {
        SenderAction::CheckDir { path } => assert_eq!(path, to),
        other => panic!("expected a dir check, got {other:?}"),
    }
    // A rename entirely outside the ignored set stays a rename.
    match classify_event(FsEventKind::RenameBoth, Some(&from), Some(&to), false, false, false) {
        SenderAction::Rename { from: f, to: t } => {
            assert_eq!(f, from);
            assert_eq!(t, to);
        }
        other => panic!("expected a rename, got {other:?}"),
    }
    // A rename onto an ignored path is dropped.
    assert!(matches!(
        classify_event(FsEventKind::RenameBoth, Some(&from), Some(&to), false, true, false),
        SenderAction::Skip
    ));
}

#[test]
fn classify_remove_events() {
    let p = b"/src/x".to_vec();
    match classify_event(FsEventKind::RemoveFolder, Some(&p), None, false, false, true) {
        SenderAction::Remove { path, is_dir } => {
            assert_eq!(path, p);
            assert!(is_dir);
        }
        other => panic!("expected a removal, got {other:?}"),
    }
    match classify_event(FsEventKind::RemoveFile, Some(&p), None, false, false, false) {
        SenderAction::Remove { path, is_dir } => {
            assert_eq!(path, p);
            assert!(!is_dir);
        }
        other => panic!("expected a removal, got {other:?}"),
    }
}
