use syncd::hash::shasum_bytes;
use syncd::ignore::{skip_decision, Ignore};
use syncd::pathutil::{file_name, is_hidden, parent};
use syncd::store::Store;

#[test]
fn file_name_of_plain_paths() {
    assert_eq!(file_name(&b"a/b/c.txt".to_vec()), Some(b"c.txt".to_vec()));
    assert_eq!(file_name(&b"c.txt".to_vec()), Some(b"c.txt".to_vec()));
    assert_eq!(file_name(&b"/c".to_vec()), Some(b"c".to_vec()));
    assert_eq!(file_name(&b"".to_vec()), None);
    assert_eq!(file_name(&b".".to_vec()), None);
    assert_eq!(file_name(&b"..".to_vec()), None);
    assert_eq!(file_name(&b"a/..".to_vec()), None);
    assert_eq!(file_name(&b"ends.".to_vec()), None);
}

#[test]
fn hidden_paths() {
    assert!(is_hidden(&b".git".to_vec()));
    assert!(is_hidden(&b"a/.hidden".to_vec()));
    assert!(!is_hidden(&b"a/visible".to_vec()));
    assert!(!is_hidden(&b"".to_vec()));
    // Only the final component decides.
    assert!(!is_hidden(&b".hidden/visible".to_vec()));
}

#[test]
fn parents_walk_to_the_root() {
    assert_eq!(parent(&b"a/b/c".to_vec()), Some(b"a/b".to_vec()));
    assert_eq!(parent(&b"a/b".to_vec()), Some(b"a".to_vec()));
    assert_eq!(parent(&b"a".to_vec()), Some(b"".to_vec()));
    assert_eq!(parent(&b"".to_vec()), None);
    assert_eq!(parent(&b"/a".to_vec()), Some(b"/".to_vec()));
    assert_eq!(parent(&b"/".to_vec()), None);
}

#[test]
fn hidden_propagates_to_descendants() {
    assert!(Ignore::is_hidden_or_any_parents(&b".tmp/foo".to_vec()));
    assert!(Ignore::is_hidden_or_any_parents(&b"a/.b/c/d".to_vec()));
    assert!(!Ignore::is_hidden_or_any_parents(&b"a/b/c".to_vec()));
}

#[test]
fn skip_decision_consults_local_then_global_then_hidden() {
    // A local verdict wins outright.
    assert!(skip_decision(Some(true), Some(false), false, false));
    assert!(!skip_decision(Some(false), Some(true), true, true));
    // Without a local verdict the global one wins.
    assert!(skip_decision(None, Some(true), false, false));
    assert!(!skip_decision(None, Some(false), true, true));
    // With neither, hidden files are skipped only when asked.
    assert!(skip_decision(None, None, true, true));
    assert!(!skip_decision(None, None, true, false));
    assert!(!skip_decision(None, None, false, true));
}

#[test]
fn builder_configures_the_filter() {
    let mut builder = Ignore::new(b"/src".to_vec());
    assert_eq!(builder.root, b"/src".to_vec());
    assert!(builder.ignore_dot);
    assert!(builder.hidden);
    builder.hidden(false);
    assert!(!builder.hidden);
    builder.no_ignore_dot(true);
    assert!(!builder.ignore_dot);
}

#[test]
fn sha256_of_hello_matches_the_known_digest() {
    let digest = shasum_bytes(b"hello");
    let expected: Vec<u8> = vec![
        0x2c, 0xf2, 0x4d, 0xba, 0x5f, 0xb0, 0xa3, 0x0e, 0x26, 0xe8, 0x3b, 0x2a, 0xc5, 0xb9,
        0xe2, 0x9e, 0x1b, 0x16, 0x1e, 0x5c, 0x1f, 0xa7, 0x42, 0x5e, 0x73, 0x04, 0x33, 0x62,
        0x93, 0x8b, 0x98, 0x24,
    ];
    assert_eq!(digest, expected);
}

#[test]
fn store_push_and_remove() {
    let mut store = Store::new();
    let path = b"/dst/f".to_vec();
    let shasum = shasum_bytes(b"abcdef");
    let total = store.push_file_chunk(&path, &shasum, b"abc");
    assert_eq!(total, 3);
    let total = store.push_file_chunk(&path, &shasum, b"def");
    assert_eq!(total, 6);
    let (hash, bytes) = store.remove_file(&path).expect("entry exists");
    assert_eq!(bytes, b"abcdef".to_vec());
    assert_eq!(hash, shasum);
    assert!(store.remove_file(&path).is_none());
}

#[test]
fn store_resets_on_hash_change() {
    let mut store = Store::new();
    let path = b"/dst/f".to_vec();
    let h1 = shasum_bytes(b"one");
    let h2 = shasum_bytes(b"two");
    assert_eq!(store.push_file_chunk(&path, &h1, b"on"), 2);
    // A chunk under a different hash discards the partial state.
    assert_eq!(store.push_file_chunk(&path, &h2, b"tw"), 2);
    assert_eq!(store.push_file_chunk(&path, &h2, b"o"), 3);
    let (hash, bytes) = store.remove_file(&path).expect("entry exists");
    assert_eq!(bytes, b"two".to_vec());
    assert_eq!(hash, h2);
}

#[test]
fn delta_store_is_independent_of_file_store() {
    let mut store = Store::new();
    let path = b"/dst/f".to_vec();
    let h = shasum_bytes(b"x");
    assert_eq!(store.push_file_chunk(&path, &h, b"abc"), 3);
    assert_eq!(store.push_delta_chunk(&path, &h, b"12"), 2);
    assert_eq!(store.push_delta_chunk(&path, &h, b"3"), 3);
    assert_eq!(store.remove_delta(&path), Some(b"123".to_vec()));
    assert_eq!(store.remove_delta(&path), None);
    let (_, bytes) = store.remove_file(&path).expect("file entry still there");
    assert_eq!(bytes, b"abc".to_vec());
}

#[test]
fn built_filter_skips_hidden_paths_when_asked() {
    // A root without ignore files: only the hidden-file rule can speak.
    let mut builder = Ignore::new(b"/nonexistent-sync-root".to_vec());
    builder.hidden(false);
    let filter = builder.build().expect("builds");
    assert!(filter.should_skip_path(&b".tmp/foo".to_vec()));
    assert!(filter.should_skip_path(&b"a/.b/c".to_vec()));
    assert!(!filter.should_skip_path(&b"a/b/c".to_vec()));

    let mut builder = Ignore::new(b"/nonexistent-sync-root".to_vec());
    builder.hidden(true);
    let filter = builder.build().expect("builds");
    assert!(!filter.should_skip_path(&b".tmp/foo".to_vec()));
}

#[test]
fn filter_scope_covers_the_root_and_relative_paths_only() {
    // The matcher refuses paths outside its scope; `in_scope` draws the
    // boundary the filter may be consulted within.
    let filter = Ignore::new(b"/home/x".to_vec()).build().expect("builds");
    assert!(filter.in_scope(&b"/home/x/a.txt".to_vec()));
    assert!(filter.in_scope(&b"/home/x".to_vec()));
    assert!(filter.in_scope(&b"relative/path".to_vec()));
    assert!(filter.in_scope(&b"".to_vec()));
    // Absolute paths outside the root, and doubled separators after it,
    // are out of scope.
    assert!(!filter.in_scope(&b"/etc/passwd".to_vec()));
    assert!(!filter.in_scope(&b"/home/x//a".to_vec()));
    assert!(!filter.in_scope(&b"//host/share".to_vec()));

    // A path in scope can be consulted without panicking.
    let mut builder = Ignore::new(b"/home/x".to_vec());
    builder.hidden(false);
    let filter = builder.build().expect("builds");
    assert!(filter.should_skip_path(&b"/home/x/.hidden".to_vec()));
    assert!(!filter.should_skip_path(&b"/home/x/plain".to_vec()));
}
