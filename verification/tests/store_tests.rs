//! The in-memory store and the prefix-scoping adapter.

use objstore::error::StorageError;
use objstore::memory::InMemoryStore;
use objstore::path::StorePath;
use objstore::prefix::PrefixObjectStore;

fn path(s: &str) -> StorePath {
    StorePath::parse(s).unwrap()
}

#[test]
fn put_get_head_delete_roundtrip() {
    let mut store = InMemoryStore::new();
    let p = path("a/b.txt");
    store.put(&p, b"abc".to_vec()).unwrap();
    assert_eq!(store.get(&p).unwrap(), b"abc".to_vec());
    let meta = store.head(&p).unwrap();
    assert_eq!(meta.size, 3);
    assert!(meta.location.same_as(&p));
    store.delete(&p).unwrap();
    assert!(matches!(store.get(&p), Err(StorageError::NotFound { .. })));
    assert!(matches!(store.delete(&p), Err(StorageError::NotFound { .. })));
}

#[test]
fn put_overwrites() {
    let mut store = InMemoryStore::new();
    let p = path("k");
    store.put(&p, b"one".to_vec()).unwrap();
    store.put(&p, b"two".to_vec()).unwrap();
    assert_eq!(store.get(&p).unwrap(), b"two".to_vec());
    assert_eq!(store.list(&StorePath::empty()).len(), 1);
}

#[test]
fn get_range_serves_slices() {
    let mut store = InMemoryStore::new();
    let p = path("r");
    store.put(&p, b"hello world".to_vec()).unwrap();
    assert_eq!(store.get_range(&p, 0, 5).unwrap(), b"hello".to_vec());
    assert_eq!(store.get_range(&p, 6, 11).unwrap(), b"world".to_vec());
    assert_eq!(store.get_range(&p, 4, 4).unwrap(), b"".to_vec());
    assert!(matches!(
        store.get_range(&p, 0, 12),
        Err(StorageError::BackendError { .. })
    ));
    assert!(matches!(
        store.get_range(&path("missing"), 0, 1),
        Err(StorageError::NotFound { .. })
    ));
}

#[test]
fn copy_and_rename_semantics() {
    let mut store = InMemoryStore::new();
    store.put(&path("src"), b"data".to_vec()).unwrap();
    store.put(&path("taken"), b"x".to_vec()).unwrap();

    store.copy(&path("src"), &path("dst")).unwrap();
    assert_eq!(store.get(&path("dst")).unwrap(), b"data".to_vec());
    assert_eq!(store.get(&path("src")).unwrap(), b"data".to_vec());

    assert!(matches!(
        store.copy_if_not_exists(&path("src"), &path("taken")),
        Err(StorageError::AlreadyExists { .. })
    ));
    assert!(matches!(
        store.copy(&path("missing"), &path("out")),
        Err(StorageError::NotFound { .. })
    ));

    store.rename(&path("src"), &path("moved")).unwrap();
    assert!(matches!(
        store.get(&path("src")),
        Err(StorageError::NotFound { .. })
    ));
    assert_eq!(store.get(&path("moved")).unwrap(), b"data".to_vec());

    assert!(matches!(
        store.rename_if_not_exists(&path("moved"), &path("taken")),
        Err(StorageError::AlreadyExists { .. })
    ));
}

#[test]
fn rename_onto_itself_removes_the_object() {
    // a move is a copy followed by a delete of the source, so moving an
    // object onto its own path removes it
    let mut store = InMemoryStore::new();
    store.put(&path("same"), b"x".to_vec()).unwrap();
    store.rename(&path("same"), &path("same")).unwrap();
    assert!(matches!(
        store.get(&path("same")),
        Err(StorageError::NotFound { .. })
    ));
}

#[test]
fn head_reports_the_write_timestamp() {
    let mut store = InMemoryStore::new();
    store.put(&path("a"), b"1".to_vec()).unwrap();
    store.put(&path("b"), b"2".to_vec()).unwrap();
    let ta = store.head(&path("a")).unwrap().last_modified;
    let tb = store.head(&path("b")).unwrap().last_modified;
    // later writes carry larger timestamps, and listings report the same
    assert!(ta < tb);
    let listed = store.list(&StorePath::empty());
    for meta in &listed {
        if meta.location.same_as(&path("a")) {
            assert_eq!(meta.last_modified, ta);
        } else {
            assert_eq!(meta.last_modified, tb);
        }
    }
}

#[test]
fn list_with_delimiter_groups_one_level() {
    let mut store = InMemoryStore::new();
    store.put(&path("d/1.txt"), b"1".to_vec()).unwrap();
    store.put(&path("d/sub/2.txt"), b"2".to_vec()).unwrap();
    store.put(&path("d/sub/3.txt"), b"3".to_vec()).unwrap();
    store.put(&path("top.txt"), b"t".to_vec()).unwrap();

    let lr = store.list_with_delimiter(&path("d"));
    assert_eq!(lr.objects.len(), 1);
    assert!(lr.objects[0].location.same_as(&path("d/1.txt")));
    assert_eq!(lr.common_prefixes.len(), 1);
    assert!(lr.common_prefixes[0].same_as(&path("d/sub")));

    let root = store.list_with_delimiter(&StorePath::empty());
    assert_eq!(root.objects.len(), 1);
    assert_eq!(root.common_prefixes.len(), 1);
}

#[test]
fn scope_defaults_to_its_own_root() {
    // listing a scope's root never shows objects outside its prefix
    let mut inner = InMemoryStore::new();
    inner.put(&path("root/in.txt"), b"in".to_vec()).unwrap();
    inner
        .put(&path("outside/foreign.txt"), b"out".to_vec())
        .unwrap();
    let scope = PrefixObjectStore::new(path("root"), inner);

    let listed = scope.list(None);
    assert_eq!(listed.len(), 1);
    assert!(listed[0].location.same_as(&path("in.txt")));

    let lr = scope.list_with_delimiter(None);
    assert_eq!(lr.objects.len(), 1);
    assert!(lr.objects[0].location.same_as(&path("in.txt")));
    assert_eq!(lr.common_prefixes.len(), 0);
}

#[test]
fn scope_rewrites_paths_both_ways() {
    let scope = PrefixObjectStore::new(path("root/x"), InMemoryStore::new());
    let full = scope.full_path(&path("a/b"));
    assert_eq!(full.to_string(), "root/x/a/b");
    let back = scope.strip_prefix(&full).unwrap();
    assert_eq!(back.to_string(), "a/b");
    assert!(scope.strip_prefix(&path("other/a")).is_none());
}

#[test]
fn scope_operations_translate() {
    let mut scope = PrefixObjectStore::new(path("root"), InMemoryStore::new());
    scope.put(&path("a/b.txt"), b"hi".to_vec()).unwrap();
    assert_eq!(scope.get(&path("a/b.txt")).unwrap(), b"hi".to_vec());
    let meta = scope.head(&path("a/b.txt")).unwrap();
    assert!(meta.location.same_as(&path("a/b.txt")));
    assert_eq!(meta.size, 2);

    scope.copy(&path("a/b.txt"), &path("c.txt")).unwrap();
    scope.rename(&path("c.txt"), &path("d.txt")).unwrap();
    assert_eq!(scope.get(&path("d.txt")).unwrap(), b"hi".to_vec());
    scope.delete(&path("d.txt")).unwrap();
    assert!(matches!(
        scope.get(&path("d.txt")),
        Err(StorageError::NotFound { .. })
    ));
}

#[test]
fn multipart_session_lifecycle() {
    let mut store = InMemoryStore::new();
    let id = store.begin_multipart(&path("big.bin"));
    store.put_part(id, b"hel".to_vec()).unwrap();
    store.put_part(id, b"lo".to_vec()).unwrap();
    store.complete_multipart(id).unwrap();
    assert_eq!(store.get(&path("big.bin")).unwrap(), b"hello".to_vec());

    // a terminated session accepts nothing further
    assert!(matches!(
        store.put_part(id, b"x".to_vec()),
        Err(StorageError::BackendError { .. })
    ));
    assert!(matches!(
        store.complete_multipart(id),
        Err(StorageError::BackendError { .. })
    ));
    assert!(matches!(
        store.abort_multipart(id),
        Err(StorageError::BackendError { .. })
    ));
}

#[test]
fn aborted_session_writes_nothing() {
    let mut store = InMemoryStore::new();
    let id = store.begin_multipart(&path("gone.bin"));
    store.put_part(id, b"data".to_vec()).unwrap();
    store.abort_multipart(id).unwrap();
    assert!(matches!(
        store.get(&path("gone.bin")),
        Err(StorageError::NotFound { .. })
    ));
    assert!(matches!(
        store.complete_multipart(id),
        Err(StorageError::BackendError { .. })
    ));
}
