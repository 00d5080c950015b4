//! The input file handle and output file stream state machines.

use objstore::error::StorageError;
use objstore::file::ObjectInputFile;
use objstore::file::ObjectOutputStream;
use objstore::memory::InMemoryStore;
use objstore::path::StorePath;
use objstore::prefix::PrefixObjectStore;

fn path(s: &str) -> StorePath {
    StorePath::parse(s).unwrap()
}

fn scope_with(contents: &[(&str, &[u8])]) -> PrefixObjectStore {
    let mut scope = PrefixObjectStore::new(path("root"), InMemoryStore::new());
    for (p, data) in contents {
        scope.put(&path(p), data.to_vec()).unwrap();
    }
    scope
}

#[test]
fn write_then_read_roundtrip() {
    // end to end: bytes written through a scope come back unchanged
    let mut scope = PrefixObjectStore::new(path("root"), InMemoryStore::new());
    let mut out = ObjectOutputStream::try_new(&mut scope, path("a/b.txt")).unwrap();
    let n = out.write(&mut scope, b"hello world".to_vec()).unwrap();
    assert_eq!(n, 11);
    assert_eq!(out.tell().unwrap(), 11);
    out.close(&mut scope).unwrap();

    let mut input = ObjectInputFile::try_new(&scope, path("a/b.txt")).unwrap();
    assert_eq!(input.size().unwrap(), 11);
    let data = input.read(&scope, None).unwrap();
    assert_eq!(data, b"hello world".to_vec());
}

#[test]
fn open_missing_object_fails_at_open() {
    let scope = scope_with(&[]);
    let r = ObjectInputFile::try_new(&scope, path("missing.txt"));
    assert!(matches!(r, Err(StorageError::NotFound { .. })));
}

#[test]
fn seek_then_read_serves_the_tail() {
    // for every position, a full read returns exactly the remaining bytes
    let scope = scope_with(&[("f.bin", b"hello world")]);
    let mut input = ObjectInputFile::try_new(&scope, path("f.bin")).unwrap();
    for pos in 0..=11i64 {
        assert_eq!(input.seek(pos, 0).unwrap(), pos);
        let data = input.read(&scope, None).unwrap();
        assert_eq!(data.len() as i64, 11 - pos);
        assert_eq!(data, b"hello world"[pos as usize..].to_vec());
        assert_eq!(input.tell().unwrap(), 11);
    }
    // at end of file a read returns no bytes
    input.seek(11, 0).unwrap();
    assert_eq!(input.read(&scope, None).unwrap(), b"".to_vec());
}

#[test]
fn read_with_count_clips_at_end() {
    let scope = scope_with(&[("f.bin", b"hello world")]);
    let mut input = ObjectInputFile::try_new(&scope, path("f.bin")).unwrap();
    assert_eq!(input.read(&scope, Some(5)).unwrap(), b"hello".to_vec());
    assert_eq!(input.tell().unwrap(), 5);
    assert_eq!(input.read(&scope, Some(100)).unwrap(), b" world".to_vec());
    assert_eq!(input.tell().unwrap(), 11);
    assert_eq!(input.read(&scope, Some(1)).unwrap(), b"".to_vec());
}

#[test]
fn seek_whence_variants() {
    let scope = scope_with(&[("f.bin", b"hello world")]);
    let mut input = ObjectInputFile::try_new(&scope, path("f.bin")).unwrap();
    assert_eq!(input.seek(5, 0).unwrap(), 5);
    assert_eq!(input.seek(3, 1).unwrap(), 8);
    assert_eq!(input.seek(-2, 1).unwrap(), 6);
    // seeking from the end counts the offset back from the length
    assert_eq!(input.seek(2, 2).unwrap(), 9);
    assert_eq!(input.seek(0, 2).unwrap(), 11);
    assert!(matches!(
        input.seek(0, 3),
        Err(StorageError::Unsupported { .. })
    ));
}

#[test]
fn seek_out_of_range_never_clamps() {
    let scope = scope_with(&[("f.bin", b"hello world")]);
    let mut input = ObjectInputFile::try_new(&scope, path("f.bin")).unwrap();
    input.seek(5, 0).unwrap();
    assert!(matches!(
        input.seek(-1, 0),
        Err(StorageError::PositionOutOfRange { .. })
    ));
    assert!(matches!(
        input.seek(12, 0),
        Err(StorageError::PositionOutOfRange { .. })
    ));
    assert!(matches!(
        input.seek(7, 1),
        Err(StorageError::PositionOutOfRange { .. })
    ));
    assert!(matches!(
        input.seek(-6, 1),
        Err(StorageError::PositionOutOfRange { .. })
    ));
    assert!(matches!(
        input.seek(12, 2),
        Err(StorageError::PositionOutOfRange { .. })
    ));
    // the failed seeks left the position alone
    assert_eq!(input.tell().unwrap(), 5);
}

#[test]
fn closed_input_handle_refuses_everything() {
    let scope = scope_with(&[("f.bin", b"abc")]);
    let mut input = ObjectInputFile::try_new(&scope, path("f.bin")).unwrap();
    input.close().unwrap();
    assert!(matches!(input.tell(), Err(StorageError::ClosedHandle)));
    assert!(matches!(input.size(), Err(StorageError::ClosedHandle)));
    assert!(matches!(input.seek(0, 0), Err(StorageError::ClosedHandle)));
    assert!(matches!(
        input.read(&scope, None),
        Err(StorageError::ClosedHandle)
    ));
    // closing again stays harmless
    input.close().unwrap();
}

#[test]
fn input_capability_probes() {
    let scope = scope_with(&[("f.bin", b"abc")]);
    let input = ObjectInputFile::try_new(&scope, path("f.bin")).unwrap();
    assert!(input.readable());
    assert!(input.seekable());
    assert!(!input.writable());
    assert!(!input.isatty());
    assert!(matches!(
        input.fileno(),
        Err(StorageError::Unsupported { .. })
    ));
    assert!(matches!(
        input.truncate(),
        Err(StorageError::Unsupported { .. })
    ));
    assert!(matches!(
        input.readline(None),
        Err(StorageError::Unsupported { .. })
    ));
    assert!(matches!(
        input.readlines(None),
        Err(StorageError::Unsupported { .. })
    ));
}

#[test]
fn output_parts_arrive_in_call_order() {
    let mut scope = PrefixObjectStore::new(path("root"), InMemoryStore::new());
    let mut out = ObjectOutputStream::try_new(&mut scope, path("parts.bin")).unwrap();
    out.write(&mut scope, b"one".to_vec()).unwrap();
    out.write(&mut scope, b"-two".to_vec()).unwrap();
    out.write(&mut scope, b"-three".to_vec()).unwrap();
    assert_eq!(out.tell().unwrap(), 13);
    out.close(&mut scope).unwrap();
    assert_eq!(
        scope.get(&path("parts.bin")).unwrap(),
        b"one-two-three".to_vec()
    );
}

#[test]
fn flush_completes_but_leaves_stream_open() {
    // the session is terminated exactly once: after the flush completes
    // it, a later write finds it terminated and fails
    let mut scope = PrefixObjectStore::new(path("root"), InMemoryStore::new());
    let mut out = ObjectOutputStream::try_new(&mut scope, path("f.bin")).unwrap();
    out.write(&mut scope, b"data".to_vec()).unwrap();
    out.flush(&mut scope).unwrap();
    assert_eq!(scope.get(&path("f.bin")).unwrap(), b"data".to_vec());

    // the stream is still open, but the upload session is spent
    assert_eq!(out.tell().unwrap(), 4);
    assert!(matches!(
        out.write(&mut scope, b"more".to_vec()),
        Err(StorageError::BackendError { .. })
    ));
    assert!(matches!(
        out.flush(&mut scope),
        Err(StorageError::BackendError { .. })
    ));
    assert!(matches!(
        out.close(&mut scope),
        Err(StorageError::BackendError { .. })
    ));
    // nothing was added to the object by the failed calls
    assert_eq!(scope.get(&path("f.bin")).unwrap(), b"data".to_vec());
}

#[test]
fn closed_output_stream_refuses_everything() {
    let mut scope = PrefixObjectStore::new(path("root"), InMemoryStore::new());
    let mut out = ObjectOutputStream::try_new(&mut scope, path("c.bin")).unwrap();
    out.write(&mut scope, b"x".to_vec()).unwrap();
    out.close(&mut scope).unwrap();
    assert!(matches!(out.tell(), Err(StorageError::ClosedHandle)));
    assert!(matches!(out.size(), Err(StorageError::ClosedHandle)));
    assert!(matches!(out.seek(0, 0), Err(StorageError::ClosedHandle)));
    assert!(matches!(out.read(None), Err(StorageError::ClosedHandle)));
    assert!(matches!(
        out.write(&mut scope, b"y".to_vec()),
        Err(StorageError::ClosedHandle)
    ));
    assert!(matches!(
        out.flush(&mut scope),
        Err(StorageError::ClosedHandle)
    ));
    assert!(matches!(
        out.close(&mut scope),
        Err(StorageError::ClosedHandle)
    ));
    // the object was completed exactly once
    assert_eq!(scope.get(&path("c.bin")).unwrap(), b"x".to_vec());
}

#[test]
fn output_capability_probes() {
    let mut scope = PrefixObjectStore::new(path("root"), InMemoryStore::new());
    let out = ObjectOutputStream::try_new(&mut scope, path("p.bin")).unwrap();
    assert!(!out.readable());
    assert!(!out.seekable());
    assert!(out.writable());
    assert!(!out.isatty());
    assert!(matches!(out.size(), Err(StorageError::Unsupported { .. })));
    assert!(matches!(
        out.seek(0, 0),
        Err(StorageError::Unsupported { .. })
    ));
    assert!(matches!(
        out.read(None),
        Err(StorageError::Unsupported { .. })
    ));
    assert!(matches!(
        out.fileno(),
        Err(StorageError::Unsupported { .. })
    ));
    assert!(matches!(
        out.truncate(),
        Err(StorageError::Unsupported { .. })
    ));
}

#[test]
fn empty_write_roundtrip() {
    let mut scope = PrefixObjectStore::new(path("root"), InMemoryStore::new());
    let mut out = ObjectOutputStream::try_new(&mut scope, path("empty.bin")).unwrap();
    out.close(&mut scope).unwrap();
    assert_eq!(scope.get(&path("empty.bin")).unwrap(), b"".to_vec());
    let mut input = ObjectInputFile::try_new(&scope, path("empty.bin")).unwrap();
    assert_eq!(input.size().unwrap(), 0);
    assert_eq!(input.read(&scope, None).unwrap(), b"".to_vec());
    assert_eq!(input.seek(0, 0).unwrap(), 0);
    assert!(matches!(
        input.seek(1, 0),
        Err(StorageError::PositionOutOfRange { .. })
    ));
}
