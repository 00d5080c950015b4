//! Path parsing, joining and prefix stripping.

use objstore::error::StorageError;
use objstore::path::StorePath;

#[test]
fn parse_drops_extra_delimiters() {
    let p = StorePath::parse("/foo//bar/").unwrap();
    assert_eq!(p.to_string(), "foo/bar");
    assert_eq!(p.len(), 2);
}

#[test]
fn parse_empty_is_root() {
    let p = StorePath::parse("").unwrap();
    assert_eq!(p.len(), 0);
    assert_eq!(p.to_string(), "");
}

#[test]
fn parse_rejects_dot_segment() {
    let r = StorePath::parse("a/./b");
    assert!(matches!(r, Err(StorageError::PathSyntax { .. })));
    let r2 = StorePath::parse("a/../b");
    assert!(matches!(r2, Err(StorageError::PathSyntax { .. })));
}

#[test]
fn join_concatenates_segments() {
    let a = StorePath::parse("root/x").unwrap();
    let b = StorePath::parse("a/b").unwrap();
    let j = a.join(&b);
    assert_eq!(j.to_string(), "root/x/a/b");
}

#[test]
fn strip_prefix_inverts_join() {
    // the prefix-translation law on concrete values
    let prefix = StorePath::parse("root/x").unwrap();
    let rel = StorePath::parse("a/b").unwrap();
    let full = prefix.join(&rel);
    let back = full.strip_prefix_of(&prefix).unwrap();
    assert!(back.same_as(&rel));
    assert_eq!(back.to_string(), "a/b");
}

#[test]
fn strip_prefix_refuses_foreign_path() {
    let prefix = StorePath::parse("root").unwrap();
    let other = StorePath::parse("elsewhere/a").unwrap();
    assert!(other.strip_prefix_of(&prefix).is_none());
}

#[test]
fn starts_with_is_segment_wise() {
    let p = StorePath::parse("foo/bar_baz/x").unwrap();
    let q = StorePath::parse("foo/bar").unwrap();
    // `foo/bar` is not a segment-wise prefix of `foo/bar_baz/x`
    assert!(!p.starts_with(&q));
    let r = StorePath::parse("foo/bar/x").unwrap();
    assert!(r.starts_with(&q));
}

#[test]
fn take_prefix_keeps_leading_segments() {
    let p = StorePath::parse("a/b/c").unwrap();
    let q = p.take_prefix(2);
    assert_eq!(q.to_string(), "a/b");
}
