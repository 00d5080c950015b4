//! The filesystem-shaped surface: classification, selectors and the
//! recursive tree walk.

use objstore::error::StorageError;
use objstore::filesystem::ArrowFileSystem;
use objstore::filesystem::ArrowFileSystemHandler;
use objstore::filesystem::FileSelector;
use objstore::filesystem::FileType;
use objstore::memory::InMemoryStore;
use objstore::path::StorePath;
use objstore::prefix::PrefixObjectStore;
use objstore::utils::walk_tree;

fn path(s: &str) -> StorePath {
    StorePath::parse(s).unwrap()
}

fn handler_with(contents: &[(&str, &[u8])]) -> ArrowFileSystemHandler {
    let mut scope = PrefixObjectStore::new(path("root"), InMemoryStore::new());
    for (p, data) in contents {
        scope.put(&path(p), data.to_vec()).unwrap();
    }
    ArrowFileSystemHandler::new(scope)
}

#[test]
fn missing_path_classifies_not_found() {
    // an empty store reports one entry, not found, for the asked path
    let handler = handler_with(&[]);
    let infos = handler.get_file_info(vec!["missing/x".to_string()]).unwrap();
    assert_eq!(infos.len(), 1);
    assert!(matches!(infos[0].file_type, FileType::NotFound));
    assert_eq!(infos[0].path.to_string(), "missing/x");
}

#[test]
fn parent_of_an_object_classifies_directory() {
    // after putting d/1.txt, the location d groups an object below it
    let handler = handler_with(&[("d/1.txt", b"1")]);
    let infos = handler.get_file_info(vec!["d".to_string()]).unwrap();
    assert_eq!(infos.len(), 1);
    assert!(matches!(infos[0].file_type, FileType::Directory));
    assert_eq!(infos[0].path.to_string(), "d");
}

#[test]
fn object_with_nothing_below_classifies_file() {
    let handler = handler_with(&[("d/1.txt", b"abc")]);
    let infos = handler.get_file_info(vec!["d/1.txt".to_string()]).unwrap();
    assert_eq!(infos.len(), 1);
    assert!(matches!(infos[0].file_type, FileType::File));
    assert_eq!(infos[0].size, 3);
}

#[test]
fn mixed_paths_classify_independently() {
    let handler = handler_with(&[("d/1.txt", b"1"), ("plain.txt", b"pp")]);
    let infos = handler
        .get_file_info(vec![
            "d".to_string(),
            "plain.txt".to_string(),
            "nope".to_string(),
        ])
        .unwrap();
    assert_eq!(infos.len(), 3);
    assert!(matches!(infos[0].file_type, FileType::Directory));
    assert!(matches!(infos[1].file_type, FileType::File));
    assert!(matches!(infos[2].file_type, FileType::NotFound));
}

#[test]
fn recursive_listing_reports_each_leaf_once() {
    // a three-level nesting: every leaf exactly once, plus each directory
    let handler = handler_with(&[
        ("a/b/c/1.txt", b"1"),
        ("a/b/c/2.txt", b"2"),
        ("a/b/d/3.txt", b"3"),
        ("a/e.txt", b"4"),
    ]);
    let infos = handler
        .get_file_info_selector("a".to_string(), false, true)
        .unwrap();

    let mut files: Vec<String> = infos
        .iter()
        .filter(|i| matches!(i.file_type, FileType::File))
        .map(|i| i.path.to_string())
        .collect();
    files.sort();
    assert_eq!(
        files,
        vec![
            "a/b/c/1.txt".to_string(),
            "a/b/c/2.txt".to_string(),
            "a/b/d/3.txt".to_string(),
            "a/e.txt".to_string(),
        ]
    );

    let mut dirs: Vec<String> = infos
        .iter()
        .filter(|i| matches!(i.file_type, FileType::Directory))
        .map(|i| i.path.to_string())
        .collect();
    dirs.sort();
    assert_eq!(
        dirs,
        vec!["a/b".to_string(), "a/b/c".to_string(), "a/b/d".to_string()]
    );
    assert_eq!(infos.len(), files.len() + dirs.len());
}

#[test]
fn non_recursive_listing_stays_on_one_level() {
    let handler = handler_with(&[("a/b/c/1.txt", b"1"), ("a/e.txt", b"4")]);
    let infos = handler
        .get_file_info_selector("a".to_string(), false, false)
        .unwrap();
    let files: Vec<String> = infos
        .iter()
        .filter(|i| matches!(i.file_type, FileType::File))
        .map(|i| i.path.to_string())
        .collect();
    assert_eq!(files, vec!["a/e.txt".to_string()]);
    let dirs: Vec<String> = infos
        .iter()
        .filter(|i| matches!(i.file_type, FileType::Directory))
        .map(|i| i.path.to_string())
        .collect();
    assert_eq!(dirs, vec!["a/b".to_string()]);
}

#[test]
fn missing_base_yields_empty_selection() {
    let handler = handler_with(&[("x/1.txt", b"1")]);
    let infos = handler
        .get_file_info_selector("nothing/here".to_string(), true, true)
        .unwrap();
    assert_eq!(infos.len(), 0);
}

#[test]
fn walk_tree_merges_levels() {
    let mut scope = PrefixObjectStore::new(path("root"), InMemoryStore::new());
    scope.put(&path("a/b/1.txt"), b"1".to_vec()).unwrap();
    scope.put(&path("a/2.txt"), b"2".to_vec()).unwrap();
    let listed = walk_tree(&scope, &path("a"), true);
    assert_eq!(listed.objects.len(), 2);
    assert_eq!(listed.common_prefixes.len(), 1);
    assert!(listed.common_prefixes[0].same_as(&path("a/b")));
}

#[test]
fn handler_file_operations() {
    let mut handler = handler_with(&[("a/src.txt", b"data")]);
    handler
        .copy_file("a/src.txt".to_string(), "a/copy.txt".to_string())
        .unwrap();
    handler
        .move_file("a/copy.txt".to_string(), "b/moved.txt".to_string())
        .unwrap();
    handler.delete_file("a/src.txt".to_string()).unwrap();
    assert!(matches!(
        handler.delete_file("a/src.txt".to_string()),
        Err(StorageError::NotFound { .. })
    ));
    let infos = handler
        .get_file_info(vec!["b/moved.txt".to_string()])
        .unwrap();
    assert!(matches!(infos[0].file_type, FileType::File));
}

#[test]
fn delete_dir_empties_a_subtree() {
    let mut handler = handler_with(&[
        ("d/1.txt", b"1"),
        ("d/sub/2.txt", b"2"),
        ("keep.txt", b"k"),
    ]);
    handler.delete_dir("d".to_string()).unwrap();
    let infos = handler
        .get_file_info(vec!["d".to_string(), "keep.txt".to_string()])
        .unwrap();
    assert!(matches!(infos[0].file_type, FileType::NotFound));
    assert!(matches!(infos[1].file_type, FileType::File));
}

#[test]
fn create_dir_is_a_no_op() {
    let handler = handler_with(&[]);
    handler.create_dir("anything".to_string(), true).unwrap();
    let infos = handler.get_file_info(vec!["anything".to_string()]).unwrap();
    assert!(matches!(infos[0].file_type, FileType::NotFound));
}

#[test]
fn normalize_path_canonicalizes() {
    let handler = handler_with(&[]);
    assert_eq!(
        handler.normalize_path("/foo//bar/".to_string()).unwrap(),
        "foo/bar"
    );
    assert!(matches!(
        handler.normalize_path("a/../b".to_string()),
        Err(StorageError::PathSyntax { .. })
    ));
}

#[test]
fn handler_opens_handles() {
    let mut handler = handler_with(&[]);
    let mut out = handler
        .open_output_stream("o.bin".to_string(), None)
        .unwrap();
    {
        let scope = handler.backend();
        assert_eq!(scope.list(None).len(), 0);
        let _ = scope;
    }
    let mut scope = handler.into_store();
    out.write(&mut scope, b"xyz".to_vec()).unwrap();
    out.close(&mut scope).unwrap();
    let handler = ArrowFileSystemHandler::new(scope);
    assert_eq!(handler.get_type_name(), "object-store");
    let input = handler.open_input_file("o.bin".to_string()).unwrap();
    assert_eq!(input.size().unwrap(), 3);
    assert!(matches!(
        handler.open_input_file("nope".to_string()),
        Err(StorageError::NotFound { .. })
    ));
}

#[test]
fn arrow_filesystem_classifies_by_head_alone() {
    let mut scope = PrefixObjectStore::new(path("root"), InMemoryStore::new());
    scope.put(&path("f.txt"), b"abc".to_vec()).unwrap();
    let fs = ArrowFileSystem::new(scope);
    let infos = fs
        .get_file_info(vec![
            FileSelector::new("f.txt".to_string(), false, false, false),
            FileSelector::new("gone".to_string(), false, false, false),
        ])
        .unwrap();
    assert_eq!(infos.len(), 2);
    assert!(matches!(infos[0].file_type, FileType::File));
    assert_eq!(infos[0].size, 3);
    assert!(matches!(infos[1].file_type, FileType::NotFound));

    let r = fs.get_file_info(vec![FileSelector::new(
        "f.txt".to_string(),
        false,
        false,
        true,
    )]);
    assert!(matches!(r, Err(StorageError::Unsupported { .. })));
}
