//! The filesystem-shaped surface: file-info classification, directory
//! operations and handle opening over a scoped store.

use vstd::prelude::*;

use crate::error::StorageError;
use crate::file::ObjectInputFile;
use crate::file::ObjectOutputStream;
use crate::memory::deep_child;
use crate::memory::direct_child;
use crate::path::is_prefix_of;
use crate::path::joined;
use crate::path::split_slash;
use crate::path::splits_wf;
use crate::path::StorePath;
use crate::prefix::PrefixObjectStore;
use crate::utils::delete_dir;
use crate::utils::walk_tree;
use crate::utils::walk_dir;
use crate::utils::walk_leaf;

verus! {

/// What a location is, seen as a filesystem entry.
pub enum FileType {
    /// An object lives exactly here and nothing lives below.
    File,
    /// Objects live below this location.
    Directory,
    /// Nothing lives here or below.
    NotFound,
}

/// One classified location.
pub struct FileInfo {
    /// The scope-relative location asked about or found.
    pub path: StorePath,
    /// Its classification.
    pub file_type: FileType,
    /// The object's size, for a file; zero otherwise.
    pub size: u64,
    /// The object's logical timestamp, for a file; zero otherwise.
    pub last_modified: u64,
}

/// How a location is classified: a location with objects strictly below
/// it is a directory, one holding an object and nothing below is a file,
/// and anything else is not found.
pub open spec fn classify(s: PrefixObjectStore, p: Seq<Seq<char>>) -> FileType {
    if exists|k: Seq<Seq<char>>| s.scope_has(k) && is_prefix_of(p, k) && k.len() > p.len() {
        FileType::Directory
    } else if s.scope_has(p) {
        FileType::File
    } else {
        FileType::NotFound
    }
}

/// File and directory selector: how to search below a base directory.
pub struct FileSelector {
    /// The directory in which to select files.
    pub base_dir: String,
    /// If false, a missing base directory is an error; if true, it is an
    /// empty selection.
    pub allow_not_found: bool,
    /// Whether to recurse into subdirectories.
    pub recursive: bool,
    /// Whether a directory itself is to be traversed.
    pub directory: bool,
}

impl FileSelector {
    /// Builds a selector.
    pub fn new(base_dir: String, allow_not_found: bool, recursive: bool, directory: bool) -> (r:
        FileSelector)
        ensures
            r.base_dir@ == base_dir@,
            r.allow_not_found == allow_not_found,
            r.recursive == recursive,
            r.directory == directory,
    {
        FileSelector { base_dir, allow_not_found, recursive, directory }
    }
}

/// The filesystem handler: a POSIX-shaped view over one scoped store.
pub struct ArrowFileSystemHandler {
    inner: PrefixObjectStore,
}

impl ArrowFileSystemHandler {
    /// The scoped store this handler works on.
    pub closed spec fn store(self) -> PrefixObjectStore {
        self.inner
    }

    /// Wraps a scoped store.
    pub fn new(store: PrefixObjectStore) -> (r: ArrowFileSystemHandler)
        requires
            store.inv(),
        ensures
            r.store() == store,
            r.store().inv(),
    {
        ArrowFileSystemHandler { inner: store }
    }

    /// Hands the scoped store back.
    pub fn into_store(self) -> (r: PrefixObjectStore)
        ensures
            r == self.store(),
    {
        self.inner
    }

    /// A borrow of the scoped store.
    pub fn backend(&self) -> (r: &PrefixObjectStore)
        ensures
            *r == self.store(),
    {
        &self.inner
    }

    /// Names the kind of filesystem this handler provides.
    pub fn get_type_name(&self) -> (r: String)
        ensures
            r@ == "object-store"@,
    {
        String::from_str("object-store")
    }

    /// Parses and re-serializes a path into its canonical form.
    pub fn normalize_path(&self, path: String) -> (r: Result<String, StorageError>)
        ensures
            r is Ok <==> splits_wf(split_slash(path@)),
            r matches Ok(s) ==> s@ == joined(split_slash(path@)),
            r is Err ==> r matches Err(StorageError::PathSyntax { .. }),
    {
        let parsed = StorePath::parse(path.as_str())?;
        Ok(parsed.to_string())
    }

    /// Creating a directory is a no-op: object stores have no directory
    /// entities.
    pub fn create_dir(&self, _path: String, _recursive: bool) -> (r: Result<(), StorageError>)
        ensures
            r is Ok,
    {
        Ok(())
    }

    /// Copies the object at `src` to `dest`, overwriting any object
    /// there.
    pub fn copy_file(&mut self, src: String, dest: String) -> (r: Result<(), StorageError>)
        requires
            old(self).store().inv(),
        ensures
            final(self).store().inv(),
            !(splits_wf(split_slash(src@)) && splits_wf(split_slash(dest@))) ==> (r matches Err(
                StorageError::PathSyntax { .. },
            ) && final(self).store() == old(self).store()),
            splits_wf(split_slash(src@)) && splits_wf(split_slash(dest@)) ==> {
                let sp = split_slash(src@);
                let dp = split_slash(dest@);
                &&& (r is Ok <==> old(self).store().scope_has(sp))
                &&& (r is Ok ==> final(self).store().scope_has(dp) && final(self).store().scope_data(dp) == old(self).store().scope_data(sp))
                &&& (r is Err ==> final(self).store() == old(self).store())
            },
    {
        let from_path = StorePath::parse(src.as_str())?;
        let to_path = StorePath::parse(dest.as_str())?;
        self.inner.copy(&from_path, &to_path)
    }

    /// Moves the object at `src` to `dest`, overwriting any object there.
    pub fn move_file(&mut self, src: String, dest: String) -> (r: Result<(), StorageError>)
        requires
            old(self).store().inv(),
        ensures
            final(self).store().inv(),
            !(splits_wf(split_slash(src@)) && splits_wf(split_slash(dest@))) ==> (r matches Err(
                StorageError::PathSyntax { .. },
            ) && final(self).store() == old(self).store()),
            splits_wf(split_slash(src@)) && splits_wf(split_slash(dest@)) ==> {
                let sp = split_slash(src@);
                let dp = split_slash(dest@);
                &&& (r is Ok <==> old(self).store().scope_has(sp))
                &&& (r is Ok && sp != dp ==> final(self).store().scope_has(dp) && final(self).store().scope_data(dp) == old(self).store().scope_data(sp) && !final(self).store().scope_has(sp))
                &&& (r is Ok && sp == dp ==> !final(self).store().scope_has(sp))
                &&& (r is Err ==> final(self).store() == old(self).store())
            },
    {
        let from_path = StorePath::parse(src.as_str())?;
        let to_path = StorePath::parse(dest.as_str())?;
        self.inner.rename(&from_path, &to_path)
    }

    /// Deletes the object at `path`.
    pub fn delete_file(&mut self, path: String) -> (r: Result<(), StorageError>)
        requires
            old(self).store().inv(),
        ensures
            final(self).store().inv(),
            !splits_wf(split_slash(path@)) ==> (r matches Err(StorageError::PathSyntax { .. })
                && final(self).store() == old(self).store()),
            splits_wf(split_slash(path@)) ==> {
                let p = split_slash(path@);
                &&& (r is Ok <==> old(self).store().scope_has(p))
                &&& !final(self).store().scope_has(p)
                &&& forall|k: Seq<Seq<char>>|
                    k != p ==> final(self).store().scope_has(k) == old(self).store().scope_has(
                        k,
                    )
            },
    {
        let p = StorePath::parse(path.as_str())?;
        self.inner.delete(&p)
    }

    /// Deletes every object under `path`, one delete per member.
    pub fn delete_dir(&mut self, path: String) -> (r: Result<(), StorageError>)
        requires
            old(self).store().inv(),
        ensures
            final(self).store().inv(),
            !splits_wf(split_slash(path@)) ==> (r matches Err(StorageError::PathSyntax { .. })
                && final(self).store() == old(self).store()),
            splits_wf(split_slash(path@)) ==> {
                let p = split_slash(path@);
                &&& r is Ok
                &&& forall|k: Seq<Seq<char>>|
                    is_prefix_of(p, k) ==> !final(self).store().scope_has(k)
                &&& forall|k: Seq<Seq<char>>|
                    !is_prefix_of(p, k) ==> final(self).store().scope_has(k) == old(self).store().scope_has(k)
            },
    {
        let p = StorePath::parse(path.as_str())?;
        delete_dir(&mut self.inner, &p)
    }

    /// Classifies each path: a location with objects below it is a
    /// directory; otherwise a metadata lookup distinguishes a file from
    /// nothing at all.
    pub fn get_file_info(&self, paths: Vec<String>) -> (r: Result<Vec<FileInfo>, StorageError>)
        requires
            self.store().inv(),
        ensures
            r is Ok <==> (forall|i: int|
                0 <= i < paths@.len() ==> splits_wf(split_slash((#[trigger] paths@[i])@))),
            r matches Ok(infos) ==> infos@.len() == paths@.len() && forall|i: int|
                0 <= i < infos@.len() ==> {
                    let p = split_slash(paths@[i]@);
                    &&& (#[trigger] infos@[i]).path@ == p
                    &&& infos@[i].file_type == classify(self.store(), p)
                    &&& (infos@[i].file_type is File ==> infos@[i].size == self.store(
                    ).scope_data(p).len() && infos@[i].last_modified == self.store(
                    ).scope_mtime(p))
                },
            r is Err ==> r matches Err(StorageError::PathSyntax { .. }),
    {
        let mut infos: Vec<FileInfo> = Vec::new();
        let n = paths.len();
        for i in 0..n
            invariant
                n == paths@.len(),
                self.store().inv(),
                infos@.len() == i,
                forall|j: int| 0 <= j < i ==> splits_wf(split_slash((#[trigger] paths@[j])@)),
                forall|j: int|
                    0 <= j < i ==> {
                        let p = split_slash(paths@[j]@);
                        &&& (#[trigger] infos@[j]).path@ == p
                        &&& infos@[j].file_type == classify(self.store(), p)
                        &&& (infos@[j].file_type is File ==> infos@[j].size == self.store(
                        ).scope_data(p).len() && infos@[j].last_modified == self.store(
                        ).scope_mtime(p))
                    },
        {
            let path = StorePath::parse(paths[i].as_str())?;
            let listed = self.inner.list_with_delimiter(Some(&path));
            let info = if listed.objects.len() == 0 && listed.common_prefixes.len() == 0 {
                proof {
                    let s = self.store();
                    let p = path@;
                    if exists|k: Seq<Seq<char>>|
                        s.scope_has(k) && is_prefix_of(p, k) && k.len() > p.len() {
                        let k = choose|k: Seq<Seq<char>>|
                            s.scope_has(k) && is_prefix_of(p, k) && k.len() > p.len();
                        if k.len() == p.len() + 1 {
                            assert(direct_child(p, k));
                            assert(false);
                        } else {
                            assert(crate::memory::deep_child(p, k));
                            assert(false);
                        }
                    }
                }
                match self.inner.head(&path) {
                    Ok(meta) => FileInfo {
                        path,
                        file_type: FileType::File,
                        size: meta.size,
                        last_modified: meta.last_modified,
                    },
                    Err(StorageError::NotFound { .. }) => FileInfo {
                        path,
                        file_type: FileType::NotFound,
                        size: 0,
                        last_modified: 0,
                    },
                    Err(e) => {
                        return Err(e);
                    },
                }
            } else {
                proof {
                    let s = self.store();
                    let p = path@;
                    if listed.objects@.len() > 0 {
                        let k = listed.objects@[0].location@;
                        assert(s.scope_has(k) && is_prefix_of(p, k) && k.len() > p.len());
                    } else {
                        let cp = listed.common_prefixes@[0];
                        let rel = choose|rel: Seq<Seq<char>>|
                            s.scope_has(rel) && crate::memory::deep_child(p, rel) && cp@
                                == rel.take(p.len() + 1 as int);
                        assert(s.scope_has(rel) && is_prefix_of(p, rel) && rel.len()
                            > p.len());
                    }
                }
                FileInfo { path, file_type: FileType::Directory, size: 0, last_modified: 0 }
            };
            infos.push(info);
        }
        Ok(infos)
    }

    /// Lists everything below `base_dir`: one directory entry per
    /// grouping found, then one file entry per object, each exactly once.
    /// With `recursive` the whole subtree is walked; without it only one
    /// level. A missing base directory yields an empty selection, so
    /// `allow_not_found` changes nothing against this backend, whose
    /// listings never fail.
    pub fn get_file_info_selector(
        &self,
        base_dir: String,
        allow_not_found: bool,
        recursive: bool,
    ) -> (r: Result<Vec<FileInfo>, StorageError>)
        requires
            self.store().inv(),
        ensures
            r is Ok <==> splits_wf(split_slash(base_dir@)),
            r is Err ==> r matches Err(StorageError::PathSyntax { .. }),
            r matches Ok(infos) ==> {
                let root = split_slash(base_dir@);
                &&& forall|j: int|
                    0 <= j < infos@.len() ==> ((#[trigger] infos@[j]).file_type is File ==> {
                        &&& walk_leaf(self.store(), root, infos@[j].path@)
                        &&& infos@[j].size == self.store().scope_data(infos@[j].path@).len()
                        &&& infos@[j].last_modified == self.store().scope_mtime(
                            infos@[j].path@,
                        )
                    })
                &&& forall|j: int|
                    0 <= j < infos@.len() ==> ((#[trigger] infos@[
                        j
                    ]).file_type is Directory ==> (if recursive {
                        walk_dir(self.store(), root, infos@[j].path@)
                    } else {
                        infos@[j].path@.len() == root.len() + 1 && exists|k: Seq<Seq<char>>|
                            self.store().scope_has(k) && deep_child(root, k) && infos@[
                                j
                            ].path@ == k.take(root.len() + 1 as int)
                    }))
                &&& forall|j: int|
                    0 <= j < infos@.len() ==> ((#[trigger] infos@[j]).file_type is Directory
                        || infos@[j].file_type is File)
                &&& forall|j1: int, j2: int|
                    0 <= j1 < j2 < infos@.len() && (#[trigger] infos@[
                        j1
                    ]).file_type is File ==> (#[trigger] infos@[j2]).file_type is File
                &&& forall|j1: int, j2: int|
                    0 <= j1 < infos@.len() && 0 <= j2 < infos@.len() && j1 != j2 ==> infos@[
                        j1
                    ].path@ != infos@[j2].path@ || infos@[j1].file_type != infos@[
                        j2
                    ].file_type
                &&& (recursive ==> forall|k: Seq<Seq<char>>|
                    #[trigger] walk_leaf(self.store(), root, k) ==> exists|j: int|
                        0 <= j < infos@.len() && (#[trigger] infos@[j]).path@ == k && infos@[
                            j
                        ].file_type is File)
                &&& (recursive ==> forall|q: Seq<Seq<char>>|
                    #[trigger] walk_dir(self.store(), root, q) ==> exists|j: int|
                        0 <= j < infos@.len() && (#[trigger] infos@[j]).path@ == q && infos@[
                            j
                        ].file_type is Directory)
                &&& (!recursive ==> forall|j: int|
                    0 <= j < infos@.len() ==> ((#[trigger] infos@[j]).file_type is File
                        ==> direct_child(root, infos@[j].path@)))
                &&& (!recursive ==> forall|k: Seq<Seq<char>>|
                    #[trigger] self.store().scope_has(k) && direct_child(root, k) ==> exists|
                        j: int,
                    |
                        0 <= j < infos@.len() && (#[trigger] infos@[j]).path@ == k && infos@[
                            j
                        ].file_type is File)
                &&& (!recursive ==> forall|k: Seq<Seq<char>>|
                    #[trigger] self.store().scope_has(k) && deep_child(root, k) ==> exists|
                        j: int,
                    |
                        0 <= j < infos@.len() && (#[trigger] infos@[j]).path@ == k.take(
                            root.len() + 1 as int,
                        ) && infos@[j].file_type is Directory)
            },
    {
        let path = StorePath::parse(base_dir.as_str())?;
        let _ = allow_not_found;
        let listed = walk_tree(&self.inner, &path, recursive);
        let ghost s = self.store();
        let ghost root = path@;
        let ghost gc = listed.common_prefixes@;
        let ghost go = listed.objects@;
        let mut infos: Vec<FileInfo> = Vec::new();
        let m = listed.common_prefixes.len();
        let mut ci: usize = 0;
        while ci < m
            invariant
                m == gc.len(),
                gc == listed.common_prefixes@,
                infos@.len() == ci <= m,
                forall|j: int|
                    0 <= j < ci ==> (#[trigger] infos@[j]).path@ == gc[j]@ && infos@[
                        j
                    ].file_type is Directory,
            decreases m - ci,
        {
            infos.push(
                FileInfo {
                    path: listed.common_prefixes[ci].duplicate(),
                    file_type: FileType::Directory,
                    size: 0,
                    last_modified: 0,
                },
            );
            ci = ci + 1;
        }
        let n = listed.objects.len();
        let mut oi: usize = 0;
        while oi < n
            invariant
                n == go.len(),
                m == gc.len(),
                go == listed.objects@,
                gc == listed.common_prefixes@,
                infos@.len() == m + oi,
                oi <= n,
                forall|j: int|
                    0 <= j < m ==> (#[trigger] infos@[j]).path@ == gc[j]@ && infos@[
                        j
                    ].file_type is Directory,
                forall|j: int|
                    0 <= j < oi ==> (#[trigger] infos@[m + j]).path@ == go[j].location@
                        && infos@[m + j].file_type is File && infos@[m + j].size == go[
                        j
                    ].size && infos@[m + j].last_modified == go[j].last_modified,
            decreases n - oi,
        {
            infos.push(
                FileInfo {
                    path: listed.objects[oi].location.duplicate(),
                    file_type: FileType::File,
                    size: listed.objects[oi].size,
                    last_modified: listed.objects[oi].last_modified,
                },
            );
            oi = oi + 1;
        }
        proof {
            assert forall|j: int|
                0 <= j < infos@.len() implies (if j < m {
                (#[trigger] infos@[j]).path@ == gc[j]@ && infos@[j].file_type is Directory
            } else {
                infos@[j].path@ == go[j - m].location@ && infos@[j].file_type is File
                    && infos@[j].size == go[j - m].size && infos@[j].last_modified == go[j
                    - m].last_modified
            }) by {
                if j >= m {
                    assert(infos@[m + (j - m)].path@ == go[j - m].location@);
                }
            }
            assert forall|j: int|
                0 <= j < infos@.len() implies ((#[trigger] infos@[
                j
            ]).file_type is Directory ==> (if recursive {
                walk_dir(s, root, infos@[j].path@)
            } else {
                infos@[j].path@.len() == root.len() + 1 && exists|k: Seq<Seq<char>>|
                    s.scope_has(k) && deep_child(root, k) && infos@[j].path@ == k.take(
                        root.len() + 1 as int,
                    )
            })) by {
                if j < m && !recursive {
                    let k = choose|k: Seq<Seq<char>>|
                        s.scope_has(k) && deep_child(root, k) && (#[trigger] gc[j])@
                            == k.take(root.len() + 1 as int);
                    assert(s.scope_has(k) && deep_child(root, k) && infos@[j].path@ == k.take(
                        root.len() + 1 as int,
                    ));
                }
            }
            assert forall|j1: int, j2: int|
                0 <= j1 < infos@.len() && 0 <= j2 < infos@.len() && j1 != j2 implies infos@[
                j1
            ].path@ != infos@[j2].path@ || infos@[j1].file_type != infos@[j2].file_type by {
                if j1 < m && j2 < m {
                    assert(gc[j1]@ != gc[j2]@);
                } else if j1 >= m && j2 >= m {
                    assert(go[j1 - m].location@ != go[j2 - m].location@);
                }
            }
            if recursive {
                assert forall|k: Seq<Seq<char>>|
                    #[trigger] walk_leaf(s, root, k) implies exists|j: int|
                    0 <= j < infos@.len() && (#[trigger] infos@[j]).path@ == k && infos@[
                        j
                    ].file_type is File by {
                    let jj = choose|jj: int| 0 <= jj < go.len() && go[jj].location@ == k;
                    assert(infos@[m + jj].path@ == k && infos@[m + jj].file_type is File);
                }
                assert forall|q: Seq<Seq<char>>|
                    #[trigger] walk_dir(s, root, q) implies exists|j: int|
                    0 <= j < infos@.len() && (#[trigger] infos@[j]).path@ == q && infos@[
                        j
                    ].file_type is Directory by {
                    let jj = choose|jj: int|
                        0 <= jj < gc.len() && (#[trigger] gc[jj])@ == q;
                    assert(infos@[jj].path@ == q && infos@[jj].file_type is Directory);
                }
            } else {
                assert forall|k: Seq<Seq<char>>|
                    #[trigger] s.scope_has(k) && direct_child(root, k) implies exists|j: int|
                    0 <= j < infos@.len() && (#[trigger] infos@[j]).path@ == k && infos@[
                        j
                    ].file_type is File by {
                    let jj = choose|jj: int| 0 <= jj < go.len() && go[jj].location@ == k;
                    assert(infos@[m + jj].path@ == k && infos@[m + jj].file_type is File);
                }
                assert forall|k: Seq<Seq<char>>|
                    #[trigger] s.scope_has(k) && deep_child(root, k) implies exists|j: int|
                    0 <= j < infos@.len() && (#[trigger] infos@[j]).path@ == k.take(
                        root.len() + 1 as int,
                    ) && infos@[j].file_type is Directory by {
                    let jj = choose|jj: int|
                        0 <= jj < gc.len() && (#[trigger] gc[jj])@ == k.take(
                            root.len() + 1 as int,
                        );
                    assert(infos@[jj].path@ == k.take(root.len() + 1 as int) && infos@[
                        jj
                    ].file_type is Directory);
                }
            }
        }
        Ok(infos)
    }

    /// Opens a readable handle on the object at `path`.
    pub fn open_input_file(&self, path: String) -> (r: Result<ObjectInputFile, StorageError>)
        requires
            self.store().inv(),
        ensures
            r is Ok <==> splits_wf(split_slash(path@)) && self.store().scope_has(
                split_slash(path@),
            ) && self.store().scope_data(split_slash(path@)).len() <= i64::MAX,
            r matches Ok(f) ==> f.path_view() == split_slash(path@) && f.pos() == 0
                && !f.is_closed() && f.wf() && f.valid_for(self.store()),
            !splits_wf(split_slash(path@)) ==> r matches Err(StorageError::PathSyntax { .. }),
            splits_wf(split_slash(path@)) && !self.store().scope_has(split_slash(path@))
                ==> r matches Err(StorageError::NotFound { .. }),
    {
        let p = StorePath::parse(path.as_str())?;
        ObjectInputFile::try_new(&self.inner, p)
    }

    /// Opens a writable stream on the object at `path`, eagerly beginning
    /// its multipart upload session.
    pub fn open_output_stream(&mut self, path: String, _metadata: Option<Vec<(String, String)>>)
        -> (r: Result<ObjectOutputStream, StorageError>)
        requires
            old(self).store().inv(),
        ensures
            final(self).store().inv(),
            !splits_wf(split_slash(path@)) ==> (r matches Err(StorageError::PathSyntax { .. })
                && final(self).store() == old(self).store()),
            splits_wf(split_slash(path@)) ==> (r matches Ok(f) && f.path_view() == split_slash(
                path@,
            ) && f.pos() == 0 && !f.is_closed() && f.wf() && f.valid_for(final(self).store())
                && f.session_state(final(self).store()) is Active),
            forall|rel: Seq<Seq<char>>|
                final(self).store().scope_has(rel) == old(self).store().scope_has(rel),
    {
        let p = StorePath::parse(path.as_str())?;
        ObjectOutputStream::try_new(&mut self.inner, p)
    }
}

/// A pyarrow-flavored filesystem over one scoped store: classification by
/// metadata lookup alone.
pub struct ArrowFileSystem {
    inner: PrefixObjectStore,
}

impl ArrowFileSystem {
    /// The scoped store this filesystem works on.
    pub closed spec fn store(self) -> PrefixObjectStore {
        self.inner
    }

    /// Wraps a scoped store.
    pub fn new(store: PrefixObjectStore) -> (r: ArrowFileSystem)
        requires
            store.inv(),
        ensures
            r.store() == store,
            r.store().inv(),
    {
        ArrowFileSystem { inner: store }
    }

    /// Classifies each selector's base directory by a metadata lookup
    /// alone: a present object is a file, a missing one is not found.
    /// Directory traversal is not implemented on this surface.
    pub fn get_file_info(&self, selectors: Vec<FileSelector>) -> (r: Result<
        Vec<FileInfo>,
        StorageError,
    >)
        requires
            self.store().inv(),
        ensures
            r is Ok <==> (forall|i: int|
                0 <= i < selectors@.len() ==> !(#[trigger] selectors@[i]).directory
                    && splits_wf(split_slash(selectors@[i].base_dir@))),
            r matches Ok(infos) ==> infos@.len() == selectors@.len() && forall|i: int|
                0 <= i < infos@.len() ==> {
                    let p = split_slash(selectors@[i].base_dir@);
                    &&& (#[trigger] infos@[i]).path@ == p
                    &&& (self.store().scope_has(p) ==> infos@[i].file_type is File && infos@[
                        i
                    ].size == self.store().scope_data(p).len() && infos@[i].last_modified
                        == self.store().scope_mtime(p))
                    &&& (!self.store().scope_has(p) ==> infos@[i].file_type is NotFound
                        && infos@[i].size == 0)
                },
            r is Err ==> (r matches Err(StorageError::Unsupported { .. }) || r matches Err(
                StorageError::PathSyntax { .. },
            )),
    {
        let mut infos: Vec<FileInfo> = Vec::new();
        let n = selectors.len();
        for i in 0..n
            invariant
                n == selectors@.len(),
                self.store().inv(),
                infos@.len() == i,
                forall|j: int|
                    0 <= j < i ==> !(#[trigger] selectors@[j]).directory && splits_wf(
                        split_slash(selectors@[j].base_dir@),
                    ),
                forall|j: int|
                    0 <= j < i ==> {
                        let p = split_slash(selectors@[j].base_dir@);
                        &&& (#[trigger] infos@[j]).path@ == p
                        &&& (self.store().scope_has(p) ==> infos@[j].file_type is File
                            && infos@[j].size == self.store().scope_data(p).len() && infos@[
                            j
                        ].last_modified == self.store().scope_mtime(p))
                        &&& (!self.store().scope_has(p) ==> infos@[j].file_type is NotFound
                            && infos@[j].size == 0)
                    },
        {
            if selectors[i].directory {
                return Err(StorageError::Unsupported {
                    operation: String::from_str("directory selectors"),
                });
            }
            let path = StorePath::parse(selectors[i].base_dir.as_str())?;
            let info = match self.inner.head(&path) {
                Ok(meta) => FileInfo {
                    path,
                    file_type: FileType::File,
                    size: meta.size,
                    last_modified: meta.last_modified,
                },
                Err(StorageError::NotFound { .. }) => FileInfo {
                    path,
                    file_type: FileType::NotFound,
                    size: 0,
                    last_modified: 0,
                },
                Err(e) => {
                    // a metadata lookup on this backend fails only with
                    // NotFound, which the arm above catches
                    proof {
                        assert(false);
                    }
                    return Err(e);
                },
            };
            infos.push(info);
        }
        Ok(infos)
    }

    /// Copies the object at `src` to `dest`, overwriting any object
    /// there.
    pub fn copy_file(&mut self, src: String, dest: String) -> (r: Result<(), StorageError>)
        requires
            old(self).store().inv(),
        ensures
            final(self).store().inv(),
            !(splits_wf(split_slash(src@)) && splits_wf(split_slash(dest@))) ==> (r matches Err(
                StorageError::PathSyntax { .. },
            ) && final(self).store() == old(self).store()),
            splits_wf(split_slash(src@)) && splits_wf(split_slash(dest@)) ==> {
                let sp = split_slash(src@);
                let dp = split_slash(dest@);
                &&& (r is Ok <==> old(self).store().scope_has(sp))
                &&& (r is Ok ==> final(self).store().scope_has(dp) && final(self).store().scope_data(dp) == old(self).store().scope_data(sp))
                &&& (r is Err ==> final(self).store() == old(self).store())
            },
    {
        let from_path = StorePath::parse(src.as_str())?;
        let to_path = StorePath::parse(dest.as_str())?;
        self.inner.copy(&from_path, &to_path)
    }

    /// Moves the object at `src` to `dest`, overwriting any object there.
    pub fn move_file(&mut self, src: String, dest: String) -> (r: Result<(), StorageError>)
        requires
            old(self).store().inv(),
        ensures
            final(self).store().inv(),
            !(splits_wf(split_slash(src@)) && splits_wf(split_slash(dest@))) ==> (r matches Err(
                StorageError::PathSyntax { .. },
            ) && final(self).store() == old(self).store()),
            splits_wf(split_slash(src@)) && splits_wf(split_slash(dest@)) ==> {
                let sp = split_slash(src@);
                let dp = split_slash(dest@);
                &&& (r is Ok <==> old(self).store().scope_has(sp))
                &&& (r is Ok && sp != dp ==> final(self).store().scope_has(dp) && final(self).store().scope_data(dp) == old(self).store().scope_data(sp) && !final(self).store().scope_has(sp))
                &&& (r is Ok && sp == dp ==> !final(self).store().scope_has(sp))
                &&& (r is Err ==> final(self).store() == old(self).store())
            },
    {
        let from_path = StorePath::parse(src.as_str())?;
        let to_path = StorePath::parse(dest.as_str())?;
        self.inner.rename(&from_path, &to_path)
    }

    /// Creating a directory is a no-op: object stores have no directory
    /// entities.
    pub fn create_dir(&self, _path: String, _recursive: bool) -> (r: Result<(), StorageError>)
        ensures
            r is Ok,
    {
        Ok(())
    }

    /// Deletes the object at `path`.
    pub fn delete_file(&mut self, path: String) -> (r: Result<(), StorageError>)
        requires
            old(self).store().inv(),
        ensures
            final(self).store().inv(),
            !splits_wf(split_slash(path@)) ==> (r matches Err(StorageError::PathSyntax { .. })
                && final(self).store() == old(self).store()),
            splits_wf(split_slash(path@)) ==> {
                let p = split_slash(path@);
                &&& (r is Ok <==> old(self).store().scope_has(p))
                &&& !final(self).store().scope_has(p)
                &&& forall|k: Seq<Seq<char>>|
                    k != p ==> final(self).store().scope_has(k) == old(self).store().scope_has(
                        k,
                    )
            },
    {
        let p = StorePath::parse(path.as_str())?;
        self.inner.delete(&p)
    }

    /// Deletes every object under `path`, one delete per member.
    pub fn delete_dir(&mut self, path: String) -> (r: Result<(), StorageError>)
        requires
            old(self).store().inv(),
        ensures
            final(self).store().inv(),
            !splits_wf(split_slash(path@)) ==> (r matches Err(StorageError::PathSyntax { .. })
                && final(self).store() == old(self).store()),
            splits_wf(split_slash(path@)) ==> {
                let p = split_slash(path@);
                &&& r is Ok
                &&& forall|k: Seq<Seq<char>>|
                    is_prefix_of(p, k) ==> !final(self).store().scope_has(k)
                &&& forall|k: Seq<Seq<char>>|
                    !is_prefix_of(p, k) ==> final(self).store().scope_has(k) == old(self).store().scope_has(k)
            },
    {
        let p = StorePath::parse(path.as_str())?;
        delete_dir(&mut self.inner, &p)
    }
}

} // verus!