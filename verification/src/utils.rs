//! The tree walker: recursive listing built on the one-level,
//! delimiter-based list primitive, plus small whole-tree helpers.

use vstd::prelude::*;

use crate::error::StorageError;
use crate::memory::direct_child;
use crate::memory::deep_child;
use crate::memory::ListResult;
use crate::memory::ObjectMetadata;
use crate::path::is_prefix_of;
use crate::path::StorePath;
use crate::prefix::PrefixObjectStore;

verus! {

/// A leaf the recursive walk must report: an object strictly below the
/// walk's root.
pub open spec fn walk_leaf(
    s: PrefixObjectStore,
    root: Seq<Seq<char>>,
    k: Seq<Seq<char>>,
) -> bool {
    s.scope_has(k) && is_prefix_of(root, k) && k.len() > root.len()
}

/// A directory the recursive walk must report: a strict descendant of the
/// root below which some object lies strictly deeper.
pub open spec fn walk_dir(
    s: PrefixObjectStore,
    root: Seq<Seq<char>>,
    q: Seq<Seq<char>>,
) -> bool {
    is_prefix_of(root, q) && q.len() > root.len() && exists|k: Seq<Seq<char>>|
        s.scope_has(k) && is_prefix_of(q, k) && k.len() > q.len()
}

/// Copies a list of paths segment for segment.
fn dup_paths(v: &Vec<StorePath>) -> (r: Vec<StorePath>)
    ensures
        r@.len() == v@.len(),
        forall|j: int| 0 <= j < v@.len() ==> (#[trigger] r@[j])@ == v@[j]@,
{
    let mut r: Vec<StorePath> = Vec::new();
    let n = v.len();
    for i in 0..n
        invariant
            n == v@.len(),
            r@.len() == i,
            forall|j: int| 0 <= j < i ==> (#[trigger] r@[j])@ == v@[j]@,
    {
        r.push(v[i].duplicate());
    }
    r
}

/// Expands one directory level: lists every frontier directory once,
/// merges the objects found directly inside them, and returns the next
/// level's directories.
fn expand_level(
    storage: &PrefixObjectStore,
    frontier: &Vec<StorePath>,
    Ghost(root): Ghost<Seq<Seq<char>>>,
    Ghost(cur_len): Ghost<int>,
) -> (r: ListResult)
    requires
        storage.inv(),
        root.len() < cur_len,
        forall|j: int|
            0 <= j < frontier@.len() ==> (#[trigger] frontier@[j]).wf() && frontier@[j]@.len()
                == cur_len && walk_dir(*storage, root, frontier@[j]@),
        forall|j1: int, j2: int|
            0 <= j1 < frontier@.len() && 0 <= j2 < frontier@.len() && j1 != j2 ==> frontier@[
                j1
            ]@ != frontier@[j2]@,
    ensures
        forall|j: int|
            0 <= j < r.objects@.len() ==> {
                let k = (#[trigger] r.objects@[j]).location@;
                &&& walk_leaf(*storage, root, k)
                &&& k.len() == cur_len + 1
                &&& exists|f: int| 0 <= f < frontier@.len() && k.take(cur_len) == frontier@[f]@
                &&& r.objects@[j].location.wf()
                &&& r.objects@[j].size == storage.scope_data(k).len()
                &&& r.objects@[j].last_modified == storage.scope_mtime(k)
            },
        forall|k: Seq<Seq<char>>, f: int|
            #[trigger] storage.scope_has(k) && 0 <= f < frontier@.len() && direct_child(
                (#[trigger] frontier@[f])@,
                k,
            ) ==> exists|j: int|
                0 <= j < r.objects@.len() && r.objects@[j].location@ == k,
        forall|j1: int, j2: int|
            0 <= j1 < r.objects@.len() && 0 <= j2 < r.objects@.len() && j1 != j2
                ==> r.objects@[j1].location@ != r.objects@[j2].location@,
        forall|j: int|
            0 <= j < r.common_prefixes@.len() ==> (#[trigger] r.common_prefixes@[j]).wf()
                && r.common_prefixes@[j]@.len() == cur_len + 1 && walk_dir(
                *storage,
                root,
                r.common_prefixes@[j]@,
            ),
        forall|q: Seq<Seq<char>>|
            walk_dir(*storage, root, q) && q.len() == cur_len + 1 && (exists|f: int|
                0 <= f < frontier@.len() && #[trigger] q.take(cur_len) == frontier@[f]@)
                ==> exists|j: int|
                0 <= j < r.common_prefixes@.len() && (#[trigger] r.common_prefixes@[j])@ == q,
        forall|j1: int, j2: int|
            0 <= j1 < r.common_prefixes@.len() && 0 <= j2 < r.common_prefixes@.len() && j1 != j2
                ==> r.common_prefixes@[j1]@ != r.common_prefixes@[j2]@,
{
    let mut objects: Vec<ObjectMetadata> = Vec::new();
    let mut next: Vec<StorePath> = Vec::new();
    let n = frontier.len();
    for idx in 0..n
        invariant
            storage.inv(),
            n == frontier@.len(),
            root.len() < cur_len,
            forall|j: int|
                0 <= j < frontier@.len() ==> (#[trigger] frontier@[j]).wf()
                    && frontier@[j]@.len() == cur_len && walk_dir(
                    *storage,
                    root,
                    frontier@[j]@,
                ),
            forall|j1: int, j2: int|
                0 <= j1 < frontier@.len() && 0 <= j2 < frontier@.len() && j1 != j2
                    ==> frontier@[j1]@ != frontier@[j2]@,
            forall|j: int|
                0 <= j < objects@.len() ==> {
                    let k = (#[trigger] objects@[j]).location@;
                    &&& walk_leaf(*storage, root, k)
                    &&& k.len() == cur_len + 1
                    &&& exists|f: int| 0 <= f < idx && k.take(cur_len) == frontier@[f]@
                    &&& objects@[j].location.wf()
                    &&& objects@[j].size == storage.scope_data(k).len()
                    &&& objects@[j].last_modified == storage.scope_mtime(k)
                },
            forall|k: Seq<Seq<char>>, f: int|
                #[trigger] storage.scope_has(k) && 0 <= f < idx && direct_child(
                    (#[trigger] frontier@[f])@,
                    k,
                ) ==> exists|j: int|
                    0 <= j < objects@.len() && objects@[j].location@ == k,
            forall|j1: int, j2: int|
                0 <= j1 < objects@.len() && 0 <= j2 < objects@.len() && j1 != j2 ==> objects@[
                    j1
                ].location@ != objects@[j2].location@,
            forall|j: int|
                0 <= j < next@.len() ==> (#[trigger] next@[j]).wf() && next@[j]@.len()
                    == cur_len + 1 && walk_dir(*storage, root, next@[j]@) && (exists|f: int|
                    0 <= f < idx && next@[j]@.take(cur_len) == frontier@[f]@),
            forall|q: Seq<Seq<char>>|
                walk_dir(*storage, root, q) && q.len() == cur_len + 1 && (exists|f: int|
                    0 <= f < idx && #[trigger] q.take(cur_len) == frontier@[f]@) ==> exists|
                    j: int,
                |
                    0 <= j < next@.len() && (#[trigger] next@[j])@ == q,
            forall|j1: int, j2: int|
                0 <= j1 < next@.len() && 0 <= j2 < next@.len() && j1 != j2 ==> next@[j1]@
                    != next@[j2]@,
    {
        let f = &frontier[idx];
        let mut lr = storage.list_with_delimiter(Some(f));
        let ghost fi = idx as int;
        let ghost fv = frontier@[fi]@;
        let ghost pre_objects = objects@;
        let ghost lr_objects = lr.objects@;
        objects.append(&mut lr.objects);
        proof {
            let s = *storage;
            assert(objects@ == pre_objects + lr_objects);
            // each new object is a direct child of this frontier directory
            assert forall|j: int|
                0 <= j < objects@.len() implies {
                let k = (#[trigger] objects@[j]).location@;
                &&& walk_leaf(s, root, k)
                &&& k.len() == cur_len + 1
                &&& exists|f2: int| 0 <= f2 < fi + 1 && k.take(cur_len) == frontier@[f2]@
                &&& objects@[j].location.wf()
                &&& objects@[j].size == s.scope_data(k).len()
                &&& objects@[j].last_modified == s.scope_mtime(k)
            } by {
                if j < pre_objects.len() {
                    assert(objects@[j] == pre_objects[j]);
                    let f2 = choose|f2: int|
                        0 <= f2 < fi && pre_objects[j].location@.take(cur_len) == frontier@[
                            f2
                        ]@;
                    assert(objects@[j].location@.take(cur_len) == frontier@[f2]@);
                } else {
                    let jj = j - pre_objects.len();
                    assert(objects@[j] == lr_objects[jj]);
                    let k = lr_objects[jj].location@;
                    assert(direct_child(fv, k));
                    assert(k.take(cur_len) =~= fv);
                    assert(is_prefix_of(root, k)) by {
                        assert(is_prefix_of(root, fv));
                        assert forall|i: int| 0 <= i < root.len() implies k[i] == root[i] by {
                            assert(fv[i] == root[i]);
                            assert(k[i] == fv[i]);
                        }
                    }
                }
            }
            // completeness for the frontier processed so far
            assert forall|k: Seq<Seq<char>>, f2: int|
                #[trigger] s.scope_has(k) && 0 <= f2 < fi + 1 && direct_child(
                    (#[trigger] frontier@[f2])@,
                    k,
                ) implies exists|j: int|
                0 <= j < objects@.len() && objects@[j].location@ == k by {
                if f2 < fi {
                    let j = choose|j: int|
                        0 <= j < pre_objects.len() && pre_objects[j].location@ == k;
                    assert(objects@[j].location@ == k);
                } else {
                    let jj = choose|jj: int|
                        0 <= jj < lr_objects.len() && lr_objects[jj].location@ == k;
                    assert(objects@[pre_objects.len() + jj].location@ == k);
                }
            }
            // distinct: same-level leaves under distinct parents differ
            assert forall|j1: int, j2: int|
                0 <= j1 < objects@.len() && 0 <= j2 < objects@.len() && j1 != j2 implies objects@[
                j1
            ].location@ != objects@[j2].location@ by {
                if j1 < pre_objects.len() && j2 >= pre_objects.len() {
                    let f2 = choose|f2: int|
                        0 <= f2 < fi && pre_objects[j1].location@.take(cur_len) == frontier@[
                            f2
                        ]@;
                    assert(objects@[j2].location@.take(cur_len) =~= fv);
                } else if j2 < pre_objects.len() && j1 >= pre_objects.len() {
                    let f2 = choose|f2: int|
                        0 <= f2 < fi && pre_objects[j2].location@.take(cur_len) == frontier@[
                            f2
                        ]@;
                    assert(objects@[j1].location@.take(cur_len) =~= fv);
                } else if j1 >= pre_objects.len() && j2 >= pre_objects.len() {
                    assert(lr_objects[j1 - pre_objects.len()].location@ != lr_objects[j2
                        - pre_objects.len()].location@);
                }
            }
        }
        let ghost pre_next = next@;
        let ghost lr_cps = lr.common_prefixes@;
        next.append(&mut lr.common_prefixes);
        proof {
            let s = *storage;
            assert(next@ == pre_next + lr_cps);
            assert forall|j: int|
                0 <= j < next@.len() implies (#[trigger] next@[j]).wf() && next@[j]@.len()
                == cur_len + 1 && walk_dir(s, root, next@[j]@) && (exists|f2: int|
                0 <= f2 < fi + 1 && next@[j]@.take(cur_len) == frontier@[f2]@) by {
                if j < pre_next.len() {
                    assert(next@[j] == pre_next[j]);
                    let f2 = choose|f2: int|
                        0 <= f2 < fi && pre_next[j]@.take(cur_len) == frontier@[f2]@;
                    assert(next@[j]@.take(cur_len) == frontier@[f2]@);
                } else {
                    let jj = j - pre_next.len();
                    assert(next@[j] == lr_cps[jj]);
                    let q = lr_cps[jj]@;
                    let k = choose|k: Seq<Seq<char>>|
                        s.scope_has(k) && deep_child(fv, k) && q == k.take(
                            fv.len() + 1 as int,
                        );
                    assert(q.len() == cur_len + 1);
                    assert(q.take(cur_len) =~= fv);
                    assert(is_prefix_of(root, q)) by {
                        assert(is_prefix_of(root, fv));
                        assert forall|i: int| 0 <= i < root.len() implies q[i] == root[i] by {
                            assert(fv[i] == root[i]);
                            assert(q[i] == fv[i]);
                        }
                    }
                    assert(is_prefix_of(q, k)) by {
                        assert forall|i: int| 0 <= i < q.len() implies k[i] == q[i] by {
                            assert(q[i] == k.take(fv.len() + 1 as int)[i]);
                        }
                    }
                    assert(walk_dir(s, root, q));
                }
            }
            assert forall|q: Seq<Seq<char>>|
                walk_dir(s, root, q) && q.len() == cur_len + 1 && (exists|f2: int|
                    0 <= f2 < fi + 1 && #[trigger] q.take(cur_len) == frontier@[f2]@) implies
                exists|j: int|
                0 <= j < next@.len() && (#[trigger] next@[j])@ == q by {
                let f2 = choose|f2: int|
                    0 <= f2 < fi + 1 && q.take(cur_len) == frontier@[f2]@;
                if f2 < fi {
                    let j = choose|j: int| 0 <= j < pre_next.len() && pre_next[j]@ == q;
                    assert(next@[j]@ == q);
                } else {
                    // q groups a deeper object below this frontier directory
                    let k = choose|k: Seq<Seq<char>>|
                        s.scope_has(k) && is_prefix_of(q, k) && k.len() > q.len();
                    assert(deep_child(fv, k)) by {
                        assert(q.take(cur_len) == fv);
                        assert forall|i: int| 0 <= i < fv.len() implies k[i] == fv[i] by {
                            assert(q[i] == q.take(cur_len)[i]);
                            assert(k[i] == q[i]);
                        }
                    }
                    let jj = choose|jj: int|
                        0 <= jj < lr_cps.len() && lr_cps[jj]@ == k.take(fv.len() + 1 as int);
                    assert(k.take(fv.len() + 1 as int) =~= q);
                    assert(next@[pre_next.len() + jj]@ == q);
                }
            }
            assert forall|j1: int, j2: int|
                0 <= j1 < next@.len() && 0 <= j2 < next@.len() && j1 != j2 implies next@[j1]@
                != next@[j2]@ by {
                if j1 < pre_next.len() && j2 >= pre_next.len() {
                    let f2 = choose|f2: int|
                        0 <= f2 < fi && pre_next[j1]@.take(cur_len) == frontier@[f2]@;
                    assert(next@[j2]@.take(cur_len) =~= fv);
                } else if j2 < pre_next.len() && j1 >= pre_next.len() {
                    let f2 = choose|f2: int|
                        0 <= f2 < fi && pre_next[j2]@.take(cur_len) == frontier@[f2]@;
                    assert(next@[j1]@.take(cur_len) =~= fv);
                } else if j1 >= pre_next.len() && j2 >= pre_next.len() {
                    assert(lr_cps[j1 - pre_next.len()]@ != lr_cps[j2 - pre_next.len()]@);
                }
            }
        }
    }
    let ghost fo = objects@;
    let ghost fc = next@;
    let r = ListResult { common_prefixes: next, objects };
    proof {
        assert(r.objects@ == fo);
        assert(r.common_prefixes@ == fc);
        assert forall|k: Seq<Seq<char>>, f: int|
            #[trigger] storage.scope_has(k) && 0 <= f < frontier@.len() && direct_child(
                (#[trigger] frontier@[f])@,
                k,
            ) implies exists|j: int|
            0 <= j < r.objects@.len() && r.objects@[j].location@ == k by {
            let j = choose|j: int| 0 <= j < fo.len() && fo[j].location@ == k;
            assert(r.objects@[j].location@ == k);
        }
        assert forall|q: Seq<Seq<char>>|
            walk_dir(*storage, root, q) && q.len() == cur_len + 1 && (exists|f: int|
                0 <= f < frontier@.len() && #[trigger] q.take(cur_len) == frontier@[
                    f
                ]@) implies exists|j: int|
            0 <= j < r.common_prefixes@.len() && (#[trigger] r.common_prefixes@[j])@ == q by {
            let j = choose|j: int| 0 <= j < fc.len() && fc[j]@ == q;
            assert(r.common_prefixes@[j]@ == q);
        }
    }
    r
}

/// Lists the tree under `path`, one `list_with_delimiter` call per
/// directory per level. Without `recursive` this is a single level; with
/// it, every object strictly below `path` is reported exactly once, and
/// every directory-like grouping strictly below `path` appears once among
/// the common prefixes.
#[verifier::rlimit(100)]
pub fn walk_tree(storage: &PrefixObjectStore, path: &StorePath, recursive: bool) -> (r:
    ListResult)
    requires
        storage.inv(),
        path.wf(),
    ensures
        forall|j: int|
            0 <= j < r.objects@.len() ==> {
                let k = (#[trigger] r.objects@[j]).location@;
                &&& walk_leaf(*storage, path@, k)
                &&& r.objects@[j].location.wf()
                &&& r.objects@[j].size == storage.scope_data(k).len()
                &&& r.objects@[j].last_modified == storage.scope_mtime(k)
            },
        forall|j1: int, j2: int|
            0 <= j1 < r.objects@.len() && 0 <= j2 < r.objects@.len() && j1 != j2
                ==> r.objects@[j1].location@ != r.objects@[j2].location@,
        forall|j1: int, j2: int|
            0 <= j1 < r.common_prefixes@.len() && 0 <= j2 < r.common_prefixes@.len() && j1 != j2
                ==> r.common_prefixes@[j1]@ != r.common_prefixes@[j2]@,
        forall|j: int|
            0 <= j < r.common_prefixes@.len() ==> (#[trigger] r.common_prefixes@[j]).wf(),
        recursive ==> forall|k: Seq<Seq<char>>|
            #[trigger] walk_leaf(*storage, path@, k) ==> exists|j: int|
                0 <= j < r.objects@.len() && r.objects@[j].location@ == k,
        recursive ==> forall|q: Seq<Seq<char>>|
            #[trigger] walk_dir(*storage, path@, q) ==> exists|j: int|
                0 <= j < r.common_prefixes@.len() && (#[trigger] r.common_prefixes@[j])@ == q,
        recursive ==> forall|j: int|
            0 <= j < r.common_prefixes@.len() ==> walk_dir(
                *storage,
                path@,
                (#[trigger] r.common_prefixes@[j])@,
            ),
        !recursive ==> forall|k: Seq<Seq<char>>|
            #[trigger] storage.scope_has(k) && direct_child(path@, k) ==> exists|j: int|
                0 <= j < r.objects@.len() && r.objects@[j].location@ == k,
        !recursive ==> forall|j: int|
            0 <= j < r.objects@.len() ==> direct_child(
                path@,
                (#[trigger] r.objects@[j]).location@,
            ),
        !recursive ==> forall|j: int|
            0 <= j < r.common_prefixes@.len() ==> (#[trigger] r.common_prefixes@[j])@.len()
                == path@.len() + 1 && exists|k: Seq<Seq<char>>|
                storage.scope_has(k) && deep_child(path@, k) && r.common_prefixes@[j]@
                    == k.take(path@.len() + 1 as int),
        !recursive ==> forall|k: Seq<Seq<char>>|
            #[trigger] storage.scope_has(k) && deep_child(path@, k) ==> exists|j: int|
                0 <= j < r.common_prefixes@.len() && (#[trigger] r.common_prefixes@[j])@
                    == k.take(path@.len() + 1 as int),
{
    let first = storage.list_with_delimiter(Some(path));
    if !recursive {
        proof {
            let s = *storage;
            assert forall|j: int|
                0 <= j < first.objects@.len() implies walk_leaf(
                s,
                path@,
                (#[trigger] first.objects@[j]).location@,
            ) by {
                assert(direct_child(path@, first.objects@[j].location@));
            }
            assert forall|j: int|
                0 <= j < first.common_prefixes@.len() implies (#[trigger] first.common_prefixes@[
                j
            ]).wf() by {}
        }
        return first;
    }
    let ghost s = *storage;
    let ghost root = path@;
    let mut objects = first.objects;
    let mut frontier = first.common_prefixes;
    let mut acc_cps = dup_paths(&frontier);
    let ghost mut cur_len: int = root.len() + 1 as int;
    proof {
        assert forall|j: int|
            0 <= j < frontier@.len() implies (#[trigger] frontier@[j]).wf()
            && frontier@[j]@.len() == cur_len && walk_dir(s, root, frontier@[j]@) by {
            let rel = choose|rel: Seq<Seq<char>>|
                s.scope_has(rel) && deep_child(root, rel) && frontier@[j]@ == rel.take(
                    root.len() + 1 as int,
                );
            assert(is_prefix_of(frontier@[j]@, rel)) by {
                assert forall|i: int| 0 <= i < frontier@[j]@.len() implies rel[i]
                    == frontier@[j]@[i] by {
                    assert(frontier@[j]@[i] == rel.take(root.len() + 1 as int)[i]);
                }
            }
            assert(is_prefix_of(root, frontier@[j]@)) by {
                assert forall|i: int| 0 <= i < root.len() implies frontier@[j]@[i]
                    == root[i] by {
                    assert(frontier@[j]@[i] == rel.take(root.len() + 1 as int)[i]);
                    assert(rel[i] == root[i]);
                }
            }
        }
        assert forall|q: Seq<Seq<char>>|
            walk_dir(s, root, q) && q.len() == cur_len implies exists|f: int|
            0 <= f < frontier@.len() && (#[trigger] frontier@[f])@ == q by {
            let k = choose|k: Seq<Seq<char>>|
                s.scope_has(k) && is_prefix_of(q, k) && k.len() > q.len();
            assert(deep_child(root, k)) by {
                assert forall|i: int| 0 <= i < root.len() implies k[i] == root[i] by {
                    assert(k[i] == q[i]);
                }
            }
            let f = choose|f: int|
                0 <= f < frontier@.len() && (#[trigger] frontier@[f])@ == k.take(
                    root.len() + 1 as int,
                );
            assert(k.take(root.len() + 1 as int) =~= q);
        }
        assert forall|j: int|
            0 <= j < objects@.len() implies {
            let k = (#[trigger] objects@[j]).location@;
            walk_leaf(s, root, k) && k.len() <= cur_len
        } by {
            assert(direct_child(root, objects@[j].location@));
        }
        assert forall|k: Seq<Seq<char>>|
            #[trigger] walk_leaf(s, root, k) && k.len() <= cur_len implies exists|j: int|
            0 <= j < objects@.len() && objects@[j].location@ == k by {
            assert(direct_child(root, k));
        }
        assert forall|q: Seq<Seq<char>>|
            walk_dir(s, root, q) && q.len() <= cur_len implies exists|j: int|
            0 <= j < acc_cps@.len() && (#[trigger] acc_cps@[j])@ == q by {
            let f = choose|f: int| 0 <= f < frontier@.len() && (#[trigger] frontier@[f])@ == q;
            assert(acc_cps@[f]@ == q);
        }
    }
    while frontier.len() > 0
        invariant
            storage.inv(),
            s == *storage,
            root == path@,
            root.len() < cur_len,
            forall|j: int|
                0 <= j < frontier@.len() ==> (#[trigger] frontier@[j]).wf()
                    && frontier@[j]@.len() == cur_len && walk_dir(s, root, frontier@[j]@),
            forall|j1: int, j2: int|
                0 <= j1 < frontier@.len() && 0 <= j2 < frontier@.len() && j1 != j2
                    ==> frontier@[j1]@ != frontier@[j2]@,
            forall|q: Seq<Seq<char>>|
                walk_dir(s, root, q) && q.len() == cur_len ==> exists|f: int|
                    0 <= f < frontier@.len() && (#[trigger] frontier@[f])@ == q,
            forall|j: int|
                0 <= j < objects@.len() ==> {
                    let k = (#[trigger] objects@[j]).location@;
                    &&& walk_leaf(s, root, k)
                    &&& k.len() <= cur_len
                    &&& objects@[j].location.wf()
                    &&& objects@[j].size == s.scope_data(k).len()
                    &&& objects@[j].last_modified == s.scope_mtime(k)
                },
            forall|k: Seq<Seq<char>>|
                #[trigger] walk_leaf(s, root, k) && k.len() <= cur_len ==> exists|j: int|
                    0 <= j < objects@.len() && objects@[j].location@ == k,
            forall|j1: int, j2: int|
                0 <= j1 < objects@.len() && 0 <= j2 < objects@.len() && j1 != j2 ==> objects@[
                    j1
                ].location@ != objects@[j2].location@,
            forall|j: int|
                0 <= j < acc_cps@.len() ==> (#[trigger] acc_cps@[j]).wf() && walk_dir(
                    s,
                    root,
                    acc_cps@[j]@,
                ) && acc_cps@[j]@.len() <= cur_len,
            forall|q: Seq<Seq<char>>|
                walk_dir(s, root, q) && q.len() <= cur_len ==> exists|j: int|
                    0 <= j < acc_cps@.len() && (#[trigger] acc_cps@[j])@ == q,
            forall|j1: int, j2: int|
                0 <= j1 < acc_cps@.len() && 0 <= j2 < acc_cps@.len() && j1 != j2 ==> acc_cps@[
                    j1
                ]@ != acc_cps@[j2]@,
        decreases s.inner_store().max_loc_len() + 2 - cur_len,
    {
        proof {
            let q0 = frontier@[0]@;
            let k0 = choose|k: Seq<Seq<char>>|
                s.scope_has(k) && is_prefix_of(q0, k) && k.len() > q0.len();
            s.lemma_scope_key_len_bounded(k0);
        }
        let lr = expand_level(storage, &frontier, Ghost(root), Ghost(cur_len));
        let ListResult { common_prefixes: next, objects: mut lvl_objs } = lr;
        let ghost pre_objects = objects@;
        let ghost lvl = lvl_objs@;
        objects.append(&mut lvl_objs);
        let mut next_copy = dup_paths(&next);
        let ghost pre_acc = acc_cps@;
        let ghost nextv = next@;
        acc_cps.append(&mut next_copy);
        let ghost pre_frontier = frontier@;
        frontier = next;
        proof {
            cur_len = cur_len + 1;
            // objects: soundness carries over; new entries sit one level deeper
            assert(objects@ == pre_objects + lvl);
            assert forall|k: Seq<Seq<char>>|
                #[trigger] walk_leaf(s, root, k) && k.len() <= cur_len implies exists|j: int|
                0 <= j < objects@.len() && objects@[j].location@ == k by {
                if k.len() <= cur_len - 1 {
                    let j = choose|j: int|
                        0 <= j < pre_objects.len() && pre_objects[j].location@ == k;
                    assert(objects@[j].location@ == k);
                } else {
                    let q = k.take(cur_len - 1);
                    assert(walk_dir(s, root, q)) by {
                        assert(is_prefix_of(q, k)) by {
                            assert(forall|i: int| 0 <= i < q.len() ==> k[i] == q[i]);
                        }
                        assert(is_prefix_of(root, q)) by {
                            assert forall|i: int| 0 <= i < root.len() implies q[i]
                                == root[i] by {
                                assert(q[i] == k[i]);
                            }
                        }
                    }
                    let f = choose|f: int|
                        0 <= f < pre_frontier.len() && (#[trigger] pre_frontier[f])@ == q;
                    assert(direct_child(pre_frontier[f]@, k)) by {
                        assert(forall|i: int| 0 <= i < q.len() ==> k[i] == q[i]);
                    }
                    let j = choose|j: int| 0 <= j < lvl.len() && lvl[j].location@ == k;
                    assert(objects@[pre_objects.len() + j].location@ == k);
                }
            }
            assert forall|j1: int, j2: int|
                0 <= j1 < objects@.len() && 0 <= j2 < objects@.len() && j1 != j2 implies objects@[
                j1
            ].location@ != objects@[j2].location@ by {
                if j1 < pre_objects.len() && j2 >= pre_objects.len() {
                    assert(objects@[j1].location@.len() <= cur_len - 1);
                    assert(objects@[j2].location@.len() == cur_len);
                } else if j2 < pre_objects.len() && j1 >= pre_objects.len() {
                    assert(objects@[j2].location@.len() <= cur_len - 1);
                    assert(objects@[j1].location@.len() == cur_len);
                } else if j1 >= pre_objects.len() && j2 >= pre_objects.len() {
                    assert(lvl[j1 - pre_objects.len()].location@ != lvl[j2
                        - pre_objects.len()].location@);
                }
            }
            // the new frontier is complete for directories one level deeper
            assert forall|q: Seq<Seq<char>>|
                walk_dir(s, root, q) && q.len() == cur_len implies exists|f: int|
                0 <= f < frontier@.len() && (#[trigger] frontier@[f])@ == q by {
                let parent = q.take(cur_len - 1);
                let k = choose|k: Seq<Seq<char>>|
                    s.scope_has(k) && is_prefix_of(q, k) && k.len() > q.len();
                assert(walk_dir(s, root, parent)) by {
                    assert(is_prefix_of(parent, k)) by {
                        assert forall|i: int| 0 <= i < parent.len() implies k[i]
                            == parent[i] by {
                            assert(parent[i] == q[i]);
                        }
                    }
                    assert(is_prefix_of(root, parent)) by {
                        assert forall|i: int| 0 <= i < root.len() implies parent[i]
                            == root[i] by {
                            assert(parent[i] == q[i]);
                        }
                    }
                    assert(k.len() > parent.len());
                }
                let f0 = choose|f: int|
                    0 <= f < pre_frontier.len() && (#[trigger] pre_frontier[f])@ == parent;
                assert(exists|f: int|
                    0 <= f < pre_frontier.len() && q.take(cur_len - 1) == pre_frontier[f]@);
                let j = choose|j: int| 0 <= j < nextv.len() && (#[trigger] nextv[j])@ == q;
                assert(frontier@[j]@ == q);
            }
            // accumulated directories: the new level's entries join the set
            assert(acc_cps@.len() == pre_acc.len() + nextv.len());
            assert(forall|j: int| 0 <= j < pre_acc.len() ==> acc_cps@[j] == pre_acc[j]);
            assert(forall|j: int|
                0 <= j < nextv.len() ==> (#[trigger] acc_cps@[pre_acc.len() + j])@ == nextv[
                    j
                ]@);
            assert forall|q: Seq<Seq<char>>|
                walk_dir(s, root, q) && q.len() <= cur_len implies exists|j: int|
                0 <= j < acc_cps@.len() && (#[trigger] acc_cps@[j])@ == q by {
                if q.len() <= cur_len - 1 {
                    let j = choose|j: int| 0 <= j < pre_acc.len() && (pre_acc[j])@ == q;
                    assert(acc_cps@[j]@ == q);
                } else {
                    let j = choose|j: int|
                        0 <= j < frontier@.len() && (#[trigger] frontier@[j])@ == q;
                    assert(acc_cps@[pre_acc.len() + j]@ == q);
                }
            }
            assert forall|j1: int, j2: int|
                0 <= j1 < acc_cps@.len() && 0 <= j2 < acc_cps@.len() && j1 != j2 implies acc_cps@[
                j1
            ]@ != acc_cps@[j2]@ by {
                if j1 < pre_acc.len() && j2 >= pre_acc.len() {
                    assert(acc_cps@[j1]@.len() <= cur_len - 1);
                    assert(acc_cps@[j2]@.len() == cur_len);
                } else if j2 < pre_acc.len() && j1 >= pre_acc.len() {
                    assert(acc_cps@[j2]@.len() <= cur_len - 1);
                    assert(acc_cps@[j1]@.len() == cur_len);
                } else if j1 >= pre_acc.len() && j2 >= pre_acc.len() {
                    assert(nextv[j1 - pre_acc.len()]@ != nextv[j2 - pre_acc.len()]@);
                }
            }
        }
    }
    proof {
        // an empty frontier means nothing lies deeper than the level reached
        assert forall|k: Seq<Seq<char>>| #[trigger] walk_leaf(s, root, k) implies exists|j: int|
            0 <= j < objects@.len() && objects@[j].location@ == k by {
            if k.len() > cur_len {
                let q = k.take(cur_len);
                assert(walk_dir(s, root, q)) by {
                    assert(is_prefix_of(q, k)) by {
                        assert(forall|i: int| 0 <= i < q.len() ==> k[i] == q[i]);
                    }
                    assert(is_prefix_of(root, q)) by {
                        assert forall|i: int| 0 <= i < root.len() implies q[i] == root[i] by {
                            assert(q[i] == k[i]);
                        }
                    }
                }
                assert(false);
            }
        }
        assert forall|q: Seq<Seq<char>>| #[trigger] walk_dir(s, root, q) implies exists|j: int|
            0 <= j < acc_cps@.len() && (#[trigger] acc_cps@[j])@ == q by {
            if q.len() > cur_len {
                let qq = q.take(cur_len);
                let k = choose|k: Seq<Seq<char>>|
                    s.scope_has(k) && is_prefix_of(q, k) && k.len() > q.len();
                assert(walk_dir(s, root, qq)) by {
                    assert(is_prefix_of(qq, k)) by {
                        assert forall|i: int| 0 <= i < qq.len() implies k[i] == qq[i] by {
                            assert(qq[i] == q[i]);
                        }
                    }
                    assert(is_prefix_of(root, qq)) by {
                        assert forall|i: int| 0 <= i < root.len() implies qq[i] == root[i] by {
                            assert(qq[i] == q[i]);
                        }
                    }
                    assert(k.len() > qq.len());
                }
                assert(false);
            }
        }
    }
    let ghost fo = objects@;
    let ghost fc = acc_cps@;
    let r = ListResult { common_prefixes: acc_cps, objects };
    proof {
        assert(r.objects@ == fo);
        assert(r.common_prefixes@ == fc);
        assert forall|k: Seq<Seq<char>>| #[trigger] walk_leaf(*storage, path@, k) implies exists|
            j: int,
        |
            0 <= j < r.objects@.len() && r.objects@[j].location@ == k by {
            let j = choose|j: int| 0 <= j < fo.len() && fo[j].location@ == k;
            assert(r.objects@[j].location@ == k);
        }
        assert forall|q: Seq<Seq<char>>| #[trigger] walk_dir(*storage, path@, q) implies exists|
            j: int,
        |
            0 <= j < r.common_prefixes@.len() && (#[trigger] r.common_prefixes@[j])@ == q by {
            let j = choose|j: int| 0 <= j < fc.len() && (fc[j])@ == q;
            assert(r.common_prefixes@[j]@ == q);
        }
    }
    r
}

/// Deletes every object under `prefix`, one delete per member: object
/// stores have no batch delete.
pub fn delete_dir(storage: &mut PrefixObjectStore, prefix: &StorePath) -> (r: Result<
    (),
    StorageError,
>)
    requires
        old(storage).inv(),
        prefix.wf(),
    ensures
        final(storage).inv(),
        final(storage).prefix_view() == old(storage).prefix_view(),
        r is Ok,
        forall|k: Seq<Seq<char>>|
            is_prefix_of(prefix@, k) ==> !final(storage).scope_has(k),
        forall|k: Seq<Seq<char>>|
            !is_prefix_of(prefix@, k) ==> final(storage).scope_has(k) == old(storage).scope_has(k),
        forall|k: Seq<Seq<char>>|
            !is_prefix_of(prefix@, k) && old(storage).scope_has(k) ==> final(storage).scope_data(k) == old(storage).scope_data(k),
{
    let metas = storage.list(Some(prefix));
    let n = metas.len();
    for i in 0..n
        invariant
            n == metas@.len(),
            storage.inv(),
            storage.prefix_view() == old(storage).prefix_view(),
            forall|j: int|
                0 <= j < n ==> (#[trigger] metas@[j]).location.wf() && is_prefix_of(
                    prefix@,
                    metas@[j].location@,
                ),
            forall|j: int|
                0 <= j < i ==> !storage.scope_has((#[trigger] metas@[j]).location@),
            forall|k: Seq<Seq<char>>|
                old(storage).scope_has(k) && !(exists|j: int|
                    0 <= j < i && (#[trigger] metas@[j]).location@ == k)
                    ==> storage.scope_has(k) && storage.scope_data(k) == old(storage).scope_data(k),
            forall|k: Seq<Seq<char>>|
                storage.scope_has(k) ==> old(storage).scope_has(k),
    {
        match storage.delete(&metas[i].location) {
            _ => {},
        }
        proof {
            assert forall|j: int|
                0 <= j < i + 1 implies !storage.scope_has(
                (#[trigger] metas@[j]).location@,
            ) by {}
        }
    }
    proof {
        assert forall|k: Seq<Seq<char>>|
            is_prefix_of(prefix@, k) implies !storage.scope_has(k) by {
            if storage.scope_has(k) {
                assert(old(storage).scope_has(k));
                let j = choose|j: int|
                    0 <= j < metas@.len() && (#[trigger] metas@[j]).location@ == k;
                assert(!storage.scope_has(metas@[j].location@));
            }
        }
    }
    Ok(())
}

/// The whole object at `path`, as bytes.
pub fn get_bytes(storage: &PrefixObjectStore, path: &StorePath) -> (r: Result<
    Vec<u8>,
    StorageError,
>)
    requires
        storage.inv(),
    ensures
        r is Ok <==> storage.scope_has(path@),
        r matches Ok(data) ==> data@ == storage.scope_data(path@),
        r matches Err(e) ==> e matches StorageError::NotFound { .. },
{
    storage.get(path)
}

} // verus!
