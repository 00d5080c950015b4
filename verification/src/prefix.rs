//! The prefix-scoping adapter: carves one logical root out of a shared
//! backend. Every path argument is rewritten with the scope's prefix on the
//! way in, and every returned location is rewritten back on the way out, so
//! the scoped root behaves like an independent store rooted at the empty
//! path. Objects outside the prefix are invisible to the scope.

use vstd::prelude::*;

use crate::error::StorageError;
use crate::memory::direct_child;
use crate::memory::deep_child;
use crate::memory::InMemoryStore;
use crate::memory::ListResult;
use crate::memory::ObjectMetadata;
use crate::memory::SessionState;
use crate::path::is_prefix_of;
use crate::path::StorePath;

verus! {

/// The prefix a listing call asks about: an explicit path, or the scope
/// root when none is given.
pub open spec fn arg_view(prefix: Option<&StorePath>) -> Seq<Seq<char>> {
    match prefix {
        Some(p) => p@,
        None => Seq::empty(),
    }
}

/// Splits a key below `p + a` into the scope prefix `p` and the
/// scope-relative remainder, which still lies below `a`.
proof fn lemma_skip_under(p: Seq<Seq<char>>, a: Seq<Seq<char>>, k: Seq<Seq<char>>)
    requires
        is_prefix_of(p + a, k),
    ensures
        is_prefix_of(p, k),
        is_prefix_of(a, k.skip(p.len() as int)),
        p + k.skip(p.len() as int) == k,
        k.skip(p.len() as int).len() == k.len() - p.len(),
{
    assert(p + k.skip(p.len() as int) =~= k);
}

/// A key below `a`, joined under `p`, lies below `p + a`.
proof fn lemma_join_under(p: Seq<Seq<char>>, a: Seq<Seq<char>>, rel: Seq<Seq<char>>)
    requires
        is_prefix_of(a, rel),
    ensures
        is_prefix_of(p + a, p + rel),
        (p + rel).skip(p.len() as int) == rel,
{
    assert((p + rel).skip(p.len() as int) =~= rel);
}

/// Taking a group prefix commutes with stripping the scope prefix.
proof fn lemma_take_skip(k: Seq<Seq<char>>, p_len: int, m: int)
    requires
        0 <= p_len,
        0 <= m,
        p_len + m <= k.len(),
    ensures
        k.take(p_len + m).skip(p_len) == k.skip(p_len).take(m),
{
    assert(k.take(p_len + m).skip(p_len) =~= k.skip(p_len).take(m));
}

/// A listed common prefix groups at least one visible object that lies
/// more than one segment below `a`.
pub open spec fn common_prefix_entry_sound(
    s: PrefixObjectStore,
    a: Seq<Seq<char>>,
    cp: StorePath,
) -> bool {
    exists|rel: Seq<Seq<char>>|
        s.scope_has(rel) && deep_child(a, rel) && cp@ == rel.take(a.len() + 1 as int)
}


/// Lifts the objects half of a delimiter listing from full backend keys to
/// scope-relative paths.
proof fn lemma_scope_objects(
    s: PrefixObjectStore,
    a: Seq<Seq<char>>,
    base: Seq<Seq<char>>,
    go: Seq<ObjectMetadata>,
    fo: Seq<ObjectMetadata>,
)
    requires
        base == s.prefix_view() + a,
        forall|jj: int|
            0 <= jj < go.len() ==> {
                let k = (#[trigger] go[jj]).location@;
                &&& s.inner_store().has_object(k)
                &&& direct_child(base, k)
                &&& go[jj].location.wf()
                &&& go[jj].size == s.inner_store().object_data(k).len()
                &&& go[jj].last_modified == s.inner_store().object_mtime(k)
            },
        forall|j1: int, j2: int|
            0 <= j1 < go.len() && 0 <= j2 < go.len() && j1 != j2 ==> go[j1].location@ != go[
                j2
            ].location@,
        forall|k: Seq<Seq<char>>|
            #[trigger] s.inner_store().has_object(k) && direct_child(base, k) ==> exists|
                jj: int,
            |
                0 <= jj < go.len() && go[jj].location@ == k,
        fo.len() == go.len(),
        forall|jj: int|
            0 <= jj < fo.len() ==> (#[trigger] fo[jj]).location@ == go[jj].location@.skip(
                s.prefix_view().len() as int,
            ) && fo[jj].size == go[jj].size && fo[jj].last_modified == go[jj].last_modified
                && fo[jj].location.wf(),
    ensures
        forall|j: int|
            0 <= j < fo.len() ==> {
                let rel = (#[trigger] fo[j]).location@;
                &&& s.scope_has(rel)
                &&& direct_child(a, rel)
                &&& fo[j].location.wf()
                &&& fo[j].size == s.scope_data(rel).len()
                &&& fo[j].last_modified == s.scope_mtime(rel)
            },
        forall|rel: Seq<Seq<char>>|
            #[trigger] s.scope_has(rel) && direct_child(a, rel) ==> exists|j: int|
                0 <= j < fo.len() && fo[j].location@ == rel,
        forall|j1: int, j2: int|
            0 <= j1 < fo.len() && 0 <= j2 < fo.len() && j1 != j2 ==> fo[j1].location@ != fo[
                j2
            ].location@,
{
    let p = s.prefix_view();
    assert forall|j: int|
        0 <= j < fo.len() implies {
        let rel = (#[trigger] fo[j]).location@;
        &&& s.scope_has(rel)
        &&& direct_child(a, rel)
        &&& fo[j].location.wf()
        &&& fo[j].size == s.scope_data(rel).len()
        &&& fo[j].last_modified == s.scope_mtime(rel)
    } by {
        let k = go[j].location@;
        lemma_skip_under(p, a, k);
        assert(s.full_key(fo[j].location@) == k);
    }
    assert forall|rel: Seq<Seq<char>>|
        #[trigger] s.scope_has(rel) && direct_child(a, rel) implies exists|j: int|
        0 <= j < fo.len() && fo[j].location@ == rel by {
        lemma_join_under(p, a, rel);
        let full = s.full_key(rel);
        assert(s.inner_store().has_object(full) && direct_child(base, full));
        let jj = choose|jj: int| 0 <= jj < go.len() && go[jj].location@ == full;
        assert(fo[jj].location@ == rel);
    }
    assert forall|j1: int, j2: int|
        0 <= j1 < fo.len() && 0 <= j2 < fo.len() && j1 != j2 implies fo[j1].location@ != fo[
        j2
    ].location@ by {
        lemma_skip_under(p, a, go[j1].location@);
        lemma_skip_under(p, a, go[j2].location@);
    }
}

/// Lifts the common-prefix half of a delimiter listing from full backend
/// keys to scope-relative paths.
proof fn lemma_scope_common_prefixes(
    s: PrefixObjectStore,
    a: Seq<Seq<char>>,
    base: Seq<Seq<char>>,
    gc: Seq<StorePath>,
    fc: Seq<StorePath>,
)
    requires
        base == s.prefix_view() + a,
        forall|jj: int|
            0 <= jj < gc.len() ==> (#[trigger] gc[jj]).wf() && gc[jj]@.len() == base.len() + 1
                && exists|k: Seq<Seq<char>>|
                s.inner_store().has_object(k) && deep_child(base, k) && gc[jj]@ == k.take(
                    base.len() + 1 as int,
                ),
        forall|j1: int, j2: int|
            0 <= j1 < gc.len() && 0 <= j2 < gc.len() && j1 != j2 ==> gc[j1]@ != gc[j2]@,
        forall|k: Seq<Seq<char>>|
            #[trigger] s.inner_store().has_object(k) && deep_child(base, k) ==> exists|jj: int|
                0 <= jj < gc.len() && gc[jj]@ == k.take(base.len() + 1 as int),
        fc.len() == gc.len(),
        forall|jj: int|
            0 <= jj < fc.len() ==> (#[trigger] fc[jj])@ == gc[jj]@.skip(
                s.prefix_view().len() as int,
            ) && fc[jj].wf(),
    ensures
        forall|j: int|
            0 <= j < fc.len() ==> (#[trigger] fc[j]).wf() && common_prefix_entry_sound(
                s,
                a,
                fc[j],
            ),
        forall|rel: Seq<Seq<char>>|
            #[trigger] s.scope_has(rel) && deep_child(a, rel) ==> exists|j: int|
                0 <= j < fc.len() && fc[j]@ == rel.take(a.len() + 1 as int),
        forall|j1: int, j2: int|
            0 <= j1 < fc.len() && 0 <= j2 < fc.len() && j1 != j2 ==> fc[j1]@ != fc[j2]@,
{
    let p = s.prefix_view();
    assert forall|j: int|
        0 <= j < fc.len() implies (#[trigger] fc[j]).wf() && common_prefix_entry_sound(
        s,
        a,
        fc[j],
    ) by {
        let k = choose|k: Seq<Seq<char>>|
            s.inner_store().has_object(k) && deep_child(base, k) && gc[j]@ == k.take(
                base.len() + 1 as int,
            );
        lemma_skip_under(p, a, k);
        let rel = k.skip(p.len() as int);
        lemma_take_skip(k, p.len() as int, a.len() + 1 as int);
        assert(s.full_key(rel) =~= k);
        assert(s.scope_has(rel) && deep_child(a, rel));
        assert(fc[j]@ == rel.take(a.len() + 1 as int));
    }
    assert forall|rel: Seq<Seq<char>>|
        #[trigger] s.scope_has(rel) && deep_child(a, rel) implies exists|j: int|
        0 <= j < fc.len() && fc[j]@ == rel.take(a.len() + 1 as int) by {
        lemma_join_under(p, a, rel);
        let full = s.full_key(rel);
        assert(s.inner_store().has_object(full) && deep_child(base, full));
        let jj = choose|jj: int| 0 <= jj < gc.len() && gc[jj]@ == full.take(base.len() + 1 as int);
        lemma_take_skip(full, p.len() as int, a.len() + 1 as int);
        assert(full.skip(p.len() as int) == rel);
        assert(fc[jj]@ == rel.take(a.len() + 1 as int));
    }
    assert forall|j1: int, j2: int|
        0 <= j1 < fc.len() && 0 <= j2 < fc.len() && j1 != j2 implies fc[j1]@ != fc[j2]@ by {
        let k1 = choose|k: Seq<Seq<char>>|
            s.inner_store().has_object(k) && deep_child(base, k) && gc[j1]@ == k.take(
                base.len() + 1 as int,
            );
        let k2 = choose|k: Seq<Seq<char>>|
            s.inner_store().has_object(k) && deep_child(base, k) && gc[j2]@ == k.take(
                base.len() + 1 as int,
            );
        assert forall|i: int| 0 <= i < p.len() implies gc[j1]@[i] == p[i] && gc[j2]@[i]
            == p[i] by {
            assert(k1.take(base.len() + 1 as int)[i] == k1[i]);
            assert(k2.take(base.len() + 1 as int)[i] == k2[i]);
            assert(base[i] == p[i]);
        }
        assert(p + gc[j1]@.skip(p.len() as int) =~= gc[j1]@);
        assert(p + gc[j2]@.skip(p.len() as int) =~= gc[j2]@);
    }
}

/// A backend store wrapped with a fixed path prefix.
pub struct PrefixObjectStore {
    prefix: StorePath,
    inner: InMemoryStore,
}

impl PrefixObjectStore {
    /// The scope's own prefix, as segments.
    pub closed spec fn prefix_view(self) -> Seq<Seq<char>> {
        self.prefix@
    }

    /// The wrapped backend store.
    pub closed spec fn inner_store(self) -> InMemoryStore {
        self.inner
    }

    /// The prefix is well-formed and the wrapped store holds its invariant.
    pub closed spec fn inv(self) -> bool {
        self.prefix.wf() && self.inner.inv()
    }

    /// The full backend key a scope-relative path stands for.
    pub open spec fn full_key(self, rel: Seq<Seq<char>>) -> Seq<Seq<char>> {
        self.prefix_view() + rel
    }

    /// An object is visible at this scope-relative path.
    pub open spec fn scope_has(self, rel: Seq<Seq<char>>) -> bool {
        self.inner_store().has_object(self.full_key(rel))
    }

    /// The bytes visible at this scope-relative path.
    pub open spec fn scope_data(self, rel: Seq<Seq<char>>) -> Seq<u8> {
        self.inner_store().object_data(self.full_key(rel))
    }

    /// The timestamp of the object at this scope-relative path.
    pub open spec fn scope_mtime(self, rel: Seq<Seq<char>>) -> u64 {
        self.inner_store().object_mtime(self.full_key(rel))
    }

    /// Visible objects live in real buffers, so their lengths fit a
    /// machine word.
    pub proof fn lemma_scope_data_fits(self, rel: Seq<Seq<char>>)
        requires
            self.inv(),
            self.scope_has(rel),
        ensures
            self.scope_data(rel).len() <= usize::MAX,
    {
        self.inner_store().lemma_object_data_fits(self.full_key(rel));
    }

    /// No visible object lies deeper than the backend's longest location.
    pub proof fn lemma_scope_key_len_bounded(self, rel: Seq<Seq<char>>)
        requires
            self.scope_has(rel),
        ensures
            self.prefix_view().len() + rel.len() <= self.inner_store().max_loc_len(),
    {
        self.inner_store().lemma_loc_len_bounded(self.full_key(rel));
    }

    /// The scope translates paths but owns no objects of its own: two
    /// scope-relative paths name the same object only if they are equal.
    pub proof fn lemma_full_key_injective(self, a: Seq<Seq<char>>, b: Seq<Seq<char>>)
        requires
            self.full_key(a) == self.full_key(b),
        ensures
            a == b,
    {
        let p = self.prefix_view();
        assert(a =~= (p + a).skip(p.len() as int));
        assert(b =~= (p + b).skip(p.len() as int));
    }

    /// Creates a scope rooted at `prefix` over the given store.
    pub fn new(prefix: StorePath, store: InMemoryStore) -> (r: PrefixObjectStore)
        requires
            prefix.wf(),
            store.inv(),
        ensures
            r.inv(),
            r.prefix_view() == prefix@,
            r.inner_store() == store,
    {
        PrefixObjectStore { prefix, inner: store }
    }

    /// Rewrites a scope-relative path into its full backend path.
    pub fn full_path(&self, location: &StorePath) -> (r: StorePath)
        ensures
            r@ == self.full_key(location@),
            self.inv() && location.wf() ==> r.wf(),
    {
        self.prefix.join(location)
    }

    /// Rewrites a full backend path back into the scope, or `None` for a
    /// path outside the scope's prefix: such an object is foreign and is
    /// dropped from every listing and aggregate result.
    pub fn strip_prefix(&self, path: &StorePath) -> (r: Option<StorePath>)
        ensures
            r is Some <==> is_prefix_of(self.prefix_view(), path@),
            r matches Some(rest) ==> rest@ == path@.skip(self.prefix_view().len() as int)
                && path@ == self.full_key(rest@),
            r matches Some(rest) ==> (path.wf() ==> rest.wf()),
    {
        let r = path.strip_prefix_of(&self.prefix);
        proof {
            if r is Some {
                let rest = r->Some_0;
                assert(self.full_key(rest@) =~= path@);
            }
        }
        r
    }

    /// Saves the provided bytes at the scoped location, replacing any
    /// object already there.
    pub fn put(&mut self, location: &StorePath, bytes: Vec<u8>) -> (r: Result<
        (),
        StorageError,
    >)
        requires
            old(self).inv(),
            location.wf(),
        ensures
            final(self).inv(),
            final(self).prefix_view() == old(self).prefix_view(),
            r is Ok,
            final(self).scope_has(location@),
            final(self).scope_data(location@) == bytes@,
            forall|rel: Seq<Seq<char>>|
                rel != location@ ==> final(self).scope_has(rel) == old(self).scope_has(rel),
            forall|rel: Seq<Seq<char>>|
                rel != location@ && old(self).scope_has(rel) ==> final(self).scope_data(rel)
                    == old(self).scope_data(rel),
            forall|k: Seq<Seq<char>>|
                k != old(self).full_key(location@) ==> final(self).inner_store().has_object(k)
                    == old(self).inner_store().has_object(k),
            final(self).inner_store().session_count() == old(self).inner_store().session_count(),
            forall|id: int|
                0 <= id < old(self).inner_store().session_count() ==> final(self).inner_store().session_state(id) == old(self).inner_store().session_state(id)
                    && final(self).inner_store().session_location(id) == old(self).inner_store().session_location(id) && final(self).inner_store().session_parts(id) == old(self).inner_store().session_parts(
                    id,
                ),
    {
        let full = self.full_path(location);
        let r = self.inner.put(&full, bytes);
        proof {
            assert forall|rel: Seq<Seq<char>>| rel != location@ implies final(self).scope_has(
                rel,
            ) == old(self).scope_has(rel) && (old(self).scope_has(rel) ==> final(self).scope_data(rel) == old(self).scope_data(rel)) by {
                if self.full_key(rel) == self.full_key(location@) {
                    self.lemma_full_key_injective(rel, location@);
                }
            }
        }
        r
    }

    /// The bytes stored at the scoped location.
    pub fn get(&self, location: &StorePath) -> (r: Result<Vec<u8>, StorageError>)
        requires
            self.inv(),
        ensures
            r is Ok <==> self.scope_has(location@),
            r matches Ok(data) ==> data@ == self.scope_data(location@),
            r matches Err(e) ==> e matches StorageError::NotFound { .. },
    {
        let full = self.full_path(location);
        self.inner.get(&full)
    }

    /// The bytes in `[start, end)` of the object at the scoped location.
    pub fn get_range(&self, location: &StorePath, start: usize, end: usize) -> (r: Result<
        Vec<u8>,
        StorageError,
    >)
        requires
            self.inv(),
        ensures
            r is Ok <==> self.scope_has(location@) && start <= end <= self.scope_data(
                location@,
            ).len(),
            r matches Ok(data) ==> data@ == self.scope_data(location@).subrange(
                start as int,
                end as int,
            ),
            !self.scope_has(location@) ==> r matches Err(StorageError::NotFound { .. }),
    {
        let full = self.full_path(location);
        self.inner.get_range(&full, start, end)
    }

    /// Size and timestamp of the object at the scoped location. The
    /// returned location is rewritten back to the scope-relative path.
    pub fn head(&self, location: &StorePath) -> (r: Result<ObjectMetadata, StorageError>)
        requires
            self.inv(),
            location.wf(),
        ensures
            r is Ok <==> self.scope_has(location@),
            r matches Ok(meta) ==> meta.location@ == location@ && meta.size == self.scope_data(
                location@,
            ).len() && meta.last_modified == self.scope_mtime(location@),
            r matches Err(e) ==> e matches StorageError::NotFound { .. },
    {
        let full = self.full_path(location);
        match self.inner.head(&full) {
            Ok(meta) => {
                let rel = match self.strip_prefix(&meta.location) {
                    Some(rel) => rel,
                    None => meta.location,
                };
                Ok(ObjectMetadata {
                    location: rel,
                    size: meta.size,
                    last_modified: meta.last_modified,
                })
            },
            Err(e) => Err(e),
        }
    }

    /// Removes the object at the scoped location.
    pub fn delete(&mut self, location: &StorePath) -> (r: Result<(), StorageError>)
        requires
            old(self).inv(),
            location.wf(),
        ensures
            final(self).inv(),
            final(self).prefix_view() == old(self).prefix_view(),
            r is Ok <==> old(self).scope_has(location@),
            r matches Err(e) ==> e matches StorageError::NotFound { .. },
            r is Err ==> *final(self) == *old(self),
            !final(self).scope_has(location@),
            forall|rel: Seq<Seq<char>>|
                rel != location@ ==> final(self).scope_has(rel) == old(self).scope_has(rel),
            forall|rel: Seq<Seq<char>>|
                rel != location@ && old(self).scope_has(rel) ==> final(self).scope_data(rel)
                    == old(self).scope_data(rel),
            final(self).inner_store().session_count() == old(self).inner_store().session_count(),
            forall|id: int|
                0 <= id < old(self).inner_store().session_count() ==> final(self).inner_store().session_state(id) == old(self).inner_store().session_state(id)
                    && final(self).inner_store().session_location(id) == old(self).inner_store().session_location(id) && final(self).inner_store().session_parts(id) == old(self).inner_store().session_parts(
                    id,
                ),
    {
        let full = self.full_path(location);
        let r = self.inner.delete(&full);
        proof {
            assert forall|rel: Seq<Seq<char>>| rel != location@ implies final(self).scope_has(
                rel,
            ) == old(self).scope_has(rel) && (old(self).scope_has(rel) ==> final(self).scope_data(rel) == old(self).scope_data(rel)) by {
                if self.full_key(rel) == self.full_key(location@) {
                    self.lemma_full_key_injective(rel, location@);
                }
            }
        }
        r
    }

    /// Copies the object at `from` to `to` inside the scope, overwriting
    /// any object at the destination.
    pub fn copy(&mut self, from: &StorePath, to: &StorePath) -> (r: Result<(), StorageError>)
        requires
            old(self).inv(),
            from.wf(),
            to.wf(),
        ensures
            final(self).inv(),
            final(self).prefix_view() == old(self).prefix_view(),
            r is Ok <==> old(self).scope_has(from@),
            r is Err ==> *final(self) == *old(self) && r matches Err(
                StorageError::NotFound { .. },
            ),
            r is Ok ==> final(self).scope_has(to@) && final(self).scope_data(to@) == old(self).scope_data(from@),
            forall|rel: Seq<Seq<char>>|
                rel != to@ ==> final(self).scope_has(rel) == old(self).scope_has(rel),
            forall|rel: Seq<Seq<char>>|
                rel != to@ && old(self).scope_has(rel) ==> final(self).scope_data(rel) == old(self).scope_data(rel),
    {
        let full_from = self.full_path(from);
        let full_to = self.full_path(to);
        let r = self.inner.copy(&full_from, &full_to);
        proof {
            assert forall|rel: Seq<Seq<char>>| rel != to@ implies final(self).scope_has(rel)
                == old(self).scope_has(rel) && (old(self).scope_has(rel) ==> final(self).scope_data(rel) == old(self).scope_data(rel)) by {
                if self.full_key(rel) == self.full_key(to@) {
                    self.lemma_full_key_injective(rel, to@);
                }
            }
        }
        r
    }

    /// Copies `from` to `to` inside the scope, failing when the
    /// destination is already taken.
    pub fn copy_if_not_exists(&mut self, from: &StorePath, to: &StorePath) -> (r: Result<
        (),
        StorageError,
    >)
        requires
            old(self).inv(),
            from.wf(),
            to.wf(),
        ensures
            final(self).inv(),
            final(self).prefix_view() == old(self).prefix_view(),
            r is Ok <==> old(self).scope_has(from@) && !old(self).scope_has(to@),
            r is Err ==> *final(self) == *old(self),
            old(self).scope_has(to@) ==> r matches Err(StorageError::AlreadyExists { .. }),
            !old(self).scope_has(to@) && !old(self).scope_has(from@) ==> r matches Err(
                StorageError::NotFound { .. },
            ),
            r is Ok ==> final(self).scope_has(to@) && final(self).scope_data(to@) == old(self).scope_data(from@),
            forall|rel: Seq<Seq<char>>|
                rel != to@ ==> final(self).scope_has(rel) == old(self).scope_has(rel),
            forall|rel: Seq<Seq<char>>|
                rel != to@ && old(self).scope_has(rel) ==> final(self).scope_data(rel) == old(self).scope_data(rel),
    {
        let full_from = self.full_path(from);
        let full_to = self.full_path(to);
        let r = self.inner.copy_if_not_exists(&full_from, &full_to);
        proof {
            assert forall|rel: Seq<Seq<char>>| rel != to@ implies final(self).scope_has(rel)
                == old(self).scope_has(rel) && (old(self).scope_has(rel) ==> final(self).scope_data(rel) == old(self).scope_data(rel)) by {
                if self.full_key(rel) == self.full_key(to@) {
                    self.lemma_full_key_injective(rel, to@);
                }
            }
        }
        r
    }

    /// Moves the object at `from` to `to` inside the scope, overwriting
    /// any object at the destination.
    pub fn rename(&mut self, from: &StorePath, to: &StorePath) -> (r: Result<(), StorageError>)
        requires
            old(self).inv(),
            from.wf(),
            to.wf(),
        ensures
            final(self).inv(),
            final(self).prefix_view() == old(self).prefix_view(),
            r is Ok <==> old(self).scope_has(from@),
            r is Err ==> *final(self) == *old(self) && r matches Err(
                StorageError::NotFound { .. },
            ),
            r is Ok && from@ != to@ ==> final(self).scope_has(to@) && final(self).scope_data(
                to@,
            ) == old(self).scope_data(from@) && !final(self).scope_has(from@),
            r is Ok && from@ == to@ ==> !final(self).scope_has(from@),
            forall|rel: Seq<Seq<char>>|
                rel != to@ && rel != from@ ==> final(self).scope_has(rel) == old(self).scope_has(rel),
            forall|rel: Seq<Seq<char>>|
                rel != to@ && rel != from@ && old(self).scope_has(rel) ==> final(self).scope_data(rel) == old(self).scope_data(rel),
    {
        let full_from = self.full_path(from);
        let full_to = self.full_path(to);
        let r = self.inner.rename(&full_from, &full_to);
        proof {
            if old(self).full_key(from@) == old(self).full_key(to@) {
                old(self).lemma_full_key_injective(from@, to@);
            }
            assert forall|rel: Seq<Seq<char>>| rel != to@ && rel != from@ implies final(self).scope_has(rel) == old(self).scope_has(rel) && (old(self).scope_has(rel)
                ==> final(self).scope_data(rel) == old(self).scope_data(rel)) by {
                if self.full_key(rel) == self.full_key(to@) {
                    self.lemma_full_key_injective(rel, to@);
                }
                if self.full_key(rel) == self.full_key(from@) {
                    self.lemma_full_key_injective(rel, from@);
                }
            }
        }
        r
    }

    /// Moves `from` to `to` inside the scope, failing when the destination
    /// is already taken.
    pub fn rename_if_not_exists(&mut self, from: &StorePath, to: &StorePath) -> (r: Result<
        (),
        StorageError,
    >)
        requires
            old(self).inv(),
            from.wf(),
            to.wf(),
        ensures
            final(self).inv(),
            final(self).prefix_view() == old(self).prefix_view(),
            r is Ok <==> old(self).scope_has(from@) && !old(self).scope_has(to@),
            r is Err ==> *final(self) == *old(self),
            old(self).scope_has(to@) ==> r matches Err(StorageError::AlreadyExists { .. }),
            !old(self).scope_has(to@) && !old(self).scope_has(from@) ==> r matches Err(
                StorageError::NotFound { .. },
            ),
            r is Ok ==> final(self).scope_has(to@) && final(self).scope_data(to@) == old(self).scope_data(from@) && (from@ != to@ ==> !final(self).scope_has(from@)),
            forall|rel: Seq<Seq<char>>|
                rel != to@ && rel != from@ ==> final(self).scope_has(rel) == old(self).scope_has(rel),
            forall|rel: Seq<Seq<char>>|
                rel != to@ && rel != from@ && old(self).scope_has(rel) ==> final(self).scope_data(rel) == old(self).scope_data(rel),
    {
        let full_from = self.full_path(from);
        let full_to = self.full_path(to);
        let r = self.inner.rename_if_not_exists(&full_from, &full_to);
        proof {
            if old(self).full_key(from@) == old(self).full_key(to@) {
                old(self).lemma_full_key_injective(from@, to@);
            }
            assert forall|rel: Seq<Seq<char>>| rel != to@ && rel != from@ implies final(self).scope_has(rel) == old(self).scope_has(rel) && (old(self).scope_has(rel)
                ==> final(self).scope_data(rel) == old(self).scope_data(rel)) by {
                if self.full_key(rel) == self.full_key(to@) {
                    self.lemma_full_key_injective(rel, to@);
                }
                if self.full_key(rel) == self.full_key(from@) {
                    self.lemma_full_key_injective(rel, from@);
                }
            }
        }
        r
    }

    /// All objects visible in the scope under `prefix`, or under the
    /// scope's own root when no prefix is given — never the whole backend.
    /// Every returned location is scope-relative; objects outside the
    /// scope's prefix are invisible.
    pub fn list(&self, prefix: Option<&StorePath>) -> (r: Vec<ObjectMetadata>)
        requires
            self.inv(),
        ensures
            forall|j: int|
                0 <= j < r@.len() ==> {
                    let rel = (#[trigger] r@[j]).location@;
                    &&& self.scope_has(rel)
                    &&& is_prefix_of(arg_view(prefix), rel)
                    &&& r@[j].location.wf()
                    &&& r@[j].size == self.scope_data(rel).len()
                    &&& r@[j].last_modified == self.scope_mtime(rel)
                },
            forall|rel: Seq<Seq<char>>|
                #[trigger] self.scope_has(rel) && is_prefix_of(arg_view(prefix), rel)
                    ==> exists|j: int| 0 <= j < r@.len() && r@[j].location@ == rel,
            forall|j1: int, j2: int|
                0 <= j1 < r@.len() && 0 <= j2 < r@.len() && j1 != j2 ==> r@[j1].location@
                    != r@[j2].location@,
            forall|j: int|
                0 <= j < r@.len() ==> is_prefix_of(
                    self.prefix_view(),
                    self.full_key((#[trigger] r@[j]).location@),
                ),
    {
        let base = match prefix {
            Some(p) => self.full_path(p),
            None => self.prefix.duplicate(),
        };
        proof {
            assert(self.prefix_view() + arg_view(prefix) =~= base@);
        }
        let metas = self.inner.list(&base);
        let ghost p = self.prefix_view();
        let ghost a = arg_view(prefix);
        let mut r: Vec<ObjectMetadata> = Vec::new();
        let n = metas.len();
        for j in 0..n
            invariant
                n == metas@.len(),
                self.inv(),
                p == self.prefix_view(),
                a == arg_view(prefix),
                p + a == base@,
                forall|jj: int|
                    0 <= jj < n ==> {
                        let k = (#[trigger] metas@[jj]).location@;
                        &&& self.inner_store().has_object(k)
                        &&& is_prefix_of(base@, k)
                        &&& metas@[jj].location.wf()
                        &&& metas@[jj].size == self.inner_store().object_data(k).len()
                        &&& metas@[jj].last_modified == self.inner_store().object_mtime(k)
                    },
                forall|j1: int, j2: int|
                    0 <= j1 < n && 0 <= j2 < n && j1 != j2 ==> metas@[j1].location@
                        != metas@[j2].location@,
                forall|k: Seq<Seq<char>>|
                    #[trigger] self.inner_store().has_object(k) && is_prefix_of(base@, k)
                        ==> exists|jj: int|
                        0 <= jj < n && metas@[jj].location@ == k,
                r@.len() == j,
                forall|jj: int|
                    0 <= jj < j ==> (#[trigger] r@[jj]).location@ == metas@[
                        jj
                    ].location@.skip(p.len() as int) && r@[jj].size == metas@[jj].size && r@[
                        jj
                    ].last_modified == metas@[jj].last_modified && r@[
                        jj
                    ].location.wf(),
        {
            proof {
                lemma_skip_under(p, a, metas@[j as int].location@);
            }
            let rel = match self.strip_prefix(&metas[j].location) {
                Some(rel) => rel,
                None => {
                    proof {
                        assert(false);
                    }
                    StorePath::empty()
                },
            };
            r.push(ObjectMetadata {
                location: rel,
                size: metas[j].size,
                last_modified: metas[j].last_modified,
            });
        }
        proof {
            assert forall|j: int|
                0 <= j < r@.len() implies {
                let rel = (#[trigger] r@[j]).location@;
                &&& self.scope_has(rel)
                &&& is_prefix_of(a, rel)
                &&& r@[j].size == self.scope_data(rel).len()
                &&& r@[j].last_modified == self.scope_mtime(rel)
                &&& is_prefix_of(p, self.full_key(rel))
            } by {
                let k = metas@[j].location@;
                lemma_skip_under(p, a, k);
                assert(self.full_key(r@[j].location@) == k);
            }
            assert forall|rel: Seq<Seq<char>>|
                #[trigger] self.scope_has(rel) && is_prefix_of(a, rel) implies exists|j: int|
                0 <= j < r@.len() && r@[j].location@ == rel by {
                lemma_join_under(p, a, rel);
                let full = self.full_key(rel);
                assert(self.inner_store().has_object(full) && is_prefix_of(base@, full));
                let jj = choose|jj: int|
                    0 <= jj < n && metas@[jj].location@ == full;
                assert(r@[jj].location@ == rel);
            }
            assert forall|j1: int, j2: int|
                0 <= j1 < r@.len() && 0 <= j2 < r@.len() && j1 != j2 implies r@[j1].location@
                != r@[j2].location@ by {
                lemma_skip_under(p, a, metas@[j1].location@);
                lemma_skip_under(p, a, metas@[j2].location@);
            }
        }
        r
    }

    /// One level of listing in the scope under `prefix`, or under the
    /// scope's own root when no prefix is given. Objects and common
    /// prefixes come back scope-relative.
    #[verifier::rlimit(100)]
    pub fn list_with_delimiter(&self, prefix: Option<&StorePath>) -> (r: ListResult)
        requires
            self.inv(),
        ensures
            forall|j: int|
                0 <= j < r.objects@.len() ==> {
                    let rel = (#[trigger] r.objects@[j]).location@;
                    &&& self.scope_has(rel)
                    &&& direct_child(arg_view(prefix), rel)
                    &&& r.objects@[j].location.wf()
                    &&& r.objects@[j].size == self.scope_data(rel).len()
                    &&& r.objects@[j].last_modified == self.scope_mtime(rel)
                },
            forall|rel: Seq<Seq<char>>|
                #[trigger] self.scope_has(rel) && direct_child(arg_view(prefix), rel)
                    ==> exists|j: int|
                    0 <= j < r.objects@.len() && r.objects@[j].location@ == rel,
            forall|j1: int, j2: int|
                0 <= j1 < r.objects@.len() && 0 <= j2 < r.objects@.len() && j1 != j2
                    ==> r.objects@[j1].location@ != r.objects@[j2].location@,
            forall|j: int|
                0 <= j < r.common_prefixes@.len() ==> (#[trigger] r.common_prefixes@[
                    j
                ]).wf() && common_prefix_entry_sound(
                    *self,
                    arg_view(prefix),
                    r.common_prefixes@[j],
                ),
            forall|rel: Seq<Seq<char>>|
                #[trigger] self.scope_has(rel) && deep_child(arg_view(prefix), rel)
                    ==> exists|j: int|
                    0 <= j < r.common_prefixes@.len() && r.common_prefixes@[j]@ == rel.take(
                        arg_view(prefix).len() + 1 as int,
                    ),
            forall|j1: int, j2: int|
                0 <= j1 < r.common_prefixes@.len() && 0 <= j2 < r.common_prefixes@.len() && j1
                    != j2 ==> r.common_prefixes@[j1]@ != r.common_prefixes@[j2]@,
    {
        let base = match prefix {
            Some(p) => self.full_path(p),
            None => self.prefix.duplicate(),
        };
        proof {
            assert(self.prefix_view() + arg_view(prefix) =~= base@);
        }
        let inner_r = self.inner.list_with_delimiter(&base);
        let ghost p = self.prefix_view();
        let ghost a = arg_view(prefix);
        let ghost go = inner_r.objects@;
        let ghost gc = inner_r.common_prefixes@;
        let mut objects: Vec<ObjectMetadata> = Vec::new();
        let n = inner_r.objects.len();
        for j in 0..n
            invariant
                n == go.len(),
                go == inner_r.objects@,
                self.inv(),
                p == self.prefix_view(),
                a == arg_view(prefix),
                p + a == base@,
                forall|jj: int|
                    0 <= jj < n ==> {
                        let k = (#[trigger] go[jj]).location@;
                        &&& self.inner_store().has_object(k)
                        &&& direct_child(base@, k)
                        &&& go[jj].location.wf()
                        &&& go[jj].size == self.inner_store().object_data(k).len()
                        &&& go[jj].last_modified == self.inner_store().object_mtime(k)
                    },
                forall|j1: int, j2: int|
                    0 <= j1 < n && 0 <= j2 < n && j1 != j2 ==> go[j1].location@ != go[
                        j2
                    ].location@,
                objects@.len() == j,
                forall|jj: int|
                    0 <= jj < j ==> (#[trigger] objects@[jj]).location@ == go[
                        jj
                    ].location@.skip(p.len() as int) && objects@[jj].size == go[jj].size
                        && objects@[jj].last_modified == go[jj].last_modified && objects@[
                        jj
                    ].location.wf(),
        {
            proof {
                lemma_skip_under(p, a, go[j as int].location@);
            }
            let rel = match self.strip_prefix(&inner_r.objects[j].location) {
                Some(rel) => rel,
                None => {
                    proof {
                        assert(false);
                    }
                    StorePath::empty()
                },
            };
            objects.push(ObjectMetadata {
                location: rel,
                size: inner_r.objects[j].size,
                last_modified: inner_r.objects[j].last_modified,
            });
        }
        let mut common_prefixes: Vec<StorePath> = Vec::new();
        let m = inner_r.common_prefixes.len();
        for j in 0..m
            invariant
                m == gc.len(),
                gc == inner_r.common_prefixes@,
                self.inv(),
                p == self.prefix_view(),
                a == arg_view(prefix),
                p + a == base@,
                forall|jj: int|
                    0 <= jj < m ==> (#[trigger] gc[jj]).wf() && gc[jj]@.len() == base@.len()
                        + 1 && exists|k: Seq<Seq<char>>|
                        self.inner_store().has_object(k) && deep_child(base@, k) && gc[jj]@
                            == k.take(base@.len() + 1 as int),
                forall|j1: int, j2: int|
                    0 <= j1 < m && 0 <= j2 < m && j1 != j2 ==> gc[j1]@ != gc[j2]@,
                common_prefixes@.len() == j,
                forall|jj: int|
                    0 <= jj < j ==> (#[trigger] common_prefixes@[jj])@ == gc[jj]@.skip(
                        p.len() as int,
                    ) && common_prefixes@[jj].wf(),
        {
            proof {
                let k = choose|k: Seq<Seq<char>>|
                    self.inner_store().has_object(k) && deep_child(base@, k) && gc[j as int]@
                        == k.take(base@.len() + 1 as int);
                assert(is_prefix_of(base@, k));
                assert forall|i: int| 0 <= i < p.len() implies gc[j as int]@[i] == p[i] by {
                    assert(k.take(base@.len() + 1 as int)[i] == k[i]);
                }
                assert(is_prefix_of(p, gc[j as int]@));
            }
            let rel = match self.strip_prefix(&inner_r.common_prefixes[j]) {
                Some(rel) => rel,
                None => {
                    proof {
                        assert(false);
                    }
                    StorePath::empty()
                },
            };
            common_prefixes.push(rel);
        }
        let ghost fo = objects@;
        let ghost fc = common_prefixes@;
        let r = ListResult { common_prefixes, objects };
        proof {
            assert(r.objects@ == fo);
            assert(r.common_prefixes@ == fc);
            lemma_scope_objects(*self, arg_view(prefix), base@, go, fo);
            lemma_scope_common_prefixes(*self, arg_view(prefix), base@, gc, fc);
        }
        r
    }

    /// Begins a multipart upload session aimed at the scoped location.
    pub fn put_multipart(&mut self, location: &StorePath) -> (id: usize)
        requires
            old(self).inv(),
            location.wf(),
        ensures
            final(self).inv(),
            final(self).prefix_view() == old(self).prefix_view(),
            id == old(self).inner_store().session_count(),
            final(self).inner_store().session_count() == old(self).inner_store().session_count()
                + 1,
            final(self).inner_store().session_state(id as int) is Active,
            final(self).inner_store().session_location(id as int) == old(self).full_key(
                location@,
            ),
            final(self).inner_store().session_parts(id as int) == Seq::<Seq<u8>>::empty(),
            forall|j: int|
                0 <= j < old(self).inner_store().session_count() ==> final(self).inner_store().session_state(j) == old(self).inner_store().session_state(j)
                    && final(self).inner_store().session_location(j) == old(self).inner_store().session_location(j) && final(self).inner_store().session_parts(
                    j,
                ) == old(self).inner_store().session_parts(j),
            forall|rel: Seq<Seq<char>>|
                final(self).scope_has(rel) == old(self).scope_has(rel),
            forall|rel: Seq<Seq<char>>|
                old(self).scope_has(rel) ==> final(self).scope_data(rel) == old(self).scope_data(rel),
    {
        let full = self.full_path(location);
        self.inner.begin_multipart(&full)
    }

    /// Uploads `data` as the next part of session `id`.
    pub fn put_part(&mut self, id: usize, data: Vec<u8>) -> (r: Result<(), StorageError>)
        requires
            old(self).inv(),
        ensures
            final(self).inv(),
            final(self).prefix_view() == old(self).prefix_view(),
            r is Ok <==> id < old(self).inner_store().session_count() && old(self).inner_store().session_state(id as int) is Active,
            r is Err ==> *final(self) == *old(self) && r matches Err(
                StorageError::BackendError { .. },
            ),
            final(self).inner_store().session_count() == old(self).inner_store().session_count(),
            r is Ok ==> final(self).inner_store().session_parts(id as int) == old(self).inner_store().session_parts(id as int).push(data@) && final(self).inner_store().session_state(id as int) is Active && final(self).inner_store().session_location(id as int) == old(self).inner_store().session_location(id as int),
            forall|j: int|
                0 <= j < old(self).inner_store().session_count() && j != id ==> final(self).inner_store().session_state(j) == old(self).inner_store().session_state(j)
                    && final(self).inner_store().session_location(j) == old(self).inner_store().session_location(j) && final(self).inner_store().session_parts(
                    j,
                ) == old(self).inner_store().session_parts(j),
            forall|rel: Seq<Seq<char>>|
                final(self).scope_has(rel) == old(self).scope_has(rel),
            forall|rel: Seq<Seq<char>>|
                old(self).scope_has(rel) ==> final(self).scope_data(rel) == old(self).scope_data(rel),
    {
        self.inner.put_part(id, data)
    }

    /// Completes session `id`: its parts become the object at the
    /// session's location.
    pub fn complete_multipart(&mut self, id: usize) -> (r: Result<(), StorageError>)
        requires
            old(self).inv(),
        ensures
            final(self).inv(),
            final(self).prefix_view() == old(self).prefix_view(),
            r is Ok <==> id < old(self).inner_store().session_count() && old(self).inner_store().session_state(id as int) is Active,
            r is Err ==> *final(self) == *old(self) && r matches Err(
                StorageError::BackendError { .. },
            ),
            final(self).inner_store().session_count() == old(self).inner_store().session_count(),
            r is Ok ==> {
                let loc = old(self).inner_store().session_location(id as int);
                &&& final(self).inner_store().session_state(id as int) is Completed
                &&& final(self).inner_store().session_location(id as int) == loc
                &&& final(self).inner_store().session_parts(id as int) == old(self).inner_store().session_parts(id as int)
                &&& final(self).inner_store().has_object(loc)
                &&& final(self).inner_store().object_data(loc) == old(self).inner_store().session_parts(id as int).flatten()
                &&& forall|k: Seq<Seq<char>>|
                    k != loc ==> final(self).inner_store().has_object(k) == old(self).inner_store().has_object(k)
                &&& forall|k: Seq<Seq<char>>|
                    k != loc && old(self).inner_store().has_object(k) ==> final(self).inner_store().object_data(k) == old(self).inner_store().object_data(k)
            },
            forall|j: int|
                0 <= j < old(self).inner_store().session_count() && j != id ==> final(self).inner_store().session_state(j) == old(self).inner_store().session_state(j)
                    && final(self).inner_store().session_location(j) == old(self).inner_store().session_location(j) && final(self).inner_store().session_parts(
                    j,
                ) == old(self).inner_store().session_parts(j),
    {
        self.inner.complete_multipart(id)
    }

    /// Aborts session `id`: no object is written.
    pub fn abort_multipart(&mut self, id: usize) -> (r: Result<(), StorageError>)
        requires
            old(self).inv(),
        ensures
            final(self).inv(),
            final(self).prefix_view() == old(self).prefix_view(),
            r is Ok <==> id < old(self).inner_store().session_count() && old(self).inner_store().session_state(id as int) is Active,
            r is Err ==> *final(self) == *old(self) && r matches Err(
                StorageError::BackendError { .. },
            ),
            final(self).inner_store().session_count() == old(self).inner_store().session_count(),
            r is Ok ==> final(self).inner_store().session_state(id as int) is Aborted && final(self).inner_store().session_location(id as int) == old(self).inner_store().session_location(id as int) && final(self).inner_store().session_parts(id as int) == old(self).inner_store().session_parts(
                id as int,
            ),
            forall|j: int|
                0 <= j < old(self).inner_store().session_count() && j != id ==> final(self).inner_store().session_state(j) == old(self).inner_store().session_state(j)
                    && final(self).inner_store().session_location(j) == old(self).inner_store().session_location(j) && final(self).inner_store().session_parts(
                    j,
                ) == old(self).inner_store().session_parts(j),
            forall|rel: Seq<Seq<char>>|
                final(self).scope_has(rel) == old(self).scope_has(rel),
            forall|rel: Seq<Seq<char>>|
                old(self).scope_has(rel) ==> final(self).scope_data(rel) == old(self).scope_data(rel),
    {
        self.inner.abort_multipart(id)
    }
}

/// Law: for every scope prefix and scope-relative path, stripping the
/// prefix from the joined full path gives back exactly that path.
pub proof fn lemma_strip_inverts_join(s: PrefixObjectStore, rel: Seq<Seq<char>>)
    ensures
        is_prefix_of(s.prefix_view(), s.full_key(rel)),
        s.full_key(rel).skip(s.prefix_view().len() as int) == rel,
{
    crate::path::lemma_strip_of_join(s.prefix_view(), rel);
}

/// Law: listing a scope's own root returns only objects whose full backend
/// path starts with the scope's prefix, each seen under its scope-relative
/// name.
pub proof fn lemma_listing_stays_in_scope(s: PrefixObjectStore, listed: Seq<ObjectMetadata>)
    requires
        forall|j: int|
            0 <= j < listed.len() ==> s.scope_has((#[trigger] listed[j]).location@),
    ensures
        forall|j: int|
            0 <= j < listed.len() ==> {
                let full = s.full_key((#[trigger] listed[j]).location@);
                s.inner_store().has_object(full) && is_prefix_of(s.prefix_view(), full)
                    && full.skip(s.prefix_view().len() as int) == listed[j].location@
            },
{
    assert forall|j: int|
        0 <= j < listed.len() implies {
        let full = s.full_key((#[trigger] listed[j]).location@);
        s.inner_store().has_object(full) && is_prefix_of(s.prefix_view(), full) && full.skip(
            s.prefix_view().len() as int,
        ) == listed[j].location@
    } by {
        crate::path::lemma_strip_of_join(s.prefix_view(), listed[j].location@);
    }
}

} // verus!
