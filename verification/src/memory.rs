//! The in-memory backend store: a flat object namespace with multipart
//! upload sessions, the one backend the library can drive end to end.

use vstd::prelude::*;

use crate::error::StorageError;
use crate::path::is_prefix_of;
use crate::path::joined;
use crate::path::StorePath;

verus! {

/// What a backend reports about one stored object.
pub struct ObjectMetadata {
    /// Where the object lives.
    pub location: StorePath,
    /// Its size in bytes.
    pub size: u64,
    /// A logical timestamp: later writes carry larger values.
    pub last_modified: u64,
}

/// One stored object.
struct ObjectEntry {
    location: StorePath,
    data: Vec<u8>,
    last_modified: u64,
}

/// The lifecycle of a multipart upload session. `Active` accepts parts;
/// the two terminal states accept nothing and never change again.
pub enum SessionState {
    /// Parts may still be uploaded.
    Active,
    /// The session was completed: its parts form an object.
    Completed,
    /// The session was aborted: no object was written.
    Aborted,
}

/// One multipart upload session. Sessions are never removed, so a session
/// identifier stays valid for the store's lifetime.
struct UploadSession {
    location: StorePath,
    parts: Vec<Vec<u8>>,
    state: SessionState,
}

/// What a delimiter-based listing returns: the objects directly inside the
/// listed prefix, and the directory-like groupings one level below it.
pub struct ListResult {
    /// One entry per distinct next path segment under which deeper objects
    /// live.
    pub common_prefixes: Vec<StorePath>,
    /// The objects exactly one segment below the listed prefix.
    pub objects: Vec<ObjectMetadata>,
}

/// The key `k` lies strictly below `base`, exactly one segment deep.
pub open spec fn direct_child(base: Seq<Seq<char>>, k: Seq<Seq<char>>) -> bool {
    is_prefix_of(base, k) && k.len() == base.len() + 1
}

/// The key `k` lies strictly below `base`, more than one segment deep.
pub open spec fn deep_child(base: Seq<Seq<char>>, k: Seq<Seq<char>>) -> bool {
    is_prefix_of(base, k) && k.len() > base.len() + 1
}

/// A flat in-memory object namespace.
pub struct InMemoryStore {
    objects: Vec<ObjectEntry>,
    sessions: Vec<UploadSession>,
    clock: u64,
}

impl InMemoryStore {
    /// Object locations are unique and well-formed.
    spec fn objects_inv(self) -> bool {
        &&& forall|i: int, j: int|
            0 <= i < self.objects@.len() && 0 <= j < self.objects@.len() && i != j
                ==> self.objects@[i].location@ != self.objects@[j].location@
        &&& forall|i: int|
            0 <= i < self.objects@.len() ==> (#[trigger] self.objects@[i].location).wf()
    }

    /// Session targets are well-formed.
    spec fn sessions_inv(self) -> bool {
        forall|i: int|
            0 <= i < self.sessions@.len() ==> (#[trigger] self.sessions@[i].location).wf()
    }

    /// Locations of objects and of session targets are unique and
    /// well-formed.
    pub closed spec fn inv(self) -> bool {
        self.objects_inv() && self.sessions_inv()
    }

    /// An object lives at this location.
    pub closed spec fn has_object(self, k: Seq<Seq<char>>) -> bool {
        exists|i: int| 0 <= i < self.objects@.len() && self.objects@[i].location@ == k
    }

    spec fn index_of(self, k: Seq<Seq<char>>) -> int {
        choose|i: int| 0 <= i < self.objects@.len() && self.objects@[i].location@ == k
    }

    /// The bytes stored at this location.
    pub closed spec fn object_data(self, k: Seq<Seq<char>>) -> Seq<u8> {
        self.objects@[self.index_of(k)].data@
    }

    /// The logical timestamp of the last write to this location.
    pub closed spec fn object_mtime(self, k: Seq<Seq<char>>) -> u64 {
        self.objects@[self.index_of(k)].last_modified
    }

    /// The logical clock: the timestamp the next write will carry.
    pub closed spec fn now(self) -> u64 {
        self.clock
    }

    /// How many multipart sessions were ever begun.
    pub closed spec fn session_count(self) -> nat {
        self.sessions@.len()
    }

    /// The state of one session.
    pub closed spec fn session_state(self, id: int) -> SessionState {
        self.sessions@[id].state
    }

    /// The location a session will write to when completed.
    pub closed spec fn session_location(self, id: int) -> Seq<Seq<char>> {
        self.sessions@[id].location@
    }

    /// The parts uploaded to a session so far, in call order.
    pub closed spec fn session_parts(self, id: int) -> Seq<Seq<u8>> {
        self.sessions@[id].parts.deep_view()
    }

    /// The two stores hold the same objects, with the same contents and
    /// timestamps, at every location.
    pub open spec fn same_objects(self, other: Self) -> bool {
        &&& forall|k: Seq<Seq<char>>| self.has_object(k) == other.has_object(k)
        &&& forall|k: Seq<Seq<char>>|
            self.has_object(k) ==> #[trigger] self.object_data(k) == other.object_data(k)
                && self.object_mtime(k) == other.object_mtime(k)
    }

    /// The object view is a function of the object entries alone.
    proof fn lemma_objects_congruence(a: Self, b: Self)
        requires
            a.objects_inv(),
            a.objects@ == b.objects@,
        ensures
            b.objects_inv(),
            forall|k: Seq<Seq<char>>| a.has_object(k) == b.has_object(k),
            forall|k: Seq<Seq<char>>|
                #[trigger] a.has_object(k) ==> a.object_data(k) == b.object_data(k)
                    && a.object_mtime(k) == b.object_mtime(k),
    {
        assert forall|k: Seq<Seq<char>>| a.has_object(k) == b.has_object(k) by {
            if a.has_object(k) {
                let i = a.index_of(k);
                assert(b.objects@[i].location@ == k);
            }
            if b.has_object(k) {
                let i = b.index_of(k);
                assert(a.objects@[i].location@ == k);
            }
        }
        assert forall|k: Seq<Seq<char>>| #[trigger] a.has_object(k) implies a.object_data(k)
            == b.object_data(k) && a.object_mtime(k) == b.object_mtime(k) by {
            let i = a.index_of(k);
            assert(b.objects@[i].location@ == k);
            a.lemma_lookup(k, i);
            b.lemma_lookup(k, i);
        }
    }

    /// The longest location among the stored objects, in segments. Bounds
    /// how deep any walk of the namespace can descend.
    pub closed spec fn max_loc_len(self) -> nat {
        max_len_rec(self.objects@)
    }

    /// No stored location is longer than `max_loc_len`.
    pub proof fn lemma_loc_len_bounded(self, k: Seq<Seq<char>>)
        requires
            self.has_object(k),
        ensures
            k.len() <= self.max_loc_len(),
    {
        let i = choose|i: int|
            0 <= i < self.objects@.len() && self.objects@[i].location@ == k;
        lemma_max_len_rec(self.objects@, i);
    }

    /// Stored objects live in real buffers, so their lengths fit a
    /// machine word.
    pub proof fn lemma_object_data_fits(self, k: Seq<Seq<char>>)
        requires
            self.inv(),
            self.has_object(k),
        ensures
            self.object_data(k).len() <= usize::MAX,
    {
        let i = self.index_of(k);
        crate::memory::vec_len_bound(&self.objects@[i].data);
    }

    proof fn lemma_lookup(self, k: Seq<Seq<char>>, i: int)
        requires
            self.objects_inv(),
            0 <= i < self.objects@.len(),
            self.objects@[i].location@ == k,
        ensures
            self.has_object(k),
            self.index_of(k) == i,
            self.object_data(k) == self.objects@[i].data@,
            self.object_mtime(k) == self.objects@[i].last_modified,
    {
        assert(self.has_object(k));
        let j = self.index_of(k);
        assert(0 <= j < self.objects@.len() && self.objects@[j].location@ == k);
    }

    /// A fresh, empty store.
    pub fn new() -> (r: InMemoryStore)
        ensures
            r.inv(),
            forall|k: Seq<Seq<char>>| !r.has_object(k),
            r.session_count() == 0,
    {
        InMemoryStore { objects: Vec::new(), sessions: Vec::new(), clock: 0 }
    }

    /// The index holding this location, if any.
    fn find_object(&self, location: &StorePath) -> (r: Option<usize>)
        requires
            self.inv(),
        ensures
            match r {
                Some(i) => i < self.objects@.len() && self.objects@[i as int].location@
                    == location@ && self.has_object(location@) && self.index_of(location@)
                    == i,
                None => !self.has_object(location@),
            },
    {
        let n = self.objects.len();
        for i in 0..n
            invariant
                n == self.objects@.len(),
                self.inv(),
                forall|j: int| 0 <= j < i ==> self.objects@[j].location@ != location@,
        {
            if self.objects[i].location.same_as(location) {
                proof {
                    self.lemma_lookup(location@, i as int);
                }
                return Some(i);
            }
        }
        None
    }

    /// Stores `data` at `location`, replacing any object already there.
    pub fn put(&mut self, location: &StorePath, data: Vec<u8>) -> (r: Result<
        (),
        StorageError,
    >)
        requires
            old(self).inv(),
            location.wf(),
        ensures
            r is Ok,
            final(self).inv(),
            final(self).has_object(location@),
            final(self).object_data(location@) == data@,
            final(self).object_mtime(location@) == old(self).now(),
            forall|k: Seq<Seq<char>>|
                k != location@ ==> final(self).has_object(k) == old(self).has_object(k),
            forall|k: Seq<Seq<char>>|
                k != location@ && old(self).has_object(k) ==> final(self).object_data(k)
                    == old(self).object_data(k) && final(self).object_mtime(k) == old(
                    self,
                ).object_mtime(k),
            final(self).session_count() == old(self).session_count(),
            forall|id: int|
                0 <= id < old(self).session_count() ==> final(self).session_state(id) == old(
                    self,
                ).session_state(id) && final(self).session_location(id) == old(
                    self,
                ).session_location(id) && final(self).session_parts(id) == old(
                    self,
                ).session_parts(id),
    {
        let entry = ObjectEntry {
            location: location.duplicate(),
            data,
            last_modified: self.clock,
        };
        let found = self.find_object(location);
        match found {
            Some(i) => {
                let ghost pre = *self;
                self.objects.set(i, entry);
                proof {
                    self.lemma_lookup(location@, i as int);
                    assert forall|k: Seq<Seq<char>>| k != location@ implies self.has_object(
                        k,
                    ) == pre.has_object(k) by {
                        if pre.has_object(k) {
                            let j = pre.index_of(k);
                            assert(self.objects@[j].location@ == k);
                        }
                        if self.has_object(k) {
                            let j = self.index_of(k);
                            assert(pre.objects@[j].location@ == k);
                        }
                    }
                    assert forall|k: Seq<Seq<char>>|
                        k != location@ && pre.has_object(k) implies self.object_data(k)
                        == pre.object_data(k) && self.object_mtime(k) == pre.object_mtime(
                        k,
                    ) by {
                        let j = pre.index_of(k);
                        assert(self.objects@[j].location@ == k);
                        self.lemma_lookup(k, j);
                    }
                }
            },
            None => {
                let ghost pre = *self;
                self.objects.push(entry);
                proof {
                    assert(self.inv()) by {
                        let n = pre.objects@.len() as int;
                        assert forall|i: int, j: int|
                            0 <= i < self.objects@.len() && 0 <= j < self.objects@.len()
                                && i != j implies self.objects@[i].location@
                            != self.objects@[j].location@ by {
                            if i < n && j < n {
                                assert(self.objects@[i] == pre.objects@[i]);
                                assert(self.objects@[j] == pre.objects@[j]);
                            } else if i == n {
                                assert(self.objects@[j] == pre.objects@[j]);
                                assert(!pre.has_object(location@));
                            } else {
                                assert(self.objects@[i] == pre.objects@[i]);
                                assert(!pre.has_object(location@));
                            }
                        }
                    }
                    self.lemma_lookup(location@, pre.objects@.len() as int);
                    assert forall|k: Seq<Seq<char>>| k != location@ implies self.has_object(
                        k,
                    ) == pre.has_object(k) by {
                        if pre.has_object(k) {
                            let j = pre.index_of(k);
                            assert(self.objects@[j].location@ == k);
                        }
                        if self.has_object(k) {
                            let j = self.index_of(k);
                            if j < pre.objects@.len() {
                                assert(pre.objects@[j].location@ == k);
                            }
                        }
                    }
                    assert forall|k: Seq<Seq<char>>|
                        k != location@ && pre.has_object(k) implies self.object_data(k)
                        == pre.object_data(k) && self.object_mtime(k) == pre.object_mtime(
                        k,
                    ) by {
                        let j = pre.index_of(k);
                        assert(self.objects@[j].location@ == k);
                        self.lemma_lookup(k, j);
                    }
                }
            },
        }
        let ghost mid = *self;
        if self.clock < u64::MAX {
            self.clock = self.clock + 1;
        }
        proof {
            Self::lemma_objects_congruence(mid, *self);
        }
        Ok(())
    }

    /// The bytes stored at `location`, or `NotFound`.
    pub fn get(&self, location: &StorePath) -> (r: Result<Vec<u8>, StorageError>)
        requires
            self.inv(),
        ensures
            r is Ok <==> self.has_object(location@),
            r matches Ok(data) ==> data@ == self.object_data(location@),
            r matches Err(e) ==> e matches StorageError::NotFound { path } && path@ == joined(
                location@,
            ),
    {
        match self.find_object(location) {
            Some(i) => {
                proof {
                    self.lemma_lookup(location@, i as int);
                }
                Ok(clone_bytes(&self.objects[i].data))
            },
            None => Err(StorageError::NotFound { path: location.to_string() }),
        }
    }

    /// The bytes in `[start, end)` of the object at `location`.
    pub fn get_range(&self, location: &StorePath, start: usize, end: usize) -> (r: Result<
        Vec<u8>,
        StorageError,
    >)
        requires
            self.inv(),
        ensures
            r is Ok <==> self.has_object(location@) && start <= end <= self.object_data(
                location@,
            ).len(),
            r matches Ok(data) ==> data@ == self.object_data(location@).subrange(
                start as int,
                end as int,
            ),
            !self.has_object(location@) ==> r matches Err(StorageError::NotFound { .. }),
            self.has_object(location@) && !(start <= end <= self.object_data(location@).len())
                ==> r matches Err(StorageError::BackendError { .. }),
    {
        match self.find_object(location) {
            Some(i) => {
                proof {
                    self.lemma_lookup(location@, i as int);
                }
                let data = &self.objects[i].data;
                if start <= end && end <= data.len() {
                    Ok(copy_byte_range(data, start, end))
                } else {
                    Err(StorageError::BackendError {
                        message: String::from_str("requested range is out of bounds"),
                    })
                }
            },
            None => Err(StorageError::NotFound { path: location.to_string() }),
        }
    }

    /// Size and timestamp of the object at `location`, or `NotFound`.
    pub fn head(&self, location: &StorePath) -> (r: Result<ObjectMetadata, StorageError>)
        requires
            self.inv(),
        ensures
            r is Ok <==> self.has_object(location@),
            r matches Ok(meta) ==> meta.location@ == location@ && meta.size == self.object_data(
                location@,
            ).len() && meta.last_modified == self.object_mtime(location@),
            r matches Err(e) ==> e matches StorageError::NotFound { path } && path@ == joined(
                location@,
            ),
    {
        match self.find_object(location) {
            Some(i) => {
                proof {
                    self.lemma_lookup(location@, i as int);
                }
                Ok(ObjectMetadata {
                    location: location.duplicate(),
                    size: self.objects[i].data.len() as u64,
                    last_modified: self.objects[i].last_modified,
                })
            },
            None => Err(StorageError::NotFound { path: location.to_string() }),
        }
    }

    /// Removes the object at `location`, or `NotFound`.
    pub fn delete(&mut self, location: &StorePath) -> (r: Result<(), StorageError>)
        requires
            old(self).inv(),
        ensures
            final(self).inv(),
            r is Ok <==> old(self).has_object(location@),
            r matches Err(e) ==> e matches StorageError::NotFound { path } && path@ == joined(
                location@,
            ),
            r is Err ==> *final(self) == *old(self),
            !final(self).has_object(location@),
            forall|k: Seq<Seq<char>>|
                k != location@ ==> final(self).has_object(k) == old(self).has_object(k),
            forall|k: Seq<Seq<char>>|
                k != location@ && old(self).has_object(k) ==> final(self).object_data(k)
                    == old(self).object_data(k) && final(self).object_mtime(k) == old(
                    self,
                ).object_mtime(k),
            final(self).session_count() == old(self).session_count(),
            forall|id: int|
                0 <= id < old(self).session_count() ==> final(self).session_state(id) == old(
                    self,
                ).session_state(id) && final(self).session_location(id) == old(
                    self,
                ).session_location(id) && final(self).session_parts(id) == old(
                    self,
                ).session_parts(id),
    {
        match self.find_object(location) {
            Some(i) => {
                let ghost pre = *self;
                self.objects.remove(i);
                proof {
                    let n = pre.objects@.len() as int;
                    let ii = i as int;
                    assert forall|j: int|
                        0 <= j < self.objects@.len() implies self.objects@[j] == (if j < ii {
                        pre.objects@[j]
                    } else {
                        pre.objects@[j + 1]
                    }) by {}
                    assert(self.inv());
                    assert forall|k: Seq<Seq<char>>| self.has_object(k) implies k != location@
                        && pre.has_object(k) by {
                        let j = self.index_of(k);
                        if j < ii {
                            assert(pre.objects@[j].location@ == k);
                        } else {
                            assert(pre.objects@[j + 1].location@ == k);
                        }
                    }
                    assert forall|k: Seq<Seq<char>>|
                        k != location@ && pre.has_object(k) implies self.has_object(k)
                        && self.object_data(k) == pre.object_data(k) && self.object_mtime(k)
                        == pre.object_mtime(k) by {
                        let j = pre.index_of(k);
                        assert(pre.objects@[j].location@ == k);
                        if j < ii {
                            assert(self.objects@[j].location@ == k);
                            self.lemma_lookup(k, j);
                        } else {
                            assert(pre.objects@[ii].location@ == location@);
                            assert(j != ii);
                            assert(self.objects@[j - 1].location@ == k);
                            self.lemma_lookup(k, j - 1);
                        }
                        pre.lemma_lookup(k, j);
                    }
                }
                Ok(())
            },
            None => Err(StorageError::NotFound { path: location.to_string() }),
        }
    }
    /// Copies the object at `from` to `to`, overwriting any object there.
    pub fn copy(&mut self, from: &StorePath, to: &StorePath) -> (r: Result<(), StorageError>)
        requires
            old(self).inv(),
            to.wf(),
        ensures
            final(self).inv(),
            r is Ok <==> old(self).has_object(from@),
            r is Err ==> *final(self) == *old(self) && r matches Err(
                StorageError::NotFound { .. },
            ),
            r is Ok ==> final(self).has_object(to@) && final(self).object_data(to@) == old(
                self,
            ).object_data(from@),
            forall|k: Seq<Seq<char>>|
                k != to@ ==> final(self).has_object(k) == old(self).has_object(k),
            forall|k: Seq<Seq<char>>|
                k != to@ && old(self).has_object(k) ==> final(self).object_data(k) == old(
                    self,
                ).object_data(k) && final(self).object_mtime(k) == old(self).object_mtime(k),
            final(self).session_count() == old(self).session_count(),
            forall|id: int|
                0 <= id < old(self).session_count() ==> final(self).session_state(id) == old(
                    self,
                ).session_state(id) && final(self).session_location(id) == old(
                    self,
                ).session_location(id) && final(self).session_parts(id) == old(
                    self,
                ).session_parts(id),
    {
        let data = match self.get(from) {
            Ok(data) => data,
            Err(e) => {
                return Err(e);
            },
        };
        let put_result = self.put(to, data);
        match put_result {
            Ok(()) => Ok(()),
            Err(e) => Err(e),
        }
    }

    /// Copies `from` to `to`, failing when `to` is already taken.
    pub fn copy_if_not_exists(&mut self, from: &StorePath, to: &StorePath) -> (r: Result<
        (),
        StorageError,
    >)
        requires
            old(self).inv(),
            to.wf(),
        ensures
            final(self).inv(),
            r is Ok <==> old(self).has_object(from@) && !old(self).has_object(to@),
            r is Err ==> *final(self) == *old(self),
            old(self).has_object(to@) ==> r matches Err(StorageError::AlreadyExists { .. }),
            !old(self).has_object(to@) && !old(self).has_object(from@) ==> r matches Err(
                StorageError::NotFound { .. },
            ),
            r is Ok ==> final(self).has_object(to@) && final(self).object_data(to@) == old(
                self,
            ).object_data(from@),
            forall|k: Seq<Seq<char>>|
                k != to@ ==> final(self).has_object(k) == old(self).has_object(k),
            forall|k: Seq<Seq<char>>|
                k != to@ && old(self).has_object(k) ==> final(self).object_data(k) == old(
                    self,
                ).object_data(k) && final(self).object_mtime(k) == old(self).object_mtime(k),
            final(self).session_count() == old(self).session_count(),
            forall|id: int|
                0 <= id < old(self).session_count() ==> final(self).session_state(id) == old(
                    self,
                ).session_state(id) && final(self).session_location(id) == old(
                    self,
                ).session_location(id) && final(self).session_parts(id) == old(
                    self,
                ).session_parts(id),
    {
        match self.find_object(to) {
            Some(_) => Err(StorageError::AlreadyExists { path: to.to_string() }),
            None => self.copy(from, to),
        }
    }

    /// Moves the object at `from` to `to`, overwriting any object there.
    /// Performed as a copy followed by a delete of the source, so moving an
    /// object onto its own path removes it.
    pub fn rename(&mut self, from: &StorePath, to: &StorePath) -> (r: Result<(), StorageError>)
        requires
            old(self).inv(),
            to.wf(),
        ensures
            final(self).inv(),
            r is Ok <==> old(self).has_object(from@),
            r is Err ==> *final(self) == *old(self) && r matches Err(
                StorageError::NotFound { .. },
            ),
            r is Ok && from@ != to@ ==> final(self).has_object(to@) && final(self).object_data(
                to@,
            ) == old(self).object_data(from@) && !final(self).has_object(from@),
            r is Ok && from@ == to@ ==> !final(self).has_object(from@),
            forall|k: Seq<Seq<char>>|
                k != to@ && k != from@ ==> final(self).has_object(k) == old(self).has_object(
                    k,
                ),
            forall|k: Seq<Seq<char>>|
                k != to@ && k != from@ && old(self).has_object(k) ==> final(self).object_data(
                    k,
                ) == old(self).object_data(k) && final(self).object_mtime(k) == old(
                    self,
                ).object_mtime(k),
            final(self).session_count() == old(self).session_count(),
            forall|id: int|
                0 <= id < old(self).session_count() ==> final(self).session_state(id) == old(
                    self,
                ).session_state(id) && final(self).session_location(id) == old(
                    self,
                ).session_location(id) && final(self).session_parts(id) == old(
                    self,
                ).session_parts(id),
    {
        match self.copy(from, to) {
            Ok(()) => {},
            Err(e) => {
                return Err(e);
            },
        }
        match self.delete(from) {
            _ => {},
        }
        Ok(())
    }

    /// Moves `from` to `to`, failing when `to` is already taken.
    pub fn rename_if_not_exists(&mut self, from: &StorePath, to: &StorePath) -> (r: Result<
        (),
        StorageError,
    >)
        requires
            old(self).inv(),
            to.wf(),
        ensures
            final(self).inv(),
            r is Ok <==> old(self).has_object(from@) && !old(self).has_object(to@),
            r is Err ==> *final(self) == *old(self),
            old(self).has_object(to@) ==> r matches Err(StorageError::AlreadyExists { .. }),
            !old(self).has_object(to@) && !old(self).has_object(from@) ==> r matches Err(
                StorageError::NotFound { .. },
            ),
            r is Ok ==> final(self).has_object(to@) && final(self).object_data(to@) == old(
                self,
            ).object_data(from@) && (from@ != to@ ==> !final(self).has_object(from@)),
            forall|k: Seq<Seq<char>>|
                k != to@ && k != from@ ==> final(self).has_object(k) == old(self).has_object(
                    k,
                ),
            forall|k: Seq<Seq<char>>|
                k != to@ && k != from@ && old(self).has_object(k) ==> final(self).object_data(
                    k,
                ) == old(self).object_data(k) && final(self).object_mtime(k) == old(
                    self,
                ).object_mtime(k),
            final(self).session_count() == old(self).session_count(),
            forall|id: int|
                0 <= id < old(self).session_count() ==> final(self).session_state(id) == old(
                    self,
                ).session_state(id) && final(self).session_location(id) == old(
                    self,
                ).session_location(id) && final(self).session_parts(id) == old(
                    self,
                ).session_parts(id),
    {
        match self.find_object(to) {
            Some(_) => Err(StorageError::AlreadyExists { path: to.to_string() }),
            None => self.rename(from, to),
        }
    }
    /// All objects whose location starts with `prefix` (all objects when
    /// `prefix` is empty), one entry each, in no promised order.
    pub fn list(&self, prefix: &StorePath) -> (r: Vec<ObjectMetadata>)
        requires
            self.inv(),
        ensures
            forall|j: int|
                0 <= j < r@.len() ==> {
                    let k = (#[trigger] r@[j]).location@;
                    &&& self.has_object(k)
                    &&& is_prefix_of(prefix@, k)
                    &&& r@[j].location.wf()
                    &&& r@[j].size == self.object_data(k).len()
                    &&& r@[j].last_modified == self.object_mtime(k)
                },
            forall|k: Seq<Seq<char>>|
                #[trigger] self.has_object(k) && is_prefix_of(prefix@, k) ==> exists|j: int|
                    0 <= j < r@.len() && r@[j].location@ == k,
            forall|j1: int, j2: int|
                0 <= j1 < r@.len() && 0 <= j2 < r@.len() && j1 != j2 ==> r@[j1].location@
                    != r@[j2].location@,
    {
        let mut r: Vec<ObjectMetadata> = Vec::new();
        let ghost mut origin: Seq<int> = Seq::empty();
        let n = self.objects.len();
        for i in 0..n
            invariant
                n == self.objects@.len(),
                self.inv(),
                origin.len() == r@.len(),
                forall|j: int| 0 <= j < origin.len() ==> 0 <= #[trigger] origin[j] < i,
                forall|j: int|
                    0 <= j < origin.len() ==> (#[trigger] r@[j]).location@ == self.objects@[
                        origin[j]
                    ].location@,
                forall|j1: int, j2: int|
                    0 <= j1 < j2 < origin.len() ==> origin[j1] < origin[j2],
                forall|j: int|
                    0 <= j < r@.len() ==> {
                        let k = (#[trigger] r@[j]).location@;
                        &&& self.has_object(k)
                        &&& is_prefix_of(prefix@, k)
                        &&& r@[j].location.wf()
                        &&& r@[j].size == self.object_data(k).len()
                        &&& r@[j].last_modified == self.object_mtime(k)
                    },
                forall|idx: int|
                    0 <= idx < i && is_prefix_of(
                        prefix@,
                        (#[trigger] self.objects@[idx]).location@,
                    ) ==> exists|j: int|
                        0 <= j < r@.len() && r@[j].location@ == self.objects@[idx].location@,
        {
            if self.objects[i].location.starts_with(prefix) {
                proof {
                    self.lemma_lookup(self.objects@[i as int].location@, i as int);
                }
                let ghost pre = r@;
                r.push(ObjectMetadata {
                    location: self.objects[i].location.duplicate(),
                    size: self.objects[i].data.len() as u64,
                    last_modified: self.objects[i].last_modified,
                });
                proof {
                    origin = origin.push(i as int);
                    assert(forall|j: int| 0 <= j < pre.len() ==> r@[j] == pre[j]);
                    assert(r@[pre.len() as int].location@ == self.objects@[
                        i as int
                    ].location@);
                    assert forall|idx: int|
                        0 <= idx < i + 1 && is_prefix_of(
                            prefix@,
                            (#[trigger] self.objects@[idx]).location@,
                        ) implies exists|j: int|
                        0 <= j < r@.len() && r@[j].location@ == self.objects@[
                            idx
                        ].location@ by {
                        if idx < i {
                            let j = choose|j: int|
                                0 <= j < pre.len() && pre[j].location@ == self.objects@[
                                    idx
                                ].location@;
                            assert(r@[j].location@ == self.objects@[idx].location@);
                        } else {
                            assert(r@[pre.len() as int].location@ == self.objects@[
                                idx
                            ].location@);
                        }
                    }
                }
            }
        }
        proof {
            assert forall|k: Seq<Seq<char>>|
                #[trigger] self.has_object(k) && is_prefix_of(prefix@, k) implies exists|j: int|
                0 <= j < r@.len() && r@[j].location@ == k by {
                let idx = self.index_of(k);
                assert(0 <= idx < n && self.objects@[idx].location@ == k);
            }
            assert forall|j1: int, j2: int|
                0 <= j1 < r@.len() && 0 <= j2 < r@.len() && j1 != j2 implies r@[j1].location@
                != r@[j2].location@ by {
                assert(origin[j1] != origin[j2]);
            }
        }
        r
    }

    /// One level of listing under `base`: objects one segment deep, and one
    /// common prefix per distinct next segment of the deeper objects.
    #[verifier::spinoff_prover]
    #[verifier::rlimit(60)]
    pub fn list_with_delimiter(&self, base: &StorePath) -> (r: ListResult)
        requires
            self.inv(),
        ensures
            forall|j: int|
                0 <= j < r.objects@.len() ==> {
                    let k = (#[trigger] r.objects@[j]).location@;
                    &&& self.has_object(k)
                    &&& direct_child(base@, k)
                    &&& r.objects@[j].location.wf()
                    &&& r.objects@[j].size == self.object_data(k).len()
                    &&& r.objects@[j].last_modified == self.object_mtime(k)
                },
            forall|k: Seq<Seq<char>>|
                #[trigger] self.has_object(k) && direct_child(base@, k) ==> exists|j: int|
                    0 <= j < r.objects@.len() && r.objects@[j].location@ == k,
            forall|j1: int, j2: int|
                0 <= j1 < r.objects@.len() && 0 <= j2 < r.objects@.len() && j1 != j2
                    ==> r.objects@[j1].location@ != r.objects@[j2].location@,
            forall|j: int|
                0 <= j < r.common_prefixes@.len() ==> (#[trigger] r.common_prefixes@[
                    j
                ]).wf() && exists|k: Seq<Seq<char>>|
                    self.has_object(k) && deep_child(base@, k) && r.common_prefixes@[j]@
                        == k.take(base@.len() + 1 as int),
            forall|k: Seq<Seq<char>>|
                #[trigger] self.has_object(k) && deep_child(base@, k) ==> exists|j: int|
                    0 <= j < r.common_prefixes@.len() && r.common_prefixes@[j]@ == k.take(
                        base@.len() + 1 as int,
                    ),
            forall|j1: int, j2: int|
                0 <= j1 < r.common_prefixes@.len() && 0 <= j2 < r.common_prefixes@.len() && j1
                    != j2 ==> r.common_prefixes@[j1]@ != r.common_prefixes@[j2]@,
    {
        let mut objects: Vec<ObjectMetadata> = Vec::new();
        let mut common_prefixes: Vec<StorePath> = Vec::new();
        let ghost mut origin: Seq<int> = Seq::empty();
        let n = self.objects.len();
        let base_len = base.len();
        for i in 0..n
            invariant
                n == self.objects@.len(),
                base_len == base@.len(),
                self.inv(),
                origin.len() == objects@.len(),
                forall|j: int| 0 <= j < origin.len() ==> 0 <= #[trigger] origin[j] < i,
                forall|j: int|
                    0 <= j < origin.len() ==> (#[trigger] objects@[j]).location@
                        == self.objects@[origin[j]].location@,
                forall|j1: int, j2: int|
                    0 <= j1 < j2 < origin.len() ==> origin[j1] < origin[j2],
                forall|j: int|
                    0 <= j < objects@.len() ==> {
                        let k = (#[trigger] objects@[j]).location@;
                        &&& self.has_object(k)
                        &&& direct_child(base@, k)
                        &&& objects@[j].location.wf()
                        &&& objects@[j].size == self.object_data(k).len()
                        &&& objects@[j].last_modified == self.object_mtime(k)
                    },
                forall|idx: int|
                    0 <= idx < i && direct_child(
                        base@,
                        (#[trigger] self.objects@[idx]).location@,
                    ) ==> exists|j: int|
                        0 <= j < objects@.len() && objects@[j].location@ == self.objects@[
                            idx
                        ].location@,
                forall|j: int|
                    0 <= j < common_prefixes@.len() ==> (#[trigger] common_prefixes@[
                        j
                    ]).wf() && common_prefixes@[j]@.len() == base@.len() + 1 && exists|
                        k: Seq<Seq<char>>,
                    |
                        self.has_object(k) && deep_child(base@, k) && common_prefixes@[j]@
                            == k.take(base@.len() + 1 as int),
                forall|idx: int|
                    0 <= idx < i && deep_child(
                        base@,
                        (#[trigger] self.objects@[idx]).location@,
                    ) ==> exists|j: int|
                        0 <= j < common_prefixes@.len() && common_prefixes@[j]@
                            == self.objects@[idx].location@.take(base@.len() + 1 as int),
                forall|j1: int, j2: int|
                    0 <= j1 < common_prefixes@.len() && 0 <= j2 < common_prefixes@.len() && j1
                        != j2 ==> common_prefixes@[j1]@ != common_prefixes@[j2]@,
        {
            let loc = &self.objects[i].location;
            if loc.starts_with(base) {
                proof {
                    self.lemma_lookup(self.objects@[i as int].location@, i as int);
                }
                let loc_len = loc.len();
                if loc_len > base_len && loc_len - base_len == 1 {
                    let ghost pre = objects@;
                    objects.push(ObjectMetadata {
                        location: loc.duplicate(),
                        size: self.objects[i].data.len() as u64,
                        last_modified: self.objects[i].last_modified,
                    });
                    proof {
                        origin = origin.push(i as int);
                        assert(forall|j: int| 0 <= j < pre.len() ==> objects@[j] == pre[j]);
                        assert(objects@[pre.len() as int].location@ == self.objects@[
                            i as int
                        ].location@);
                        assert forall|idx: int|
                            0 <= idx < i + 1 && direct_child(
                                base@,
                                (#[trigger] self.objects@[idx]).location@,
                            ) implies exists|j: int|
                            0 <= j < objects@.len() && objects@[j].location@ == self.objects@[
                                idx
                            ].location@ by {
                            if idx < i {
                                let j = choose|j: int|
                                    0 <= j < pre.len() && pre[j].location@ == self.objects@[
                                        idx
                                    ].location@;
                                assert(objects@[j].location@ == self.objects@[idx].location@);
                            } else {
                                assert(objects@[pre.len() as int].location@ == self.objects@[
                                    idx
                                ].location@);
                            }
                        }
                    }
                } else if loc_len > base_len && loc_len - base_len > 1 {
                    let cp = loc.take_prefix(base_len + 1);
                    proof {
                        assert(cp@ == self.objects@[i as int].location@.take(
                            base@.len() + 1 as int,
                        ));
                    }
                    let dup_here = contains_path(&common_prefixes, &cp);
                    if !dup_here {
                        let ghost pre = common_prefixes@;
                        common_prefixes.push(cp);
                        proof {
                            let ii = i as int;
                            assert(forall|j: int|
                                0 <= j < pre.len() ==> common_prefixes@[j] == pre[j]);
                            assert(common_prefixes@[pre.len() as int]@ == self.objects@[
                                ii
                            ].location@.take(base@.len() + 1 as int));
                            assert forall|j: int|
                                0 <= j < common_prefixes@.len() implies (
                            #[trigger] common_prefixes@[j]).wf() && common_prefixes@[j]@.len()
                                == base@.len() + 1 && exists|k: Seq<Seq<char>>|
                                self.has_object(k) && deep_child(base@, k)
                                    && common_prefixes@[j]@ == k.take(
                                    base@.len() + 1 as int,
                                ) by {
                                if j < pre.len() {
                                    let k = choose|k: Seq<Seq<char>>|
                                        self.has_object(k) && deep_child(base@, k) && pre[j]@
                                            == k.take(base@.len() + 1 as int);
                                    assert(self.has_object(k) && deep_child(base@, k)
                                        && common_prefixes@[j]@ == k.take(
                                        base@.len() + 1 as int,
                                    ));
                                } else {
                                    let k = self.objects@[ii].location@;
                                    assert(self.has_object(k) && deep_child(base@, k)
                                        && common_prefixes@[j]@ == k.take(
                                        base@.len() + 1 as int,
                                    ));
                                }
                            }
                            assert forall|idx: int|
                                0 <= idx < i + 1 && deep_child(
                                    base@,
                                    (#[trigger] self.objects@[idx]).location@,
                                ) implies exists|j: int|
                                0 <= j < common_prefixes@.len() && common_prefixes@[j]@
                                    == self.objects@[idx].location@.take(
                                    base@.len() + 1 as int,
                                ) by {
                                if idx < ii {
                                    let j = choose|j: int|
                                        0 <= j < pre.len() && pre[j]@ == self.objects@[
                                            idx
                                        ].location@.take(base@.len() + 1 as int);
                                    assert(common_prefixes@[j]@ == self.objects@[
                                        idx
                                    ].location@.take(base@.len() + 1 as int));
                                }
                            }
                        }
                    } else {
                        proof {
                            let ii = i as int;
                            assert forall|idx: int|
                                0 <= idx < i + 1 && deep_child(
                                    base@,
                                    (#[trigger] self.objects@[idx]).location@,
                                ) implies exists|jj: int|
                                0 <= jj < common_prefixes@.len() && common_prefixes@[jj]@
                                    == self.objects@[idx].location@.take(
                                    base@.len() + 1 as int,
                                ) by {
                                if idx == ii {
                                    let j = choose|j: int|
                                        0 <= j < common_prefixes@.len() && (
                                        #[trigger] common_prefixes@[j])@ == cp@;
                                    assert(common_prefixes@[j]@ == self.objects@[
                                        ii
                                    ].location@.take(base@.len() + 1 as int));
                                }
                            }
                        }
                    }
                }
            }
        }
        proof {
            assert forall|k: Seq<Seq<char>>|
                #[trigger] self.has_object(k) && direct_child(base@, k) implies exists|j: int|
                0 <= j < objects@.len() && objects@[j].location@ == k by {
                let idx = self.index_of(k);
                assert(0 <= idx < n && self.objects@[idx].location@ == k);
            }
            assert forall|k: Seq<Seq<char>>|
                #[trigger] self.has_object(k) && deep_child(base@, k) implies exists|j: int|
                0 <= j < common_prefixes@.len() && common_prefixes@[j]@ == k.take(
                    base@.len() + 1 as int,
                ) by {
                let idx = self.index_of(k);
                assert(0 <= idx < n && self.objects@[idx].location@ == k);
            }
            assert forall|j1: int, j2: int|
                0 <= j1 < objects@.len() && 0 <= j2 < objects@.len() && j1 != j2 implies objects@[
                j1
            ].location@ != objects@[j2].location@ by {
                assert(origin[j1] != origin[j2]);
            }
        }
        let ghost gobj = objects@;
        let ghost gcp = common_prefixes@;
        let r = ListResult { common_prefixes, objects };
        proof {
            assert(r.objects@ == gobj);
            assert(r.common_prefixes@ == gcp);
            assert forall|k: Seq<Seq<char>>|
                #[trigger] self.has_object(k) && direct_child(base@, k) implies exists|j: int|
                0 <= j < r.objects@.len() && r.objects@[j].location@ == k by {
                let j = choose|j: int| 0 <= j < gobj.len() && gobj[j].location@ == k;
                assert(r.objects@[j].location@ == k);
            }
            assert forall|k: Seq<Seq<char>>|
                #[trigger] self.has_object(k) && deep_child(base@, k) implies exists|j: int|
                0 <= j < r.common_prefixes@.len() && r.common_prefixes@[j]@ == k.take(
                    base@.len() + 1 as int,
                ) by {
                let j = choose|j: int|
                    0 <= j < gcp.len() && gcp[j]@ == k.take(base@.len() + 1 as int);
                assert(r.common_prefixes@[j]@ == k.take(base@.len() + 1 as int));
            }
            assert forall|j: int| 0 <= j < r.common_prefixes@.len() implies (
            #[trigger] r.common_prefixes@[j]).wf() && exists|k: Seq<Seq<char>>|
                self.has_object(k) && deep_child(base@, k) && r.common_prefixes@[j]@ == k.take(
                    base@.len() + 1 as int,
                ) by {
                assert(r.common_prefixes@[j] == gcp[j]);
                let k = choose|k: Seq<Seq<char>>|
                    self.has_object(k) && deep_child(base@, k) && gcp[j]@ == k.take(
                        base@.len() + 1 as int,
                    );
                assert(self.has_object(k) && deep_child(base@, k) && r.common_prefixes@[j]@
                    == k.take(base@.len() + 1 as int));
            }
        }
        r
    }

    /// Starts a multipart upload session aimed at `location`. The returned
    /// identifier stays valid for the store's lifetime.
    pub fn begin_multipart(&mut self, location: &StorePath) -> (id: usize)
        requires
            old(self).inv(),
            location.wf(),
        ensures
            final(self).inv(),
            id == old(self).session_count(),
            final(self).session_count() == old(self).session_count() + 1,
            final(self).session_state(id as int) is Active,
            final(self).session_location(id as int) == location@,
            final(self).session_parts(id as int) == Seq::<Seq<u8>>::empty(),
            forall|j: int|
                0 <= j < old(self).session_count() ==> final(self).session_state(j) == old(
                    self,
                ).session_state(j) && final(self).session_location(j) == old(
                    self,
                ).session_location(j) && final(self).session_parts(j) == old(
                    self,
                ).session_parts(j),
            old(self).same_objects(*final(self)),
            final(self).now() == old(self).now(),
    {
        let id = self.sessions.len();
        let ghost pre = *self;
        self.sessions.push(UploadSession {
            location: location.duplicate(),
            parts: Vec::new(),
            state: SessionState::Active,
        });
        proof {
            Self::lemma_objects_congruence(pre, *self);
            assert(self.session_parts(id as int) =~= Seq::<Seq<u8>>::empty());
        }
        id
    }

    /// Uploads `data` as the next part of session `id`. Fails on a session
    /// that is not active, leaving the store untouched.
    pub fn put_part(&mut self, id: usize, data: Vec<u8>) -> (r: Result<(), StorageError>)
        requires
            old(self).inv(),
        ensures
            final(self).inv(),
            r is Ok <==> id < old(self).session_count() && old(self).session_state(
                id as int,
            ) is Active,
            r is Err ==> *final(self) == *old(self) && r matches Err(
                StorageError::BackendError { .. },
            ),
            final(self).session_count() == old(self).session_count(),
            r is Ok ==> final(self).session_parts(id as int) == old(self).session_parts(
                id as int,
            ).push(data@) && final(self).session_state(id as int) is Active && final(self).session_location(id as int) == old(self).session_location(id as int),
            forall|j: int|
                0 <= j < old(self).session_count() && j != id ==> final(self).session_state(j)
                    == old(self).session_state(j) && final(self).session_location(j) == old(
                    self,
                ).session_location(j) && final(self).session_parts(j) == old(
                    self,
                ).session_parts(j),
            old(self).same_objects(*final(self)),
            final(self).now() == old(self).now(),
    {
        if id >= self.sessions.len() {
            return Err(StorageError::BackendError {
                message: String::from_str("no such multipart upload session"),
            });
        }
        let active = match self.sessions[id].state {
            SessionState::Active => true,
            _ => false,
        };
        if !active {
            return Err(StorageError::BackendError {
                message: String::from_str("multipart upload session is not active"),
            });
        }
        let ghost pre = *self;
        let mut parts = clone_parts(&self.sessions[id].parts);
        let ghost parts_pre = parts;
        let ghost datag = data;
        parts.push(data);
        proof {
            lemma_parts_push(parts_pre, parts, datag);
        }
        let location = self.sessions[id].location.duplicate();
        self.sessions.set(id, UploadSession { location, parts, state: SessionState::Active });
        proof {
            Self::lemma_objects_congruence(pre, *self);
        }
        Ok(())
    }

    /// Completes session `id`: its parts, concatenated in upload order,
    /// become the object at the session's location, and the session leaves
    /// the active state for good. Fails on a session that is not active,
    /// leaving the store untouched.
    pub fn complete_multipart(&mut self, id: usize) -> (r: Result<(), StorageError>)
        requires
            old(self).inv(),
        ensures
            final(self).inv(),
            r is Ok <==> id < old(self).session_count() && old(self).session_state(
                id as int,
            ) is Active,
            r is Err ==> *final(self) == *old(self) && r matches Err(
                StorageError::BackendError { .. },
            ),
            final(self).session_count() == old(self).session_count(),
            r is Ok ==> {
                let loc = old(self).session_location(id as int);
                &&& final(self).session_state(id as int) is Completed
                &&& final(self).session_location(id as int) == loc
                &&& final(self).session_parts(id as int) == old(self).session_parts(id as int)
                &&& final(self).has_object(loc)
                &&& final(self).object_data(loc) == old(self).session_parts(
                    id as int,
                ).flatten()
                &&& forall|k: Seq<Seq<char>>|
                    k != loc ==> final(self).has_object(k) == old(self).has_object(k)
                &&& forall|k: Seq<Seq<char>>|
                    k != loc && old(self).has_object(k) ==> final(self).object_data(k) == old(
                        self,
                    ).object_data(k) && final(self).object_mtime(k) == old(
                        self,
                    ).object_mtime(k)
            },
            forall|j: int|
                0 <= j < old(self).session_count() && j != id ==> final(self).session_state(j)
                    == old(self).session_state(j) && final(self).session_location(j) == old(
                    self,
                ).session_location(j) && final(self).session_parts(j) == old(
                    self,
                ).session_parts(j),
    {
        if id >= self.sessions.len() {
            return Err(StorageError::BackendError {
                message: String::from_str("no such multipart upload session"),
            });
        }
        let active = match self.sessions[id].state {
            SessionState::Active => true,
            _ => false,
        };
        if !active {
            return Err(StorageError::BackendError {
                message: String::from_str("multipart upload session is not active"),
            });
        }
        let data = concat_parts(&self.sessions[id].parts);
        let parts = clone_parts(&self.sessions[id].parts);
        let location = self.sessions[id].location.duplicate();
        let target = self.sessions[id].location.duplicate();
        proof {
            assert(self.inv());
        }
        match self.put(&target, data) {
            Ok(()) => {},
            Err(e) => {
                return Err(e);
            },
        }
        let ghost mid = *self;
        self.sessions.set(
            id,
            UploadSession { location, parts, state: SessionState::Completed },
        );
        proof {
            Self::lemma_objects_congruence(mid, *self);
        }
        Ok(())
    }

    /// Aborts session `id`: the session leaves the active state for good
    /// and no object is written. Fails on a session that is not active,
    /// leaving the store untouched.
    pub fn abort_multipart(&mut self, id: usize) -> (r: Result<(), StorageError>)
        requires
            old(self).inv(),
        ensures
            final(self).inv(),
            r is Ok <==> id < old(self).session_count() && old(self).session_state(
                id as int,
            ) is Active,
            r is Err ==> *final(self) == *old(self) && r matches Err(
                StorageError::BackendError { .. },
            ),
            final(self).session_count() == old(self).session_count(),
            r is Ok ==> final(self).session_state(id as int) is Aborted && final(self).session_location(id as int) == old(self).session_location(id as int) && final(self).session_parts(id as int) == old(self).session_parts(id as int),
            forall|j: int|
                0 <= j < old(self).session_count() && j != id ==> final(self).session_state(j)
                    == old(self).session_state(j) && final(self).session_location(j) == old(
                    self,
                ).session_location(j) && final(self).session_parts(j) == old(
                    self,
                ).session_parts(j),
            old(self).same_objects(*final(self)),
            final(self).now() == old(self).now(),
    {
        if id >= self.sessions.len() {
            return Err(StorageError::BackendError {
                message: String::from_str("no such multipart upload session"),
            });
        }
        let active = match self.sessions[id].state {
            SessionState::Active => true,
            _ => false,
        };
        if !active {
            return Err(StorageError::BackendError {
                message: String::from_str("multipart upload session is not active"),
            });
        }
        let ghost pre = *self;
        let parts = clone_parts(&self.sessions[id].parts);
        let location = self.sessions[id].location.duplicate();
        self.sessions.set(
            id,
            UploadSession { location, parts, state: SessionState::Aborted },
        );
        proof {
            Self::lemma_objects_congruence(pre, *self);
        }
        Ok(())
    }
}

/// The longest location among a list of entries, in segments.
spec fn max_len_rec(entries: Seq<ObjectEntry>) -> nat
    decreases entries.len(),
{
    if entries.len() == 0 {
        0
    } else {
        let rest = max_len_rec(entries.drop_first());
        if entries[0].location@.len() > rest {
            entries[0].location@.len()
        } else {
            rest
        }
    }
}

/// Each entry's location length is below the maximum.
proof fn lemma_max_len_rec(entries: Seq<ObjectEntry>, i: int)
    requires
        0 <= i < entries.len(),
    ensures
        entries[i].location@.len() <= max_len_rec(entries),
    decreases entries.len(),
{
    if i > 0 {
        lemma_max_len_rec(entries.drop_first(), i - 1);
        assert(entries.drop_first()[i - 1] == entries[i]);
    }
}

/// A vector's view never outgrows a machine word.
proof fn vec_len_bound<T>(v: &Vec<T>)
    ensures
        v@.len() <= usize::MAX,
{
    vstd::std_specs::vec::axiom_spec_len(v);
    assert(vstd::std_specs::vec::spec_vec_len(v) == v@.len());
}

/// Pushing a buffer appends its view to the part list's deep view.
proof fn lemma_parts_push(pre: Vec<Vec<u8>>, post: Vec<Vec<u8>>, x: Vec<u8>)
    requires
        post@ == pre@.push(x),
    ensures
        post.deep_view() == pre.deep_view().push(x@),
{
    assert forall|j: int| 0 <= j < post.deep_view().len() implies post.deep_view()[j]
        == pre.deep_view().push(x@)[j] by {
        assert(post.deep_view()[j] == post@[j].deep_view());
        if j < pre@.len() {
            assert(post@[j] == pre@[j]);
            assert(pre.deep_view()[j] == pre@[j].deep_view());
        } else {
            assert(post@[j] == x);
        }
    }
    assert(post.deep_view() =~= pre.deep_view().push(x@));
}

/// Byte-for-byte copy of a part list.
fn clone_parts(parts: &Vec<Vec<u8>>) -> (r: Vec<Vec<u8>>)
    ensures
        r.deep_view() == parts.deep_view(),
{
    let mut r: Vec<Vec<u8>> = Vec::new();
    let n = parts.len();
    proof {
        assert(r.deep_view() =~= parts.deep_view().take(0));
    }
    for i in 0..n
        invariant
            n == parts@.len(),
            r.deep_view() =~= parts.deep_view().take(i as int),
    {
        let ghost pre = r;
        let part = clone_bytes(&parts[i]);
        let ghost partg = part;
        r.push(part);
        proof {
            lemma_parts_push(pre, r, partg);
            assert(parts.deep_view()[i as int] == parts@[i as int]@);
            assert(r.deep_view() =~= parts.deep_view().take(i + 1));
        }
    }
    proof {
        assert(parts.deep_view().take(n as int) =~= parts.deep_view());
    }
    r
}

/// The bytes of all parts in order: what completing the upload stores.
fn concat_parts(parts: &Vec<Vec<u8>>) -> (r: Vec<u8>)
    ensures
        r@ == parts.deep_view().flatten(),
{
    let mut r: Vec<u8> = Vec::new();
    let n = parts.len();
    proof {
        assert(parts.deep_view().take(0) =~= Seq::<Seq<u8>>::empty());
        assert(Seq::<Seq<u8>>::empty().flatten() =~= Seq::<u8>::empty());
    }
    for i in 0..n
        invariant
            n == parts@.len(),
            r@ =~= parts.deep_view().take(i as int).flatten(),
    {
        let ghost pre = r@;
        let part = &parts[i];
        let m = part.len();
        for b in 0..m
            invariant
                m == part@.len(),
                r@ =~= pre + part@.take(b as int),
        {
            r.push(part[b]);
            proof {
                assert(r@ =~= pre + part@.take(b + 1));
            }
        }
        proof {
            let dv = parts.deep_view();
            assert(part@.take(m as int) =~= part@);
            assert(dv.take(i + 1) =~= dv.take(i as int).push(dv[i as int]));
            dv.take(i as int).lemma_flatten_push(dv[i as int]);
            assert(dv[i as int] == parts@[i as int]@);
            assert(r@ =~= dv.take(i + 1).flatten());
        }
    }
    proof {
        assert(parts.deep_view().take(n as int) =~= parts.deep_view());
    }
    r
}

/// Whether some path in the vector has exactly these segments.
pub fn contains_path(v: &Vec<StorePath>, p: &StorePath) -> (r: bool)
    ensures
        r == exists|j: int| 0 <= j < v@.len() && (#[trigger] v@[j])@ == p@,
{
    let n = v.len();
    for i in 0..n
        invariant
            n == v@.len(),
            forall|j: int| 0 <= j < i ==> (#[trigger] v@[j])@ != p@,
    {
        if v[i].same_as(p) {
            return true;
        }
    }
    false
}

/// Byte-for-byte copy of a buffer.
pub fn clone_bytes(data: &Vec<u8>) -> (r: Vec<u8>)
    ensures
        r@ == data@,
{
    let mut r: Vec<u8> = Vec::new();
    let n = data.len();
    for i in 0..n
        invariant
            n == data@.len(),
            r@ =~= data@.take(i as int),
    {
        r.push(data[i]);
        proof {
            assert(r@ =~= data@.take(i + 1));
        }
    }
    proof {
        assert(data@.take(n as int) =~= data@);
    }
    r
}

/// The bytes `[start, end)` of a buffer.
pub fn copy_byte_range(data: &Vec<u8>, start: usize, end: usize) -> (r: Vec<u8>)
    requires
        start <= end <= data@.len(),
    ensures
        r@ == data@.subrange(start as int, end as int),
{
    let mut r: Vec<u8> = Vec::new();
    for i in start..end
        invariant
            start <= i <= end <= data@.len(),
            r@ =~= data@.subrange(start as int, i as int),
    {
        r.push(data[i]);
        proof {
            assert(r@ =~= data@.subrange(start as int, i + 1));
        }
    }
    r
}

} // verus!
