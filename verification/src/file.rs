//! File-like handles over a scoped store: a random-access readable handle
//! and a sequential, multipart-backed writable stream.

use vstd::prelude::*;

use crate::error::StorageError;
use crate::memory::SessionState;
use crate::path::StorePath;
use crate::prefix::PrefixObjectStore;

verus! {

/// A readable, seekable, immutable-length view over one object.
///
/// The content length is a snapshot taken when the handle is opened; the
/// object is assumed immutable for the handle's lifetime. The handle moves
/// from open to closed once and never back.
pub struct ObjectInputFile {
    path: StorePath,
    content_length: i64,
    pos: i64,
    closed: bool,
}

impl ObjectInputFile {
    /// The scope-relative path this handle reads.
    pub closed spec fn path_view(self) -> Seq<Seq<char>> {
        self.path@
    }

    /// The byte size snapshot taken at open time.
    pub closed spec fn content_length(self) -> int {
        self.content_length as int
    }

    /// The current read position.
    pub closed spec fn pos(self) -> int {
        self.pos as int
    }

    /// Whether the handle was closed.
    pub closed spec fn is_closed(self) -> bool {
        self.closed
    }

    /// The position stays inside the file at every observable point.
    pub closed spec fn wf(self) -> bool {
        0 <= self.pos <= self.content_length && self.path.wf()
    }

    /// The handle still describes the store: the object is present and its
    /// length is the snapshot taken at open time.
    pub open spec fn valid_for(self, store: PrefixObjectStore) -> bool {
        store.scope_has(self.path_view()) && store.scope_data(self.path_view()).len()
            == self.content_length()
    }

    /// Where a seek call aims, before any range check.
    pub open spec fn seek_target(self, offset: int, whence: int) -> int {
        if whence == 0 {
            offset
        } else if whence == 1 {
            self.pos() + offset
        } else {
            self.content_length() - offset
        }
    }

    /// The end of the range a read call serves.
    pub open spec fn read_end(self, nbytes: Option<i64>) -> int {
        match nbytes {
            Some(len) => if self.pos() + len < self.content_length() {
                self.pos() + len
            } else {
                self.content_length()
            },
            None => self.content_length(),
        }
    }

    /// Opens the object at `path`: looks its size up immediately, so that
    /// a missing object fails at open time rather than at first read.
    pub fn try_new(store: &PrefixObjectStore, path: StorePath) -> (r: Result<
        ObjectInputFile,
        StorageError,
    >)
        requires
            store.inv(),
            path.wf(),
        ensures
            r is Ok <==> store.scope_has(path@) && store.scope_data(path@).len() <= i64::MAX,
            r matches Ok(f) ==> f.path_view() == path@ && f.content_length()
                == store.scope_data(path@).len() && f.pos() == 0 && !f.is_closed() && f.wf()
                && f.valid_for(*store),
            !store.scope_has(path@) ==> r matches Err(StorageError::NotFound { .. }),
    {
        let meta = match store.head(&path) {
            Ok(meta) => meta,
            Err(e) => {
                return Err(e);
            },
        };
        if meta.size > i64::MAX as u64 {
            return Err(StorageError::BackendError {
                message: String::from_str("object is too large for a seekable handle"),
            });
        }
        Ok(ObjectInputFile { path, content_length: meta.size as i64, pos: 0, closed: false })
    }

    /// Fails with `ClosedHandle` once the handle was closed.
    pub fn check_closed(&self) -> (r: Result<(), StorageError>)
        ensures
            r is Ok <==> !self.is_closed(),
            r is Err ==> r matches Err(StorageError::ClosedHandle),
    {
        if self.closed {
            Err(StorageError::ClosedHandle)
        } else {
            Ok(())
        }
    }

    /// Rejects positions outside `[0, content_length]`; the position equal
    /// to the length is end-of-file and is legal. Never clamps.
    pub fn check_position(&self, position: i64, action: &str) -> (r: Result<(), StorageError>)
        ensures
            r is Ok <==> 0 <= position <= self.content_length(),
            r is Err ==> r matches Err(StorageError::PositionOutOfRange { .. }),
    {
        if position < 0 {
            return Err(StorageError::PositionOutOfRange {
                message: String::from_str("cannot ").concat(action).concat(
                    " for negative position",
                ),
            });
        }
        if position > self.content_length {
            return Err(StorageError::PositionOutOfRange {
                message: String::from_str("cannot ").concat(action).concat(
                    " past end of file",
                ),
            });
        }
        Ok(())
    }

    /// Marks the handle closed. Contacts no backend and is safe to repeat.
    pub fn close(&mut self) -> (r: Result<(), StorageError>)
        ensures
            r is Ok,
            final(self).is_closed(),
            final(self).path_view() == old(self).path_view(),
            final(self).content_length() == old(self).content_length(),
            final(self).pos() == old(self).pos(),
    {
        self.closed = true;
        Ok(())
    }

    /// The handle is not a terminal.
    pub fn isatty(&self) -> (r: bool)
        ensures
            r == false,
    {
        false
    }

    /// The handle serves reads.
    pub fn readable(&self) -> (r: bool)
        ensures
            r == true,
    {
        true
    }

    /// The handle serves seeks.
    pub fn seekable(&self) -> (r: bool)
        ensures
            r == true,
    {
        true
    }

    /// The handle refuses writes.
    pub fn writable(&self) -> (r: bool)
        ensures
            r == false,
    {
        false
    }

    /// The current position, or `ClosedHandle`.
    pub fn tell(&self) -> (r: Result<i64, StorageError>)
        ensures
            self.is_closed() ==> r matches Err(StorageError::ClosedHandle),
            !self.is_closed() ==> (r matches Ok(p) && p == self.pos()),
    {
        self.check_closed()?;
        Ok(self.pos)
    }

    /// The content length snapshot, or `ClosedHandle`.
    pub fn size(&self) -> (r: Result<i64, StorageError>)
        ensures
            self.is_closed() ==> r matches Err(StorageError::ClosedHandle),
            !self.is_closed() ==> (r matches Ok(n) && n == self.content_length()),
    {
        self.check_closed()?;
        Ok(self.content_length)
    }

    /// Moves the read position: `whence` 0 is absolute, 1 is relative to
    /// the current position, 2 counts back from the end of the file. A
    /// resulting position that is negative or past the end fails with
    /// `PositionOutOfRange` and never clamps. Returns the new position.
    pub fn seek(&mut self, offset: i64, whence: i64) -> (r: Result<i64, StorageError>)
        requires
            old(self).wf(),
        ensures
            final(self).wf(),
            final(self).path_view() == old(self).path_view(),
            final(self).content_length() == old(self).content_length(),
            final(self).is_closed() == old(self).is_closed(),
            old(self).is_closed() ==> (r matches Err(StorageError::ClosedHandle) && final(self).pos() == old(self).pos()),
            !old(self).is_closed() && !(0 <= whence <= 2) ==> (r matches Err(
                StorageError::Unsupported { .. },
            ) && final(self).pos() == old(self).pos()),
            !old(self).is_closed() && 0 <= whence <= 2 ==> {
                let t = old(self).seek_target(offset as int, whence as int);
                if 0 <= t <= old(self).content_length() {
                    r matches Ok(p) && p == t && final(self).pos() == t
                } else {
                    r matches Err(StorageError::PositionOutOfRange { .. }) && final(self).pos()
                        == old(self).pos()
                }
            },
    {
        self.check_closed()?;
        if whence < 0 || whence > 2 {
            return Err(StorageError::Unsupported {
                operation: String::from_str("seek with 'whence' outside 0..=2"),
            });
        }
        let target: i64 = if whence == 0 {
            self.check_position(offset, "seek")?;
            offset
        } else if whence == 1 {
            if offset >= 0 {
                if offset > self.content_length - self.pos {
                    return Err(StorageError::PositionOutOfRange {
                        message: String::from_str("cannot seek past end of file"),
                    });
                }
            } else {
                if offset < -self.pos {
                    return Err(StorageError::PositionOutOfRange {
                        message: String::from_str("cannot seek for negative position"),
                    });
                }
            }
            self.pos + offset
        } else {
            self.check_position(offset, "seek")?;
            self.content_length - offset
        };
        self.pos = target;
        Ok(target)
    }

    /// Reads from the current position: the next `nbytes` bytes, clipped
    /// to the end of the file, or everything up to the end when no count
    /// is given. Advances the position by the bytes actually served; a
    /// read at end-of-file returns no bytes without a backend call.
    pub fn read(&mut self, store: &PrefixObjectStore, nbytes: Option<i64>) -> (r: Result<
        Vec<u8>,
        StorageError,
    >)
        requires
            store.inv(),
            old(self).wf(),
            !old(self).is_closed() ==> old(self).valid_for(*store),
            nbytes matches Some(len) ==> len >= 0,
        ensures
            final(self).wf(),
            final(self).path_view() == old(self).path_view(),
            final(self).content_length() == old(self).content_length(),
            final(self).is_closed() == old(self).is_closed(),
            old(self).is_closed() ==> (r matches Err(StorageError::ClosedHandle) && final(self).pos() == old(self).pos()),
            !old(self).is_closed() ==> {
                let end = old(self).read_end(nbytes);
                r matches Ok(data) && data@ == store.scope_data(
                    old(self).path_view(),
                ).subrange(old(self).pos(), end) && final(self).pos() == end
            },
    {
        self.check_closed()?;
        proof {
            store.lemma_scope_data_fits(old(self).path_view());
        }
        let end: i64 = match nbytes {
            Some(len) => {
                if len > self.content_length - self.pos {
                    self.content_length
                } else {
                    self.pos + len
                }
            },
            None => self.content_length,
        };
        let start = self.pos;
        self.pos = end;
        if start < end {
            let data = match store.get_range(&self.path, start as usize, end as usize) {
                Ok(data) => data,
                Err(_) => {
                    proof {
                        assert(false);
                    }
                    Vec::new()
                },
            };
            Ok(data)
        } else {
            let data: Vec<u8> = Vec::new();
            proof {
                assert(data@ =~= store.scope_data(old(self).path_view()).subrange(
                    old(self).pos(),
                    old(self).read_end(nbytes),
                ));
            }
            Ok(data)
        }
    }

    /// File descriptors are not part of this surface.
    pub fn fileno(&self) -> (r: Result<i64, StorageError>)
        ensures
            r matches Err(StorageError::Unsupported { .. }),
    {
        Err(StorageError::Unsupported { operation: String::from_str("fileno") })
    }

    /// The handle is read-only and cannot truncate.
    pub fn truncate(&self) -> (r: Result<(), StorageError>)
        ensures
            r matches Err(StorageError::Unsupported { .. }),
    {
        Err(StorageError::Unsupported { operation: String::from_str("truncate") })
    }

    /// Line-oriented reads are not part of this surface.
    pub fn readline(&self, _size: Option<i64>) -> (r: Result<Vec<u8>, StorageError>)
        ensures
            r matches Err(StorageError::Unsupported { .. }),
    {
        Err(StorageError::Unsupported { operation: String::from_str("readline") })
    }

    /// Line-oriented reads are not part of this surface.
    pub fn readlines(&self, _hint: Option<i64>) -> (r: Result<Vec<Vec<u8>>, StorageError>)
        ensures
            r matches Err(StorageError::Unsupported { .. }),
    {
        Err(StorageError::Unsupported { operation: String::from_str("readlines") })
    }
}

/// How a single stream operation may move its upload session: an active
/// session may stay active or terminate; a terminated session never
/// changes again.
pub open spec fn session_transition_ok(pre: SessionState, post: SessionState) -> bool {
    if pre is Active {
        true
    } else {
        post == pre
    }
}

/// The step from `pre` to `post` is the one terminal call of the session:
/// the transition out of the active state.
pub open spec fn session_terminates(pre: SessionState, post: SessionState) -> bool {
    pre is Active && !(post is Active)
}

/// A writable, append-only view over one object, backed by a multipart
/// upload session. Parts are uploaded in call order; the stream moves from
/// open to closed once and never back.
pub struct ObjectOutputStream {
    path: StorePath,
    session_id: usize,
    pos: i64,
    closed: bool,
}

impl ObjectOutputStream {
    /// The scope-relative path this stream writes.
    pub closed spec fn path_view(self) -> Seq<Seq<char>> {
        self.path@
    }

    /// The upload session this stream drives.
    pub closed spec fn session_id(self) -> int {
        self.session_id as int
    }

    /// Bytes accepted so far.
    pub closed spec fn pos(self) -> int {
        self.pos as int
    }

    /// Whether the stream was closed.
    pub closed spec fn is_closed(self) -> bool {
        self.closed
    }

    /// The byte count is sensible and the path well-formed.
    pub closed spec fn wf(self) -> bool {
        0 <= self.pos && self.path.wf()
    }

    /// The stream's session exists in the store and aims at the stream's
    /// path.
    pub open spec fn valid_for(self, store: PrefixObjectStore) -> bool {
        self.session_id() < store.inner_store().session_count()
            && store.inner_store().session_location(self.session_id()) == store.full_key(
            self.path_view(),
        )
    }

    /// The state of this stream's session in the store.
    pub open spec fn session_state(self, store: PrefixObjectStore) -> SessionState {
        store.inner_store().session_state(self.session_id())
    }

    /// Opens a writable stream at `path`: eagerly begins a multipart
    /// upload session, so the caller learns immediately if writes are
    /// impossible.
    pub fn try_new(store: &mut PrefixObjectStore, path: StorePath) -> (r: Result<
        ObjectOutputStream,
        StorageError,
    >)
        requires
            old(store).inv(),
            path.wf(),
        ensures
            final(store).inv(),
            final(store).prefix_view() == old(store).prefix_view(),
            r is Ok,
            r matches Ok(f) ==> f.path_view() == path@ && f.pos() == 0 && !f.is_closed()
                && f.wf() && f.valid_for(*final(store)) && f.session_state(
                *final(store),
            ) is Active && final(store).inner_store().session_parts(f.session_id())
                == Seq::<Seq<u8>>::empty() && f.session_id() == old(store).inner_store().session_count(),
            final(store).inner_store().session_count() == old(store).inner_store().session_count() + 1,
            forall|j: int|
                0 <= j < old(store).inner_store().session_count() ==> final(store).inner_store().session_state(j) == old(store).inner_store().session_state(j)
                    && final(store).inner_store().session_location(j) == old(store).inner_store().session_location(j) && final(store).inner_store().session_parts(j) == old(store).inner_store().session_parts(j),
            forall|rel: Seq<Seq<char>>|
                final(store).scope_has(rel) == old(store).scope_has(rel),
            forall|rel: Seq<Seq<char>>|
                old(store).scope_has(rel) ==> final(store).scope_data(rel) == old(store).scope_data(rel),
    {
        let session_id = store.put_multipart(&path);
        Ok(ObjectOutputStream { path, session_id, pos: 0, closed: false })
    }

    /// Fails with `ClosedHandle` once the stream was closed.
    pub fn check_closed(&self) -> (r: Result<(), StorageError>)
        ensures
            r is Ok <==> !self.is_closed(),
            r is Err ==> r matches Err(StorageError::ClosedHandle),
    {
        if self.closed {
            Err(StorageError::ClosedHandle)
        } else {
            Ok(())
        }
    }

    /// The stream is not a terminal.
    pub fn isatty(&self) -> (r: bool)
        ensures
            r == false,
    {
        false
    }

    /// The stream refuses reads.
    pub fn readable(&self) -> (r: bool)
        ensures
            r == false,
    {
        false
    }

    /// The stream refuses seeks.
    pub fn seekable(&self) -> (r: bool)
        ensures
            r == false,
    {
        false
    }

    /// The stream serves writes.
    pub fn writable(&self) -> (r: bool)
        ensures
            r == true,
    {
        true
    }

    /// Bytes accepted so far, or `ClosedHandle`.
    pub fn tell(&self) -> (r: Result<i64, StorageError>)
        ensures
            self.is_closed() ==> r matches Err(StorageError::ClosedHandle),
            !self.is_closed() ==> (r matches Ok(p) && p == self.pos()),
    {
        self.check_closed()?;
        Ok(self.pos)
    }

    /// The stream has no size; it fails with `ClosedHandle` once closed.
    pub fn size(&self) -> (r: Result<i64, StorageError>)
        ensures
            self.is_closed() ==> r matches Err(StorageError::ClosedHandle),
            !self.is_closed() ==> r matches Err(StorageError::Unsupported { .. }),
    {
        self.check_closed()?;
        Err(StorageError::Unsupported { operation: String::from_str("size") })
    }

    /// The stream is non-seekable; it fails with `ClosedHandle` once
    /// closed.
    pub fn seek(&self, _offset: i64, _whence: i64) -> (r: Result<i64, StorageError>)
        ensures
            self.is_closed() ==> r matches Err(StorageError::ClosedHandle),
            !self.is_closed() ==> r matches Err(StorageError::Unsupported { .. }),
    {
        self.check_closed()?;
        Err(StorageError::Unsupported { operation: String::from_str("seek") })
    }

    /// The stream is write-only; it fails with `ClosedHandle` once closed.
    pub fn read(&self, _nbytes: Option<i64>) -> (r: Result<Vec<u8>, StorageError>)
        ensures
            self.is_closed() ==> r matches Err(StorageError::ClosedHandle),
            !self.is_closed() ==> r matches Err(StorageError::Unsupported { .. }),
    {
        self.check_closed()?;
        Err(StorageError::Unsupported { operation: String::from_str("read") })
    }

    /// Uploads exactly the given bytes as the next part of the session,
    /// in call order, and returns how many bytes were accepted. On a
    /// failed upload the stream tries to abort the whole session before
    /// surfacing an error; if the abort itself fails, the abort's error is
    /// what surfaces.
    pub fn write(&mut self, store: &mut PrefixObjectStore, data: Vec<u8>) -> (r: Result<
        i64,
        StorageError,
    >)
        requires
            old(store).inv(),
            old(self).wf(),
            !old(self).is_closed() ==> old(self).valid_for(*old(store)),
            data@.len() <= i64::MAX,
            !old(self).is_closed() ==> old(self).pos() + data@.len() <= i64::MAX,
        ensures
            final(store).inv(),
            final(store).prefix_view() == old(store).prefix_view(),
            final(self).wf(),
            final(self).path_view() == old(self).path_view(),
            final(self).session_id() == old(self).session_id(),
            final(self).is_closed() == old(self).is_closed(),
            old(self).is_closed() ==> (r matches Err(StorageError::ClosedHandle) && *final(store) == *old(store) && final(self).pos() == old(self).pos()),
            !old(self).is_closed() ==> session_transition_ok(
                old(self).session_state(*old(store)),
                final(self).session_state(*final(store)),
            ),
            !old(self).is_closed() && old(self).session_state(*old(store)) is Active ==> (
            r matches Ok(n) && n == data@.len() && final(self).pos() == old(self).pos()
                + data@.len() && final(self).session_state(*final(store)) is Active && final(store).inner_store().session_parts(old(self).session_id()) == old(store).inner_store().session_parts(old(self).session_id()).push(data@) && final(store).inner_store().session_location(old(self).session_id()) == old(store).inner_store().session_location(old(self).session_id()) && final(store).inner_store().session_count() == old(store).inner_store().session_count()),
            !old(self).is_closed() && !(old(self).session_state(*old(store)) is Active) ==> (
            r matches Err(StorageError::BackendError { .. }) && *final(store) == *old(store)
                && final(self).pos() == old(self).pos()),
            forall|rel: Seq<Seq<char>>|
                final(store).scope_has(rel) == old(store).scope_has(rel),
            forall|rel: Seq<Seq<char>>|
                old(store).scope_has(rel) ==> final(store).scope_data(rel) == old(store).scope_data(rel),
    {
        self.check_closed()?;
        let len = data.len() as i64;
        match store.put_part(self.session_id, data) {
            Ok(()) => {
                self.pos = self.pos + len;
                Ok(len)
            },
            Err(e) => {
                match store.abort_multipart(self.session_id) {
                    Ok(()) => Err(e),
                    Err(abort_err) => Err(abort_err),
                }
            },
        }
    }

    /// Completes the multipart session without closing the stream: a
    /// later write or close is still accepted, though it will find the
    /// session already terminated. On a failed completion the stream
    /// tries to abort the session; if the abort itself fails, the abort's
    /// error is what surfaces.
    pub fn flush(&mut self, store: &mut PrefixObjectStore) -> (r: Result<(), StorageError>)
        requires
            old(store).inv(),
            old(self).wf(),
            !old(self).is_closed() ==> old(self).valid_for(*old(store)),
        ensures
            final(store).inv(),
            final(store).prefix_view() == old(store).prefix_view(),
            final(self).wf(),
            final(self).path_view() == old(self).path_view(),
            final(self).session_id() == old(self).session_id(),
            final(self).is_closed() == old(self).is_closed(),
            final(self).pos() == old(self).pos(),
            old(self).is_closed() ==> (r matches Err(StorageError::ClosedHandle) && *final(store) == *old(store)),
            !old(self).is_closed() ==> session_transition_ok(
                old(self).session_state(*old(store)),
                final(self).session_state(*final(store)),
            ),
            !old(self).is_closed() && old(self).session_state(*old(store)) is Active ==> (
            r is Ok && final(self).session_state(*final(store)) is Completed && final(store).scope_has(old(self).path_view()) && final(store).scope_data(
                old(self).path_view(),
            ) == old(store).inner_store().session_parts(old(self).session_id()).flatten()
                && (forall|rel: Seq<Seq<char>>|
                rel != old(self).path_view() ==> final(store).scope_has(rel) == old(store).scope_has(rel))),
            !old(self).is_closed() && !(old(self).session_state(*old(store)) is Active) ==> (
            r matches Err(StorageError::BackendError { .. }) && *final(store) == *old(store)),
    {
        self.check_closed()?;
        let r = match store.complete_multipart(self.session_id) {
            Ok(()) => Ok(()),
            Err(e) => {
                match store.abort_multipart(self.session_id) {
                    Ok(()) => Err(e),
                    Err(abort_err) => Err(abort_err),
                }
            },
        };
        proof {
            if !old(self).is_closed() && old(self).session_state(*old(store)) is Active {
                assert forall|rel: Seq<Seq<char>>|
                    rel != old(self).path_view() implies final(store).scope_has(rel) == old(store).scope_has(rel) by {
                    if store.full_key(rel) == store.full_key(old(self).path_view()) {
                        store.lemma_full_key_injective(rel, old(self).path_view());
                    }
                }
            }
        }
        r
    }

    /// Marks the stream closed and completes the multipart session; on a
    /// failed completion it aborts the session instead. Either way the
    /// session is terminated exactly once across the stream's lifetime.
    pub fn close(&mut self, store: &mut PrefixObjectStore) -> (r: Result<(), StorageError>)
        requires
            old(store).inv(),
            old(self).wf(),
            !old(self).is_closed() ==> old(self).valid_for(*old(store)),
        ensures
            final(store).inv(),
            final(store).prefix_view() == old(store).prefix_view(),
            final(self).wf(),
            final(self).path_view() == old(self).path_view(),
            final(self).session_id() == old(self).session_id(),
            final(self).pos() == old(self).pos(),
            old(self).is_closed() ==> (r matches Err(StorageError::ClosedHandle) && *final(store) == *old(store) && final(self).is_closed()),
            !old(self).is_closed() ==> final(self).is_closed() && session_transition_ok(
                old(self).session_state(*old(store)),
                final(self).session_state(*final(store)),
            ),
            !old(self).is_closed() && old(self).session_state(*old(store)) is Active ==> (
            r is Ok && final(self).session_state(*final(store)) is Completed && final(store).scope_has(old(self).path_view()) && final(store).scope_data(
                old(self).path_view(),
            ) == old(store).inner_store().session_parts(old(self).session_id()).flatten()),
            !old(self).is_closed() && !(old(self).session_state(*old(store)) is Active) ==> (
            r matches Err(StorageError::BackendError { .. }) && *final(store) == *old(store)),
    {
        self.check_closed()?;
        self.closed = true;
        match store.complete_multipart(self.session_id) {
            Ok(()) => Ok(()),
            Err(e) => {
                match store.abort_multipart(self.session_id) {
                    Ok(()) => Err(e),
                    Err(abort_err) => Err(abort_err),
                }
            },
        }
    }

    /// File descriptors are not part of this surface.
    pub fn fileno(&self) -> (r: Result<i64, StorageError>)
        ensures
            r matches Err(StorageError::Unsupported { .. }),
    {
        Err(StorageError::Unsupported { operation: String::from_str("fileno") })
    }

    /// The stream is append-only and cannot truncate.
    pub fn truncate(&self) -> (r: Result<(), StorageError>)
        ensures
            r matches Err(StorageError::Unsupported { .. }),
    {
        Err(StorageError::Unsupported { operation: String::from_str("truncate") })
    }

    /// Line-oriented reads are not part of this surface.
    pub fn readline(&self, _size: Option<i64>) -> (r: Result<Vec<u8>, StorageError>)
        ensures
            r matches Err(StorageError::Unsupported { .. }),
    {
        Err(StorageError::Unsupported { operation: String::from_str("readline") })
    }

    /// Line-oriented reads are not part of this surface.
    pub fn readlines(&self, _hint: Option<i64>) -> (r: Result<Vec<Vec<u8>>, StorageError>)
        ensures
            r matches Err(StorageError::Unsupported { .. }),
    {
        Err(StorageError::Unsupported { operation: String::from_str("readlines") })
    }
}

/// Law: on an open handle over an object of length `L`, an absolute seek
/// to any position `0 <= pos <= L` succeeds, and a full read from there —
/// whose contract serves the byte range from the new position to the end
/// of the file — returns exactly `L - pos` bytes; at `pos == L` it
/// returns no bytes at all.
pub proof fn lemma_seek_then_read_length(
    h: ObjectInputFile,
    store: PrefixObjectStore,
    pos: int,
)
    requires
        h.valid_for(store),
        0 <= pos <= h.content_length(),
    ensures
        h.seek_target(pos, 0) == pos,
        store.scope_data(h.path_view()).subrange(pos, h.content_length()).len()
            == h.content_length() - pos,
        pos == h.content_length() ==> store.scope_data(h.path_view()).subrange(
            pos,
            h.content_length(),
        ) == Seq::<u8>::empty(),
{
    if pos == h.content_length() {
        assert(store.scope_data(h.path_view()).subrange(pos, h.content_length())
            =~= Seq::<u8>::empty());
    }
}

/// Once a session has left the active state, it never moves again.
proof fn lemma_terminal_stable(states: Seq<SessionState>, i: int, j: int)
    requires
        forall|t: int|
            0 <= t < states.len() - 1 ==> session_transition_ok(
                #[trigger] states[t],
                states[t + 1],
            ),
        0 <= i <= j < states.len(),
        !(states[i] is Active),
    ensures
        states[j] == states[i],
    decreases j - i,
{
    if j > i {
        lemma_terminal_stable(states, i, j - 1);
    }
}

/// Law: across any sequence of stream operations, each of which moves the
/// upload session as `session_transition_ok` allows, the session leaves
/// the active state at most once — so at most one terminal call, complete
/// or abort, ever takes effect. Together with `close`, which guarantees
/// the session is terminated afterwards, the session is terminated by
/// exactly one effective terminal call across the stream's lifetime.
pub proof fn lemma_session_terminated_once(states: Seq<SessionState>, i: int, j: int)
    requires
        forall|t: int|
            0 <= t < states.len() - 1 ==> session_transition_ok(
                #[trigger] states[t],
                states[t + 1],
            ),
        0 <= i < j < states.len() - 1,
        session_terminates(states[i], states[i + 1]),
    ensures
        !session_terminates(states[j], states[j + 1]),
{
    lemma_terminal_stable(states, i + 1, j);
}

} // verus!
