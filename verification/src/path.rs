//! Locations inside a store: ordered sequences of URL-safe path segments.
//!
//! A location's canonical string form joins its segments with `/`, with no
//! leading or trailing delimiter. Equality is segment-wise.

use vstd::prelude::*;

use crate::error::StorageError;

verus! {

/// A well-formed segment: nonempty, holds no delimiter, and is neither of
/// the relative markers `.` and `..`.
pub open spec fn seg_wf(s: Seq<char>) -> bool {
    &&& s.len() > 0
    &&& forall|i: int| 0 <= i < s.len() ==> s[i] != '/'
    &&& !(s.len() == 1 && s[0] == '.')
    &&& !(s.len() == 2 && s[0] == '.' && s[1] == '.')
}

/// `p` is a segment-wise prefix of `s`.
pub open spec fn is_prefix_of(p: Seq<Seq<char>>, s: Seq<Seq<char>>) -> bool {
    p.len() <= s.len() && forall|i: int| 0 <= i < p.len() ==> s[i] == p[i]
}

/// A location in a store, kept as its segments.
pub struct StorePath {
    segments: Vec<String>,
}

impl View for StorePath {
    type V = Seq<Seq<char>>;

    closed spec fn view(&self) -> Seq<Seq<char>> {
        self.segments.deep_view()
    }
}

/// No delimiter occurs in the character range.
pub open spec fn no_slash(cs: Seq<char>) -> bool {
    forall|i: int| 0 <= i < cs.len() ==> cs[i] != '/'
}

/// Splitting on `/` with the segment built so far in `cur`: empty segments
/// are dropped, so repeated, leading and trailing delimiters vanish.
pub open spec fn split_rec(s: Seq<char>, cur: Seq<char>) -> Seq<Seq<char>>
    decreases s.len(),
{
    if s.len() == 0 {
        if cur.len() == 0 {
            Seq::empty()
        } else {
            seq![cur]
        }
    } else if s[0] == '/' {
        (if cur.len() == 0 {
            Seq::empty()
        } else {
            seq![cur]
        }) + split_rec(s.skip(1), Seq::empty())
    } else {
        split_rec(s.skip(1), cur.push(s[0]))
    }
}

/// The nonempty `/`-separated segments of a path string, in order.
pub open spec fn split_slash(s: Seq<char>) -> Seq<Seq<char>> {
    split_rec(s, Seq::empty())
}

/// All segments of a split are well-formed.
pub open spec fn splits_wf(ss: Seq<Seq<char>>) -> bool {
    forall|i: int| 0 <= i < ss.len() ==> seg_wf(#[trigger] ss[i])
}

/// The canonical string form: segments joined by `/`, with no leading or
/// trailing delimiter.
pub open spec fn joined(ss: Seq<Seq<char>>) -> Seq<char>
    decreases ss.len(),
{
    if ss.len() == 0 {
        Seq::empty()
    } else if ss.len() == 1 {
        ss[0]
    } else {
        joined(ss.drop_last()) + seq!['/'] + ss.last()
    }
}

/// Pushing a segment appends its view to the vector's deep view.
pub proof fn lemma_deep_view_push(pre: Vec<String>, post: Vec<String>, x: String)
    requires
        post@ == pre@.push(x),
    ensures
        post.deep_view() == pre.deep_view().push(x@),
{
    assert forall|j: int| 0 <= j < post.deep_view().len() implies post.deep_view()[j]
        == pre.deep_view().push(x@)[j] by {
        assert(post.deep_view()[j] == post@[j].deep_view());
        if j < pre@.len() {
            assert(post@[j] == pre@[j]);
            assert(pre.deep_view()[j] == pre@[j].deep_view());
        } else {
            assert(post@[j] == x);
        }
    }
    assert(post.deep_view() =~= pre.deep_view().push(x@));
}

impl StorePath {
    /// Appends copies of the segments with indices `from..to` of `src`.
    fn append_range(dst: &mut Vec<String>, src: &Vec<String>, from: usize, to: usize)
        requires
            from <= to <= src@.len(),
        ensures
            final(dst).deep_view() == old(dst).deep_view() + src.deep_view().subrange(
                from as int,
                to as int,
            ),
    {
        let ghost base = dst.deep_view();
        for i in from..to
            invariant
                from <= i <= to <= src@.len(),
                dst.deep_view() =~= base + src.deep_view().subrange(from as int, i as int),
        {
            let ghost pre = *dst;
            let x = src[i].clone();
            let ghost xg = x;
            dst.push(x);
            proof {
                lemma_deep_view_push(pre, *dst, xg);
                assert(src.deep_view()[i as int] == src@[i as int]@);
                assert(dst.deep_view() =~= base + src.deep_view().subrange(from as int, i + 1));
            }
        }
    }

    /// Copies the segments with indices `from..to` into a fresh vector.
    fn copy_range(src: &Vec<String>, from: usize, to: usize) -> (r: Vec<String>)
        requires
            from <= to <= src@.len(),
        ensures
            r.deep_view() == src.deep_view().subrange(from as int, to as int),
    {
        let mut r: Vec<String> = Vec::new();
        Self::append_range(&mut r, src, from, to);
        r
    }

    /// Every segment of the path is well-formed.
    pub open spec fn wf(&self) -> bool {
        forall|i: int| 0 <= i < self@.len() ==> seg_wf(#[trigger] self@[i])
    }

    /// The empty path: the root of whatever store it is handed to.
    pub fn empty() -> (r: StorePath)
        ensures
            r@ == Seq::<Seq<char>>::empty(),
            r.wf(),
    {
        let r = StorePath { segments: Vec::new() };
        proof {
            assert(r@ =~= Seq::<Seq<char>>::empty());
        }
        r
    }

    /// Number of segments.
    pub fn len(&self) -> (r: usize)
        ensures
            r == self@.len(),
    {
        self.segments.len()
    }

    /// A copy with the same segments.
    pub fn duplicate(&self) -> (r: StorePath)
        ensures
            r@ == self@,
    {
        let n = self.segments.len();
        let segments = Self::copy_range(&self.segments, 0, n);
        proof {
            assert(self@.subrange(0, n as int) =~= self@);
        }
        StorePath { segments }
    }

    /// Segment-wise equality.
    pub fn same_as(&self, other: &StorePath) -> (r: bool)
        ensures
            r == (self@ == other@),
    {
        if self.segments.len() != other.segments.len() {
            proof {
                assert(self@.len() == self.segments@.len());
                assert(other@.len() == other.segments@.len());
            }
            return false;
        }
        let n = self.segments.len();
        for i in 0..n
            invariant
                n == self.segments.len() == other.segments.len(),
                forall|j: int| 0 <= j < i ==> self@[j] == other@[j],
        {
            if !(self.segments[i] == other.segments[i]) {
                proof {
                    assert(self@[i as int] == self.segments@[i as int]@);
                    assert(other@[i as int] == other.segments@[i as int]@);
                }
                return false;
            }
            proof {
                assert(self@[i as int] == other@[i as int]);
            }
        }
        proof {
            assert(self@ =~= other@);
        }
        true
    }

    /// Whether this path starts with `prefix`, segment by segment.
    pub fn starts_with(&self, prefix: &StorePath) -> (r: bool)
        ensures
            r == is_prefix_of(prefix@, self@),
    {
        if prefix.segments.len() > self.segments.len() {
            return false;
        }
        let n = prefix.segments.len();
        for i in 0..n
            invariant
                n == prefix.segments.len() <= self.segments.len(),
                forall|j: int| 0 <= j < i ==> self@[j] == prefix@[j],
        {
            if !(self.segments[i] == prefix.segments[i]) {
                proof {
                    assert(self@[i as int] == self.segments@[i as int]@);
                    assert(prefix@[i as int] == prefix.segments@[i as int]@);
                }
                return false;
            }
            proof {
                assert(self@[i as int] == prefix@[i as int]);
            }
        }
        true
    }

    /// This path followed by all segments of `other`.
    pub fn join(&self, other: &StorePath) -> (r: StorePath)
        ensures
            r@ == self@ + other@,
            self.wf() && other.wf() ==> r.wf(),
    {
        let mut segments: Vec<String> = self.duplicate().segments;
        let n = other.segments.len();
        Self::append_range(&mut segments, &other.segments, 0, n);
        proof {
            assert(other@.subrange(0, n as int) =~= other@);
        }
        let r = StorePath { segments };
        proof {
            if self.wf() && other.wf() {
                assert forall|i: int| 0 <= i < r@.len() implies seg_wf(#[trigger] r@[i]) by {
                    if i < self@.len() {
                        assert(r@[i] == self@[i]);
                    } else {
                        assert(r@[i] == other@[i - self@.len()]);
                    }
                }
            }
        }
        r
    }

    /// The remainder after `prefix`, or `None` when this path does not start
    /// with it. A path equal to the prefix leaves the empty remainder.
    pub fn strip_prefix_of(&self, prefix: &StorePath) -> (r: Option<StorePath>)
        ensures
            r is Some <==> is_prefix_of(prefix@, self@),
            r matches Some(rest) ==> rest@ == self@.skip(prefix@.len() as int),
            r matches Some(rest) ==> (self.wf() ==> rest.wf()),
    {
        if !self.starts_with(prefix) {
            return None;
        }
        let start = prefix.segments.len();
        let n = self.segments.len();
        let segments = Self::copy_range(&self.segments, start, n);
        let r = StorePath { segments };
        proof {
            assert(r@ =~= self@.skip(prefix@.len() as int));
            if self.wf() {
                assert forall|i: int| 0 <= i < r@.len() implies seg_wf(#[trigger] r@[i]) by {
                    assert(r@[i] == self@[i + prefix@.len()]);
                }
            }
        }
        Some(r)
    }

    /// Rejects the relative markers `.` and `..` as a segment.
    fn check_segment(seg: &str) -> (r: Result<(), StorageError>)
        requires
            seg@.len() > 0,
            no_slash(seg@),
        ensures
            r is Ok <==> seg_wf(seg@),
            r is Err ==> r matches Err(StorageError::PathSyntax { .. }),
    {
        let n = seg.unicode_len();
        if n == 1 && seg.get_char(0) == '.' {
            return Err(StorageError::PathSyntax {
                message: String::from_str("path segment '.' is not allowed"),
            });
        }
        if n == 2 && seg.get_char(0) == '.' && seg.get_char(1) == '.' {
            return Err(StorageError::PathSyntax {
                message: String::from_str("path segment '..' is not allowed"),
            });
        }
        Ok(())
    }

    /// Parses a path string: splits on `/`, drops empty segments, and
    /// rejects the relative markers `.` and `..`.
    pub fn parse(s: &str) -> (r: Result<StorePath, StorageError>)
        ensures
            r matches Ok(p) ==> p@ == split_slash(s@) && p.wf(),
            r is Ok <==> splits_wf(split_slash(s@)),
            r is Err ==> r matches Err(StorageError::PathSyntax { .. }),
    {
        let n = s.unicode_len();
        let mut segments: Vec<String> = Vec::new();
        let mut start: usize = 0;
        let mut i: usize = 0;
        proof {
            assert(segments.deep_view() =~= Seq::<Seq<char>>::empty());
            assert(s@.skip(0) =~= s@);
            assert(s@.subrange(0, 0) =~= Seq::<char>::empty());
        }
        while i < n
            invariant
                start <= i <= n == s@.len(),
                no_slash(s@.subrange(start as int, i as int)),
                split_slash(s@) == segments.deep_view() + split_rec(
                    s@.skip(i as int),
                    s@.subrange(start as int, i as int),
                ),
                splits_wf(segments.deep_view()),
            decreases n - i,
        {
            let c = s.get_char(i);
            if c == '/' {
                proof {
                    assert(s@.skip(i as int)[0] == '/');
                    assert(s@.skip(i as int).skip(1) =~= s@.skip(i + 1));
                    assert(s@.subrange(i + 1, i + 1) =~= Seq::<char>::empty());
                }
                if i > start {
                    let seg = s.substring_char(start, i).to_owned();
                    let ghost segs_pre = segments;
                    match Self::check_segment(seg.as_str()) {
                        Ok(()) => {},
                        Err(e) => {
                            proof {
                                let ss = split_slash(s@);
                                assert(ss[segments.deep_view().len() as int] == seg@);
                            }
                            return Err(e);
                        },
                    }
                    let ghost segv = seg;
                    segments.push(seg);
                    proof {
                        lemma_deep_view_push(segs_pre, segments, segv);
                    }
                }
                start = i + 1;
            } else {
                proof {
                    assert(s@.skip(i as int)[0] == s@[i as int]);
                    assert(s@.skip(i as int).skip(1) =~= s@.skip(i + 1));
                    assert(s@.subrange(start as int, i + 1) =~= s@.subrange(
                        start as int,
                        i as int,
                    ).push(s@[i as int]));
                }
            }
            i += 1;
        }
        proof {
            assert(s@.skip(n as int) =~= Seq::<char>::empty());
        }
        if n > start {
            let seg = s.substring_char(start, n).to_owned();
            let ghost segs_pre = segments;
            match Self::check_segment(seg.as_str()) {
                Ok(()) => {},
                Err(e) => {
                    proof {
                        let ss = split_slash(s@);
                        assert(ss[segments.deep_view().len() as int] == seg@);
                    }
                    return Err(e);
                },
            }
            let ghost segv = seg;
            segments.push(seg);
            proof {
                lemma_deep_view_push(segs_pre, segments, segv);
            }
        }
        let r = StorePath { segments };
        proof {
            assert(r@ =~= split_slash(s@));
        }
        Ok(r)
    }

    /// The canonical string form: segments joined by `/`.
    pub fn to_string(&self) -> (r: String)
        ensures
            r@ == joined(self@),
    {
        let mut out = String::new();
        let n = self.segments.len();
        for i in 0..n
            invariant
                n == self.segments@.len(),
                out@ == joined(self@.take(i as int)),
        {
            if i > 0 {
                proof {
                    reveal_strlit("/");
                }
                out.append("/");
            }
            out.append(self.segments[i].as_str());
            proof {
                assert(self@[i as int] == self.segments@[i as int]@);
                if i == 0 {
                    assert(joined(self@.take(1)) == self@.take(1)[0]);
                } else {
                    let t = self@.take(i + 1);
                    assert(t.drop_last() =~= self@.take(i as int));
                    assert(t.last() == self@[i as int]);
                    assert("/"@ =~= seq!['/']);
                    assert(joined(t) == joined(self@.take(i as int)) + seq!['/'] + self@[
                        i as int
                    ]);
                }
            }
        }
        proof {
            assert(self@.take(n as int) =~= self@);
        }
        out
    }

    /// The first `n` segments of this path.
    pub fn take_prefix(&self, n: usize) -> (r: StorePath)
        requires
            n <= self@.len(),
        ensures
            r@ == self@.take(n as int),
            self.wf() ==> r.wf(),
    {
        let segments = Self::copy_range(&self.segments, 0, n);
        let r = StorePath { segments };
        proof {
            assert(r@ =~= self@.take(n as int));
            if self.wf() {
                assert forall|i: int| 0 <= i < r@.len() implies seg_wf(#[trigger] r@[i]) by {
                    assert(r@[i] == self@[i]);
                }
            }
        }
        r
    }
}

/// Stripping a joined prefix gives back exactly the scope-relative path:
/// for all prefixes `p` and relative paths `q`, the remainder of `p + q`
/// after `p` is `q`.
pub proof fn lemma_strip_of_join(p: Seq<Seq<char>>, q: Seq<Seq<char>>)
    ensures
        is_prefix_of(p, p + q),
        (p + q).skip(p.len() as int) == q,
{
    assert((p + q).skip(p.len() as int) =~= q);
}

} // verus!
