//! The result-stream pipeline's scheduler: a bounded window of chunk
//! fetches with an ordered or unordered hand-over policy.
//!
//! The caller performs the fetches; the scheduler decides which chunk
//! to dispatch next, never keeps more than the parallelism bound in
//! flight, buffers completions, and hands them over: in listed order in
//! ordered mode, in completion order otherwise. Either way every chunk
//! is handed over exactly once.

use vstd::prelude::*;

use crate::errors::{ErrorKind, SnowflakeError};

verus! {

/// Relies on flate2's GzDecoder (read_to_end): the decompressed bytes,
/// or failure, depend on the input bytes alone.
pub uninterp spec fn gunzip_of(b: Seq<u8>) -> Option<Seq<u8>>;

/// Relies on flate2's GzDecoder to inflate one gzip-compressed chunk.
#[verifier::external_body]
fn gunzip(bytes: &Vec<u8>) -> (r: Option<Vec<u8>>)
    ensures
        match r {
            Some(v) => gunzip_of(bytes@) == Some(v@),
            None => gunzip_of(bytes@) is None,
        },
{
    let mut gz = flate2::read::GzDecoder::new(bytes.as_slice());
    let mut out = Vec::new();
    match std::io::Read::read_to_end(&mut gz, &mut out) {
        Ok(_) => Some(out),
        Err(_) => None,
    }
}

/// The two gzip magic bytes open the chunk.
pub open spec fn is_gzip(b: Seq<u8>) -> bool {
    b.len() > 2 && b[0] == 0x1f && b[1] == 0x8b
}

/// Inflates a chunk when its first bytes are the gzip magic header, and
/// passes it through unchanged otherwise.
pub fn decompress_chunk(bytes: Vec<u8>) -> (r: Result<Vec<u8>, SnowflakeError>)
    ensures
        match r {
            Ok(v) => if is_gzip(bytes@) {
                gunzip_of(bytes@) == Some(v@)
            } else {
                v@ == bytes@
            },
            Err(e) => is_gzip(bytes@) && gunzip_of(bytes@) is None && e.kind
                == ErrorKind::DecodeError,
        },
{
    if bytes.len() > 2 && bytes[0] == 0x1f && bytes[1] == 0x8b {
        match gunzip(&bytes) {
            Some(v) => Ok(v),
            None => Err(
                SnowflakeError::new(
                    ErrorKind::DecodeError,
                    String::from_str("failed to decompress chunk"),
                ),
            ),
        }
    } else {
        Ok(bytes)
    }
}

/// `x` is the index of some buffered completion.
pub open spec fn buf_contains(b: Seq<(usize, Vec<u8>)>, x: usize) -> bool {
    exists|j: int| 0 <= j < b.len() && (#[trigger] b[j]).0 == x
}

/// The scheduler for one response's chunk list.
pub struct ChunkScheduler {
    /// How many chunks the response listed.
    pub total: usize,
    /// The parallelism bound: at most this many fetches in flight.
    pub parallel: usize,
    /// Hand completions over in listed order.
    pub ordered: bool,
    /// The next chunk index to dispatch.
    pub next_start: usize,
    /// Dispatched and not yet completed.
    pub in_flight: Vec<usize>,
    /// Completed and not yet handed over.
    pub buffered: Vec<(usize, Vec<u8>)>,
    /// In ordered mode, the next index owed to the consumer.
    pub next_yield: usize,
    /// The indices handed over so far, oldest first.
    pub yielded: Ghost<Seq<usize>>,
}

impl ChunkScheduler {
    /// Every chunk index below `next_start` is in exactly one place:
    /// already handed over, in flight, or buffered; the window never
    /// exceeds the parallelism bound; and in ordered mode the hand-over
    /// history is exactly the first `next_yield` indices, ascending.
    pub open spec fn wf(&self) -> bool {
        &&& self.parallel >= 1
        &&& self.next_start <= self.total
        &&& self.in_flight@.len() <= self.parallel
        &&& self.in_flight@.no_duplicates()
        &&& (forall|j: int|
            0 <= j < self.in_flight@.len() ==> #[trigger] self.in_flight@[j] < self.next_start)
        &&& (forall|j1: int, j2: int|
            0 <= j1 < j2 < self.buffered@.len() ==> (#[trigger] self.buffered@[j1]).0 != (
            #[trigger] self.buffered@[j2]).0)
        &&& (forall|j: int|
            0 <= j < self.buffered@.len() ==> (#[trigger] self.buffered@[j]).0 < self.next_start)
        &&& self.yielded@.no_duplicates()
        &&& (forall|j: int|
            0 <= j < self.yielded@.len() ==> #[trigger] self.yielded@[j] < self.next_start)
        &&& (forall|x: usize| #[trigger] self.yielded@.contains(x) ==> !self.in_flight@.contains(x))
        &&& (forall|x: usize| #[trigger] self.yielded@.contains(x) ==> !buf_contains(self.buffered@, x))
        &&& (forall|x: usize| #[trigger] self.in_flight@.contains(x) ==> !buf_contains(self.buffered@, x))
        &&& (forall|x: usize|
            x < self.next_start ==> (#[trigger] self.yielded@.contains(x)
                || self.in_flight@.contains(x) || buf_contains(self.buffered@, x)))
        &&& (self.ordered ==> self.next_yield <= self.next_start && self.yielded@ == Seq::new(
            self.next_yield as nat,
            |i: int| i as usize,
        ))
    }

    pub fn new(total: usize, parallel: usize, ordered: bool) -> (r: ChunkScheduler)
        requires
            parallel >= 1,
        ensures
            r.wf(),
            r.total == total,
            r.parallel == parallel,
            r.ordered == ordered,
            r.next_start == 0,
            r.in_flight@.len() == 0,
            r.buffered@.len() == 0,
            r.next_yield == 0,
            r.yielded@ == Seq::<usize>::empty(),
    {
        let r = ChunkScheduler {
            total,
            parallel,
            ordered,
            next_start: 0,
            in_flight: Vec::new(),
            buffered: Vec::new(),
            next_yield: 0,
            yielded: Ghost(Seq::empty()),
        };
        proof {
            assert(r.yielded@ =~= Seq::new(0, |i: int| i as usize));
        }
        r
    }

    /// Dispatches the next chunk when a window slot is free and chunks
    /// remain: backpressure keeps the window within the bound whatever
    /// the consumer's pull rate.
    pub fn start_next(&mut self) -> (r: Option<usize>)
        requires
            old(self).wf(),
        ensures
            final(self).wf(),
            match r {
                Some(i) => {
                    &&& old(self).in_flight@.len() < old(self).parallel
                    &&& old(self).next_start < old(self).total
                    &&& i == old(self).next_start
                    &&& final(self).next_start == old(self).next_start + 1
                    &&& final(self).in_flight@ == old(self).in_flight@.push(i)
                },
                None => {
                    &&& (old(self).in_flight@.len() >= old(self).parallel || old(self).next_start
                        == old(self).total)
                    &&& *final(self) == *old(self)
                },
            },
            final(self).total == old(self).total,
            final(self).parallel == old(self).parallel,
            final(self).ordered == old(self).ordered,
            final(self).buffered@ == old(self).buffered@,
            final(self).next_yield == old(self).next_yield,
            final(self).yielded@ == old(self).yielded@,
    {
        if self.in_flight.len() < self.parallel && self.next_start < self.total {
            let i = self.next_start;
            self.in_flight.push(i);
            self.next_start = self.next_start + 1;
            proof {
                assert(!old(self).in_flight@.contains(i)) by {
                    if old(self).in_flight@.contains(i) {
                        let k = choose|k: int|
                            0 <= k < old(self).in_flight@.len() && old(self).in_flight@[k] == i;
                        assert(old(self).in_flight@[k] < i);
                        assert(false);
                    }
                }
                assert(!old(self).yielded@.contains(i)) by {
                    if old(self).yielded@.contains(i) {
                        let k = choose|k: int|
                            0 <= k < old(self).yielded@.len() && old(self).yielded@[k] == i;
                        assert(old(self).yielded@[k] < i);
                        assert(false);
                    }
                }
                assert(self.in_flight@.no_duplicates()) by {
                    assert forall|k1: int, k2: int|
                        0 <= k1 < k2 < self.in_flight@.len() implies self.in_flight@[k1]
                        != self.in_flight@[k2] by {
                        if k2 == self.in_flight@.len() - 1 {
                            assert(self.in_flight@[k2] == i);
                            assert(self.in_flight@[k1] == old(self).in_flight@[k1]);
                            if old(self).in_flight@[k1] == i {
                                assert(old(self).in_flight@.contains(i));
                                assert(false);
                            }
                        } else {
                            assert(self.in_flight@[k1] == old(self).in_flight@[k1]);
                            assert(self.in_flight@[k2] == old(self).in_flight@[k2]);
                        }
                    }
                }
                assert forall|k: int|
                    0 <= k < self.in_flight@.len() implies #[trigger] self.in_flight@[k]
                    < self.next_start by {
                    if k < old(self).in_flight@.len() {
                        assert(self.in_flight@[k] == old(self).in_flight@[k]);
                    }
                }
                assert forall|x: usize| #[trigger] self.yielded@.contains(x) implies
                    !self.in_flight@.contains(x) && !buf_contains(self.buffered@, x) by {
                    lemma_push_contains(old(self).in_flight@, i, x);
                    assert(old(self).yielded@.contains(x));
                }
                assert forall|x: usize| #[trigger] self.in_flight@.contains(x) implies
                    !buf_contains(self.buffered@, x) by {
                    lemma_push_contains(old(self).in_flight@, i, x);
                    if x == i {
                        if buf_contains(self.buffered@, i) {
                            let k = choose|k: int|
                                0 <= k < self.buffered@.len() && self.buffered@[k].0 == i;
                            assert(old(self).buffered@[k].0 < i);
                            assert(false);
                        }
                    } else {
                        assert(old(self).in_flight@.contains(x));
                    }
                }
                assert forall|x: usize|
                    x < self.next_start implies (#[trigger] self.yielded@.contains(x)
                    || self.in_flight@.contains(x) || buf_contains(self.buffered@, x)) by {
                    lemma_push_contains(old(self).in_flight@, i, x);
                    if x < old(self).next_start {
                        assert(old(self).yielded@.contains(x) || old(self).in_flight@.contains(x)
                            || buf_contains(old(self).buffered@, x));
                    } else {
                        assert(x == i);
                    }
                }
            }
            Some(i)
        } else {
            None
        }
    }

    /// Records one fetch's completion: the chunk leaves the window and
    /// its bytes wait in the buffer. Unknown indices are refused.
    pub fn complete(&mut self, idx: usize, bytes: Vec<u8>) -> (r: bool)
        requires
            old(self).wf(),
        ensures
            final(self).wf(),
            r == old(self).in_flight@.contains(idx),
            r ==> !final(self).in_flight@.contains(idx) && buf_contains(final(self).buffered@, idx)
                && final(self).in_flight@.len() == old(self).in_flight@.len() - 1
                && final(self).buffered@ == old(self).buffered@.push((idx, bytes)),
            !r ==> *final(self) == *old(self),
            final(self).total == old(self).total,
            final(self).parallel == old(self).parallel,
            final(self).ordered == old(self).ordered,
            final(self).next_start == old(self).next_start,
            final(self).next_yield == old(self).next_yield,
            final(self).yielded@ == old(self).yielded@,
    {
        let len = self.in_flight.len();
        let mut j: usize = 0;
        while j < len
            invariant
                old(self).wf(),
                len == self.in_flight@.len(),
                j <= len,
                forall|k: int| 0 <= k < j ==> self.in_flight@[k] != idx,
                *self == *old(self),
            decreases len - j,
        {
            if self.in_flight[j] == idx {
                let ghost old_in_flight = self.in_flight@;
                self.in_flight.remove(j);
                self.buffered.push((idx, bytes));
                proof {
                    assert(old_in_flight.contains(idx));
                    lemma_remove_contains(old_in_flight, j as int, idx);
                    assert(buf_contains(self.buffered@, idx)) by {
                        assert(self.buffered@[self.buffered@.len() - 1].0 == idx);
                    }
                    lemma_complete_wf(*old(self), *self, idx, j as int, self.buffered@.last());
                }
                return true;
            }
            j = j + 1;
        }
        false
    }

    /// Hands over the next completion the policy allows: the buffered
    /// chunk with the next listed index in ordered mode, the newest
    /// completion otherwise. `None` means nothing is owed yet.
    pub fn pop_ready(&mut self) -> (r: Option<(usize, Vec<u8>)>)
        requires
            old(self).wf(),
        ensures
            final(self).wf(),
            match r {
                Some(p) => {
                    &&& buf_contains(old(self).buffered@, p.0)
                    &&& final(self).yielded@ == old(self).yielded@.push(p.0)
                    &&& final(self).buffered@.len() == old(self).buffered@.len() - 1
                    &&& (old(self).ordered ==> p.0 == old(self).next_yield
                        && final(self).next_yield == old(self).next_yield + 1)
                },
                None => {
                    &&& final(self).buffered@ == old(self).buffered@
                    &&& final(self).yielded@ == old(self).yielded@
                    &&& final(self).next_yield == old(self).next_yield
                    &&& (old(self).ordered ==> !buf_contains(
                        old(self).buffered@,
                        old(self).next_yield,
                    ))
                    &&& (!old(self).ordered ==> old(self).buffered@.len() == 0)
                },
            },
            final(self).total == old(self).total,
            final(self).parallel == old(self).parallel,
            final(self).ordered == old(self).ordered,
            final(self).next_start == old(self).next_start,
            final(self).in_flight@ == old(self).in_flight@,
    {
        if self.ordered {
            let len = self.buffered.len();
            let mut j: usize = 0;
            while j < len
                invariant
                    old(self).wf(),
                    old(self).ordered,
                    len == self.buffered@.len(),
                    j <= len,
                    forall|k: int| 0 <= k < j ==> (#[trigger] self.buffered@[k]).0 != self.next_yield,
                    *self == *old(self),
                decreases len - j,
            {
                if self.buffered[j].0 == self.next_yield {
                    let ghost old_buffered = self.buffered@;
                    let p = self.buffered.remove(j);
                    let ghost old_yielded = self.yielded@;
                    proof {
                        self.yielded@ = old_yielded.push(p.0);
                    }
                    self.next_yield = self.next_yield + 1;
                    proof {
                        assert(buf_contains(old_buffered, p.0)) by {
                            assert(old_buffered[j as int].0 == p.0);
                        }
                        lemma_pop_ordered_wf(*old(self), *self, j as int);
                    }
                    return Some(p);
                }
                j = j + 1;
            }
            proof {
                assert(!buf_contains(self.buffered@, self.next_yield));
            }
            None
        } else {
            let ghost old_buffered = self.buffered@;
            match self.buffered.pop() {
                Some(p) => {
                    let ghost old_yielded = self.yielded@;
                    proof {
                        self.yielded@ = old_yielded.push(p.0);
                    }
                    proof {
                        assert(buf_contains(old_buffered, p.0)) by {
                            assert(old_buffered[old_buffered.len() - 1].0 == p.0);
                        }
                        lemma_pop_unordered_wf(*old(self), *self);
                    }
                    Some(p)
                },
                None => None,
            }
        }
    }

    /// Every chunk was dispatched, completed and handed over.
    pub fn is_done(&self) -> (r: bool)
        ensures
            r == (self.next_start == self.total && self.in_flight@.len() == 0
                && self.buffered@.len() == 0),
    {
        self.next_start == self.total && self.in_flight.len() == 0 && self.buffered.len() == 0
    }
}

/// Membership in a pushed sequence.
proof fn lemma_push_contains(s: Seq<usize>, v: usize, x: usize)
    ensures
        s.push(v).contains(x) <==> (s.contains(x) || x == v),
{
    if s.contains(x) {
        let k = choose|k: int| 0 <= k < s.len() && s[k] == x;
        assert(s.push(v)[k] == x);
    }
    if x == v {
        assert(s.push(v)[s.len() as int] == x);
    }
    if s.push(v).contains(x) {
        let k = choose|k: int| 0 <= k < s.push(v).len() && s.push(v)[k] == x;
        if k < s.len() {
            assert(s[k] == x);
        }
    }
}

/// Membership after removing one element of a duplicate-free sequence.
proof fn lemma_remove_contains(s: Seq<usize>, j: int, x: usize)
    requires
        s.no_duplicates(),
        0 <= j < s.len(),
    ensures
        s.remove(j).contains(x) <==> (s.contains(x) && x != s[j]),
        s.remove(j).no_duplicates(),
{
    let t = s.remove(j);
    if t.contains(x) {
        let k = choose|k: int| 0 <= k < t.len() && t[k] == x;
        if k < j {
            assert(s[k] == x);
        } else {
            assert(s[k + 1] == x);
        }
    }
    if s.contains(x) && x != s[j] {
        let k = choose|k: int| 0 <= k < s.len() && s[k] == x;
        if k < j {
            assert(t[k] == x);
        } else {
            assert(t[k - 1] == x);
        }
    }
    assert forall|k1: int, k2: int| 0 <= k1 < k2 < t.len() implies t[k1] != t[k2] by {
        let a = if k1 < j {
            k1
        } else {
            k1 + 1
        };
        let b = if k2 < j {
            k2
        } else {
            k2 + 1
        };
        assert(t[k1] == s[a] && t[k2] == s[b]);
    }
}

/// Membership among the indices of a pushed buffer.
proof fn lemma_buf_push_contains(b: Seq<(usize, Vec<u8>)>, p: (usize, Vec<u8>), x: usize)
    ensures
        buf_contains(b.push(p), x) <==> (buf_contains(b, x) || x == p.0),
{
    if buf_contains(b, x) {
        let k = choose|k: int| 0 <= k < b.len() && b[k].0 == x;
        assert(b.push(p)[k].0 == x);
    }
    if x == p.0 {
        assert(b.push(p)[b.len() as int].0 == x);
    }
    if buf_contains(b.push(p), x) {
        let k = choose|k: int| 0 <= k < b.push(p).len() && b.push(p)[k].0 == x;
        if k < b.len() {
            assert(b[k].0 == x);
        }
    }
}

/// Membership among the indices of a buffer with one entry removed,
/// when no two entries share an index.
proof fn lemma_buf_remove_contains(b: Seq<(usize, Vec<u8>)>, j: int, x: usize)
    requires
        0 <= j < b.len(),
        forall|k1: int, k2: int| 0 <= k1 < k2 < b.len() ==> (#[trigger] b[k1]).0 != (#[trigger] b[k2]).0,
    ensures
        buf_contains(b.remove(j), x) <==> (buf_contains(b, x) && x != b[j].0),
{
    let t = b.remove(j);
    if buf_contains(t, x) {
        let k = choose|k: int| 0 <= k < t.len() && t[k].0 == x;
        if k < j {
            assert(b[k].0 == x);
        } else {
            assert(b[k + 1].0 == x);
        }
    }
    if buf_contains(b, x) && x != b[j].0 {
        let k = choose|k: int| 0 <= k < b.len() && b[k].0 == x;
        if k < j {
            assert(t[k].0 == x);
        } else {
            assert(t[k - 1].0 == x);
        }
    }
}

/// A completion moves one index from the window to the buffer and keeps
/// the scheduler well formed.
proof fn lemma_complete_wf(
    pre: ChunkScheduler,
    post: ChunkScheduler,
    idx: usize,
    j: int,
    p: (usize, Vec<u8>),
)
    requires
        pre.wf(),
        0 <= j < pre.in_flight@.len(),
        pre.in_flight@[j] == idx,
        post.in_flight@ == pre.in_flight@.remove(j),
        post.buffered@ == pre.buffered@.push(p),
        p.0 == idx,
        post.total == pre.total,
        post.parallel == pre.parallel,
        post.ordered == pre.ordered,
        post.next_start == pre.next_start,
        post.next_yield == pre.next_yield,
        post.yielded@ == pre.yielded@,
    ensures
        post.wf(),
{
    assert(pre.in_flight@.contains(idx));
    assert(idx < pre.next_start);
    assert forall|k1: int, k2: int|
        0 <= k1 < k2 < post.buffered@.len() implies (#[trigger] post.buffered@[k1]).0 != (
    #[trigger] post.buffered@[k2]).0 by {
        if k2 == post.buffered@.len() - 1 {
            assert(post.buffered@[k2].0 == idx);
            assert(post.buffered@[k1].0 == pre.buffered@[k1].0);
            if pre.buffered@[k1].0 == idx {
                assert(buf_contains(pre.buffered@, idx));
                assert(false);
            }
        } else {
            assert(post.buffered@[k1] == pre.buffered@[k1]);
            assert(post.buffered@[k2] == pre.buffered@[k2]);
        }
    }
    assert forall|k: int|
        0 <= k < post.buffered@.len() implies (#[trigger] post.buffered@[k]).0
        < post.next_start by {
        if k < pre.buffered@.len() {
            assert(post.buffered@[k] == pre.buffered@[k]);
        }
    }
    assert forall|k: int|
        0 <= k < post.in_flight@.len() implies #[trigger] post.in_flight@[k] < post.next_start by {
        let a = if k < j {
            k
        } else {
            k + 1
        };
        assert(post.in_flight@[k] == pre.in_flight@[a]);
    }
    assert forall|x: usize| #[trigger] post.yielded@.contains(x) implies !post.in_flight@.contains(
        x,
    ) && !buf_contains(post.buffered@, x) by {
        lemma_remove_contains(pre.in_flight@, j, x);
        lemma_buf_push_contains(pre.buffered@, p, x);
        assert(pre.yielded@.contains(x));
    }
    assert forall|x: usize| #[trigger] post.in_flight@.contains(x) implies !buf_contains(
        post.buffered@,
        x,
    ) by {
        lemma_remove_contains(pre.in_flight@, j, x);
        lemma_buf_push_contains(pre.buffered@, p, x);
        assert(pre.in_flight@.contains(x));
        if x == idx {
            assert(!post.in_flight@.contains(idx));
        }
    }
    assert forall|x: usize|
        x < post.next_start implies (#[trigger] post.yielded@.contains(x)
        || post.in_flight@.contains(x) || buf_contains(post.buffered@, x)) by {
        lemma_remove_contains(pre.in_flight@, j, x);
        lemma_buf_push_contains(pre.buffered@, p, x);
        assert(pre.yielded@.contains(x) || pre.in_flight@.contains(x) || buf_contains(
            pre.buffered@,
            x,
        ));
    }
}

/// An ordered hand-over removes the owed index from the buffer, appends
/// it to the history, and keeps the scheduler well formed.
proof fn lemma_pop_ordered_wf(pre: ChunkScheduler, post: ChunkScheduler, j: int)
    requires
        pre.wf(),
        pre.ordered,
        0 <= j < pre.buffered@.len(),
        pre.buffered@[j].0 == pre.next_yield,
        post.buffered@ == pre.buffered@.remove(j),
        post.yielded@ == pre.yielded@.push(pre.next_yield),
        post.next_yield == pre.next_yield + 1,
        post.total == pre.total,
        post.parallel == pre.parallel,
        post.ordered == pre.ordered,
        post.next_start == pre.next_start,
        post.in_flight@ == pre.in_flight@,
    ensures
        post.wf(),
{
    let y = pre.next_yield;
    assert(buf_contains(pre.buffered@, y)) by {
        assert(pre.buffered@[j].0 == y);
    }
    assert(y < pre.next_start);
    assert(post.yielded@ =~= Seq::new(post.next_yield as nat, |i: int| i as usize));
    assert(post.yielded@.no_duplicates()) by {
        assert forall|k1: int, k2: int|
            0 <= k1 < k2 < post.yielded@.len() implies post.yielded@[k1] != post.yielded@[k2] by {
            assert(post.yielded@[k1] == k1 as usize);
            assert(post.yielded@[k2] == k2 as usize);
        }
    }
    assert forall|k1: int, k2: int|
        0 <= k1 < k2 < post.buffered@.len() implies (#[trigger] post.buffered@[k1]).0 != (
    #[trigger] post.buffered@[k2]).0 by {
        let a = if k1 < j {
            k1
        } else {
            k1 + 1
        };
        let b = if k2 < j {
            k2
        } else {
            k2 + 1
        };
        assert(post.buffered@[k1] == pre.buffered@[a]);
        assert(post.buffered@[k2] == pre.buffered@[b]);
    }
    assert forall|k: int|
        0 <= k < post.buffered@.len() implies (#[trigger] post.buffered@[k]).0
        < post.next_start by {
        let a = if k < j {
            k
        } else {
            k + 1
        };
        assert(post.buffered@[k] == pre.buffered@[a]);
    }
    assert forall|k: int|
        0 <= k < post.yielded@.len() implies #[trigger] post.yielded@[k] < post.next_start by {
        if k < pre.yielded@.len() {
            assert(post.yielded@[k] == pre.yielded@[k]);
        } else {
            assert(post.yielded@[k] == y);
        }
    }
    assert forall|x: usize| #[trigger] post.yielded@.contains(x) implies !post.in_flight@.contains(
        x,
    ) && !buf_contains(post.buffered@, x) by {
        lemma_push_contains(pre.yielded@, y, x);
        lemma_buf_remove_contains(pre.buffered@, j, x);
        if pre.yielded@.contains(x) {
        } else {
            assert(x == y);
            assert(buf_contains(pre.buffered@, y));
        }
    }
    assert forall|x: usize| #[trigger] post.in_flight@.contains(x) implies !buf_contains(
        post.buffered@,
        x,
    ) by {
        lemma_buf_remove_contains(pre.buffered@, j, x);
        assert(pre.in_flight@.contains(x));
    }
    assert forall|x: usize|
        x < post.next_start implies (#[trigger] post.yielded@.contains(x)
        || post.in_flight@.contains(x) || buf_contains(post.buffered@, x)) by {
        lemma_push_contains(pre.yielded@, y, x);
        lemma_buf_remove_contains(pre.buffered@, j, x);
        assert(pre.yielded@.contains(x) || pre.in_flight@.contains(x) || buf_contains(
            pre.buffered@,
            x,
        ));
    }
}

/// An unordered hand-over takes the newest completion, appends it to
/// the history, and keeps the scheduler well formed.
proof fn lemma_pop_unordered_wf(pre: ChunkScheduler, post: ChunkScheduler)
    requires
        pre.wf(),
        !pre.ordered,
        pre.buffered@.len() > 0,
        post.buffered@ == pre.buffered@.subrange(0, pre.buffered@.len() - 1),
        post.yielded@ == pre.yielded@.push(pre.buffered@.last().0),
        post.total == pre.total,
        post.parallel == pre.parallel,
        post.ordered == pre.ordered,
        post.next_start == pre.next_start,
        post.next_yield == pre.next_yield,
        post.in_flight@ == pre.in_flight@,
    ensures
        post.wf(),
{
    let y = pre.buffered@.last().0;
    let n = pre.buffered@.len() - 1;
    assert(buf_contains(pre.buffered@, y)) by {
        assert(pre.buffered@[n].0 == y);
    }
    assert(y < pre.next_start);
    assert(post.buffered@ =~= pre.buffered@.remove(n));
    assert(post.yielded@.no_duplicates()) by {
        assert forall|k1: int, k2: int|
            0 <= k1 < k2 < post.yielded@.len() implies post.yielded@[k1] != post.yielded@[k2] by {
            if k2 == post.yielded@.len() - 1 {
                assert(post.yielded@[k2] == y);
                assert(post.yielded@[k1] == pre.yielded@[k1]);
                if pre.yielded@[k1] == y {
                    assert(pre.yielded@.contains(y));
                    assert(false);
                }
            } else {
                assert(post.yielded@[k1] == pre.yielded@[k1]);
                assert(post.yielded@[k2] == pre.yielded@[k2]);
            }
        }
    }
    assert forall|k: int|
        0 <= k < post.yielded@.len() implies #[trigger] post.yielded@[k] < post.next_start by {
        if k < pre.yielded@.len() {
            assert(post.yielded@[k] == pre.yielded@[k]);
        } else {
            assert(post.yielded@[k] == y);
        }
    }
    assert forall|x: usize| #[trigger] post.yielded@.contains(x) implies !post.in_flight@.contains(
        x,
    ) && !buf_contains(post.buffered@, x) by {
        lemma_push_contains(pre.yielded@, y, x);
        lemma_buf_remove_contains(pre.buffered@, n, x);
        if pre.yielded@.contains(x) {
        } else {
            assert(x == y);
            assert(buf_contains(pre.buffered@, y));
        }
    }
    assert forall|x: usize| #[trigger] post.in_flight@.contains(x) implies !buf_contains(
        post.buffered@,
        x,
    ) by {
        lemma_buf_remove_contains(pre.buffered@, n, x);
        assert(pre.in_flight@.contains(x));
    }
    assert forall|x: usize|
        x < post.next_start implies (#[trigger] post.yielded@.contains(x)
        || post.in_flight@.contains(x) || buf_contains(post.buffered@, x)) by {
        lemma_push_contains(pre.yielded@, y, x);
        lemma_buf_remove_contains(pre.buffered@, n, x);
        assert(pre.yielded@.contains(x) || pre.in_flight@.contains(x) || buf_contains(
            pre.buffered@,
            x,
        ));
    }
}

/// Ordered mode hands chunks over strictly in their listed order,
/// whatever order their fetches complete in: the history is always the
/// ascending prefix of the chunk indices.
pub proof fn lemma_ordered_yield_order(s: &ChunkScheduler)
    requires
        s.wf(),
        s.ordered,
    ensures
        s.yielded@ == Seq::new(s.next_yield as nat, |i: int| i as usize),
        forall|i: int, j: int|
            0 <= i < j < s.yielded@.len() ==> s.yielded@[i] < s.yielded@[j],
{
    assert forall|i: int, j: int|
        0 <= i < j < s.yielded@.len() implies s.yielded@[i] < s.yielded@[j] by {
        assert(s.yielded@[i] == i as usize);
        assert(s.yielded@[j] == j as usize);
    }
}

/// Once a scheduler is done, it handed over every listed chunk exactly
/// once, in either mode: unordered mode may permute the order, never
/// the set.
pub proof fn lemma_all_chunks_delivered(s: &ChunkScheduler)
    requires
        s.wf(),
        s.next_start == s.total,
        s.in_flight@.len() == 0,
        s.buffered@.len() == 0,
    ensures
        s.yielded@.no_duplicates(),
        forall|x: usize| s.yielded@.contains(x) <==> x < s.total,
{
    assert forall|x: usize| s.yielded@.contains(x) <==> x < s.total by {
        if x < s.total {
            assert(!s.in_flight@.contains(x));
            assert(!buf_contains(s.buffered@, x));
        }
    }
}

} // verus!
