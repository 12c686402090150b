//! LRU-K frame replacer.
//!
//! Each recorded frame keeps its last K access timestamps, most recent first.
//! `evict` scans every evictable frame and picks the one with the largest
//! backward K-distance: a frame with fewer than K accesses counts as
//! infinitely distant, and among such frames the least recently used goes
//! first.
use vstd::prelude::*;

use crate::config::FrameId;

verus! {

/// The kind of access that led to a `record_access` call; informational only.
#[derive(Clone, Copy, Debug, PartialEq, Eq)]
pub enum AccessType {
    Unknown,
    Lookup,
    Scan,
    Index,
}

/// Conditions reported to the caller of the replacer.
#[derive(Clone, Copy, Debug, PartialEq, Eq)]
pub enum ReplacerError {
    /// The frame identifier lies outside the configured pool.
    InvalidFrame,
}

/// History `a` (most recent first) is at least as good an eviction victim as
/// history `b` when a K-distance replacer with parameter `k` compares them.
pub open spec fn ranks_before(k: nat, a: Seq<u64>, b: Seq<u64>) -> bool {
    if a.len() < k {
        b.len() >= k || a[0] <= b[0]
    } else {
        b.len() >= k && a[k - 1] <= b[k - 1]
    }
}

/// The history that results from recording an access at `ts` on history `h`
/// of a node that keeps `k` entries: `ts` goes in front, and the oldest entry
/// leaves once `k` are held.
pub open spec fn pushed_history(k: nat, h: Seq<u64>, ts: u64) -> Seq<u64> {
    seq![ts] + if h.len() == k {
        h.drop_last()
    } else {
        h
    }
}

/// Access history and evictability of one frame.
pub struct LRUKNode {
    history: Vec<u64>,
    k: usize,
    fid: FrameId,
    is_evictable: bool,
}

impl LRUKNode {
    /// Recorded timestamps, most recent first.
    pub closed spec fn history(&self) -> Seq<u64> {
        self.history@
    }

    /// Number of timestamps the node keeps.
    pub closed spec fn k(&self) -> nat {
        self.k as nat
    }

    pub closed spec fn fid(&self) -> FrameId {
        self.fid
    }

    pub closed spec fn evictable(&self) -> bool {
        self.is_evictable
    }

    /// At most `k` timestamps, strictly decreasing from front to back.
    pub closed spec fn wf(&self) -> bool {
        &&& self.k >= 1
        &&& self.history@.len() <= self.k
        &&& forall|i: int, j: int|
            0 <= i < j < self.history@.len() ==> self.history@[i] > self.history@[j]
    }

    pub fn new(fid: FrameId, k: usize) -> (r: Self)
        requires
            k >= 1,
        ensures
            r.wf(),
            r.history() == Seq::<u64>::empty(),
            r.k() == k,
            r.fid() == fid,
            !r.evictable(),
    {
        LRUKNode { history: Vec::new(), k, fid, is_evictable: false }
    }

    /// The oldest recorded timestamp, or 0 when none is recorded.
    pub fn get_oldest_access(&self) -> (r: u64)
        ensures
            r == if self.history().len() == 0 {
                0
            } else {
                self.history().last()
            },
    {
        if self.history.len() == 0 {
            0
        } else {
            self.history[self.history.len() - 1]
        }
    }

    /// The K-th most recent timestamp, or 0 when fewer than K are recorded.
    pub fn get_k_access(&self) -> (r: u64)
        requires
            self.wf(),
        ensures
            r == if self.history().len() >= self.k() {
                self.history()[self.k() - 1]
            } else {
                0
            },
    {
        if self.history.len() >= self.k {
            self.history[self.k - 1]
        } else {
            0
        }
    }

    /// Records an access at `timestamp`, which is later than every recorded one.
    pub fn record_access(&mut self, timestamp: u64)
        requires
            old(self).wf(),
            old(self).history().len() == 0 || old(self).history()[0] < timestamp,
        ensures
            final(self).wf(),
            final(self).history() == pushed_history(old(self).k(), old(self).history(), timestamp),
            final(self).k() == old(self).k(),
            final(self).fid() == old(self).fid(),
            final(self).evictable() == old(self).evictable(),
    {
        let ghost h = self.history@;
        if self.history.len() == self.k {
            self.history.pop();
        }
        self.history.insert(0, timestamp);
        assert(self.history@ =~= pushed_history(self.k as nat, h, timestamp));
    }
}


/// Whether the slot holds a frame that is currently evictable.
pub open spec fn slot_evictable(o: Option<LRUKNode>) -> bool {
    match o {
        Some(n) => n.evictable(),
        None => false,
    }
}

/// Number of slots of `s` that hold an evictable frame.
pub open spec fn count_evictable(s: Seq<Option<LRUKNode>>) -> nat
    decreases s.len(),
{
    if s.len() == 0 {
        0
    } else {
        count_evictable(s.drop_last()) + if slot_evictable(s.last()) {
            1nat
        } else {
            0nat
        }
    }
}

proof fn lemma_count_bounded(s: Seq<Option<LRUKNode>>)
    ensures
        count_evictable(s) <= s.len(),
    decreases s.len(),
{
    if s.len() > 0 {
        lemma_count_bounded(s.drop_last());
    }
}

proof fn lemma_count_update(s: Seq<Option<LRUKNode>>, i: int, v: Option<LRUKNode>)
    requires
        0 <= i < s.len(),
    ensures
        count_evictable(s.update(i, v)) + (if slot_evictable(s[i]) {
            1nat
        } else {
            0nat
        }) == count_evictable(s) + (if slot_evictable(v) {
            1nat
        } else {
            0nat
        }),
    decreases s.len(),
{
    let t = s.update(i, v);
    if i == s.len() - 1 {
        assert(t.drop_last() =~= s.drop_last());
    } else {
        assert(t.drop_last() =~= s.drop_last().update(i, v));
        lemma_count_update(s.drop_last(), i, v);
    }
}

/// LRU-K replacer over the frames `0 .. replacer_size`.
pub struct LRUKReplacer {
    node_store: Vec<Option<LRUKNode>>,
    current_timestamp: u64,
    curr_size: usize,
    replacer_size: usize,
    k: usize,
}

impl LRUKReplacer {
    /// Number of frames in the pool.
    pub closed spec fn capacity(&self) -> nat {
        self.replacer_size as nat
    }

    /// Number of timestamps kept per frame.
    pub closed spec fn k(&self) -> nat {
        self.k as nat
    }

    /// The timestamp the next recorded access receives.
    pub closed spec fn now(&self) -> u64 {
        self.current_timestamp
    }

    /// Whether frame `f` has a record.
    pub closed spec fn has_record(&self, f: int) -> bool {
        0 <= f < self.node_store@.len() && self.node_store@[f] is Some
    }

    /// Recorded timestamps of frame `f`, most recent first.
    pub closed spec fn history(&self, f: int) -> Seq<u64> {
        if self.has_record(f) {
            self.node_store@[f]->Some_0.history()
        } else {
            Seq::empty()
        }
    }

    /// Whether frame `f` has a record and is marked evictable.
    pub closed spec fn evictable(&self, f: int) -> bool {
        self.has_record(f) && self.node_store@[f]->Some_0.evictable()
    }

    /// Number of evictable frames.
    pub closed spec fn evictable_count(&self) -> nat {
        count_evictable(self.node_store@)
    }

    /// Frame `f` is in the same state in `self` and `other`.
    pub open spec fn same_frame(&self, other: &Self, f: int) -> bool {
        &&& self.has_record(f) == other.has_record(f)
        &&& self.history(f) == other.history(f)
        &&& self.evictable(f) == other.evictable(f)
    }

    /// What `evict` guarantees of the replacer before (`self`) and after the
    /// call, and of its result `r`: `None` only when no frame is evictable,
    /// and then nothing changes; otherwise an evictable frame that ranks at
    /// least as high as every evictable frame, whose record is dropped.
    pub open spec fn evict_post(&self, after: Self, r: Option<FrameId>) -> bool {
        &&& after.capacity() == self.capacity()
        &&& after.k() == self.k()
        &&& after.now() == self.now()
        &&& r is None ==> {
            &&& forall|f: int| !self.evictable(f)
            &&& after == *self
        }
        &&& r matches Some(v) ==> {
            &&& 0 <= v < self.capacity()
            &&& self.evictable(v as int)
            &&& forall|g: int|
                self.evictable(g) ==> ranks_before(
                    self.k(),
                    self.history(v as int),
                    self.history(g),
                )
            &&& !after.has_record(v as int)
            &&& !after.evictable(v as int)
            &&& after.history(v as int) == Seq::<u64>::empty()
            &&& after.evictable_count() + 1 == self.evictable_count()
            &&& forall|g: int|
                #![trigger after.history(g)]
                #![trigger after.evictable(g)]
                #![trigger after.has_record(g)]
                g != v ==> after.same_frame(self, g)
        }
    }

    /// What `record_access(frame_id, _)` guarantees of the replacer before
    /// (`self`) and after the call, and of its result `r`.
    pub open spec fn record_access_post(
        &self,
        after: Self,
        frame_id: FrameId,
        r: Result<(), ReplacerError>,
    ) -> bool {
        &&& after.capacity() == self.capacity()
        &&& after.k() == self.k()
        &&& !(0 <= frame_id < self.capacity()) ==> {
            &&& r == Err::<(), ReplacerError>(ReplacerError::InvalidFrame)
            &&& after == *self
        }
        &&& 0 <= frame_id < self.capacity() ==> {
            &&& r is Ok
            &&& after.now() == self.now() + 1
            &&& after.has_record(frame_id as int)
            &&& after.history(frame_id as int) == pushed_history(
                self.k(),
                self.history(frame_id as int),
                self.now(),
            )
            &&& after.evictable(frame_id as int) == self.evictable(frame_id as int)
            &&& after.evictable_count() == self.evictable_count()
            &&& forall|g: int|
                #![trigger after.history(g)]
                #![trigger after.evictable(g)]
                #![trigger after.has_record(g)]
                g != frame_id ==> after.same_frame(self, g)
        }
    }

    pub closed spec fn wf(&self) -> bool {
        &&& self.node_store@.len() == self.replacer_size
        &&& self.k >= 1
        &&& self.curr_size == count_evictable(self.node_store@)
        &&& forall|f: int|
            0 <= f < self.node_store@.len() && (#[trigger] self.node_store@[f]) is Some ==> {
                let n = self.node_store@[f]->Some_0;
                &&& n.wf()
                &&& n.k == self.k
                &&& n.fid == f
                &&& n.history@.len() >= 1
                &&& n.history@[0] < self.current_timestamp
            }
    }

    /// A frame without a record has an empty history and is not evictable.
    /// Every recorded frame has at least one and at most K timestamps, the
    /// most recent first and all earlier than `now`.
    pub proof fn lemma_wf_history(&self, f: int)
        requires
            self.wf(),
        ensures
            !self.has_record(f) ==> self.history(f) == Seq::<u64>::empty() && !self.evictable(f),
            self.has_record(f) ==> {
                &&& 0 <= f < self.capacity()
                &&& 1 <= self.history(f).len() <= self.k()
                &&& self.history(f)[0] < self.now()
                &&& forall|i: int, j: int|
                    0 <= i < j < self.history(f).len() ==> self.history(f)[i] > self.history(f)[j]
            },
    {
        if self.has_record(f) {
            let n = self.node_store@[f]->Some_0;
            assert(n.wf());
        }
    }

    /// A replacer for `num_frames` frames keeping `k` timestamps per frame,
    /// with no frame recorded.
    pub fn new(num_frames: usize, k: usize) -> (r: Self)
        requires
            k >= 1,
        ensures
            r.wf(),
            r.capacity() == num_frames,
            r.k() == k,
            r.now() == 0,
            r.evictable_count() == 0,
            forall|f: int| !r.has_record(f),
            forall|f: int| r.history(f) == Seq::<u64>::empty(),
    {
        let mut node_store: Vec<Option<LRUKNode>> = Vec::new();
        let mut i: usize = 0;
        while i < num_frames
            invariant
                i <= num_frames,
                node_store@.len() == i,
                forall|f: int| 0 <= f < i ==> node_store@[f] is None,
                count_evictable(node_store@) == 0,
            decreases num_frames - i,
        {
            let ghost prev = node_store@;
            node_store.push(None);
            assert(node_store@.drop_last() =~= prev);
            i = i + 1;
        }
        LRUKReplacer { node_store, current_timestamp: 0, curr_size: 0, replacer_size: num_frames, k }
    }

    /// Whether `frame_id` names a frame of the pool.
    pub fn check_frame_id_valid(&self, frame_id: FrameId) -> (r: bool)
        ensures
            r == (0 <= frame_id < self.capacity()),
    {
        frame_id >= 0 && (frame_id as usize) < self.replacer_size
    }

    /// The timestamp the next recorded access receives.
    pub fn current_timestamp(&self) -> (r: u64)
        ensures
            r == self.now(),
    {
        self.current_timestamp
    }

    /// Whether `frame_id` has a record and is marked evictable.
    pub fn is_evictable(&self, frame_id: FrameId) -> (r: bool)
        requires
            self.wf(),
        ensures
            r == self.evictable(frame_id as int),
    {
        if !self.check_frame_id_valid(frame_id) {
            return false;
        }
        match &self.node_store[frame_id as usize] {
            Some(n) => n.is_evictable,
            None => false,
        }
    }

    /// Number of evictable frames.
    pub fn size(&self) -> (r: usize)
        requires
            self.wf(),
        ensures
            r == self.evictable_count(),
    {
        self.curr_size
    }

    /// Whether frame `a` ranks at least as high for eviction as frame `b`.
    fn ranks_before_exec(&self, a: usize, b: usize) -> (r: bool)
        requires
            self.wf(),
            self.has_record(a as int),
            self.has_record(b as int),
        ensures
            r == ranks_before(self.k(), self.history(a as int), self.history(b as int)),
    {
        proof {
            self.lemma_wf_history(a as int);
            self.lemma_wf_history(b as int);
        }
        match (&self.node_store[a], &self.node_store[b]) {
            (Some(na), Some(nb)) => {
                let ka = na.get_k_access();
                let kb = nb.get_k_access();
                if na.history.len() < self.k {
                    nb.history.len() >= self.k || na.history[0] <= nb.history[0]
                } else {
                    nb.history.len() >= self.k && ka <= kb
                }
            },
            _ => false,
        }
    }

    /// Evicts the evictable frame with the largest backward K-distance and
    /// forgets its record; `None` when no frame is evictable.
    pub fn evict(&mut self) -> (r: Option<FrameId>)
        requires
            old(self).wf(),
        ensures
            final(self).wf(),
            old(self).evict_post(*final(self), r),
    {
        let mut best: Option<usize> = None;
        let mut i: usize = 0;
        while i < self.node_store.len()
            invariant
                self.wf(),
                i <= self.node_store@.len(),
                best is None ==> forall|f: int| 0 <= f < i ==> !self.evictable(f),
                best matches Some(b) ==> {
                    &&& b < i
                    &&& self.evictable(b as int)
                    &&& forall|g: int|
                        0 <= g < i && self.evictable(g) ==> ranks_before(
                            self.k(),
                            self.history(b as int),
                            self.history(g),
                        )
                },
            decreases self.node_store@.len() - i,
        {
            let candidate = match &self.node_store[i] {
                Some(n) => n.is_evictable,
                None => false,
            };
            if candidate {
                match best {
                    None => {
                        best = Some(i);
                    },
                    Some(b) => {
                        if !self.ranks_before_exec(b, i) {
                            best = Some(i);
                        }
                    },
                }
            }
            i = i + 1;
        }
        match best {
            None => {
                assert forall|f: int| !self.evictable(f) by {
                    if 0 <= f < self.node_store@.len() {
                    }
                }
                None
            },
            Some(b) => {
                let fid = match &self.node_store[b] {
                    Some(n) => n.fid,
                    None => 0,
                };
                let ghost prev = self.node_store@;
                proof {
                    lemma_count_update(prev, b as int, None);
                }
                self.node_store[b] = None;
                self.curr_size = self.curr_size - 1;
                Some(fid)
            },
        }
    }

    /// Records an access to `frame_id` at the current timestamp, creating its
    /// record if absent, and advances the timestamp.
    pub fn record_access(&mut self, frame_id: FrameId, access_type: AccessType) -> (r: Result<
        (),
        ReplacerError,
    >)
        requires
            old(self).wf(),
            old(self).now() < u64::MAX,
        ensures
            final(self).wf(),
            old(self).record_access_post(*final(self), frame_id, r),
    {
        if !self.check_frame_id_valid(frame_id) {
            return Err(ReplacerError::InvalidFrame);
        }
        let idx = frame_id as usize;
        let ts = self.current_timestamp;
        let ghost prev = self.node_store@;
        let mut slot: Option<LRUKNode> = None;
        std::mem::swap(&mut self.node_store[idx], &mut slot);
        let mut node = match slot {
            Some(n) => n,
            None => LRUKNode::new(frame_id, self.k),
        };
        node.record_access(ts);
        proof {
            lemma_count_update(prev, idx as int, Some(node));
        }
        self.node_store[idx] = Some(node);
        assert(self.node_store@ =~= prev.update(idx as int, Some(node)));
        self.current_timestamp = ts + 1;
        Ok(())
    }

    /// Marks `frame_id` evictable or not; a frame without a record is left
    /// as it is.
    pub fn set_evictable(&mut self, frame_id: FrameId, set_evictable: bool) -> (r: Result<
        (),
        ReplacerError,
    >)
        requires
            old(self).wf(),
        ensures
            final(self).wf(),
            final(self).capacity() == old(self).capacity(),
            final(self).k() == old(self).k(),
            final(self).now() == old(self).now(),
            !(0 <= frame_id < old(self).capacity()) ==> {
                &&& r == Err::<(), ReplacerError>(ReplacerError::InvalidFrame)
                &&& *final(self) == *old(self)
            },
            0 <= frame_id < old(self).capacity() ==> {
                &&& r is Ok
                &&& final(self).has_record(frame_id as int) == old(self).has_record(frame_id as int)
                &&& final(self).history(frame_id as int) == old(self).history(frame_id as int)
                &&& final(self).evictable(frame_id as int) == (old(self).has_record(frame_id as int)
                    && set_evictable)
                &&& final(self).evictable_count() + (if old(self).evictable(frame_id as int) {
                    1nat
                } else {
                    0nat
                }) == old(self).evictable_count() + (if final(self).evictable(frame_id as int) {
                    1nat
                } else {
                    0nat
                })
                &&& forall|g: int|
                    #![trigger final(self).history(g)]
                    #![trigger final(self).evictable(g)]
                    #![trigger final(self).has_record(g)]
                    g != frame_id ==> final(self).same_frame(old(self), g)
            },
    {
        if !self.check_frame_id_valid(frame_id) {
            return Err(ReplacerError::InvalidFrame);
        }
        let idx = frame_id as usize;
        let ghost prev = self.node_store@;
        let mut slot: Option<LRUKNode> = None;
        std::mem::swap(&mut self.node_store[idx], &mut slot);
        match slot {
            Some(mut node) => {
                let was_evictable = node.is_evictable;
                node.is_evictable = set_evictable;
                proof {
                    lemma_count_update(prev, idx as int, Some(node));
                    lemma_count_bounded(prev.update(idx as int, Some(node)));
                }
                if was_evictable && !set_evictable {
                    self.curr_size = self.curr_size - 1;
                } else if !was_evictable && set_evictable {
                    self.curr_size = self.curr_size + 1;
                }
                self.node_store[idx] = Some(node);
                assert(self.node_store@ =~= prev.update(idx as int, Some(node)));
            },
            None => {
                self.node_store[idx] = None;
                assert(self.node_store@ =~= prev);
            },
        }
        Ok(())
    }

    /// Forgets the record of `frame_id`, which must be evictable if it has one.
    pub fn remove(&mut self, frame_id: FrameId) -> (r: Result<(), ReplacerError>)
        requires
            old(self).wf(),
            old(self).has_record(frame_id as int) ==> old(self).evictable(frame_id as int),
        ensures
            final(self).wf(),
            final(self).capacity() == old(self).capacity(),
            final(self).k() == old(self).k(),
            final(self).now() == old(self).now(),
            !(0 <= frame_id < old(self).capacity()) ==> {
                &&& r == Err::<(), ReplacerError>(ReplacerError::InvalidFrame)
                &&& *final(self) == *old(self)
            },
            0 <= frame_id < old(self).capacity() ==> {
                &&& r is Ok
                &&& !final(self).has_record(frame_id as int)
                &&& !final(self).evictable(frame_id as int)
                &&& final(self).history(frame_id as int) == Seq::<u64>::empty()
                &&& final(self).evictable_count() + (if old(self).has_record(frame_id as int) {
                    1nat
                } else {
                    0nat
                }) == old(self).evictable_count()
                &&& forall|g: int|
                    #![trigger final(self).history(g)]
                    #![trigger final(self).evictable(g)]
                    #![trigger final(self).has_record(g)]
                    g != frame_id ==> final(self).same_frame(old(self), g)
            },
    {
        if !self.check_frame_id_valid(frame_id) {
            return Err(ReplacerError::InvalidFrame);
        }
        let idx = frame_id as usize;
        let ghost prev = self.node_store@;
        proof {
            lemma_count_update(prev, idx as int, None);
        }
        let present = self.node_store[idx].is_some();
        if present {
            self.curr_size = self.curr_size - 1;
        }
        self.node_store[idx] = None;
        Ok(())
    }
}

/// `evict` never hands out a frame that was not evictable.
pub proof fn lemma_evict_returns_evictable(before: LRUKReplacer, after: LRUKReplacer, f: FrameId)
    requires
        before.wf(),
        before.evict_post(after, Some(f)),
    ensures
        before.evictable(f as int),
{
}

/// Of two evictable frames, one with fewer than K accesses is evicted before
/// one with K or more: `evict` returns some frame, and not the latter.
pub proof fn lemma_evict_prefers_short_history(
    before: LRUKReplacer,
    after: LRUKReplacer,
    r: Option<FrameId>,
    a: FrameId,
    b: FrameId,
)
    requires
        before.wf(),
        before.evict_post(after, r),
        before.evictable(a as int),
        before.evictable(b as int),
        before.history(a as int).len() < before.k(),
        before.history(b as int).len() >= before.k(),
    ensures
        r is Some,
        r != Some(b),
{
    before.lemma_wf_history(a as int);
}

/// Of two evictable frames with fewer than K accesses each, the one whose
/// most recent access is older is evicted first.
pub proof fn lemma_evict_prefers_least_recent(
    before: LRUKReplacer,
    after: LRUKReplacer,
    r: Option<FrameId>,
    a: FrameId,
    b: FrameId,
)
    requires
        before.wf(),
        before.evict_post(after, r),
        before.evictable(a as int),
        before.evictable(b as int),
        before.history(a as int).len() < before.k(),
        before.history(b as int).len() < before.k(),
        before.history(a as int)[0] < before.history(b as int)[0],
    ensures
        r is Some,
        r != Some(b),
{
}

/// Of two evictable frames with K or more accesses each, the one whose K-th
/// most recent access is older is evicted first.
pub proof fn lemma_evict_prefers_oldest_kth_access(
    before: LRUKReplacer,
    after: LRUKReplacer,
    r: Option<FrameId>,
    a: FrameId,
    b: FrameId,
)
    requires
        before.wf(),
        before.evict_post(after, r),
        before.evictable(a as int),
        before.evictable(b as int),
        before.history(a as int).len() >= before.k(),
        before.history(b as int).len() >= before.k(),
        before.history(a as int)[before.k() - 1] < before.history(b as int)[before.k() - 1],
    ensures
        r is Some,
        r != Some(b),
{
}

/// After `evict` returns frame `f`, the evictable count has dropped by one,
/// and the next access recorded for `f` starts a history of length one.
pub proof fn lemma_evicted_frame_starts_fresh(
    before: LRUKReplacer,
    evicted: LRUKReplacer,
    after: LRUKReplacer,
    f: FrameId,
    r: Result<(), ReplacerError>,
)
    requires
        before.wf(),
        evicted.wf(),
        before.evict_post(evicted, Some(f)),
        evicted.record_access_post(after, f, r),
    ensures
        evicted.evictable_count() == before.evictable_count() - 1,
        r is Ok,
        after.history(f as int) == seq![evicted.now()],
        after.history(f as int).len() == 1,
{
    assert(evicted.history(f as int) =~= Seq::<u64>::empty());
    assert(after.history(f as int) =~= seq![evicted.now()]);
}

} // verus!
