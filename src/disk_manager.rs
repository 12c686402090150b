//! Bookkeeping of the page file and the log stream.
//!
//! `PageDirectory` maps page identifiers to byte offsets in the page file,
//! keeps the pool of offsets freed by deletions (reused last-in first-out),
//! tracks the page capacity the file is sized for, and counts operations.
//! The file handles themselves live with the caller, which asks the
//! directory where a page goes, performs the transfer, and then commits the
//! outcome, so that a failed transfer leaves the directory untouched.
use vstd::prelude::*;

use crate::config::{PageId, BUSTUB_PAGE_SIZE, DEFAULT_DB_IO_SIZE};

verus! {

broadcast use vstd::std_specs::hash::group_hash_axioms;

/// Largest page capacity the directory grows to; keeps every offset and
/// file length well inside `u64`.
pub const MAX_PAGE_CAPACITY: u64 = 1099511627776;

/// Conditions reported by the directory.
#[derive(Clone, Copy, Debug, PartialEq, Eq)]
pub enum StoreError {
    /// Growing the page file would pass `MAX_PAGE_CAPACITY`.
    CapacityExhausted,
}

/// Where a page goes: its byte offset, and the new length of the page file
/// when the file must grow first.
#[derive(Clone, Copy, Debug, PartialEq, Eq)]
pub struct Placement {
    pub offset: u64,
    pub grow_file_to: Option<u64>,
}

/// How a read of `len` bytes at some offset of a stream of a given length
/// is carried out.
#[derive(Clone, Copy, Debug, PartialEq, Eq)]
pub enum ReadPlan {
    /// The offset lies at or beyond the end: nothing is read.
    OutOfBounds,
    /// The whole range lies inside the stream.
    Full,
    /// The range runs past the end after `available` bytes.
    Short { available: u64 },
}

/// `x + 1`, or `x` when that does not fit.
pub open spec fn saturating_inc(x: u64) -> u64 {
    if x < u64::MAX {
        (x + 1) as u64
    } else {
        x
    }
}

fn inc_counter(x: u64) -> (r: u64)
    ensures
        r == saturating_inc(x),
{
    if x < u64::MAX {
        x + 1
    } else {
        x
    }
}

/// The plan for reading `len` bytes at `offset` from a stream of
/// `stream_len` bytes.
pub open spec fn read_plan(offset: u64, len: u64, stream_len: u64) -> ReadPlan {
    if offset >= stream_len {
        ReadPlan::OutOfBounds
    } else if offset + len > stream_len {
        ReadPlan::Short { available: (stream_len - offset) as u64 }
    } else {
        ReadPlan::Full
    }
}

/// Decides how a read of `len` bytes at `offset` from a stream of
/// `stream_len` bytes goes.
pub fn plan_read(offset: u64, len: u64, stream_len: u64) -> (r: ReadPlan)
    ensures
        r == read_plan(offset, len, stream_len),
{
    if offset >= stream_len {
        ReadPlan::OutOfBounds
    } else if len > stream_len - offset {
        ReadPlan::Short { available: stream_len - offset }
    } else {
        ReadPlan::Full
    }
}

/// Sets every byte of `buf` from index `from` on to zero.
pub fn zero_fill(buf: &mut Vec<u8>, from: usize)
    ensures
        final(buf)@.len() == old(buf)@.len(),
        forall|i: int| 0 <= i < from && i < old(buf)@.len() ==> final(buf)@[i] == old(buf)@[i],
        forall|i: int| from <= i < old(buf)@.len() ==> final(buf)@[i] == 0,
{
    let mut i: usize = from;
    while i < buf.len()
        invariant
            from <= i,
            buf@.len() == old(buf)@.len(),
            forall|j: int| 0 <= j < from && j < buf@.len() ==> buf@[j] == old(buf)@[j],
            forall|j: int| from <= j < i && j < buf@.len() ==> buf@[j] == 0,
        decreases buf@.len() - i,
    {
        buf[i] = 0;
        i = i + 1;
    }
}

/// Offset `o` is a page-aligned slot among the first `n` slots of the file.
pub open spec fn slot_in_range(o: u64, n: nat) -> bool {
    (o as int) % (BUSTUB_PAGE_SIZE as int) == 0 && o < n * BUSTUB_PAGE_SIZE
}

/// Page table, free-slot pool and counters of one page file.
pub struct PageDirectory {
    page_capacity: u64,
    pages: std::collections::HashMap<PageId, u64>,
    free_slots: Vec<u64>,
    flush_log: bool,
    num_flushes: u64,
    num_writes: u64,
    num_deletes: u64,
    num_eof_reads: u64,
}

impl PageDirectory {
    /// Page identifier to byte offset.
    pub closed spec fn page_map(&self) -> Map<PageId, u64> {
        self.pages@
    }

    /// Offsets freed by deletions; the last one is reused first.
    pub closed spec fn free(&self) -> Seq<u64> {
        self.free_slots@
    }

    /// Number of pages the file is sized for.
    pub closed spec fn capacity(&self) -> nat {
        self.page_capacity as nat
    }

    pub closed spec fn num_writes(&self) -> u64 {
        self.num_writes
    }

    pub closed spec fn num_deletes(&self) -> u64 {
        self.num_deletes
    }

    pub closed spec fn num_flushes(&self) -> u64 {
        self.num_flushes
    }

    pub closed spec fn num_eof_reads(&self) -> u64 {
        self.num_eof_reads
    }

    pub closed spec fn flush_pending(&self) -> bool {
        self.flush_log
    }

    /// Number of slots handed out so far: mapped plus free.
    pub open spec fn slots_in_use(&self) -> nat {
        self.page_map().len() + self.free().len()
    }

    /// Length in bytes the page file is kept at: one page beyond capacity.
    pub open spec fn file_len(&self) -> nat {
        ((self.capacity() + 1) * BUSTUB_PAGE_SIZE) as nat
    }

    /// Every offset is an aligned slot below `slots_in_use`, and no slot is
    /// held twice, by two pages, twice in the pool, or by a page and the pool.
    pub open spec fn wf(&self) -> bool {
        &&& self.page_map().dom().finite()
        &&& self.capacity() <= MAX_PAGE_CAPACITY
        &&& self.slots_in_use() < self.capacity()
        &&& forall|p: PageId| #[trigger]
            self.page_map().contains_key(p) ==> slot_in_range(
                self.page_map()[p],
                self.slots_in_use(),
            )
        &&& forall|i: int|
            0 <= i < self.free().len() ==> slot_in_range(
                #[trigger] self.free()[i],
                self.slots_in_use(),
            )
        &&& forall|p: PageId, q: PageId|
            #![trigger self.page_map()[p], self.page_map()[q]]
            self.page_map().contains_key(p) && self.page_map().contains_key(q) && p != q
                ==> self.page_map()[p] != self.page_map()[q]
        &&& forall|i: int, j: int|
            #![trigger self.free()[i], self.free()[j]]
            0 <= i < j < self.free().len() ==> self.free()[i] != self.free()[j]
        &&& forall|p: PageId, i: int|
            #![trigger self.page_map()[p], self.free()[i]]
            self.page_map().contains_key(p) && 0 <= i < self.free().len() ==> self.page_map()[p]
                != self.free()[i]
    }

    /// Where page `p` goes: its recorded offset; else the most recently freed
    /// offset; else the next slot past the used ones, doubling the capacity
    /// when that slot would reach it.
    pub open spec fn placement_for(&self, p: PageId) -> Result<Placement, StoreError> {
        if self.page_map().contains_key(p) {
            Ok(Placement { offset: self.page_map()[p], grow_file_to: None })
        } else if self.free().len() > 0 {
            Ok(Placement { offset: self.free().last(), grow_file_to: None })
        } else if self.page_map().len() + 1 >= self.capacity() {
            if 2 * self.capacity() > MAX_PAGE_CAPACITY {
                Err(StoreError::CapacityExhausted)
            } else {
                Ok(
                    Placement {
                        offset: (self.page_map().len() * BUSTUB_PAGE_SIZE) as u64,
                        grow_file_to: Some(
                            ((2 * self.capacity() + 1) * BUSTUB_PAGE_SIZE) as u64,
                        ),
                    },
                )
            }
        } else {
            Ok(
                Placement {
                    offset: (self.page_map().len() * BUSTUB_PAGE_SIZE) as u64,
                    grow_file_to: None,
                },
            )
        }
    }

    /// The directory after page `p` is recorded at placement `pl`.
    pub open spec fn placed(&self, after: Self, p: PageId, pl: Placement) -> bool {
        &&& after.page_map() == self.page_map().insert(p, pl.offset)
        &&& after.free() == if self.page_map().contains_key(p) || self.free().len() == 0 {
            self.free()
        } else {
            self.free().drop_last()
        }
        &&& after.capacity() == if pl.grow_file_to is Some {
            2 * self.capacity()
        } else {
            self.capacity()
        }
        &&& after.flush_pending() == self.flush_pending()
        &&& after.num_flushes() == self.num_flushes()
        &&& after.num_deletes() == self.num_deletes()
        &&& after.num_eof_reads() == self.num_eof_reads()
    }

    /// An empty directory for a page file of the default capacity.
    pub fn new() -> (r: Self)
        ensures
            r.wf(),
            r.page_map() == Map::<PageId, u64>::empty(),
            r.free() == Seq::<u64>::empty(),
            r.capacity() == DEFAULT_DB_IO_SIZE,
            !r.flush_pending(),
            r.num_writes() == 0,
            r.num_deletes() == 0,
            r.num_flushes() == 0,
            r.num_eof_reads() == 0,
    {
        PageDirectory {
            page_capacity: DEFAULT_DB_IO_SIZE,
            pages: std::collections::HashMap::new(),
            free_slots: Vec::new(),
            flush_log: false,
            num_flushes: 0,
            num_writes: 0,
            num_deletes: 0,
            num_eof_reads: 0,
        }
    }

    /// Length in bytes the page file is created with.
    pub fn initial_file_len() -> (r: u64)
        ensures
            r == (DEFAULT_DB_IO_SIZE + 1) * BUSTUB_PAGE_SIZE,
    {
        (DEFAULT_DB_IO_SIZE + 1) * BUSTUB_PAGE_SIZE
    }

    /// The offset recorded for `page_id`, if any.
    pub fn offset_of(&self, page_id: PageId) -> (r: Option<u64>)
        ensures
            r == if self.page_map().contains_key(page_id) {
                Some(self.page_map()[page_id])
            } else {
                None::<u64>
            },
    {
        match self.pages.get(&page_id) {
            Some(o) => Some(*o),
            None => None,
        }
    }

    /// Where `page_id` goes, without changing anything.
    pub fn locate(&self, page_id: PageId) -> (r: Result<Placement, StoreError>)
        requires
            self.wf(),
        ensures
            r == self.placement_for(page_id),
    {
        match self.pages.get(&page_id) {
            Some(o) => Ok(Placement { offset: *o, grow_file_to: None }),
            None => {
                let nfree = self.free_slots.len();
                if nfree > 0 {
                    Ok(Placement { offset: self.free_slots[nfree - 1], grow_file_to: None })
                } else {
                    let n = self.pages.len() as u64;
                    if n + 1 >= self.page_capacity {
                        if self.page_capacity > MAX_PAGE_CAPACITY / 2 {
                            Err(StoreError::CapacityExhausted)
                        } else {
                            Ok(
                                Placement {
                                    offset: n * BUSTUB_PAGE_SIZE,
                                    grow_file_to: Some(
                                        (2 * self.page_capacity + 1) * BUSTUB_PAGE_SIZE,
                                    ),
                                },
                            )
                        }
                    } else {
                        Ok(Placement { offset: n * BUSTUB_PAGE_SIZE, grow_file_to: None })
                    }
                }
            },
        }
    }

    /// Records `page_id` at `pl`, taking the slot out of the free pool or
    /// past the used ones, and growing the capacity as `pl` says.
    fn place(&mut self, page_id: PageId, pl: Placement)
        requires
            old(self).wf(),
            old(self).placement_for(page_id) == Ok::<Placement, StoreError>(pl),
        ensures
            final(self).wf(),
            old(self).placed(*final(self), page_id, pl),
            final(self).num_writes() == old(self).num_writes(),
    {
        if self.pages.contains_key(&page_id) {
            assert(self.pages@.insert(page_id, pl.offset) =~= self.pages@);
            return ;
        }
        let ghost n = self.slots_in_use();
        if self.free_slots.len() > 0 {
            let ghost f = self.free_slots@;
            self.free_slots.pop();
            self.pages.insert(page_id, pl.offset);
            assert(self.slots_in_use() == n);
            assert forall|i: int|
                0 <= i < self.free().len() implies slot_in_range(
                #[trigger] self.free()[i],
                n,
            ) by {
                assert(self.free()[i] == f[i]);
            }
            assert forall|p: PageId| #[trigger]
                self.page_map().contains_key(p) implies slot_in_range(self.page_map()[p], n) by {
                if p == page_id {
                    assert(f[f.len() - 1] == pl.offset);
                }
            }
            assert forall|p: PageId, q: PageId|
                #![trigger self.page_map()[p], self.page_map()[q]]
                self.page_map().contains_key(p) && self.page_map().contains_key(q) && p
                    != q implies self.page_map()[p] != self.page_map()[q] by {
                if p == page_id {
                    assert(old(self).free()[f.len() - 1] == pl.offset);
                } else if q == page_id {
                    assert(old(self).free()[f.len() - 1] == pl.offset);
                }
            }
            assert forall|p: PageId, i: int|
                #![trigger self.page_map()[p], self.free()[i]]
                self.page_map().contains_key(p) && 0 <= i < self.free().len() implies self.page_map()[p]
                != self.free()[i] by {
                assert(self.free()[i] == old(self).free()[i]);
                if p == page_id {
                    assert(old(self).free()[f.len() - 1] == pl.offset);
                }
            }
        } else {
            let ghost m = self.pages@;
            self.pages.insert(page_id, pl.offset);
            if pl.grow_file_to.is_some() {
                self.page_capacity = 2 * self.page_capacity;
            }
            assert(self.slots_in_use() == n + 1);
            assert forall|p: PageId| #[trigger]
                self.page_map().contains_key(p) implies slot_in_range(
                self.page_map()[p],
                n + 1,
            ) by {
                if p != page_id {
                    assert(m.contains_key(p));
                }
            }
            assert forall|p: PageId, q: PageId|
                #![trigger self.page_map()[p], self.page_map()[q]]
                self.page_map().contains_key(p) && self.page_map().contains_key(q) && p
                    != q implies self.page_map()[p] != self.page_map()[q] by {
                if p == page_id {
                    assert(m.contains_key(q));
                    assert(slot_in_range(m[q], n));
                } else if q == page_id {
                    assert(m.contains_key(p));
                    assert(slot_in_range(m[p], n));
                }
            }
        }
    }

    /// Records a completed write of `page_id` at `pl` and counts it.
    pub fn commit_write(&mut self, page_id: PageId, pl: Placement)
        requires
            old(self).wf(),
            old(self).placement_for(page_id) == Ok::<Placement, StoreError>(pl),
        ensures
            final(self).wf(),
            old(self).placed(*final(self), page_id, pl),
            final(self).num_writes() == saturating_inc(old(self).num_writes()),
    {
        self.place(page_id, pl);
        self.num_writes = inc_counter(self.num_writes);
    }

    /// Records the slot `pl` chosen for `page_id` on its first read.
    pub fn commit_read(&mut self, page_id: PageId, pl: Placement)
        requires
            old(self).wf(),
            old(self).placement_for(page_id) == Ok::<Placement, StoreError>(pl),
        ensures
            final(self).wf(),
            old(self).placed(*final(self), page_id, pl),
            final(self).num_writes() == old(self).num_writes(),
    {
        self.place(page_id, pl);
    }

    /// Counts a page read that hit the end of the file and was zero-filled.
    pub fn record_eof_read(&mut self)
        ensures
            final(self).num_eof_reads() == saturating_inc(old(self).num_eof_reads()),
            final(self).page_map() == old(self).page_map(),
            final(self).free() == old(self).free(),
            final(self).capacity() == old(self).capacity(),
            final(self).num_writes() == old(self).num_writes(),
            final(self).num_deletes() == old(self).num_deletes(),
            final(self).num_flushes() == old(self).num_flushes(),
            final(self).flush_pending() == old(self).flush_pending(),
    {
        self.num_eof_reads = inc_counter(self.num_eof_reads);
    }

    /// Drops the entry of `page_id` and pushes its offset onto the free pool;
    /// nothing happens for a page without an entry.
    pub fn delete_page(&mut self, page_id: PageId)
        requires
            old(self).wf(),
        ensures
            final(self).wf(),
            !old(self).page_map().contains_key(page_id) ==> *final(self) == *old(self),
            old(self).page_map().contains_key(page_id) ==> {
                &&& final(self).page_map() == old(self).page_map().remove(page_id)
                &&& final(self).free() == old(self).free().push(old(self).page_map()[page_id])
                &&& final(self).num_deletes() == saturating_inc(old(self).num_deletes())
                &&& final(self).capacity() == old(self).capacity()
                &&& final(self).num_writes() == old(self).num_writes()
                &&& final(self).num_flushes() == old(self).num_flushes()
                &&& final(self).num_eof_reads() == old(self).num_eof_reads()
                &&& final(self).flush_pending() == old(self).flush_pending()
            },
    {
        let ghost n = self.slots_in_use();
        let ghost m = self.pages@;
        let ghost f = self.free_slots@;
        if !self.pages.contains_key(&page_id) {
            return ;
        }
        match self.pages.remove(&page_id) {
            Some(offset) => {
                self.free_slots.push(offset);
                self.num_deletes = inc_counter(self.num_deletes);
                assert(self.slots_in_use() == n);
                assert forall|i: int|
                    0 <= i < self.free().len() implies slot_in_range(
                    #[trigger] self.free()[i],
                    n,
                ) by {
                    if i < f.len() {
                        assert(self.free()[i] == f[i]);
                    }
                }
                assert forall|i: int, j: int|
                    #![trigger self.free()[i], self.free()[j]]
                    0 <= i < j < self.free().len() implies self.free()[i] != self.free()[j] by {
                    if j == f.len() {
                        assert(m[page_id] == offset);
                        assert(self.free()[i] == f[i]);
                    }
                }
                assert forall|p: PageId, i: int|
                    #![trigger self.page_map()[p], self.free()[i]]
                    self.page_map().contains_key(p) && 0 <= i < self.free().len() implies self.page_map()[p]
                    != self.free()[i] by {
                    assert(m.contains_key(p) && m[p] == self.page_map()[p]);
                    if i == f.len() {
                        assert(m[page_id] == offset);
                    } else {
                        assert(self.free()[i] == f[i]);
                    }
                }
            },
            None => {},
        }
    }

    /// Starts appending `len` bytes to the log: an empty append is skipped,
    /// otherwise a flush becomes pending.
    pub fn begin_log_write(&mut self, len: usize) -> (r: bool)
        ensures
            r == (len > 0),
            final(self).flush_pending() == (r || old(self).flush_pending()),
            final(self).page_map() == old(self).page_map(),
            final(self).free() == old(self).free(),
            final(self).capacity() == old(self).capacity(),
            final(self).num_writes() == old(self).num_writes(),
            final(self).num_deletes() == old(self).num_deletes(),
            final(self).num_flushes() == old(self).num_flushes(),
            final(self).num_eof_reads() == old(self).num_eof_reads(),
    {
        if len == 0 {
            return false;
        }
        self.flush_log = true;
        true
    }

    /// Records that an append reached the log and was flushed.
    pub fn finish_log_write(&mut self)
        ensures
            !final(self).flush_pending(),
            final(self).num_flushes() == saturating_inc(old(self).num_flushes()),
            final(self).page_map() == old(self).page_map(),
            final(self).free() == old(self).free(),
            final(self).capacity() == old(self).capacity(),
            final(self).num_writes() == old(self).num_writes(),
            final(self).num_deletes() == old(self).num_deletes(),
            final(self).num_eof_reads() == old(self).num_eof_reads(),
    {
        self.num_flushes = inc_counter(self.num_flushes);
        self.flush_log = false;
    }

    /// Decides how a log read of `buf_len` bytes at `offset` goes when the
    /// log holds `log_len` bytes; `None` for an empty buffer.
    pub fn plan_log_read(buf_len: u64, offset: u64, log_len: u64) -> (r: Option<ReadPlan>)
        ensures
            r == if buf_len == 0 {
                None::<ReadPlan>
            } else {
                Some(read_plan(offset, buf_len, log_len))
            },
    {
        if buf_len == 0 {
            None
        } else {
            Some(plan_read(offset, buf_len, log_len))
        }
    }

    /// Length in bytes the page file is kept at.
    pub fn file_length(&self) -> (r: u64)
        requires
            self.wf(),
        ensures
            r == self.file_len(),
    {
        (self.page_capacity + 1) * BUSTUB_PAGE_SIZE
    }

    pub fn get_num_flushes(&self) -> (r: u64)
        ensures
            r == self.num_flushes(),
    {
        self.num_flushes
    }

    pub fn get_num_writes(&self) -> (r: u64)
        ensures
            r == self.num_writes(),
    {
        self.num_writes
    }

    pub fn get_num_deletes(&self) -> (r: u64)
        ensures
            r == self.num_deletes(),
    {
        self.num_deletes
    }

    pub fn get_num_eof_reads(&self) -> (r: u64)
        ensures
            r == self.num_eof_reads(),
    {
        self.num_eof_reads
    }

    pub fn get_flush_state(&self) -> (r: bool)
        ensures
            r == self.flush_pending(),
    {
        self.flush_log
    }
}

/// Once page `p` has been written at `pl`, the next write or read of `p`
/// goes to that same offset without growing the file.
pub proof fn lemma_written_page_found_again(
    before: PageDirectory,
    after: PageDirectory,
    p: PageId,
    pl: Placement,
)
    requires
        before.wf(),
        before.placement_for(p) == Ok::<Placement, StoreError>(pl),
        before.placed(after, p, pl),
    ensures
        after.placement_for(p) == Ok::<Placement, StoreError>(
            Placement { offset: pl.offset, grow_file_to: None },
        ),
{
}

/// Two pages never share an offset, and a page without an entry is placed
/// away from every page that has one.
pub proof fn lemma_offsets_distinct(d: PageDirectory, p: PageId, q: PageId)
    requires
        d.wf(),
        d.page_map().contains_key(p),
        p != q,
    ensures
        d.page_map().contains_key(q) ==> d.page_map()[p] != d.page_map()[q],
        !d.page_map().contains_key(q) ==> (d.placement_for(q) matches Ok(pl) ==> pl.offset
            != d.page_map()[p]),
{
    if !d.page_map().contains_key(q) && d.free().len() > 0 {
        assert(d.free().last() == d.free()[d.free().len() - 1]);
    }
}

/// A page read for the first time from an empty free pool gets a slot that
/// lies wholly inside the page file, so the read meets no bound.
pub proof fn lemma_first_read_in_bounds(
    before: PageDirectory,
    after: PageDirectory,
    p: PageId,
    pl: Placement,
)
    requires
        before.wf(),
        !before.page_map().contains_key(p),
        before.free().len() == 0,
        before.placement_for(p) == Ok::<Placement, StoreError>(pl),
        before.placed(after, p, pl),
        after.wf(),
    ensures
        read_plan(pl.offset, BUSTUB_PAGE_SIZE, after.file_len() as u64) == ReadPlan::Full,
{
    assert(after.page_map().contains_key(p));
}

/// After page `p` is deleted, the next page that needs a slot gets the
/// offset `p` had, before the file is extended.
pub proof fn lemma_deleted_slot_reused_first(
    before: PageDirectory,
    after: PageDirectory,
    p: PageId,
    q: PageId,
)
    requires
        before.wf(),
        before.page_map().contains_key(p),
        after.page_map() == before.page_map().remove(p),
        after.free() == before.free().push(before.page_map()[p]),
        !after.page_map().contains_key(q),
    ensures
        after.placement_for(q) == Ok::<Placement, StoreError>(
            Placement { offset: before.page_map()[p], grow_file_to: None },
        ),
{
}

} // verus!
