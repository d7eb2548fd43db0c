//! The nursery of the heap: a bump allocator over one region of memory.

use vstd::prelude::*;

verus! {

/// Hands out consecutive byte ranges of one region, as offsets into it,
/// until the region is full; `reset` frees them all at once.
pub struct BumpAllocator {
    pub start: usize,
    pub cursor: usize,
    pub end: usize,
    pub region: Vec<u8>,
}

impl BumpAllocator {
    /// The allocator's bounds are consistent: `start <= cursor <= end`, and the
    /// region holds `end` bytes.
    pub open spec fn wf(&self) -> bool {
        &&& self.start == 0
        &&& self.start <= self.cursor <= self.end
        &&& self.region@.len() == self.end
    }

    /// An allocator over a fresh region of `size` zeroed bytes.
    pub fn new(size: usize) -> (r: BumpAllocator)
        ensures
            r.wf(),
            r.start == 0,
            r.cursor == 0,
            r.end == size,
    {
        let mut region: Vec<u8> = Vec::new();
        let mut i: usize = 0;
        while i < size
            invariant
                i <= size,
                region@.len() == i,
            decreases size - i,
        {
            region.push(0);
            i = i + 1;
        }
        BumpAllocator { start: 0, cursor: 0, end: size, region }
    }

    /// The next `size` bytes, as the offset of their first byte; `None` when
    /// fewer than `size` bytes are left, and then nothing changes.
    pub fn allocate(&mut self, size: usize) -> (r: Option<usize>)
        requires
            old(self).wf(),
        ensures
            final(self).wf(),
            final(self).start == old(self).start,
            final(self).end == old(self).end,
            match r {
                Some(p) => bump(old(self).cursor as int, old(self).end as int, size as int) == Some(
                    p as int,
                ),
                None => bump(old(self).cursor as int, old(self).end as int, size as int) is None,
            },
            final(self).cursor == (if r is Some {
                old(self).cursor + size
            } else {
                old(self).cursor as int
            }),
    {
        let ptr = self.cursor;
        if size > self.end - ptr {
            return None;
        }
        self.cursor = ptr + size;
        Some(ptr)
    }

    /// Frees everything handed out: the cursor goes back to the start.
    pub fn reset(&mut self)
        requires
            old(self).wf(),
        ensures
            final(self).wf(),
            final(self).cursor == final(self).start,
            final(self).start == old(self).start,
            final(self).end == old(self).end,
    {
        self.cursor = self.start;
    }
}

/// Size in bytes of the nursery region.
pub const NURSERY_SIZE: usize = 2097152;

/// Allocation volume after which a minor collection is due.
pub const MINOR_THRESHOLD: usize = 1048576;

/// The garbage-collected heap.
pub struct Heap {
    pub nursery: BumpAllocator,
    pub threshold: usize,
}

impl Heap {
    pub open spec fn wf(&self) -> bool {
        self.nursery.wf()
    }

    /// A heap with an empty two-megabyte nursery and a one-megabyte threshold.
    pub fn new() -> (r: Heap)
        ensures
            r.wf(),
            r.nursery.cursor == 0,
            r.nursery.end == NURSERY_SIZE,
            r.threshold == MINOR_THRESHOLD,
    {
        Heap { nursery: BumpAllocator::new(NURSERY_SIZE), threshold: MINOR_THRESHOLD }
    }

    /// A minor collection: the nursery is emptied.
    pub fn collect_minor(&mut self)
        requires
            old(self).wf(),
        ensures
            final(self).wf(),
            final(self).nursery.cursor == final(self).nursery.start,
            final(self).nursery.end == old(self).nursery.end,
            final(self).threshold == old(self).threshold,
    {
        self.nursery.reset();
    }
}

/// Where a bump allocation of `size` bytes at `cursor` in a region ending at
/// `end` starts, if it fits.
pub open spec fn bump(cursor: int, end: int, size: int) -> Option<int> {
    if cursor + size <= end {
        Some(cursor)
    } else {
        None
    }
}

/// Two allocations with no reset between them hand out disjoint ranges, the
/// later one after the earlier one, both inside the region.
pub proof fn law_allocations_disjoint(c0: int, end: int, size1: int, size2: int)
    requires
        0 <= size1,
        0 <= size2,
        bump(c0, end, size1) is Some,
        bump(c0 + size1, end, size2) is Some,
    ensures
        bump(c0, end, size1)->Some_0 + size1 <= bump(c0 + size1, end, size2)->Some_0,
        bump(c0 + size1, end, size2)->Some_0 + size2 <= end,
{
}

} // verus!
