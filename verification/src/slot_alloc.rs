//! The block slot allocator: hands out fixed-size slots from the bounded tile
//! arena and takes them back.  All tile slots share one fixed layout, so the
//! allocator is indexed by slot number alone.  Allocation returns the lowest
//! free slot, so a freed slot is eligible for immediate reuse.

use vstd::prelude::*;
use crate::ResourceError;
use crate::tiles::TILE_SLOT_COUNT;

verus! {

/// Occupancy of the fixed pool of tile slots.
pub struct SlotAllocator {
    allocated: Vec<bool>,
}

/// The index of the first free slot in `a`, searching from `i` upward;
/// `a.len()` if every slot from `i` on is taken.
pub open spec fn first_free_from(a: Seq<bool>, i: int) -> int
    decreases a.len() - i,
{
    if i < 0 || i >= a.len() {
        a.len() as int
    } else if !a[i] {
        i
    } else {
        first_free_from(a, i + 1)
    }
}

/// If every slot below `i` is taken, the first free slot overall is the first
/// free slot at or above `i`.
proof fn lemma_first_free_skip(a: Seq<bool>, i: int)
    requires
        0 <= i <= a.len(),
        forall|j: int| 0 <= j < i ==> a[j],
    ensures
        first_free_from(a, 0) == first_free_from(a, i),
    decreases i,
{
    if i > 0 {
        lemma_first_free_skip(a, i - 1);
        assert(a[i - 1]);
    }
}

impl SlotAllocator {
    pub closed spec fn view(&self) -> Seq<bool> {
        self.allocated@
    }

    pub open spec fn wf(&self) -> bool {
        self@.len() == TILE_SLOT_COUNT
    }

    /// True if slot `s` is currently handed out.
    pub open spec fn spec_allocated(&self, s: int) -> bool {
        0 <= s < self@.len() && self@[s]
    }

    /// True if no slot is free.
    pub open spec fn spec_full(&self) -> bool {
        forall|s: int| 0 <= s < self@.len() ==> self@[s]
    }

    /// The slot the next allocation will return: the lowest free one.
    pub open spec fn spec_next_slot(&self) -> int {
        first_free_from(self@, 0)
    }

    pub fn new() -> (r: SlotAllocator)
        ensures
            r.wf(),
            forall|s: int| !r.spec_allocated(s),
    {
        let mut allocated: Vec<bool> = Vec::new();
        let mut i: usize = 0;
        while i < TILE_SLOT_COUNT as usize
            invariant
                i <= TILE_SLOT_COUNT,
                allocated@.len() == i,
                forall|s: int| 0 <= s < i ==> !allocated@[s],
            decreases TILE_SLOT_COUNT - i,
        {
            allocated.push(false);
            i += 1;
        }
        SlotAllocator { allocated }
    }

    pub fn is_allocated(&self, slot: u16) -> (r: bool)
        requires
            self.wf(),
            slot < TILE_SLOT_COUNT,
        ensures
            r == self.spec_allocated(slot as int),
    {
        self.allocated[slot as usize]
    }

    /// Hands out the lowest free slot, or fails when the arena is full.
    pub fn allocate(&mut self) -> (r: Result<u16, ResourceError>)
        requires
            old(self).wf(),
        ensures
            final(self).wf(),
            old(self).spec_full() ==> {
                &&& r == Result::<u16, ResourceError>::Err(ResourceError::ResourceExhausted)
                &&& final(self)@ == old(self)@
            },
            !old(self).spec_full() ==> {
                &&& r == Result::<u16, ResourceError>::Ok(old(self).spec_next_slot() as u16)
                &&& 0 <= old(self).spec_next_slot() < old(self)@.len()
                &&& !old(self).spec_allocated(old(self).spec_next_slot())
                &&& final(self)@ == old(self)@.update(old(self).spec_next_slot(), true)
            },
    {
        let mut i: usize = 0;
        while i < TILE_SLOT_COUNT as usize
            invariant
                self.wf(),
                i <= TILE_SLOT_COUNT,
                self@ == old(self)@,
                forall|j: int| 0 <= j < i ==> self@[j],
            decreases TILE_SLOT_COUNT - i,
        {
            if !self.allocated[i] {
                proof {
                    lemma_first_free_skip(self@, i as int);
                }
                self.allocated.set(i, true);
                return Ok(i as u16);
            }
            i += 1;
        }
        proof {
            lemma_first_free_skip(self@, TILE_SLOT_COUNT as int);
        }
        Err(ResourceError::ResourceExhausted)
    }

    /// Returns a slot to the free pool.  Freeing a slot that is not handed
    /// out is a programmer error, excluded by the precondition.
    pub fn deallocate(&mut self, slot: u16)
        requires
            old(self).wf(),
            slot < TILE_SLOT_COUNT,
            old(self).spec_allocated(slot as int),
        ensures
            final(self).wf(),
            final(self)@ == old(self)@.update(slot as int, false),
    {
        self.allocated.set(slot as usize, false);
    }
}

} // verus!
