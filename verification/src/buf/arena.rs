//! Allocations and the arena that owns them.
//!
//! An [`Allocation`] is one block of bytes together with its meta data: the
//! reference-count word and the offset up to which the block is initialized.
//! The [`Arena`] owns all allocations. A [`Buffer`] names one of them, or none
//! at all if it is zero-sized.

use super::ref_count::AtomicRefCount;
use super::ref_count::MustDrop;
use super::ref_count::RefCount;
use vstd::prelude::*;

verus! {

/// What an allocation is to contracts.
pub struct AllocationView {
    /// The whole block, whether initialized or not.
    pub bytes: Seq<u8>,
    /// Number of strong handles.
    pub strong: nat,
    /// Whether a reclaim capability is outstanding.
    pub reclaim: bool,
    /// The block is initialized in `[0, initialized)`.
    pub initialized: nat,
}

/// What an arena is to contracts: its live allocations by slot.
pub type ArenaView = Map<usize, AllocationView>;

/// `bytes` with the bytes from `at` on replaced by `patch`.
pub open spec fn splice(bytes: Seq<u8>, at: int, patch: Seq<u8>) -> Seq<u8> {
    bytes.subrange(0, at) + patch + bytes.subrange(at + patch.len(), bytes.len() as int)
}

/// Whether `slot` is the first slot of `arena` that holds no allocation.
pub open spec fn first_free(arena: ArenaView, slot: usize) -> bool {
    &&& !arena.dom().contains(slot)
    &&& forall|below: usize| below < slot ==> arena.dom().contains(below)
}

/// `len` copies of `value`.
pub open spec fn repeat(value: u8, len: nat) -> Seq<u8> {
    Seq::new(len, |i: int| value)
}

pub struct MetaData {
    pub ref_count: AtomicRefCount,
    pub initialized: usize,
}

pub struct Allocation {
    pub bytes: Vec<u8>,
    pub meta_data: MetaData,
}

impl View for Allocation {
    type V = AllocationView;

    open spec fn view(&self) -> AllocationView {
        AllocationView {
            bytes: self.bytes@,
            strong: self.meta_data.ref_count.strong(),
            reclaim: self.meta_data.ref_count.reclaim(),
            initialized: self.meta_data.initialized as nat,
        }
    }
}

/// Owner of all allocations.
pub struct Arena {
    pub slots: Vec<Option<Allocation>>,
}

impl View for Arena {
    type V = ArenaView;

    open spec fn view(&self) -> ArenaView {
        Map::new(
            |slot: usize| slot < self.slots.len() && self.slots[slot as int] is Some,
            |slot: usize| self.slots[slot as int]->Some_0@,
        )
    }
}

impl Arena {
    /// Creates an arena without allocations.
    pub fn new() -> (arena: Self)
        ensures
            arena@ == Map::<usize, AllocationView>::empty(),
    {
        let arena = Arena { slots: Vec::new() };
        assert(arena@ =~= Map::<usize, AllocationView>::empty());
        arena
    }

    /// Takes the allocation out of its slot, to be put back by [`Self::put`].
    fn take(&mut self, slot: usize) -> (allocation: Allocation)
        requires
            old(self)@.dom().contains(slot),
        ensures
            allocation@ == old(self)@[slot],
            final(self)@ == old(self)@.remove(slot),
            final(self).slots.len() == old(self).slots.len(),
    {
        let allocation: Allocation = self.slots[slot].take().unwrap();
        assert(self@ =~= old(self)@.remove(slot));
        allocation
    }

    /// Puts an allocation into a slot of the arena.
    fn put(&mut self, slot: usize, allocation: Allocation)
        requires
            slot < old(self).slots.len(),
        ensures
            final(self)@ == old(self)@.insert(slot, allocation@),
            final(self).slots.len() == old(self).slots.len(),
    {
        self.slots[slot] = Some(allocation);
        assert(self@ =~= old(self)@.insert(slot, allocation@));
    }

    /// Stores a new allocation in the first slot that holds none, and returns
    /// the slot.
    pub fn insert(&mut self, allocation: Allocation) -> (slot: usize)
        ensures
            first_free(old(self)@, slot),
            final(self)@ == old(self)@.insert(slot, allocation@),
    {
        let mut i: usize = 0;
        while i < self.slots.len()
            invariant
                i <= self.slots.len(),
                *self == *old(self),
                forall|below: usize| below < i ==> self@.dom().contains(below),
            decreases self.slots.len() - i,
        {
            if self.slots[i].is_none() {
                self.put(i, allocation);
                return i;
            }
            i = i + 1;
        }
        self.slots.push(Some(allocation));
        assert(self@ =~= old(self)@.insert(i, allocation@));
        i
    }

    /// Removes the allocation in `slot` and frees its block.
    pub fn remove(&mut self, slot: usize)
        requires
            old(self)@.dom().contains(slot),
        ensures
            final(self)@ == old(self)@.remove(slot),
    {
        let _allocation: Allocation = self.take(slot);
    }

    /// Whether `slot` holds an allocation.
    pub fn contains(&self, slot: usize) -> (r: bool)
        ensures
            r == self@.dom().contains(slot),
    {
        slot < self.slots.len() && self.slots[slot].is_some()
    }

    /// The size of the allocation in `slot`.
    pub fn size(&self, slot: usize) -> (r: usize)
        requires
            self@.dom().contains(slot),
        ensures
            r == self@[slot].bytes.len(),
    {
        self.slots[slot].as_ref().unwrap().bytes.len()
    }

    /// The bytes `[start, end)` of the allocation in `slot`.
    pub fn bytes(&self, slot: usize, start: usize, end: usize) -> (r: &[u8])
        requires
            self@.dom().contains(slot),
            start <= end <= self@[slot].bytes.len(),
        ensures
            r@ == self@[slot].bytes.subrange(start as int, end as int),
    {
        let allocation: &Allocation = self.slots[slot].as_ref().unwrap();
        vstd::slice::slice_subrange(allocation.bytes.as_slice(), start, end)
    }

    /// Copies `source` into the allocation in `slot`, starting at `at`.
    pub fn write(&mut self, slot: usize, at: usize, source: &[u8])
        requires
            old(self)@.dom().contains(slot),
            at + source@.len() <= old(self)@[slot].bytes.len(),
        ensures
            final(self)@ == old(self)@.insert(
                slot,
                AllocationView {
                    bytes: splice(old(self)@[slot].bytes, at as int, source@),
                    ..old(self)@[slot]
                },
            ),
    {
        let mut allocation: Allocation = self.take(slot);
        let ghost before = allocation.bytes@;
        let mut i: usize = 0;
        while i < source.len()
            invariant
                i <= source@.len(),
                at + source@.len() <= before.len(),
                before.len() == allocation.bytes.len(),
                old(self)@.dom().contains(slot),
                allocation.meta_data == old(self).slots[slot as int]->Some_0.meta_data,
                allocation.bytes@ == splice(before, at as int, source@.subrange(0, i as int)),
            decreases source@.len() - i,
        {
            allocation.bytes[at + i] = source[i];
            assert(allocation.bytes@ =~= splice(
                before,
                at as int,
                source@.subrange(0, i as int + 1),
            ));
            i = i + 1;
        }
        assert(source@.subrange(0, i as int) =~= source@);
        self.put(slot, allocation);
        assert(self@ =~= old(self)@.insert(
            slot,
            AllocationView { bytes: splice(before, at as int, source@), ..old(self)@[slot] },
        ));
    }

    /// Sets the bytes `[start, end)` of the allocation in `slot` to `value`.
    pub fn fill(&mut self, slot: usize, start: usize, end: usize, value: u8)
        requires
            old(self)@.dom().contains(slot),
            start <= end <= old(self)@[slot].bytes.len(),
        ensures
            final(self)@ == old(self)@.insert(
                slot,
                AllocationView {
                    bytes: splice(
                        old(self)@[slot].bytes,
                        start as int,
                        repeat(value, (end - start) as nat),
                    ),
                    ..old(self)@[slot]
                },
            ),
    {
        let mut allocation: Allocation = self.take(slot);
        let ghost before = allocation.bytes@;
        let mut i: usize = start;
        while i < end
            invariant
                start <= i <= end <= before.len(),
                before.len() == allocation.bytes.len(),
                old(self)@.dom().contains(slot),
                allocation.meta_data == old(self).slots[slot as int]->Some_0.meta_data,
                allocation.bytes@ == splice(before, start as int, repeat(value, (i - start) as nat)),
            decreases end - i,
        {
            allocation.bytes[i] = value;
            assert(allocation.bytes@ =~= splice(
                before,
                start as int,
                repeat(value, (i + 1 - start) as nat),
            ));
            i = i + 1;
        }
        self.put(slot, allocation);
        assert(self@ =~= old(self)@.insert(
            slot,
            AllocationView {
                bytes: splice(before, start as int, repeat(value, (end - start) as nat)),
                ..old(self)@[slot]
            },
        ));
    }

    /// The offset up to which the allocation in `slot` is initialized.
    pub fn initialized(&self, slot: usize) -> (r: usize)
        requires
            self@.dom().contains(slot),
        ensures
            r == self@[slot].initialized,
    {
        self.slots[slot].as_ref().unwrap().meta_data.initialized
    }

    /// Records that the allocation in `slot` is initialized up to `to`.
    pub fn set_initialized(&mut self, slot: usize, to: usize)
        requires
            old(self)@.dom().contains(slot),
        ensures
            final(self)@ == old(self)@.insert(
                slot,
                AllocationView { initialized: to as nat, ..old(self)@[slot] },
            ),
    {
        let mut allocation: Allocation = self.take(slot);
        allocation.meta_data.initialized = to;
        self.put(slot, allocation);
        assert(self@ =~= old(self)@.insert(
            slot,
            AllocationView { initialized: to as nat, ..old(self)@[slot] },
        ));
    }

    /// Observes the reference count of the allocation in `slot`.
    pub fn ref_count(&self, slot: usize) -> (r: RefCount)
        requires
            self@.dom().contains(slot),
        ensures
            r == (RefCount::Counted {
                ref_count: self@[slot].strong as usize,
                reclaim: self@[slot].reclaim,
            }),
    {
        RefCount::from_atomic(&self.slots[slot].as_ref().unwrap().meta_data.ref_count)
    }

    /// Counts one more strong handle for the allocation in `slot`.
    pub fn increment(&mut self, slot: usize)
        requires
            old(self)@.dom().contains(slot),
            old(self)@[slot].strong < usize::MAX / 2,
        ensures
            final(self)@ == old(self)@.insert(
                slot,
                AllocationView { strong: old(self)@[slot].strong + 1, ..old(self)@[slot] },
            ),
    {
        let mut allocation: Allocation = self.take(slot);
        allocation.meta_data.ref_count.increment();
        self.put(slot, allocation);
        assert(self@ =~= old(self)@.insert(
            slot,
            AllocationView { strong: old(self)@[slot].strong + 1, ..old(self)@[slot] },
        ));
    }

    /// Counts one strong handle less for the allocation in `slot`, and tells
    /// whether the allocation must now be freed.
    pub fn decrement(&mut self, slot: usize) -> (r: MustDrop)
        requires
            old(self)@.dom().contains(slot),
            old(self)@[slot].strong >= 1,
        ensures
            final(self)@ == old(self)@.insert(
                slot,
                AllocationView {
                    strong: (old(self)@[slot].strong - 1) as nat,
                    ..old(self)@[slot]
                },
            ),
            r.0 == (old(self)@[slot].strong == 1 && !old(self)@[slot].reclaim),
    {
        let mut allocation: Allocation = self.take(slot);
        let must_drop: MustDrop = allocation.meta_data.ref_count.decrement();
        self.put(slot, allocation);
        assert(self@ =~= old(self)@.insert(
            slot,
            AllocationView { strong: (old(self)@[slot].strong - 1) as nat, ..old(self)@[slot] },
        ));
        must_drop
    }

    /// Withdraws the reclaim capability of the allocation in `slot`, and tells
    /// whether the allocation must now be freed.
    pub fn make_unreclaimable(&mut self, slot: usize) -> (r: MustDrop)
        requires
            old(self)@.dom().contains(slot),
        ensures
            final(self)@ == old(self)@.insert(
                slot,
                AllocationView { reclaim: false, ..old(self)@[slot] },
            ),
            r.0 == (old(self)@[slot].strong == 0 && old(self)@[slot].reclaim),
    {
        let mut allocation: Allocation = self.take(slot);
        let must_drop: MustDrop = allocation.meta_data.ref_count.make_unreclaimable();
        self.put(slot, allocation);
        assert(self@ =~= old(self)@.insert(
            slot,
            AllocationView { reclaim: false, ..old(self)@[slot] },
        ));
        must_drop
    }

    /// Tries to reclaim the allocation in `slot`: succeeds, and counts one
    /// strong handle, exactly if only the reclaim capability refers to it.
    pub fn try_reclaim(&mut self, slot: usize) -> (r: bool)
        requires
            old(self)@.dom().contains(slot),
        ensures
            r == (old(self)@[slot].strong == 0 && old(self)@[slot].reclaim),
            r ==> final(self)@ == old(self)@.insert(
                slot,
                AllocationView { strong: 1, ..old(self)@[slot] },
            ),
            !r ==> final(self)@ == old(self)@,
    {
        let mut allocation: Allocation = self.take(slot);
        let reclaimed: bool = allocation.meta_data.ref_count.try_reclaim();
        self.put(slot, allocation);
        if reclaimed {
            assert(self@ =~= old(self)@.insert(
                slot,
                AllocationView { strong: 1, ..old(self)@[slot] },
            ));
        } else {
            assert(self@ =~= old(self)@);
        }
        reclaimed
    }

    /// Whether the allocation in `slot` could be reclaimed right now.
    pub fn can_reclaim(&self, slot: usize) -> (r: bool)
        requires
            self@.dom().contains(slot),
        ensures
            r == (self@[slot].strong == 0 && self@[slot].reclaim),
    {
        self.slots[slot].as_ref().unwrap().meta_data.ref_count.can_reclaim()
    }
}

/// What allocating `buf` does to an arena: nothing if `buf` is zero-sized.
/// Otherwise `buf` names the first slot that held no allocation before, which
/// now holds a block of the buffer's size with the given counts. The block
/// is zeroed, but none of it counts as initialized. No other slot changes.
pub open spec fn allocated(
    before: ArenaView,
    after: ArenaView,
    buf: Buffer,
    strong: nat,
    reclaim: bool,
) -> bool {
    match buf.allocation {
        None => buf.size == 0 && after == before,
        Some(slot) => {
            &&& buf.size > 0
            &&& first_free(before, slot)
            &&& after == before.insert(slot, after[slot])
            &&& after[slot].bytes == repeat(0, buf.size as nat)
            &&& after[slot].strong == strong
            &&& after[slot].reclaim == reclaim
            &&& after[slot].initialized == 0
        },
    }
}

/// Names the allocation behind a buffer.
///
/// A zero-sized buffer has no allocation: it needs no reference count and
/// nothing is ever freed for it.
#[derive(Clone, Copy)]
pub struct Buffer {
    /// The slot of the allocation in the arena, if there is one.
    pub allocation: Option<usize>,
    /// The size of the allocation, `0` if there is none.
    pub size: usize,
}

impl Buffer {
    /// The buffer is zero-sized, or names a live allocation of its size.
    pub open spec fn wf(&self, arena: ArenaView) -> bool {
        match self.allocation {
            None => self.size == 0,
            Some(slot) => arena.dom().contains(slot) && arena[slot].bytes.len() == self.size,
        }
    }

    /// What observing the reference count of the buffer gives.
    pub open spec fn spec_ref_count(&self, arena: ArenaView) -> RefCount {
        match self.allocation {
            None => RefCount::Static,
            Some(slot) => RefCount::Counted {
                ref_count: arena[slot].strong as usize,
                reclaim: arena[slot].reclaim,
            },
        }
    }

    /// Checks that the buffer is zero-sized, or names a live allocation of
    /// its size.
    pub fn is_valid(&self, arena: &Arena) -> (r: bool)
        ensures
            r == self.wf(arena@),
    {
        match self.allocation {
            None => self.size == 0,
            Some(slot) => arena.contains(slot) && arena.size(slot) == self.size,
        }
    }

    pub fn zero_sized() -> (buf: Self)
        ensures
            buf.allocation is None,
            buf.size == 0,
    {
        Buffer { allocation: None, size: 0 }
    }

    /// Allocates a zeroed block of `size` bytes, none of which count as
    /// initialized, that starts out with `ref_count` strong handles and the
    /// given reclaim flag. For `size == 0` nothing is allocated.
    pub fn new(arena: &mut Arena, size: usize, ref_count: usize, reclaim: bool) -> (buf: Self)
        requires
            ref_count <= usize::MAX / 2,
        ensures
            buf.size == size,
            allocated(old(arena)@, final(arena)@, buf, ref_count as nat, reclaim),
            buf.wf(final(arena)@),
    {
        if size == 0 {
            Self::zero_sized()
        } else {
            let meta_data = MetaData {
                ref_count: AtomicRefCount::new(ref_count, reclaim),
                initialized: 0,
            };
            let mut bytes: Vec<u8> = Vec::new();
            bytes.resize(size, 0u8);
            assert(bytes@ =~= repeat(0, size as nat));
            let slot: usize = arena.insert(Allocation { bytes, meta_data });
            Buffer { allocation: Some(slot), size }
        }
    }

    #[inline]
    pub fn len(&self) -> (r: usize)
        ensures
            r == self.size,
    {
        self.size
    }

    /// Frees the allocation. The buffer must have one.
    #[inline]
    pub fn deallocate(self, arena: &mut Arena)
        requires
            self.allocation is Some,
            self.wf(old(arena)@),
        ensures
            final(arena)@ == old(arena)@.remove(self.allocation->Some_0),
    {
        match self.allocation {
            Some(slot) => arena.remove(slot),
            None => {},
        }
    }

    #[inline]
    pub fn ref_count(&self, arena: &Arena) -> (r: RefCount)
        requires
            self.wf(arena@),
        ensures
            r == self.spec_ref_count(arena@),
    {
        match self.allocation {
            None => RefCount::Static,
            Some(slot) => arena.ref_count(slot),
        }
    }
}

} // verus!
