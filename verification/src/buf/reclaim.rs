//! The capability to take an allocation back once nobody uses it.

use super::arc_buf_mut::ArcBufMut;
use super::arena::AllocationView;
use super::arena::Arena;
use super::arena::ArenaView;
use super::arena::Buffer;
use super::buffer_ref::BufferRef;
use super::ref_count::MustDrop;
use super::ref_count::RefCount;
use vstd::prelude::*;

verus! {

/// A handle to reclaim an allocation.
///
/// It does not count as a strong handle, but while it is outstanding the
/// allocation is not freed, even when all strong handles are gone. It can
/// then be turned into a fresh buffer over the same allocation.
pub struct Reclaim {
    pub buf: Buffer,
}

impl Reclaim {
    /// Whether the capability has no allocation.
    pub open spec fn is_static(&self) -> bool {
        self.buf.allocation is None
    }

    /// What observing the reference count of the allocation gives.
    pub open spec fn spec_ref_count(&self, arena: ArenaView) -> RefCount {
        self.buf.spec_ref_count(arena)
    }

    /// The slot of the capability's allocation.
    pub open spec fn slot(&self) -> usize {
        self.buf.allocation->Some_0
    }

    /// The capability is consistent with the arena: it has no allocation, or
    /// its allocation is live and records the capability.
    pub open spec fn wf(&self, arena: ArenaView) -> bool {
        &&& self.buf.wf(arena)
        &&& !self.is_static() ==> {
            &&& arena[self.slot()].reclaim
            &&& arena[self.slot()].initialized <= self.buf.size
            &&& self.buf.size > 0
        }
    }

    /// Whether reclaiming would succeed in `arena`.
    pub open spec fn spec_can_reclaim(&self, arena: ArenaView) -> bool {
        self.is_static() || arena[self.slot()].strong == 0
    }

    /// The buffer that a successful reclaim hands out: the whole allocation,
    /// as its tail, with nothing filled.
    pub open spec fn reclaimed(&self) -> ArcBufMut {
        if self.is_static() {
            ArcBufMut { inner: BufferRef::sentinel(), filled: 0 }
        } else {
            ArcBufMut {
                inner: BufferRef { buf: self.buf, start: 0, end: self.buf.size, tail: true },
                filled: 0,
            }
        }
    }

    /// Checks that the capability is consistent with the arena.
    pub fn is_valid(&self, arena: &Arena) -> (r: bool)
        ensures
            r == self.wf(arena@),
    {
        if !self.buf.is_valid(arena) {
            return false;
        }
        match self.buf.allocation {
            None => true,
            Some(slot) => arena.ref_count(slot).can_be_reclaimed() && arena.initialized(slot)
                <= self.buf.size && self.buf.size > 0,
        }
    }

    /// Tries to take the allocation back. This succeeds exactly if no strong
    /// handle to the allocation is left; the returned buffer then is its one
    /// strong handle. Without an allocation this always succeeds, with an
    /// empty buffer.
    pub fn try_reclaim(&self, arena: &mut Arena) -> (r: Option<ArcBufMut>)
        requires
            self.wf(old(arena)@),
        ensures
            r is Some <==> self.spec_can_reclaim(old(arena)@),
            r matches Some(buf) ==> buf == self.reclaimed() && buf.wf(final(arena)@),
            final(arena)@ == if !self.is_static() && r is Some {
                old(arena)@.insert(
                    self.slot(),
                    AllocationView { strong: 1, ..old(arena)@[self.slot()] },
                )
            } else {
                old(arena)@
            },
            self.wf(final(arena)@),
    {
        match self.buf.allocation {
            None => Some(ArcBufMut::default()),
            Some(slot) => {
                let reclaimed: bool = arena.try_reclaim(slot);
                if reclaimed {
                    // we reclaimed the allocation, thus we can hand out a new unique handle to it
                    Some(
                        ArcBufMut {
                            inner: BufferRef {
                                buf: self.buf,
                                start: 0,
                                end: self.buf.len(),
                                tail: true,
                            },
                            filled: 0,
                        },
                    )
                } else {
                    None
                }
            },
        }
    }

    #[inline]
    pub fn can_reclaim(&self, arena: &Arena) -> (r: bool)
        requires
            self.wf(arena@),
        ensures
            r == self.spec_can_reclaim(arena@),
    {
        match self.buf.allocation {
            None => true,
            Some(slot) => arena.can_reclaim(slot),
        }
    }

    #[inline]
    pub fn ref_count(&self, arena: &Arena) -> (r: RefCount)
        requires
            self.wf(arena@),
        ensures
            r is Static <==> self.is_static(),
            r == self.spec_ref_count(arena@),
    {
        self.buf.ref_count(arena)
    }

    /// Gives the capability up. The allocation is freed if no strong handle
    /// to it is left; otherwise it will be freed with its last strong handle.
    pub fn release(self, arena: &mut Arena)
        requires
            self.wf(old(arena)@),
        ensures
            final(arena)@ == if self.is_static() {
                old(arena)@
            } else if old(arena)@[self.slot()].strong == 0 {
                old(arena)@.remove(self.slot())
            } else {
                old(arena)@.insert(
                    self.slot(),
                    AllocationView { reclaim: false, ..old(arena)@[self.slot()] },
                )
            },
    {
        match self.buf.allocation {
            None => {},
            Some(slot) => {
                let must_drop: MustDrop = arena.make_unreclaimable(slot);
                if must_drop.0 {
                    self.buf.deallocate(arena);
                    assert(arena@ =~= old(arena)@.remove(slot));
                }
            },
        }
    }
}

} // verus!
