//! Range-scoped strong handles into an allocation.

use super::arena::AllocationView;
use super::arena::Arena;
use super::arena::ArenaView;
use super::arena::Buffer;
use super::arena::repeat;
use super::arena::splice;
use super::ref_count::MustDrop;
use super::ref_count::RefCount;
use vstd::prelude::*;

verus! {

/// The arena after one strong handle to the allocation in `slot` was given
/// up: the allocation is freed if that was the last reference to it.
pub open spec fn released(arena: ArenaView, slot: usize) -> ArenaView {
    if arena[slot].strong == 1 && !arena[slot].reclaim {
        arena.remove(slot)
    } else {
        arena.insert(
            slot,
            AllocationView { strong: (arena[slot].strong - 1) as nat, ..arena[slot] },
        )
    }
}

/// The arena after one more strong handle to the allocation in `slot` was
/// counted.
pub open spec fn retained(arena: ArenaView, slot: usize) -> ArenaView {
    arena.insert(slot, AllocationView { strong: arena[slot].strong + 1, ..arena[slot] })
}

/// A strong handle to the range `[start, end)` of an allocation.
pub struct BufferRef {
    pub buf: Buffer,
    pub start: usize,
    pub end: usize,
    /// `true` if this is the *tail* of the allocation. This means that this
    /// handle might contain an uninitialized portion of the allocation, and
    /// that it is the one that reads and advances the allocation's
    /// initialization boundary. Otherwise its range is fully initialized.
    ///
    /// If the buffer is zero-sized, this is always `false`.
    pub tail: bool,
}

impl BufferRef {
    /// The handle without an allocation.
    pub open spec fn sentinel() -> BufferRef {
        BufferRef { buf: Buffer { allocation: None, size: 0 }, start: 0, end: 0, tail: false }
    }

    /// Whether the handle has no allocation.
    pub open spec fn is_static(&self) -> bool {
        self.buf.allocation is None
    }

    /// What observing the reference count of the handle gives.
    pub open spec fn spec_ref_count(&self, arena: ArenaView) -> RefCount {
        self.buf.spec_ref_count(arena)
    }

    /// The slot of the handle's allocation.
    pub open spec fn slot(&self) -> usize {
        self.buf.allocation->Some_0
    }

    pub open spec fn spec_len(&self) -> nat {
        if self.start <= self.end {
            (self.end - self.start) as nat
        } else {
            0
        }
    }

    /// The handle is consistent with the arena: it is the sentinel, or a
    /// non-empty range of a live allocation that counts at least one strong
    /// handle. A tail handle contains the initialization boundary, any other
    /// handle lies below it.
    pub open spec fn wf(&self, arena: ArenaView) -> bool {
        &&& self.buf.wf(arena)
        &&& match self.buf.allocation {
            None => self.start == 0 && self.end == 0 && !self.tail,
            Some(slot) => {
                &&& self.start < self.end <= self.buf.size
                &&& arena[slot].strong >= 1
                &&& arena[slot].initialized <= self.buf.size
                &&& if self.tail {
                    self.start <= arena[slot].initialized <= self.end
                } else {
                    self.end <= arena[slot].initialized
                }
            },
        }
    }

    /// The offset in the allocation up to which the handle's range is
    /// initialized.
    pub open spec fn spec_initialized_end(&self, arena: ArenaView) -> nat {
        if self.tail {
            arena[self.slot()].initialized
        } else {
            self.end as nat
        }
    }

    /// How many bytes of the handle's range are initialized.
    pub open spec fn initialized_len(&self, arena: ArenaView) -> nat {
        (self.spec_initialized_end(arena) - self.start) as nat
    }

    /// All bytes of the handle's range.
    pub open spec fn bytes(&self, arena: ArenaView) -> Seq<u8> {
        if self.is_static() {
            Seq::empty()
        } else {
            arena[self.slot()].bytes.subrange(self.start as int, self.end as int)
        }
    }

    /// The initialized bytes of the handle's range.
    pub open spec fn initialized_bytes(&self, arena: ArenaView) -> Seq<u8> {
        self.bytes(arena).subrange(0, self.initialized_len(arena) as int)
    }

    /// The arena after `patch` was written into the handle's range at the
    /// relative offset `at`.
    pub open spec fn written(&self, arena: ArenaView, at: int, patch: Seq<u8>) -> ArenaView {
        if patch.len() == 0 {
            arena
        } else {
            arena.insert(
                self.slot(),
                AllocationView {
                    bytes: splice(arena[self.slot()].bytes, self.start + at, patch),
                    ..arena[self.slot()]
                },
            )
        }
    }

    /// The arena after the handle's initialization boundary was advanced to
    /// the relative offset `to`. Only a tail handle moves the boundary, and
    /// never backwards.
    pub open spec fn advanced(&self, arena: ArenaView, to: int) -> ArenaView {
        if self.tail && self.start + to > arena[self.slot()].initialized {
            arena.insert(
                self.slot(),
                AllocationView { initialized: (self.start + to) as nat, ..arena[self.slot()] },
            )
        } else {
            arena
        }
    }

    /// The handle narrowed to `[start, end)`, relative to its range. An empty
    /// range makes it the sentinel. A tail handle stays the tail exactly if
    /// the initialization boundary still lies within its range.
    pub open spec fn shrunk(&self, arena: ArenaView, start: int, end: int) -> BufferRef {
        if start == end {
            BufferRef::sentinel()
        } else {
            BufferRef {
                start: (self.start + start) as usize,
                end: (self.start + end) as usize,
                tail: self.tail && self.initialized_len(arena) <= end,
                ..*self
            }
        }
    }

    /// Whether one more strong handle to the handle's allocation, if it has
    /// one, fits the reference count.
    pub open spec fn can_retain(&self, arena: ArenaView) -> bool {
        !self.is_static() ==> arena[self.slot()].strong < usize::MAX / 2
    }

    /// Checks that the handle is consistent with the arena.
    pub fn is_valid(&self, arena: &Arena) -> (r: bool)
        ensures
            r == self.wf(arena@),
    {
        if !self.buf.is_valid(arena) {
            return false;
        }
        match self.buf.allocation {
            None => self.start == 0 && self.end == 0 && !self.tail,
            Some(slot) => {
                let initialized: usize = arena.initialized(slot);
                let strong: Option<usize> = arena.ref_count(slot).ref_count();
                self.start < self.end && self.end <= self.buf.size && strong != Some(0)
                    && initialized <= self.buf.size && if self.tail {
                    self.start <= initialized && initialized <= self.end
                } else {
                    self.end <= initialized
                }
            },
        }
    }

    /// Checks that one more strong handle to the handle's allocation, if it
    /// has one, fits the reference count.
    pub fn is_retainable(&self, arena: &Arena) -> (r: bool)
        requires
            self.buf.wf(arena@),
        ensures
            r == self.can_retain(arena@),
    {
        match self.buf.allocation {
            None => true,
            Some(slot) => match arena.ref_count(slot).ref_count() {
                Some(strong) => strong < usize::MAX / 2,
                None => true,
            },
        }
    }

    /// The full-range handle of a buffer. It is the tail, unless the buffer is
    /// zero-sized.
    pub fn from_buf(buf: Buffer) -> (r: Self)
        ensures
            r == (BufferRef { buf, start: 0, end: buf.size, tail: buf.size != 0 }),
    {
        let end: usize = buf.len();
        BufferRef { buf, start: 0, end, tail: end != 0 }
    }

    /// The whole range of the handle, initialized or not.
    #[inline]
    pub fn uninitialized<'a>(&self, arena: &'a Arena) -> (r: &'a [u8])
        requires
            self.wf(arena@),
        ensures
            r@ == self.bytes(arena@),
    {
        match self.buf.allocation {
            None => {
                let empty: &'static [u8] = &[];
                assert(empty@ =~= Seq::<u8>::empty());
                empty
            },
            Some(slot) => arena.bytes(slot, self.start, self.end),
        }
    }

    /// Writes `source` into the handle's range at the relative offset `at`.
    /// Nothing outside `[at, at + source.len())` of the range changes, and
    /// neither counts nor the initialization boundary do.
    #[inline]
    pub fn uninitialized_mut(&self, arena: &mut Arena, at: usize, source: &[u8])
        requires
            self.wf(old(arena)@),
            at + source@.len() <= self.spec_len(),
        ensures
            final(arena)@ == self.written(old(arena)@, at as int, source@),
            self.wf(final(arena)@),
            self.bytes(final(arena)@) == splice(self.bytes(old(arena)@), at as int, source@),
    {
        match self.buf.allocation {
            None => {
                assert(self.bytes(arena@) =~= splice(self.bytes(arena@), at as int, source@));
            },
            Some(slot) => {
                if source.len() > 0 {
                    arena.write(slot, self.start + at, source);
                }
                assert(self.bytes(arena@) =~= splice(
                    self.bytes(old(arena)@),
                    at as int,
                    source@,
                ));
            },
        }
    }

    /// Sets the bytes `[from, to)` of the handle's range to `value`.
    #[inline]
    pub fn fill(&self, arena: &mut Arena, from: usize, to: usize, value: u8)
        requires
            self.wf(old(arena)@),
            from <= to <= self.spec_len(),
        ensures
            final(arena)@ == self.written(
                old(arena)@,
                from as int,
                repeat(value, (to - from) as nat),
            ),
            self.wf(final(arena)@),
            self.bytes(final(arena)@) == splice(
                self.bytes(old(arena)@),
                from as int,
                repeat(value, (to - from) as nat),
            ),
    {
        match self.buf.allocation {
            None => {},
            Some(slot) => {
                if from < to {
                    arena.fill(slot, self.start + from, self.start + to, value);
                }
            },
        }
        assert(self.bytes(arena@) =~= splice(
            self.bytes(old(arena)@),
            from as int,
            repeat(value, (to - from) as nat),
        ));
    }

    /// The offset in the allocation up to which the handle's range is
    /// initialized.
    #[inline]
    pub fn initialized_end(&self, arena: &Arena) -> (r: usize)
        requires
            self.wf(arena@),
        ensures
            r == self.spec_initialized_end(arena@),
            self.start <= r <= self.end,
    {
        match self.buf.allocation {
            Some(slot) => if self.tail {
                arena.initialized(slot)
            } else {
                self.end
            },
            None => self.end,
        }
    }

    /// Records that the first `to` bytes of the handle's range are
    /// initialized. The boundary of the allocation only ever moves up, and
    /// only through its tail handle; for any other handle nothing happens,
    /// because its range is initialized anyway.
    #[inline]
    pub fn set_initialized_to(&self, arena: &mut Arena, to: usize)
        requires
            self.wf(old(arena)@),
            to <= self.spec_len(),
        ensures
            final(arena)@ == self.advanced(old(arena)@, to as int),
            self.wf(final(arena)@),
            self.spec_initialized_end(final(arena)@) >= self.spec_initialized_end(old(arena)@),
            self.initialized_len(final(arena)@) >= to,
    {
        match self.buf.allocation {
            Some(slot) => {
                if self.tail {
                    let to: usize = self.start + to;
                    let initialized: usize = arena.initialized(slot);
                    if to > initialized {
                        arena.set_initialized(slot, to);
                    }
                }
            },
            None => {},
        }
    }

    /// The initialized bytes of the handle's range.
    #[inline]
    pub fn initialized<'a>(&self, arena: &'a Arena) -> (r: &'a [u8])
        requires
            self.wf(arena@),
        ensures
            r@ == self.initialized_bytes(arena@),
    {
        let initialized: usize = self.initialized_end(arena);
        match self.buf.allocation {
            None => {
                let empty: &'static [u8] = &[];
                assert(empty@ =~= self.initialized_bytes(arena@));
                empty
            },
            Some(slot) => {
                let r: &[u8] = arena.bytes(slot, self.start, initialized);
                assert(r@ =~= self.initialized_bytes(arena@));
                r
            },
        }
    }

    /// Writes `source` into the initialized part of the handle's range at the
    /// relative offset `at`.
    #[inline]
    pub fn initialized_mut(&self, arena: &mut Arena, at: usize, source: &[u8])
        requires
            self.wf(old(arena)@),
            at + source@.len() <= self.initialized_len(old(arena)@),
        ensures
            final(arena)@ == self.written(old(arena)@, at as int, source@),
            self.wf(final(arena)@),
            self.initialized_bytes(final(arena)@) == splice(
                self.initialized_bytes(old(arena)@),
                at as int,
                source@,
            ),
    {
        self.uninitialized_mut(arena, at, source);
        assert(self.initialized_bytes(arena@) =~= splice(
            self.initialized_bytes(old(arena)@),
            at as int,
            source@,
        ));
    }

    #[inline]
    pub fn len(&self) -> (r: usize)
        ensures
            r == self.spec_len(),
    {
        if self.start <= self.end {
            self.end - self.start
        } else {
            0
        }
    }

    /// Splits `self` into:
    ///
    /// 1. `self`: `[at..]`
    /// 2. returns: `[..at)`
    ///
    /// The returned left half is never the tail. Splitting at `0` returns the
    /// sentinel and leaves `self` alone; splitting at the length moves all of
    /// `self` out and leaves the sentinel behind. Neither touches the
    /// reference count. A split in the middle must lie within the initialized
    /// part, since the left half stands for initialized bytes only.
    pub fn split_at(&mut self, arena: &mut Arena, at: usize) -> (left: BufferRef)
        requires
            old(self).wf(old(arena)@),
            at <= old(self).spec_len(),
            at == old(self).spec_len() || at <= old(self).initialized_len(old(arena)@),
            0 < at < old(self).spec_len() ==> old(self).can_retain(old(arena)@),
        ensures
            at == 0 ==> {
                &&& left == BufferRef::sentinel()
                &&& *final(self) == *old(self)
                &&& final(arena)@ == old(arena)@
            },
            at != 0 && at == old(self).spec_len() ==> {
                &&& left == *old(self)
                &&& *final(self) == BufferRef::sentinel()
                &&& final(arena)@ == old(arena)@
            },
            0 < at < old(self).spec_len() ==> {
                &&& left == (BufferRef {
                    end: (old(self).start + at) as usize,
                    tail: false,
                    ..*old(self)
                })
                &&& *final(self) == (BufferRef {
                    start: (old(self).start + at) as usize,
                    ..*old(self)
                })
                &&& final(arena)@ == retained(old(arena)@, old(self).slot())
            },
            left.wf(final(arena)@),
            final(self).wf(final(arena)@),
            left.bytes(final(arena)@) + final(self).bytes(final(arena)@) == old(self).bytes(
                old(arena)@,
            ),
    {
        let split_offset: usize = at + self.start;
        if at == 0 {
            let left = BufferRef::default();
            assert(left.bytes(arena@) + self.bytes(arena@) =~= self.bytes(arena@));
            left
        } else if split_offset == self.end {
            let left = BufferRef {
                buf: self.buf,
                start: self.start,
                end: self.end,
                tail: self.tail,
            };
            *self = BufferRef::default();
            assert(left.bytes(arena@) + self.bytes(arena@) =~= left.bytes(arena@));
            left
        } else {
            let mut left = self.clone(arena);
            left.end = split_offset;
            left.tail = false;
            self.start = split_offset;
            assert(left.bytes(arena@) + self.bytes(arena@) =~= old(self).bytes(old(arena)@));
            left
        }
    }

    /// Narrows the handle to `[start, end)`, relative to its current range.
    ///
    /// If the new range is empty, the handle gives up its reference and
    /// becomes the sentinel. Otherwise a tail handle stays the tail exactly if
    /// the initialization boundary still lies within its range; the new range
    /// must then not begin above that boundary.
    pub fn shrink(&mut self, arena: &mut Arena, start: usize, end: usize)
        requires
            old(self).wf(old(arena)@),
            start <= end <= old(self).spec_len(),
            start < end ==> start <= old(self).initialized_len(old(arena)@),
        ensures
            *final(self) == old(self).shrunk(old(arena)@, start as int, end as int),
            final(arena)@ == if start == end && !old(self).is_static() {
                released(old(arena)@, old(self).slot())
            } else {
                old(arena)@
            },
            final(self).wf(final(arena)@),
            final(self).bytes(final(arena)@) == old(self).bytes(old(arena)@).subrange(
                start as int,
                end as int,
            ),
    {
        let new_start: usize = self.start + start;
        let new_end: usize = self.start + end;
        if new_start == new_end {
            let dropped = BufferRef {
                buf: self.buf,
                start: self.start,
                end: self.end,
                tail: self.tail,
            };
            *self = BufferRef::default();
            dropped.release(arena);
            assert(self.bytes(arena@) =~= old(self).bytes(old(arena)@).subrange(
                start as int,
                end as int,
            ));
        } else {
            let initialized: usize = self.initialized_end(arena);
            self.tail = self.tail && initialized <= new_end;
            self.start = new_start;
            self.end = new_end;
            assert(self.bytes(arena@) =~= old(self).bytes(old(arena)@).subrange(
                start as int,
                end as int,
            ));
        }
    }

    #[inline]
    pub fn ref_count(&self, arena: &Arena) -> (r: RefCount)
        requires
            self.buf.wf(arena@),
        ensures
            r is Static <==> self.is_static(),
            r == self.spec_ref_count(arena@),
    {
        self.buf.ref_count(arena)
    }

    /// Zero-fills the handle's range from the initialization boundary to its
    /// end and moves the boundary there. Does nothing unless the handle is the
    /// tail.
    #[inline]
    pub fn fully_initialize(&mut self, arena: &mut Arena)
        requires
            old(self).wf(old(arena)@),
        ensures
            *final(self) == *old(self),
            final(self).wf(final(arena)@),
            if old(self).tail {
                final(arena)@ == old(arena)@.insert(
                    old(self).slot(),
                    AllocationView {
                        bytes: splice(
                            old(arena)@[old(self).slot()].bytes,
                            old(arena)@[old(self).slot()].initialized as int,
                            repeat(
                                0,
                                (old(self).end - old(arena)@[old(self).slot()].initialized) as nat,
                            ),
                        ),
                        initialized: old(self).end as nat,
                        ..old(arena)@[old(self).slot()]
                    },
                )
            } else {
                final(arena)@ == old(arena)@
            },
            final(self).initialized_len(final(arena)@) == final(self).spec_len(),
            final(self).initialized_bytes(final(arena)@) == old(self).initialized_bytes(
                old(arena)@,
            ) + repeat(0, (old(self).spec_len() - old(self).initialized_len(old(arena)@)) as nat),
    {
        match self.buf.allocation {
            Some(slot) => if self.tail {
                let initialized: usize = arena.initialized(slot);
                arena.fill(slot, initialized, self.end, 0);
                arena.set_initialized(slot, self.end);
                assert(arena@ =~= old(arena)@.insert(
                    slot,
                    AllocationView {
                        bytes: splice(
                            old(arena)@[slot].bytes,
                            initialized as int,
                            repeat(0, (self.end - initialized) as nat),
                        ),
                        initialized: self.end as nat,
                        ..old(arena)@[slot]
                    },
                ));
                assert(self.initialized_bytes(arena@) =~= old(self).initialized_bytes(
                    old(arena)@,
                ) + repeat(0, (self.end - initialized) as nat));
            } else {
                assert(self.initialized_bytes(arena@) =~= self.initialized_bytes(arena@) + repeat(
                    0,
                    0,
                ));
            },
            None => {
                assert(self.initialized_bytes(arena@) =~= self.initialized_bytes(arena@) + repeat(
                    0,
                    0,
                ));
            },
        }
    }

    /// Another handle to the same range. It counts as a strong handle of the
    /// allocation, if there is one.
    pub fn clone(&self, arena: &mut Arena) -> (r: Self)
        requires
            self.wf(old(arena)@),
            self.can_retain(old(arena)@),
        ensures
            r == *self,
            final(arena)@ == if self.is_static() {
                old(arena)@
            } else {
                retained(old(arena)@, self.slot())
            },
            self.wf(final(arena)@),
            r.wf(final(arena)@),
            r.bytes(final(arena)@) == self.bytes(old(arena)@),
    {
        match self.buf.allocation {
            Some(slot) => {
                arena.increment(slot);
            },
            None => {},
        }
        BufferRef { buf: self.buf, start: self.start, end: self.end, tail: self.tail }
    }

    /// Gives the handle up. The allocation is freed if this was its last
    /// strong handle and no reclaim capability is outstanding.
    pub fn release(self, arena: &mut Arena)
        requires
            self.wf(old(arena)@),
        ensures
            final(arena)@ == if self.is_static() {
                old(arena)@
            } else {
                released(old(arena)@, self.slot())
            },
    {
        match self.buf.allocation {
            Some(slot) => {
                let must_drop: MustDrop = arena.decrement(slot);
                if must_drop.0 {
                    self.buf.deallocate(arena);
                    assert(arena@ =~= released(old(arena)@, slot));
                }
            },
            None => {},
        }
    }
}

impl Default for BufferRef {
    /// The sentinel: no allocation, empty range, not the tail. It may seem
    /// that an empty buffer is always at the end, but there is no
    /// initialization boundary to watch over without an allocation.
    #[inline]
    fn default() -> (r: Self)
        ensures
            r == BufferRef::sentinel(),
    {
        BufferRef { buf: Buffer::zero_sized(), start: 0, end: 0, tail: false }
    }
}

} // verus!
