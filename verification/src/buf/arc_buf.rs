//! The buffer that is shared and read.

use super::Length;
use super::arena::Arena;
use super::arena::ArenaView;
use super::buffer_ref::BufferRef;
use super::buffer_ref::released;
use super::buffer_ref::retained;
use super::ref_count::RefCount;
use crate::io::End;
use crate::range::Range;
use crate::range::RangeOutOfBounds;
use crate::util::buf_eq;
use vstd::prelude::*;

verus! {

/// A read-only view of a range of an allocation. All of the range is
/// initialized.
pub struct ArcBuf {
    pub inner: BufferRef,
}

impl ArcBuf {
    /// The buffer without an allocation.
    pub open spec fn empty() -> ArcBuf {
        ArcBuf { inner: BufferRef::sentinel() }
    }

    /// The buffer is consistent with the arena: so is its handle, and its
    /// whole range is initialized.
    pub open spec fn wf(&self, arena: ArenaView) -> bool {
        &&& self.inner.wf(arena)
        &&& self.inner.initialized_len(arena) == self.inner.spec_len()
    }

    /// What observing the reference count of the buffer gives.
    pub open spec fn spec_ref_count(&self, arena: ArenaView) -> RefCount {
        self.inner.spec_ref_count(arena)
    }

    /// The content of the buffer.
    pub open spec fn bytes(&self, arena: ArenaView) -> Seq<u8> {
        self.inner.bytes(arena)
    }

    /// Whether counting one more strong handle for the buffer's allocation
    /// fits the reference count.
    pub open spec fn can_retain(&self, arena: ArenaView) -> bool {
        self.inner.can_retain(arena)
    }

    /// The arena after one more strong handle to the buffer was counted.
    pub open spec fn retained(&self, arena: ArenaView) -> ArenaView {
        if self.inner.is_static() {
            arena
        } else {
            retained(arena, self.inner.slot())
        }
    }

    /// The arena after the buffer's strong handle was given up.
    pub open spec fn released(&self, arena: ArenaView) -> ArenaView {
        if self.inner.is_static() {
            arena
        } else {
            released(arena, self.inner.slot())
        }
    }

    /// Checks that the buffer is consistent with the arena.
    pub fn is_valid(&self, arena: &Arena) -> (r: bool)
        ensures
            r == self.wf(arena@),
    {
        self.inner.is_valid(arena) && self.inner.initialized_end(arena) == self.inner.end
    }

    /// Checks that the buffer can be cloned: one more strong handle fits the
    /// reference count.
    pub fn is_retainable(&self, arena: &Arena) -> (r: bool)
        requires
            self.inner.buf.wf(arena@),
        ensures
            r == self.can_retain(arena@),
    {
        self.inner.is_retainable(arena)
    }

    /// The content of the buffer.
    #[inline]
    pub fn as_bytes<'a>(&self, arena: &'a Arena) -> (r: &'a [u8])
        requires
            self.wf(arena@),
        ensures
            r@ == self.bytes(arena@),
    {
        self.inner.uninitialized(arena)
    }

    #[inline]
    pub fn ref_count(&self, arena: &Arena) -> (r: RefCount)
        requires
            self.inner.buf.wf(arena@),
        ensures
            r is Static <==> self.inner.is_static(),
            r == self.spec_ref_count(arena@),
    {
        self.inner.ref_count(arena)
    }

    /// Another buffer with the same content. It shares the allocation and
    /// counts as one more strong handle to it.
    #[inline]
    pub fn clone(&self, arena: &mut Arena) -> (r: Self)
        requires
            self.wf(old(arena)@),
            self.can_retain(old(arena)@),
        ensures
            r == *self,
            final(arena)@ == self.retained(old(arena)@),
            self.wf(final(arena)@),
            r.wf(final(arena)@),
            r.bytes(final(arena)@) == self.bytes(old(arena)@),
    {
        ArcBuf { inner: self.inner.clone(arena) }
    }

    /// The part of the buffer that `range` selects, as a buffer of its own
    /// that shares the allocation.
    pub fn view(&self, arena: &mut Arena, range: Range) -> (r: Result<Self, RangeOutOfBounds>)
        requires
            self.wf(old(arena)@),
            self.can_retain(old(arena)@),
        ensures
            r is Ok <==> range.fits_in(0, self.spec_len() as int),
            r matches Err(e) ==> {
                &&& e == (RangeOutOfBounds {
                    required: range,
                    bounds: (0, self.spec_len() as usize),
                })
                &&& final(arena)@ == old(arena)@
            },
            r matches Ok(view) ==> {
                &&& view.inner == self.inner.shrunk(
                    old(arena)@,
                    range.index_start(0),
                    range.index_end(0, self.spec_len() as int),
                )
                &&& view.wf(final(arena)@)
                &&& view.bytes(final(arena)@) == self.bytes(old(arena)@).subrange(
                    range.index_start(0),
                    range.index_end(0, self.spec_len() as int),
                )
                &&& view.inner.is_static() <==> view.spec_len() == 0
                &&& final(arena)@ == if view.inner.is_static() {
                    old(arena)@
                } else {
                    self.retained(old(arena)@)
                }
            },
            self.wf(final(arena)@),
            self.bytes(final(arena)@) == self.bytes(old(arena)@),
    {
        match range.indices_checked_in(0, self.len()) {
            Ok((start, end)) => {
                let mut cloned = self.clone(arena);
                cloned.inner.shrink(arena, start, end);
                assert(start == end ==> arena@ =~= old(arena)@);
                Ok(cloned)
            },
            Err(e) => Err(e),
        }
    }

    /// A reader over the content of the buffer.
    #[inline]
    pub fn reader(&self, arena: &mut Arena) -> (r: Self)
        requires
            self.wf(old(arena)@),
            self.can_retain(old(arena)@),
        ensures
            r == *self,
            final(arena)@ == self.retained(old(arena)@),
            self.wf(final(arena)@),
            r.wf(final(arena)@),
            r.bytes(final(arena)@) == self.bytes(old(arena)@),
    {
        self.clone(arena)
    }

    /// The content that is left to read, unless there is none.
    #[inline]
    pub fn peek_chunk<'a>(&self, arena: &'a Arena) -> (r: Option<&'a [u8]>)
        requires
            self.wf(arena@),
        ensures
            r is None <==> self.spec_len() == 0,
            r matches Some(chunk) ==> chunk@ == self.bytes(arena@),
    {
        if self.is_empty() {
            None
        } else {
            Some(self.as_bytes(arena))
        }
    }

    /// Takes the first `length` bytes off the buffer and returns them as a
    /// buffer of their own.
    #[inline]
    pub fn take_view(&mut self, arena: &mut Arena, length: usize) -> (r: Result<Self, End>)
        requires
            old(self).wf(old(arena)@),
            old(self).can_retain(old(arena)@),
        ensures
            r is Ok <==> length <= old(self).spec_len(),
            r matches Err(e) ==> {
                &&& e == (End {
                    requested: length,
                    read: 0,
                    remaining: old(self).spec_len() as usize,
                })
                &&& *final(self) == *old(self)
                &&& final(arena)@ == old(arena)@
            },
            r matches Ok(view) ==> {
                &&& view.inner == old(self).inner.shrunk(old(arena)@, 0, length as int)
                &&& final(self).inner == old(self).inner.shrunk(
                    old(arena)@,
                    length as int,
                    old(self).spec_len() as int,
                )
                &&& view.wf(final(arena)@)
                &&& view.bytes(final(arena)@) == old(self).bytes(old(arena)@).subrange(
                    0,
                    length as int,
                )
                &&& final(self).bytes(final(arena)@) == old(self).bytes(old(arena)@).subrange(
                    length as int,
                    old(self).spec_len() as int,
                )
                &&& final(arena)@ == if length == 0 || length == old(self).spec_len() {
                    old(arena)@
                } else {
                    old(self).retained(old(arena)@)
                }
            },
            final(self).wf(final(arena)@),
    {
        let len: usize = self.len();
        if length > len {
            return Err(End { requested: length, read: 0, remaining: len });
        }
        let mut view = self.clone(arena);
        view.inner.shrink(arena, 0, length);
        assert(length == 0 ==> arena@ =~= old(arena)@);
        self.inner.shrink(arena, length, len);
        assert(length == len && length != 0 ==> arena@ =~= old(arena)@);
        Ok(view)
    }

    /// The first `length` bytes of the buffer, as a buffer of their own.
    #[inline]
    pub fn peek_view(&self, arena: &mut Arena, length: usize) -> (r: Result<Self, End>)
        requires
            self.wf(old(arena)@),
            self.can_retain(old(arena)@),
        ensures
            r is Ok <==> length <= self.spec_len(),
            r matches Err(e) ==> {
                &&& e == (End { requested: length, read: 0, remaining: self.spec_len() as usize })
                &&& final(arena)@ == old(arena)@
            },
            r matches Ok(view) ==> {
                &&& view.inner == self.inner.shrunk(old(arena)@, 0, length as int)
                &&& view.wf(final(arena)@)
                &&& view.bytes(final(arena)@) == self.bytes(old(arena)@).subrange(
                    0,
                    length as int,
                )
                &&& final(arena)@ == if length == 0 {
                    old(arena)@
                } else {
                    self.retained(old(arena)@)
                }
            },
            self.wf(final(arena)@),
            self.bytes(final(arena)@) == self.bytes(old(arena)@),
    {
        let len: usize = self.len();
        if length > len {
            return Err(End { requested: length, read: 0, remaining: len });
        }
        let mut view = self.clone(arena);
        view.inner.shrink(arena, 0, length);
        assert(length == 0 ==> arena@ =~= old(arena)@);
        Ok(view)
    }

    /// Takes everything that is left off the buffer.
    #[inline]
    pub fn rest(&mut self) -> (r: Self)
        ensures
            r == *old(self),
            *final(self) == ArcBuf::empty(),
    {
        let rest = ArcBuf {
            inner: BufferRef {
                buf: self.inner.buf,
                start: self.inner.start,
                end: self.inner.end,
                tail: self.inner.tail,
            },
        };
        *self = ArcBuf::default();
        rest
    }

    /// Everything that is left in the buffer, as a buffer of its own.
    #[inline]
    pub fn peek_rest(&self, arena: &mut Arena) -> (r: Self)
        requires
            self.wf(old(arena)@),
            self.can_retain(old(arena)@),
        ensures
            r == *self,
            final(arena)@ == self.retained(old(arena)@),
            self.wf(final(arena)@),
            r.wf(final(arena)@),
            r.bytes(final(arena)@) == self.bytes(old(arena)@),
    {
        self.clone(arena)
    }

    /// Drops the first `by` bytes of the buffer.
    #[inline]
    pub fn advance(&mut self, arena: &mut Arena, by: usize) -> (r: Result<(), End>)
        requires
            old(self).wf(old(arena)@),
        ensures
            r is Ok <==> by <= old(self).spec_len(),
            r matches Err(e) ==> {
                &&& e == (End {
                    requested: by,
                    read: 0,
                    remaining: old(self).spec_len() as usize,
                })
                &&& *final(self) == *old(self)
                &&& final(arena)@ == old(arena)@
            },
            r is Ok ==> {
                &&& final(self).inner == old(self).inner.shrunk(
                    old(arena)@,
                    by as int,
                    old(self).spec_len() as int,
                )
                &&& final(self).bytes(final(arena)@) == old(self).bytes(old(arena)@).subrange(
                    by as int,
                    old(self).spec_len() as int,
                )
                &&& final(arena)@ == if by == old(self).spec_len() {
                    old(self).released(old(arena)@)
                } else {
                    old(arena)@
                }
            },
            final(self).wf(final(arena)@),
    {
        let len: usize = self.len();
        if by <= len {
            self.inner.shrink(arena, by, len);
            Ok(())
        } else {
            Err(End { requested: by, read: 0, remaining: len })
        }
    }

    /// How many bytes are left to read.
    #[inline]
    pub fn remaining(&self) -> (r: usize)
        ensures
            r == self.spec_len(),
    {
        self.len()
    }

    /// The current position of the reader, to return to with [`Self::seek`].
    #[inline]
    pub fn tell(&self, arena: &mut Arena) -> (r: Self)
        requires
            self.wf(old(arena)@),
            self.can_retain(old(arena)@),
        ensures
            r == *self,
            final(arena)@ == self.retained(old(arena)@),
            self.wf(final(arena)@),
            r.wf(final(arena)@),
    {
        self.clone(arena)
    }

    /// Moves the reader to `position` and returns where it was.
    #[inline]
    pub fn seek(&mut self, arena: &mut Arena, position: &Self) -> (r: Self)
        requires
            position.wf(old(arena)@),
            position.can_retain(old(arena)@),
        ensures
            r == *old(self),
            *final(self) == *position,
            final(arena)@ == position.retained(old(arena)@),
            final(self).wf(final(arena)@),
            position.wf(final(arena)@),
    {
        let previous = self.rest();
        *self = position.clone(arena);
        previous
    }

    /// Whether the content of the buffer is `other`.
    #[inline]
    pub fn eq(&self, arena: &Arena, other: &[u8]) -> (r: bool)
        requires
            self.wf(arena@),
        ensures
            r == (self.bytes(arena@) == other@),
    {
        buf_eq(self.as_bytes(arena), other)
    }

    /// Gives the buffer up, and with it its strong handle.
    pub fn release(self, arena: &mut Arena)
        requires
            self.wf(old(arena)@),
        ensures
            final(arena)@ == self.released(old(arena)@),
    {
        self.inner.release(arena);
    }
}

impl Default for ArcBuf {
    /// The empty buffer without an allocation.
    fn default() -> (r: Self)
        ensures
            r == ArcBuf::empty(),
    {
        ArcBuf { inner: BufferRef::default() }
    }
}

impl Length for ArcBuf {
    open spec fn spec_len(&self) -> nat {
        self.inner.spec_len()
    }

    #[inline]
    fn len(&self) -> (r: usize) {
        self.inner.len()
    }
}

} // verus!
