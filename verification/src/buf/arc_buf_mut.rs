//! The buffer that is written to.

use super::Full;
use super::Length;
use super::SizeLimit;
use super::arc_buf::ArcBuf;
use super::arena::Arena;
use super::arena::ArenaView;
use super::arena::Buffer;
use super::arena::allocated;
use super::arena::splice;
use super::buffer_ref::BufferRef;
use super::buffer_ref::released;
use super::buffer_ref::retained;
use super::reclaim::Reclaim;
use super::ref_count::RefCount;
use super::writer::Writer;
use crate::range::IndexOutOfBounds;
use crate::range::Range;
use crate::range::RangeOutOfBounds;
use crate::util::buf_eq;
use vstd::prelude::*;

verus! {

/// A buffer that owns its range of an allocation for writing.
///
/// The first `filled` bytes of the range hold data. The range is initialized
/// at least that far, and possibly further.
pub struct ArcBufMut {
    pub inner: BufferRef,
    pub filled: usize,
}

impl ArcBufMut {
    /// The buffer without an allocation.
    pub open spec fn empty() -> ArcBufMut {
        ArcBufMut { inner: BufferRef::sentinel(), filled: 0 }
    }

    /// What observing the reference count of the buffer gives.
    pub open spec fn spec_ref_count(&self, arena: ArenaView) -> RefCount {
        self.inner.spec_ref_count(arena)
    }

    pub open spec fn spec_capacity(&self) -> nat {
        self.inner.spec_len()
    }

    /// The buffer is consistent with the arena: so is its handle, and what is
    /// filled is initialized.
    pub open spec fn wf(&self, arena: ArenaView) -> bool {
        &&& self.inner.wf(arena)
        &&& self.filled <= self.inner.initialized_len(arena)
    }

    /// The data in the buffer.
    pub open spec fn filled_bytes(&self, arena: ArenaView) -> Seq<u8> {
        self.inner.bytes(arena).subrange(0, self.filled as int)
    }

    /// Checks that the buffer is consistent with the arena.
    pub fn is_valid(&self, arena: &Arena) -> (r: bool)
        ensures
            r == self.wf(arena@),
    {
        self.inner.is_valid(arena) && self.filled <= self.inner.initialized_end(arena)
            - self.inner.start
    }

    /// The full-range buffer over `buf`, with nothing filled.
    pub fn from_buffer(buf: Buffer) -> (r: Self)
        ensures
            r == (ArcBufMut {
                inner: BufferRef { buf, start: 0, end: buf.size, tail: buf.size != 0 },
                filled: 0,
            }),
    {
        ArcBufMut { inner: BufferRef::from_buf(buf), filled: 0 }
    }

    /// Creates a new [`ArcBufMut`] with the specified capacity.
    ///
    /// The buffer is the one strong handle of a new allocation. With a
    /// capacity of `0` nothing is allocated.
    #[inline]
    pub fn new(arena: &mut Arena, capacity: usize) -> (r: Self)
        ensures
            r == ArcBufMut::from_buffer_spec(r.inner.buf),
            r.spec_capacity() == capacity,
            r.filled == 0,
            r.inner.is_static() <==> capacity == 0,
            allocated(old(arena)@, final(arena)@, r.inner.buf, 1, false),
            r.wf(final(arena)@),
    {
        let buf = Buffer::new(arena, capacity, 1, false);
        Self::from_buffer(buf)
    }

    /// The full-range buffer over `buf`, with nothing filled.
    pub open spec fn from_buffer_spec(buf: Buffer) -> ArcBufMut {
        ArcBufMut {
            inner: BufferRef { buf, start: 0, end: buf.size, tail: buf.size != 0 },
            filled: 0,
        }
    }

    /// Creates a new [`ArcBufMut`], with a handle to reclaim it.
    ///
    /// A reclaimable buffer will not be freed when all strong handles to its
    /// allocation are given up. It can be reclaimed using the [`Reclaim`]
    /// handle. When all strong handles *and* the [`Reclaim`] are given up, the
    /// allocation is freed.
    #[inline]
    pub fn new_reclaimable(arena: &mut Arena, capacity: usize) -> (r: (Self, Reclaim))
        ensures
            r.0 == ArcBufMut::from_buffer_spec(r.0.inner.buf),
            r.1.buf == r.0.inner.buf,
            r.0.spec_capacity() == capacity,
            r.0.filled == 0,
            r.0.inner.is_static() <==> capacity == 0,
            allocated(old(arena)@, final(arena)@, r.0.inner.buf, 1, true),
            r.0.wf(final(arena)@),
            r.1.wf(final(arena)@),
    {
        let buf = Buffer::new(arena, capacity, 1, true);
        let this = Self::from_buffer(buf);
        let reclaim = Reclaim { buf };
        (this, reclaim)
    }

    /// Returns the capacity of the buffer.
    #[inline]
    pub fn capacity(&self) -> (r: usize)
        ensures
            r == self.spec_capacity(),
    {
        self.inner.len()
    }

    /// Makes the buffer immutable.
    ///
    /// This returns an [`ArcBuf`] over the filled part, which can be cheaply
    /// cloned and shared. Capacity that was not filled is given up.
    ///
    /// If nothing was filled, the buffer gives up its handle and the returned
    /// [`ArcBuf`] has no allocation.
    #[inline]
    pub fn freeze(self, arena: &mut Arena) -> (r: ArcBuf)
        requires
            self.wf(old(arena)@),
        ensures
            r.inner == self.inner.shrunk(old(arena)@, 0, self.filled as int),
            self.filled == 0 ==> r.inner == BufferRef::sentinel(),
            final(arena)@ == if self.filled == 0 && !self.inner.is_static() {
                released(old(arena)@, self.inner.slot())
            } else {
                old(arena)@
            },
            r.wf(final(arena)@),
            r.bytes(final(arena)@) == self.filled_bytes(old(arena)@),
    {
        let mut inner = self.inner;
        inner.shrink(arena, 0, self.filled);
        ArcBuf { inner }
    }

    /// Returns the reference count for this buffer.
    ///
    /// This includes all strong handles to the underlying allocation, even if
    /// it was split.
    #[inline]
    pub fn ref_count(&self, arena: &Arena) -> (r: RefCount)
        requires
            self.inner.buf.wf(arena@),
        ensures
            r is Static <==> self.inner.is_static(),
            r == self.spec_ref_count(arena@),
    {
        self.inner.ref_count(arena)
    }

    /// Splits `self` into:
    ///
    /// 1. `self`: Right half starting with `at`. (`[at..]`)
    /// 2. returns: Left half up to `at`, but not including it. (`[..at)`)
    ///
    /// The split point must lie within the filled part. Splitting at `0`
    /// returns an empty buffer without allocation and leaves `self` alone;
    /// splitting at the filled length moves all of `self` out and leaves an
    /// empty buffer without allocation behind.
    pub fn split_at(&mut self, arena: &mut Arena, at: usize) -> (r: Result<
        ArcBufMut,
        IndexOutOfBounds,
    >)
        requires
            old(self).wf(old(arena)@),
            0 < at < old(self).filled ==> old(self).inner.can_retain(old(arena)@),
        ensures
            r is Ok <==> at <= old(self).filled,
            r matches Err(e) ==> {
                &&& e == (IndexOutOfBounds { required: at, bounds: (0, old(self).filled) })
                &&& *final(self) == *old(self)
                &&& final(arena)@ == old(arena)@
            },
            r is Ok && at == 0 ==> {
                &&& r->Ok_0 == ArcBufMut::empty()
                &&& *final(self) == *old(self)
                &&& final(arena)@ == old(arena)@
            },
            r is Ok && at != 0 && at == old(self).filled ==> {
                &&& r->Ok_0 == *old(self)
                &&& *final(self) == ArcBufMut::empty()
                &&& final(arena)@ == old(arena)@
            },
            0 < at < old(self).filled ==> {
                &&& r->Ok_0 == (ArcBufMut {
                    inner: BufferRef {
                        end: (old(self).inner.start + at) as usize,
                        tail: false,
                        ..old(self).inner
                    },
                    filled: at,
                })
                &&& *final(self) == (ArcBufMut {
                    inner: BufferRef {
                        start: (old(self).inner.start + at) as usize,
                        ..old(self).inner
                    },
                    filled: (old(self).filled - at) as usize,
                })
                &&& final(arena)@ == retained(old(arena)@, old(self).inner.slot())
            },
            r matches Ok(left) ==> {
                &&& left.wf(final(arena)@)
                &&& final(self).wf(final(arena)@)
                &&& left.filled == at
                &&& final(self).filled == old(self).filled - at
                &&& left.spec_capacity() + final(self).spec_capacity() == old(
                    self,
                ).spec_capacity()
                &&& left.filled_bytes(final(arena)@) == old(self).filled_bytes(
                    old(arena)@,
                ).subrange(0, at as int)
                &&& final(self).filled_bytes(final(arena)@) == old(self).filled_bytes(
                    old(arena)@,
                ).subrange(at as int, old(self).filled as int)
            },
    {
        let filled: usize = self.filled;
        if at == 0 {
            let left = ArcBufMut::default();
            assert(left.filled_bytes(arena@) =~= self.filled_bytes(arena@).subrange(0, 0));
            assert(self.filled_bytes(arena@) =~= self.filled_bytes(arena@).subrange(
                0,
                filled as int,
            ));
            Ok(left)
        } else if at == filled {
            let left = ArcBufMut {
                inner: BufferRef {
                    buf: self.inner.buf,
                    start: self.inner.start,
                    end: self.inner.end,
                    tail: self.inner.tail,
                },
                filled,
            };
            *self = ArcBufMut::default();
            assert(left.filled_bytes(arena@) =~= left.filled_bytes(arena@).subrange(
                0,
                filled as int,
            ));
            assert(self.filled_bytes(arena@) =~= left.filled_bytes(arena@).subrange(
                filled as int,
                filled as int,
            ));
            Ok(left)
        } else if at < filled {
            let inner = self.inner.split_at(arena, at);
            self.filled = filled - at;
            let left = ArcBufMut { inner, filled: at };
            assert(left.filled_bytes(arena@) =~= old(self).filled_bytes(old(arena)@).subrange(
                0,
                at as int,
            ));
            assert(self.filled_bytes(arena@) =~= old(self).filled_bytes(old(arena)@).subrange(
                at as int,
                filled as int,
            ));
            Ok(left)
        } else {
            Err(IndexOutOfBounds { required: at, bounds: (0, filled) })
        }
    }

    /// Returns the filled portion of the buffer.
    #[inline]
    pub fn filled<'a>(&self, arena: &'a Arena) -> (r: &'a [u8])
        requires
            self.wf(arena@),
        ensures
            r@ == self.filled_bytes(arena@),
    {
        vstd::slice::slice_subrange(self.inner.uninitialized(arena), 0, self.filled)
    }

    /// Overwrites part of the filled portion of the buffer: `source` goes to
    /// the offset `at`.
    #[inline]
    pub fn filled_mut(&mut self, arena: &mut Arena, at: usize, source: &[u8])
        requires
            old(self).wf(old(arena)@),
            at + source@.len() <= old(self).filled,
        ensures
            *final(self) == *old(self),
            final(arena)@ == old(self).inner.written(old(arena)@, at as int, source@),
            final(self).wf(final(arena)@),
            final(self).filled_bytes(final(arena)@) == splice(
                old(self).filled_bytes(old(arena)@),
                at as int,
                source@,
            ),
    {
        self.inner.uninitialized_mut(arena, at, source);
        assert(self.filled_bytes(arena@) =~= splice(
            old(self).filled_bytes(old(arena)@),
            at as int,
            source@,
        ));
    }

    /// Returns the initialized portion of the buffer.
    #[inline]
    pub fn initialized<'a>(&self, arena: &'a Arena) -> (r: &'a [u8])
        requires
            self.wf(arena@),
        ensures
            r@ == self.inner.initialized_bytes(arena@),
    {
        self.inner.initialized(arena)
    }

    /// Overwrites part of the initialized portion of the buffer: `source`
    /// goes to the offset `at`.
    ///
    /// This is useful to write to the buffer without filling it first. The
    /// written data is included in the buffer with [`Self::set_filled_to`].
    /// To fully initialize a buffer, use [`Self::fully_initialize`].
    #[inline]
    pub fn initialized_mut(&mut self, arena: &mut Arena, at: usize, source: &[u8])
        requires
            old(self).wf(old(arena)@),
            at + source@.len() <= old(self).inner.initialized_len(old(arena)@),
        ensures
            *final(self) == *old(self),
            final(arena)@ == old(self).inner.written(old(arena)@, at as int, source@),
            final(self).wf(final(arena)@),
            final(self).inner.initialized_bytes(final(arena)@) == splice(
                old(self).inner.initialized_bytes(old(arena)@),
                at as int,
                source@,
            ),
    {
        self.inner.initialized_mut(arena, at, source);
    }

    /// Returns the full buffer, initialized or not.
    #[inline]
    pub fn uninitialized<'a>(&self, arena: &'a Arena) -> (r: &'a [u8])
        requires
            self.wf(arena@),
        ensures
            r@ == self.inner.bytes(arena@),
    {
        self.inner.uninitialized(arena)
    }

    /// Writes `source` into the full buffer at the offset `at`. What is
    /// written beyond the initialized portion only counts once
    /// [`Self::set_initialized_to`] confirms it.
    #[inline]
    pub fn uninitialized_mut(&mut self, arena: &mut Arena, at: usize, source: &[u8])
        requires
            old(self).wf(old(arena)@),
            at + source@.len() <= old(self).spec_capacity(),
        ensures
            *final(self) == *old(self),
            final(arena)@ == old(self).inner.written(old(arena)@, at as int, source@),
            final(self).wf(final(arena)@),
            final(self).inner.bytes(final(arena)@) == splice(
                old(self).inner.bytes(old(arena)@),
                at as int,
                source@,
            ),
    {
        self.inner.uninitialized_mut(arena, at, source);
    }

    /// Resizes the buffer to include all bytes up to `to`.
    ///
    /// This is useful if the buffer was previously written to using
    /// [`Self::initialized_mut`]. The buffer must be initialized up to `to`.
    #[inline]
    pub fn set_filled_to(&mut self, arena: &Arena, to: usize)
        requires
            old(self).wf(arena@),
            to <= old(self).inner.initialized_len(arena@),
        ensures
            *final(self) == (ArcBufMut { filled: to, ..*old(self) }),
            final(self).wf(arena@),
    {
        self.filled = to;
    }

    /// Sets the buffer as initialized up to `to`, which must not exceed the
    /// capacity. The initialized portion never shrinks by this.
    pub fn set_initialized_to(&mut self, arena: &mut Arena, to: usize)
        requires
            old(self).wf(old(arena)@),
            to <= old(self).spec_capacity(),
        ensures
            *final(self) == *old(self),
            final(arena)@ == old(self).inner.advanced(old(arena)@, to as int),
            final(self).wf(final(arena)@),
            final(self).inner.initialized_len(final(arena)@) >= to,
            final(self).inner.initialized_len(final(arena)@) >= old(self).inner.initialized_len(
                old(arena)@,
            ),
    {
        self.inner.set_initialized_to(arena, to);
    }

    /// Fully initializes the underlying buffer with zeros.
    ///
    /// This does nothing if this [`ArcBufMut`] is not at the end of the
    /// allocation, e.g. if it is the left half obtained from
    /// [`ArcBufMut::split_at`].
    #[inline]
    pub fn fully_initialize(&mut self, arena: &mut Arena)
        requires
            old(self).wf(old(arena)@),
        ensures
            *final(self) == *old(self),
            final(self).wf(final(arena)@),
            final(self).inner.initialized_len(final(arena)@) == final(self).spec_capacity(),
            final(self).inner.initialized_bytes(final(arena)@) == old(
                self,
            ).inner.initialized_bytes(old(arena)@) + super::arena::repeat(
                0,
                (old(self).spec_capacity() - old(self).inner.initialized_len(old(arena)@)) as nat,
            ),
            final(self).filled_bytes(final(arena)@) == old(self).filled_bytes(old(arena)@),
            !old(self).inner.tail ==> final(arena)@ == old(arena)@,
    {
        self.inner.fully_initialize(arena);
        assert(self.filled_bytes(arena@) =~= self.inner.initialized_bytes(arena@).subrange(
            0,
            self.filled as int,
        ));
        assert(old(self).filled_bytes(old(arena)@) =~= old(self).inner.initialized_bytes(
            old(arena)@,
        ).subrange(0, self.filled as int));
    }

    /// Clears the buffer.
    ///
    /// This sets the filled length to 0. Any portion of the buffer that is
    /// initialized stays initialized.
    pub fn clear(&mut self)
        ensures
            *final(self) == (ArcBufMut { filled: 0, ..*old(self) }),
    {
        self.filled = 0;
    }

    /// The part of the filled portion that `range` selects.
    #[inline]
    pub fn view<'a>(&self, arena: &'a Arena, range: Range) -> (r: Result<
        &'a [u8],
        RangeOutOfBounds,
    >)
        requires
            self.wf(arena@),
        ensures
            r is Ok <==> range.fits_in(0, self.filled as int),
            r matches Ok(bytes) ==> bytes@ == self.filled_bytes(arena@).subrange(
                range.index_start(0),
                range.index_end(0, self.filled as int),
            ),
            r matches Err(e) ==> e == (RangeOutOfBounds {
                required: range,
                bounds: (0, self.filled),
            }),
    {
        match range.indices_checked_in(0, self.filled) {
            Ok((start, end)) => Ok(vstd::slice::slice_subrange(self.filled(arena), start, end)),
            Err(e) => Err(e),
        }
    }

    /// The filled portion, to read from.
    #[inline]
    pub fn reader<'a>(&self, arena: &'a Arena) -> (r: &'a [u8])
        requires
            self.wf(arena@),
        ensures
            r@ == self.filled_bytes(arena@),
    {
        self.filled(arena)
    }

    /// A writer that starts at the beginning of the buffer.
    #[inline]
    pub fn writer(&mut self) -> (w: Writer<'_>)
        ensures
            w.position == 0,
            *w.buf == *old(self),
            *final(self) == *final(w.buf),
    {
        Writer::new(self)
    }

    /// This buffer never grows: reserving succeeds exactly for sizes up to
    /// its capacity.
    #[inline]
    pub fn reserve(&mut self, size: usize) -> (r: Result<(), Full>)
        ensures
            *final(self) == *old(self),
            r is Ok <==> size <= old(self).spec_capacity(),
            r matches Err(e) ==> e == (Full {
                required: size,
                capacity: old(self).spec_capacity() as usize,
            }),
    {
        if size <= self.capacity() {
            Ok(())
        } else {
            Err(Full { required: size, capacity: self.capacity() })
        }
    }

    #[inline]
    pub fn size_limit(&self) -> (r: SizeLimit)
        ensures
            r == SizeLimit::Exact(self.spec_capacity() as usize),
    {
        SizeLimit::Exact(self.capacity())
    }

    /// Whether the data in the buffer is `other`.
    #[inline]
    pub fn eq(&self, arena: &Arena, other: &[u8]) -> (r: bool)
        requires
            self.wf(arena@),
        ensures
            r == (self.filled_bytes(arena@) == other@),
    {
        buf_eq(self.filled(arena), other)
    }

    /// Gives the buffer up, and with it its strong handle.
    pub fn release(self, arena: &mut Arena)
        requires
            self.wf(old(arena)@),
        ensures
            final(arena)@ == if self.inner.is_static() {
                old(arena)@
            } else {
                released(old(arena)@, self.inner.slot())
            },
    {
        self.inner.release(arena);
    }
}

impl Default for ArcBufMut {
    /// The empty buffer without an allocation.
    fn default() -> (r: Self)
        ensures
            r == ArcBufMut::empty(),
    {
        ArcBufMut { inner: BufferRef::default(), filled: 0 }
    }
}

impl Length for ArcBufMut {
    open spec fn spec_len(&self) -> nat {
        self.filled as nat
    }

    #[inline]
    fn len(&self) -> (r: usize) {
        self.filled
    }
}

} // verus!
