//! The byte string that hides what holds its bytes.

use super::static_bytes::Static;
use crate::buf::Buf;
use crate::buf::Length;
use crate::buf::arc_buf::ArcBuf;
use crate::buf::arc_buf_mut::ArcBufMut;
use crate::buf::arena::Arena;
use crate::buf::arena::ArenaView;
use crate::buf::buffer_ref::released;
use crate::buf::empty::Empty;
use crate::io::BufReader;
use crate::io::End;
use crate::range::Range;
use crate::range::RangeOutOfBounds;
use crate::util::buf_eq;
use vstd::prelude::*;

verus! {

/// What can hold the bytes of a [`Bytes`].
pub enum BytesImpl {
    /// Nothing: there are no bytes.
    Empty(Empty),
    /// A byte string with static lifetime.
    Static(Static),
    /// A shared range of an allocation.
    Shared(ArcBuf),
}

/// A read-only byte string that is cheap to clone and to narrow.
pub struct Bytes {
    pub inner: BytesImpl,
}

impl From<Empty> for Bytes {
    #[inline]
    fn from(value: Empty) -> (r: Self) {
        Bytes { inner: BytesImpl::Empty(value) }
    }
}

impl vstd::std_specs::convert::FromSpecImpl<Empty> for Bytes {
    open spec fn obeys_from_spec() -> bool {
        true
    }

    open spec fn from_spec(value: Empty) -> Bytes {
        Bytes { inner: BytesImpl::Empty(value) }
    }
}

impl From<Static> for Bytes {
    #[inline]
    fn from(value: Static) -> (r: Self) {
        Bytes { inner: BytesImpl::Static(value) }
    }
}

impl vstd::std_specs::convert::FromSpecImpl<Static> for Bytes {
    open spec fn obeys_from_spec() -> bool {
        true
    }

    open spec fn from_spec(value: Static) -> Bytes {
        Bytes { inner: BytesImpl::Static(value) }
    }
}

impl From<ArcBuf> for Bytes {
    #[inline]
    fn from(value: ArcBuf) -> (r: Self) {
        Bytes { inner: BytesImpl::Shared(value) }
    }
}

impl vstd::std_specs::convert::FromSpecImpl<ArcBuf> for Bytes {
    open spec fn obeys_from_spec() -> bool {
        true
    }

    open spec fn from_spec(value: ArcBuf) -> Bytes {
        Bytes { inner: BytesImpl::Shared(value) }
    }
}

impl Default for Bytes {
    /// Creates an empty [`Bytes`].
    ///
    /// This doesn't allocate.
    #[inline]
    fn default() -> (r: Self)
        ensures
            r == Bytes::empty(),
    {
        Bytes::new()
    }
}

impl Length for Bytes {
    open spec fn spec_len(&self) -> nat {
        match self.inner {
            BytesImpl::Empty(_) => 0,
            BytesImpl::Static(bytes) => bytes.spec_len(),
            BytesImpl::Shared(buf) => buf.spec_len(),
        }
    }

    #[inline]
    fn len(&self) -> (r: usize) {
        match &self.inner {
            BytesImpl::Empty(_) => 0,
            BytesImpl::Static(bytes) => bytes.len(),
            BytesImpl::Shared(buf) => buf.len(),
        }
    }
}

impl Bytes {
    /// The byte string without bytes.
    pub open spec fn empty() -> Bytes {
        Bytes { inner: BytesImpl::Empty(Empty) }
    }

    /// The byte string is consistent with the arena, as far as its bytes
    /// live there.
    pub open spec fn wf(&self, arena: ArenaView) -> bool {
        match self.inner {
            BytesImpl::Shared(buf) => buf.wf(arena),
            _ => true,
        }
    }

    /// The content of the byte string.
    pub open spec fn bytes(&self, arena: ArenaView) -> Seq<u8> {
        match self.inner {
            BytesImpl::Empty(_) => Seq::empty(),
            BytesImpl::Static(bytes) => bytes.0@,
            BytesImpl::Shared(buf) => buf.bytes(arena),
        }
    }

    /// Whether one more strong handle to the byte string's allocation, if it
    /// has one, fits the reference count.
    pub open spec fn can_retain(&self, arena: ArenaView) -> bool {
        match self.inner {
            BytesImpl::Shared(buf) => buf.can_retain(arena),
            _ => true,
        }
    }

    /// The arena after one more strong handle to the byte string was counted.
    pub open spec fn retained(&self, arena: ArenaView) -> ArenaView {
        match self.inner {
            BytesImpl::Shared(buf) => buf.retained(arena),
            _ => arena,
        }
    }

    /// The arena after the byte string's strong handle was given up.
    pub open spec fn released(&self, arena: ArenaView) -> ArenaView {
        match self.inner {
            BytesImpl::Shared(buf) => buf.released(arena),
            _ => arena,
        }
    }

    /// Whether the byte string has no allocation.
    pub open spec fn is_static(&self) -> bool {
        match self.inner {
            BytesImpl::Shared(buf) => buf.inner.is_static(),
            _ => true,
        }
    }

    /// Creates an empty [`Bytes`].
    ///
    /// This doesn't allocate.
    #[inline]
    pub fn new() -> (r: Self)
        ensures
            r == Bytes::empty(),
    {
        Self::from_impl(BytesImpl::Empty(Empty))
    }

    /// The byte string whose bytes `inner` holds.
    #[inline]
    pub fn from_impl(inner: BytesImpl) -> (r: Self)
        ensures
            r.inner == inner,
    {
        Bytes { inner }
    }

    /// Makes `value` immutable and shares what it has been filled with as a
    /// byte string.
    #[inline]
    pub fn freeze(arena: &mut Arena, value: ArcBufMut) -> (r: Self)
        requires
            value.wf(old(arena)@),
        ensures
            r.inner is Shared,
            r.wf(final(arena)@),
            r.bytes(final(arena)@) == value.filled_bytes(old(arena)@),
            final(arena)@ == if value.filled == 0 && !value.inner.is_static() {
                released(old(arena)@, value.inner.slot())
            } else {
                old(arena)@
            },
    {
        Bytes { inner: BytesImpl::Shared(value.freeze(arena)) }
    }

    /// Whether the content of the byte string is `other`.
    #[inline]
    pub fn eq(&self, arena: &Arena, other: &[u8]) -> (r: bool)
        requires
            self.wf(arena@),
        ensures
            r == (self.bytes(arena@) == other@),
    {
        buf_eq(self.as_bytes(arena), other)
    }

    /// The content of the byte string.
    pub fn as_bytes<'a>(&'a self, arena: &'a Arena) -> (r: &'a [u8])
        requires
            self.wf(arena@),
        ensures
            r@ == self.bytes(arena@),
    {
        match &self.inner {
            BytesImpl::Empty(empty) => empty.as_ref(),
            BytesImpl::Static(bytes) => bytes.0,
            BytesImpl::Shared(buf) => buf.as_bytes(arena),
        }
    }

    /// Another byte string with the same content, which shares the bytes.
    pub fn clone(&self, arena: &mut Arena) -> (r: Self)
        requires
            self.wf(old(arena)@),
            self.can_retain(old(arena)@),
        ensures
            r == *self,
            final(arena)@ == self.retained(old(arena)@),
            self.wf(final(arena)@),
            r.wf(final(arena)@),
            r.bytes(final(arena)@) == self.bytes(old(arena)@),
    {
        match &self.inner {
            BytesImpl::Empty(_) => Bytes { inner: BytesImpl::Empty(Empty) },
            BytesImpl::Static(bytes) => Bytes { inner: BytesImpl::Static(*bytes) },
            BytesImpl::Shared(buf) => Bytes { inner: BytesImpl::Shared(buf.clone(arena)) },
        }
    }

    /// The part of the byte string that `range` selects, as a byte string of
    /// its own that shares the bytes.
    #[inline]
    pub fn view(&self, arena: &mut Arena, range: Range) -> (r: Result<Self, RangeOutOfBounds>)
        requires
            self.wf(old(arena)@),
            self.can_retain(old(arena)@),
        ensures
            r is Ok <==> range.fits_in(0, self.spec_len() as int),
            r matches Err(e) ==> {
                &&& e == (RangeOutOfBounds {
                    required: range,
                    bounds: (0, self.spec_len() as usize),
                })
                &&& final(arena)@ == old(arena)@
            },
            r matches Ok(view) ==> {
                &&& view.wf(final(arena)@)
                &&& view.bytes(final(arena)@) == self.bytes(old(arena)@).subrange(
                    range.index_start(0),
                    range.index_end(0, self.spec_len() as int),
                )
                &&& final(arena)@ == if view.is_static() {
                    old(arena)@
                } else {
                    self.retained(old(arena)@)
                }
            },
            self.wf(final(arena)@),
            self.bytes(final(arena)@) == self.bytes(old(arena)@),
    {
        match &self.inner {
            BytesImpl::Empty(empty) => match Buf::view(empty, range) {
                Ok(view) => {
                    assert(Seq::<u8>::empty().subrange(0, 0) =~= Seq::<u8>::empty());
                    Ok(Bytes { inner: BytesImpl::Empty(view) })
                },
                Err(e) => Err(e),
            },
            BytesImpl::Static(bytes) => match Buf::view(bytes, range) {
                Ok(view) => Ok(Bytes { inner: BytesImpl::Static(view) }),
                Err(e) => Err(e),
            },
            BytesImpl::Shared(buf) => match buf.view(arena, range) {
                Ok(view) => Ok(Bytes { inner: BytesImpl::Shared(view) }),
                Err(e) => Err(e),
            },
        }
    }

    /// A reader over the content of the byte string.
    #[inline]
    pub fn reader(&self, arena: &mut Arena) -> (r: Self)
        requires
            self.wf(old(arena)@),
            self.can_retain(old(arena)@),
        ensures
            r == *self,
            final(arena)@ == self.retained(old(arena)@),
            self.wf(final(arena)@),
            r.wf(final(arena)@),
            r.bytes(final(arena)@) == self.bytes(old(arena)@),
    {
        self.clone(arena)
    }

    /// The content that is left to read, unless there is none.
    #[inline]
    pub fn peek_chunk<'a>(&'a self, arena: &'a Arena) -> (r: Option<&'a [u8]>)
        requires
            self.wf(arena@),
        ensures
            r is None <==> self.spec_len() == 0,
            r matches Some(chunk) ==> chunk@ == self.bytes(arena@),
    {
        match &self.inner {
            BytesImpl::Empty(_) => None,
            BytesImpl::Static(bytes) => BufReader::peek_chunk(bytes),
            BytesImpl::Shared(buf) => buf.peek_chunk(arena),
        }
    }

    /// Takes the first `length` bytes off the byte string and returns them as
    /// a byte string of their own.
    #[inline]
    pub fn take_view(&mut self, arena: &mut Arena, length: usize) -> (r: Result<Self, End>)
        requires
            old(self).wf(old(arena)@),
            old(self).can_retain(old(arena)@),
        ensures
            r is Ok <==> length <= old(self).spec_len(),
            r matches Err(e) ==> {
                &&& e == (End {
                    requested: length,
                    read: 0,
                    remaining: old(self).spec_len() as usize,
                })
                &&& *final(self) == *old(self)
                &&& final(arena)@ == old(arena)@
            },
            r matches Ok(view) ==> {
                &&& view.wf(final(arena)@)
                &&& view.bytes(final(arena)@) == old(self).bytes(old(arena)@).subrange(
                    0,
                    length as int,
                )
                &&& final(self).bytes(final(arena)@) == old(self).bytes(old(arena)@).subrange(
                    length as int,
                    old(self).spec_len() as int,
                )
            },
            final(self).wf(final(arena)@),
    {
        let len: usize = self.len();
        if length > len {
            return Err(End { requested: length, read: 0, remaining: len });
        }
        match &mut self.inner {
            BytesImpl::Empty(empty) => match BufReader::view(empty, length) {
                Ok(view) => {
                    assert(Seq::<u8>::empty().subrange(0, 0) =~= Seq::<u8>::empty());
                    Ok(Bytes { inner: BytesImpl::Empty(view) })
                },
                Err(e) => Err(e),
            },
            BytesImpl::Static(bytes) => {
                let ghost before = bytes.0@;
                match BufReader::view(bytes, length) {
                    Ok(view) => {
                        assert(before.skip(length as int) =~= before.subrange(
                            length as int,
                            before.len() as int,
                        ));
                        Ok(Bytes { inner: BytesImpl::Static(view) })
                    },
                    Err(e) => Err(e),
                }
            },
            BytesImpl::Shared(buf) => match buf.take_view(arena, length) {
                Ok(view) => Ok(Bytes { inner: BytesImpl::Shared(view) }),
                Err(e) => Err(e),
            },
        }
    }

    /// The first `length` bytes of the byte string, as a byte string of
    /// their own.
    #[inline]
    pub fn peek_view(&self, arena: &mut Arena, length: usize) -> (r: Result<Self, End>)
        requires
            self.wf(old(arena)@),
            self.can_retain(old(arena)@),
        ensures
            r is Ok <==> length <= self.spec_len(),
            r matches Err(e) ==> {
                &&& e == (End { requested: length, read: 0, remaining: self.spec_len() as usize })
                &&& final(arena)@ == old(arena)@
            },
            r matches Ok(view) ==> {
                &&& view.wf(final(arena)@)
                &&& view.bytes(final(arena)@) == self.bytes(old(arena)@).subrange(
                    0,
                    length as int,
                )
            },
            self.wf(final(arena)@),
            self.bytes(final(arena)@) == self.bytes(old(arena)@),
    {
        match &self.inner {
            BytesImpl::Empty(empty) => match BufReader::peek_view(empty, length) {
                Ok(view) => {
                    assert(Seq::<u8>::empty().subrange(0, 0) =~= Seq::<u8>::empty());
                    Ok(Bytes { inner: BytesImpl::Empty(view) })
                },
                Err(e) => Err(e),
            },
            BytesImpl::Static(bytes) => match BufReader::peek_view(bytes, length) {
                Ok(view) => Ok(Bytes { inner: BytesImpl::Static(view) }),
                Err(e) => Err(e),
            },
            BytesImpl::Shared(buf) => match buf.peek_view(arena, length) {
                Ok(view) => Ok(Bytes { inner: BytesImpl::Shared(view) }),
                Err(e) => Err(e),
            },
        }
    }

    /// Takes everything that is left off the byte string.
    #[inline]
    pub fn rest(&mut self) -> (r: Self)
        ensures
            r == *old(self),
            *final(self) == Bytes::empty(),
    {
        let mut rest = Bytes::new();
        std::mem::swap(self, &mut rest);
        rest
    }

    /// Everything that is left in the byte string, as a byte string of its
    /// own.
    #[inline]
    pub fn peek_rest(&self, arena: &mut Arena) -> (r: Self)
        requires
            self.wf(old(arena)@),
            self.can_retain(old(arena)@),
        ensures
            r == *self,
            final(arena)@ == self.retained(old(arena)@),
            self.wf(final(arena)@),
            r.wf(final(arena)@),
            r.bytes(final(arena)@) == self.bytes(old(arena)@),
    {
        self.clone(arena)
    }

    /// Drops the first `by` bytes of the byte string.
    #[inline]
    pub fn advance(&mut self, arena: &mut Arena, by: usize) -> (r: Result<(), End>)
        requires
            old(self).wf(old(arena)@),
        ensures
            r is Ok <==> by <= old(self).spec_len(),
            r matches Err(e) ==> {
                &&& e == (End {
                    requested: by,
                    read: 0,
                    remaining: old(self).spec_len() as usize,
                })
                &&& *final(self) == *old(self)
                &&& final(arena)@ == old(arena)@
            },
            r is Ok ==> {
                &&& final(self).bytes(final(arena)@) == old(self).bytes(old(arena)@).subrange(
                    by as int,
                    old(self).spec_len() as int,
                )
                &&& final(arena)@ == if by == old(self).spec_len() {
                    old(self).released(old(arena)@)
                } else {
                    old(arena)@
                }
            },
            final(self).wf(final(arena)@),
    {
        let len: usize = self.len();
        if by > len {
            return Err(End { requested: by, read: 0, remaining: len });
        }
        match &mut self.inner {
            BytesImpl::Empty(empty) => {
                let advanced = BufReader::advance(empty, by);
                assert(Seq::<u8>::empty().subrange(0, 0) =~= Seq::<u8>::empty());
                advanced
            },
            BytesImpl::Static(bytes) => {
                let ghost before = bytes.0@;
                let advanced = BufReader::advance(bytes, by);
                assert(by <= before.len() ==> before.skip(by as int) =~= before.subrange(
                    by as int,
                    before.len() as int,
                ));
                advanced
            },
            BytesImpl::Shared(buf) => buf.advance(arena, by),
        }
    }

    /// How many bytes are left to read.
    #[inline]
    pub fn remaining(&self) -> (r: usize)
        ensures
            r == self.spec_len(),
    {
        self.len()
    }

    /// The current position of the reader, to return to with [`Self::seek`].
    #[inline]
    pub fn tell(&self, arena: &mut Arena) -> (r: Self)
        requires
            self.wf(old(arena)@),
            self.can_retain(old(arena)@),
        ensures
            r == *self,
            final(arena)@ == self.retained(old(arena)@),
            self.wf(final(arena)@),
            r.wf(final(arena)@),
    {
        self.clone(arena)
    }

    /// Moves the reader to `position` and returns where it was.
    #[inline]
    pub fn seek(&mut self, arena: &mut Arena, position: &Self) -> (r: Self)
        requires
            position.wf(old(arena)@),
            position.can_retain(old(arena)@),
        ensures
            r == *old(self),
            *final(self) == *position,
            final(arena)@ == position.retained(old(arena)@),
            final(self).wf(final(arena)@),
            position.wf(final(arena)@),
    {
        let mut previous = position.clone(arena);
        std::mem::swap(self, &mut previous);
        previous
    }

    /// Gives the byte string up, and with it its strong handle, if it has
    /// one.
    pub fn release(self, arena: &mut Arena)
        requires
            self.wf(old(arena)@),
        ensures
            final(arena)@ == self.released(old(arena)@),
    {
        match self.inner {
            BytesImpl::Shared(buf) => buf.release(arena),
            _ => {},
        }
    }
}

} // verus!
