//! Reading and writing at an offset that moves along.

use super::End;
use super::Full;
use crate::buf::Buf;
use crate::buf::Length;
use crate::buf::arc_buf_mut::ArcBufMut;
use crate::buf::arena::Arena;
use crate::buf::arena::splice;
use crate::buf::writer::Writer;
use crate::range::Range;
use vstd::prelude::*;

verus! {

/// A reader and writer that reads and writes from and to a buffer, at an
/// offset that it keeps.
#[derive(Clone, Debug)]
pub struct Cursor<B> {
    pub buf: B,
    pub offset: usize,
}

impl<B> Cursor<B> {
    #[inline]
    pub fn new(buf: B) -> (r: Self)
        ensures
            r.buf == buf,
            r.offset == 0,
    {
        Self::with_offset(buf, 0)
    }

    #[inline]
    pub fn with_offset(buf: B, offset: usize) -> (r: Self)
        ensures
            r.buf == buf,
            r.offset == offset,
    {
        Cursor { buf, offset }
    }

    #[inline]
    pub fn into_inner(self) -> (r: B)
        ensures
            r == self.buf,
    {
        self.buf
    }

    #[inline]
    pub fn as_ref(&self) -> (r: &B)
        ensures
            *r == self.buf,
    {
        &self.buf
    }

    #[inline]
    pub fn as_mut(&mut self) -> (r: &mut B)
        ensures
            *r == old(self).buf,
            final(self).buf == *final(r),
            final(self).offset == old(self).offset,
    {
        &mut self.buf
    }

    #[inline]
    pub fn position(&self) -> (r: usize)
        ensures
            r == self.offset,
    {
        self.offset
    }

    #[inline]
    pub fn set_position(&mut self, position: usize)
        ensures
            final(self).offset == position,
            final(self).buf == old(self).buf,
    {
        self.offset = position;
    }

    /// The range of the next `n` bytes.
    #[inline]
    pub fn get_range(&self, n: usize) -> (r: Range)
        requires
            self.offset + n <= usize::MAX,
        ensures
            r == (Range { start: Some(self.offset), end: Some((self.offset + n) as usize) }),
    {
        Range::default().with_start(self.offset).with_length(n)
    }
}

impl<B> From<B> for Cursor<B> {
    /// The cursor at the start of `value`.
    #[inline]
    fn from(value: B) -> (r: Self) {
        Self::new(value)
    }
}

impl<B> vstd::std_specs::convert::FromSpecImpl<B> for Cursor<B> {
    open spec fn obeys_from_spec() -> bool {
        true
    }

    open spec fn from_spec(value: B) -> Cursor<B> {
        Cursor { buf: value, offset: 0 }
    }
}

impl<B: Buf> Cursor<B> {
    /// How many bytes lie behind the offset.
    pub open spec fn spec_remaining(&self) -> nat {
        if self.offset <= self.buf.spec_bytes().len() {
            (self.buf.spec_bytes().len() - self.offset) as nat
        } else {
            0
        }
    }

    /// How many bytes lie behind the offset. The offset must lie within the
    /// buffer.
    #[inline]
    pub fn remaining(&self) -> (r: usize)
        requires
            self.offset <= self.buf.spec_bytes().len(),
        ensures
            r == self.spec_remaining(),
    {
        self.buf.chunk().len() - self.offset
    }

    /// Moves the offset `n` bytes on, unless that leads beyond the buffer.
    pub fn skip(&mut self, n: usize) -> (r: Result<(), End>)
        ensures
            final(self).buf == old(self).buf,
            r is Ok <==> old(self).offset + n <= old(self).buf.spec_bytes().len(),
            r is Ok ==> final(self).offset == old(self).offset + n,
            r matches Err(e) ==> {
                &&& e == (End {
                    requested: n,
                    read: 0,
                    remaining: old(self).spec_remaining() as usize,
                })
                &&& final(self).offset == old(self).offset
            },
    {
        let len: usize = self.buf.chunk().len();
        let remaining: usize = if self.offset <= len {
            len - self.offset
        } else {
            0
        };
        if n > usize::MAX - self.offset {
            return Err(End { requested: n, read: 0, remaining });
        }
        let range: Range = self.get_range(n);
        if self.buf.contains(range) {
            self.offset = self.offset + n;
            Ok(())
        } else {
            Err(End { requested: n, read: 0, remaining })
        }
    }

    /// Fills `destination` with the next bytes of the buffer and moves the
    /// offset behind them. Nothing is read if fewer bytes are left than
    /// `destination` is long.
    pub fn read_into_buf(&mut self, destination: &mut [u8]) -> (r: Result<(), End>)
        ensures
            final(self).buf == old(self).buf,
            final(destination)@.len() == old(destination)@.len(),
            r is Ok <==> old(self).offset + old(destination)@.len() <= old(
                self,
            ).buf.spec_bytes().len(),
            r is Ok ==> {
                &&& final(self).offset == old(self).offset + old(destination)@.len()
                &&& final(destination)@ == old(self).buf.spec_bytes().subrange(
                    old(self).offset as int,
                    old(self).offset + old(destination)@.len(),
                )
            },
            r matches Err(e) ==> {
                &&& e == (End {
                    requested: old(destination)@.len() as usize,
                    read: 0,
                    remaining: old(self).spec_remaining() as usize,
                })
                &&& final(self).offset == old(self).offset
                &&& final(destination)@ == old(destination)@
            },
    {
        let n: usize = destination.len();
        let source: &[u8] = self.buf.chunk();
        let len: usize = source.len();
        let remaining: usize = if self.offset <= len {
            len - self.offset
        } else {
            0
        };
        if self.offset > len || n > remaining {
            return Err(End { requested: n, read: 0, remaining });
        }
        let offset: usize = self.offset;
        let mut i: usize = 0;
        assert(destination@.subrange(0, 0) =~= source@.subrange(offset as int, offset as int));
        while i < n
            invariant
                i <= n,
                n == destination@.len(),
                offset + n <= source@.len(),
                source@.len() == source.len(),
                destination@.subrange(0, i as int) == source@.subrange(
                    offset as int,
                    offset + i,
                ),
            decreases n - i,
        {
            destination[i] = source[offset + i];
            assert(destination@.subrange(0, i as int + 1) =~= source@.subrange(
                offset as int,
                offset + i + 1,
            ));
            i = i + 1;
        }
        assert(destination@ =~= destination@.subrange(0, n as int));
        self.offset = offset + n;
        Ok(())
    }
}

impl Cursor<ArcBufMut> {
    /// Writes `source` into the buffer at the offset, which must lie within
    /// the filled part, and moves the offset behind it. Nothing is written if
    /// the buffer has no room for all of `source`.
    pub fn write_from_buf(&mut self, arena: &mut Arena, source: &[u8]) -> (r: Result<(), Full>)
        requires
            old(self).buf.wf(old(arena)@),
            old(self).offset <= old(self).buf.filled,
        ensures
            final(self).buf.inner == old(self).buf.inner,
            final(self).buf.wf(final(arena)@),
            final(self).offset <= final(self).buf.filled,
            r is Ok <==> old(self).offset + source@.len() <= old(self).buf.spec_capacity(),
            r is Ok ==> {
                &&& final(self).offset == old(self).offset + source@.len()
                &&& final(self).buf.filled == if old(self).buf.filled >= old(self).offset
                    + source@.len() {
                    old(self).buf.filled
                } else {
                    (old(self).offset + source@.len()) as usize
                }
                &&& final(self).buf.inner.bytes(final(arena)@) == splice(
                    old(self).buf.inner.bytes(old(arena)@),
                    old(self).offset as int,
                    source@,
                )
            },
            r matches Err(e) ==> {
                &&& e == (Full {
                    written: 0,
                    requested: source@.len() as usize,
                    remaining: old(self).buf.spec_capacity() as usize,
                })
                &&& *final(self) == *old(self)
                &&& final(arena)@ == old(arena)@
            },
    {
        let n: usize = source.len();
        let mut writer = Writer { buf: &mut self.buf, position: self.offset };
        match writer.extend(arena, source) {
            Ok(()) => {
                self.offset = self.offset + n;
                Ok(())
            },
            Err(e) => Err(e),
        }
    }
}

} // verus!
