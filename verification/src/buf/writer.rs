//! Sequential writing into an [`ArcBufMut`].

use super::Full;
use super::arc_buf_mut::ArcBufMut;
use super::arena::Arena;
use super::arena::ArenaView;
use super::arena::repeat;
use super::arena::splice;
use crate::range::Range;
use vstd::prelude::*;

verus! {

/// What the next bytes of a buffer are filled with.
pub enum Fill<'a> {
    /// A copy of these bytes.
    Bytes(&'a [u8]),
    /// Zeros, except for the first `keep` bytes, which are initialized already
    /// and stay as they are.
    Zeros { keep: usize },
}

impl<'a> Fill<'a> {
    /// Whether this can fill `length` bytes.
    pub open spec fn fits(&self, length: nat) -> bool {
        match *self {
            Fill::Bytes(bytes) => bytes@.len() == length,
            Fill::Zeros { keep } => keep <= length,
        }
    }

    /// How many of the bytes to fill are left as they are.
    pub open spec fn kept(&self) -> nat {
        match *self {
            Fill::Bytes(_) => 0,
            Fill::Zeros { keep } => keep as nat,
        }
    }

    /// What is written behind the bytes that are kept, if `length` bytes are
    /// filled.
    pub open spec fn patch(&self, length: nat) -> Seq<u8> {
        match *self {
            Fill::Bytes(bytes) => bytes@,
            Fill::Zeros { keep } => repeat(0, (length - keep) as nat),
        }
    }
}

/// A cursor into an [`ArcBufMut`] that writes at its position and moves on.
///
/// The position never lies beyond the filled part of the buffer. Writing
/// past the filled part extends it, up to the capacity of the buffer.
pub struct Writer<'a> {
    pub buf: &'a mut ArcBufMut,
    pub position: usize,
}

impl<'a> Writer<'a> {
    /// The writer is consistent with the arena: so is its buffer, and the
    /// position lies within the filled part.
    pub open spec fn wf(&self, arena: ArenaView) -> bool {
        &&& self.buf.wf(arena)
        &&& self.position <= self.buf.filled
    }

    /// How many filled bytes lie behind the position.
    pub open spec fn spec_remaining(&self) -> nat {
        (self.buf.filled - self.position) as nat
    }

    pub fn new(buf: &'a mut ArcBufMut) -> (w: Self)
        ensures
            w.position == 0,
            *w.buf == *old(buf),
            *final(buf) == *final(w.buf),
    {
        Writer { buf, position: 0 }
    }

    /// Fills the next `length` bytes as `fill` says, and moves behind them.
    ///
    /// This fails if the buffer has no room for `length` bytes behind the
    /// position. Otherwise the bytes count as initialized and as filled
    /// afterwards.
    pub fn fill_with(&mut self, arena: &mut Arena, length: usize, fill: Fill<'_>) -> (r: Result<
        (),
        Full,
    >)
        requires
            old(self).wf(old(arena)@),
            fill.fits(length as nat),
            old(self).position + fill.kept() <= old(self).buf.inner.initialized_len(old(arena)@),
        ensures
            *final(final(self).buf) == *final(old(self).buf),
            final(self).buf.inner == old(self).buf.inner,
            final(self).wf(final(arena)@),
            r is Ok <==> old(self).position + length <= old(self).buf.spec_capacity(),
            r matches Err(e) ==> {
                &&& e == (Full {
                    required: length,
                    capacity: old(self).buf.spec_capacity() as usize,
                })
                &&& final(self).position == old(self).position
                &&& final(self).buf.filled == old(self).buf.filled
                &&& final(arena)@ == old(arena)@
            },
            r is Ok ==> {
                &&& final(self).position == old(self).position + length
                &&& final(self).buf.filled == if old(self).buf.filled >= old(self).position
                    + length {
                    old(self).buf.filled
                } else {
                    (old(self).position + length) as usize
                }
                &&& final(arena)@ == old(self).buf.inner.advanced(
                    old(self).buf.inner.written(
                        old(arena)@,
                        old(self).position + fill.kept(),
                        fill.patch(length as nat),
                    ),
                    old(self).position + length,
                )
                &&& final(self).buf.inner.bytes(final(arena)@) == splice(
                    old(self).buf.inner.bytes(old(arena)@),
                    old(self).position + fill.kept(),
                    fill.patch(length as nat),
                )
            },
    {
        let capacity: usize = self.buf.capacity();
        let end: usize = match self.position.checked_add(length) {
            Some(end) => end,
            None => {
                return Err(Full { required: length, capacity });
            },
        };
        if end <= capacity {
            match fill {
                Fill::Bytes(bytes) => {
                    self.buf.inner.uninitialized_mut(arena, self.position, bytes);
                },
                Fill::Zeros { keep } => {
                    self.buf.inner.fill(arena, self.position + keep, end, 0);
                },
            }
            self.buf.inner.set_initialized_to(arena, end);
            if self.buf.filled < end {
                self.buf.filled = end;
            }
            self.position = end;
            Ok(())
        } else {
            Err(Full { required: length, capacity })
        }
    }

    /// The filled bytes behind the position, unless there are none.
    #[inline]
    pub fn peek_chunk_mut(&mut self) -> (r: Option<Range>)
        requires
            old(self).position <= old(self).buf.filled,
        ensures
            *final(final(self).buf) == *final(old(self).buf),
            *final(self).buf == *old(self).buf,
            final(self).position == old(self).position,
            r == if old(self).position < old(self).buf.filled {
                Some(Range { start: Some(old(self).position), end: Some(old(self).buf.filled) })
            } else {
                None
            },
    {
        if self.position < self.buf.filled {
            Some(Range { start: Some(self.position), end: Some(self.buf.filled) })
        } else {
            None
        }
    }

    /// The next `length` filled bytes, which the writer moves behind.
    ///
    /// This never extends the buffer: it fails if fewer than `length` filled
    /// bytes lie behind the position.
    pub fn view_mut(&mut self, length: usize) -> (r: Result<Range, crate::io::Full>)
        requires
            old(self).position <= old(self).buf.filled,
        ensures
            *final(final(self).buf) == *final(old(self).buf),
            *final(self).buf == *old(self).buf,
            r is Ok <==> old(self).position + length <= old(self).buf.filled,
            r matches Ok(range) ==> {
                &&& range == (Range {
                    start: Some(old(self).position),
                    end: Some((old(self).position + length) as usize),
                })
                &&& final(self).position == old(self).position + length
            },
            r matches Err(e) ==> {
                &&& e == (crate::io::Full {
                    written: 0,
                    requested: length,
                    remaining: old(self).spec_remaining() as usize,
                })
                &&& final(self).position == old(self).position
            },
    {
        let remaining: usize = self.buf.filled - self.position;
        if length <= remaining {
            let start: usize = self.position;
            self.position = start + length;
            Ok(Range { start: Some(start), end: Some(start + length) })
        } else {
            Err(crate::io::Full { written: 0, requested: length, remaining })
        }
    }

    /// The next `length` filled bytes. The writer stays where it is.
    #[inline]
    pub fn peek_view_mut(&mut self, length: usize) -> (r: Result<Range, crate::io::Full>)
        requires
            old(self).position <= old(self).buf.filled,
        ensures
            *final(final(self).buf) == *final(old(self).buf),
            *final(self).buf == *old(self).buf,
            final(self).position == old(self).position,
            r is Ok <==> old(self).position + length <= old(self).buf.filled,
            r matches Ok(range) ==> range == (Range {
                start: Some(old(self).position),
                end: Some((old(self).position + length) as usize),
            }),
            r matches Err(e) ==> e == (crate::io::Full {
                written: 0,
                requested: length,
                remaining: old(self).spec_remaining() as usize,
            }),
    {
        let remaining: usize = self.buf.filled - self.position;
        if length <= remaining {
            Ok(Range { start: Some(self.position), end: Some(self.position + length) })
        } else {
            Err(crate::io::Full { written: 0, requested: length, remaining })
        }
    }

    /// All filled bytes behind the position, which the writer moves behind.
    #[inline]
    pub fn rest_mut(&mut self) -> (r: Range)
        requires
            old(self).position <= old(self).buf.filled,
        ensures
            *final(final(self).buf) == *final(old(self).buf),
            *final(self).buf == *old(self).buf,
            final(self).position == old(self).buf.filled,
            r == (Range { start: Some(old(self).position), end: Some(old(self).buf.filled) }),
    {
        let rest = Range { start: Some(self.position), end: Some(self.buf.filled) };
        self.position = self.buf.filled;
        rest
    }

    /// All filled bytes behind the position. The writer stays where it is.
    #[inline]
    pub fn peek_rest_mut(&mut self) -> (r: Range)
        ensures
            *final(final(self).buf) == *final(old(self).buf),
            *final(self).buf == *old(self).buf,
            final(self).position == old(self).position,
            r == (Range { start: Some(old(self).position), end: Some(old(self).buf.filled) }),
    {
        Range { start: Some(self.position), end: Some(self.buf.filled) }
    }

    /// Moves the writer `by` bytes on. Where that leads beyond the filled
    /// part, the buffer is extended with zeros; what is filled already is
    /// left as it is.
    #[inline]
    pub fn advance(&mut self, arena: &mut Arena, by: usize) -> (r: Result<(), crate::io::Full>)
        requires
            old(self).wf(old(arena)@),
        ensures
            *final(final(self).buf) == *final(old(self).buf),
            final(self).buf.inner == old(self).buf.inner,
            final(self).wf(final(arena)@),
            r is Ok <==> old(self).position + by <= old(self).buf.spec_capacity(),
            r matches Err(e) ==> {
                &&& e == (crate::io::Full {
                    written: 0,
                    requested: by,
                    remaining: old(self).buf.spec_capacity() as usize,
                })
                &&& final(self).position == old(self).position
                &&& final(self).buf.filled == old(self).buf.filled
                &&& final(arena)@ == old(arena)@
            },
            r is Ok ==> {
                &&& final(self).position == old(self).position + by
                &&& final(self).buf.filled == if old(self).buf.filled >= old(self).position + by {
                    old(self).buf.filled
                } else {
                    (old(self).position + by) as usize
                }
                &&& final(self).buf.filled_bytes(final(arena)@) == old(self).buf.filled_bytes(
                    old(arena)@,
                ) + repeat(0, (final(self).buf.filled - old(self).buf.filled) as nat)
            },
            r is Ok ==> final(arena)@ == if old(self).position + by <= old(self).buf.filled {
                old(arena)@
            } else {
                old(self).buf.inner.advanced(
                    old(self).buf.inner.written(
                        old(arena)@,
                        old(self).buf.filled as int,
                        repeat(0, (old(self).position + by - old(self).buf.filled) as nat),
                    ),
                    old(self).position + by,
                )
            },
    {
        // The position can't be greater than the filled length, and both lie in the
        // initialized portion, so the buffer is initialized up to `already_filled`.
        let already_filled: usize = self.buf.filled - self.position;
        if by > already_filled {
            let filled: Result<(), Full> = self.fill_with(
                arena,
                by,
                Fill::Zeros { keep: already_filled },
            );
            match filled {
                Ok(()) => {
                    assert(self.buf.filled_bytes(arena@) =~= old(self).buf.filled_bytes(
                        old(arena)@,
                    ) + repeat(0, (self.buf.filled - old(self).buf.filled) as nat));
                    Ok(())
                },
                Err(e) => Err(crate::io::Full::from(e)),
            }
        } else {
            self.position = self.position + by;
            assert(self.buf.filled_bytes(arena@) =~= old(self).buf.filled_bytes(old(arena)@)
                + repeat(0, 0));
            Ok(())
        }
    }

    /// How many filled bytes lie behind the position.
    #[inline]
    pub fn remaining(&self) -> (r: usize)
        requires
            self.position <= self.buf.filled,
        ensures
            r == self.spec_remaining(),
    {
        self.buf.filled - self.position
    }

    /// Writes `with` at the position and moves behind it. This fails if the
    /// buffer has no room for all of `with`.
    #[inline]
    pub fn extend(&mut self, arena: &mut Arena, with: &[u8]) -> (r: Result<(), crate::io::Full>)
        requires
            old(self).wf(old(arena)@),
        ensures
            *final(final(self).buf) == *final(old(self).buf),
            final(self).buf.inner == old(self).buf.inner,
            final(self).wf(final(arena)@),
            r is Ok <==> old(self).position + with@.len() <= old(self).buf.spec_capacity(),
            r matches Err(e) ==> {
                &&& e == (crate::io::Full {
                    written: 0,
                    requested: with@.len() as usize,
                    remaining: old(self).buf.spec_capacity() as usize,
                })
                &&& final(self).position == old(self).position
                &&& final(self).buf.filled == old(self).buf.filled
                &&& final(arena)@ == old(arena)@
            },
            r is Ok ==> {
                &&& final(self).position == old(self).position + with@.len()
                &&& final(self).buf.filled == if old(self).buf.filled >= old(self).position
                    + with@.len() {
                    old(self).buf.filled
                } else {
                    (old(self).position + with@.len()) as usize
                }
                &&& final(arena)@ == old(self).buf.inner.advanced(
                    old(self).buf.inner.written(old(arena)@, old(self).position as int, with@),
                    old(self).position + with@.len(),
                )
                &&& final(self).buf.inner.bytes(final(arena)@) == splice(
                    old(self).buf.inner.bytes(old(arena)@),
                    old(self).position as int,
                    with@,
                )
            },
    {
        match self.fill_with(arena, with.len(), Fill::Bytes(with)) {
            Ok(()) => Ok(()),
            Err(e) => Err(crate::io::Full::from(e)),
        }
    }
}

} // verus!
