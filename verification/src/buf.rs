//! Buffers and the reference-counted allocations behind them.

use crate::range::Range;
use crate::range::RangeOutOfBounds;
use vstd::prelude::*;

pub mod arc_buf;
pub mod arc_buf_mut;
pub mod arena;
pub mod buffer_ref;
pub mod empty;
pub mod laws;
pub mod reclaim;
pub mod ref_count;
pub mod writer;

verus! {

/// A buffer cannot hold as many bytes as are required.
#[derive(Clone, Copy, Debug, PartialEq, Eq)]
pub struct Full {
    pub required: usize,
    pub capacity: usize,
}

/// How large a buffer can get.
#[derive(Clone, Copy, Debug, PartialEq, Eq)]
pub enum SizeLimit {
    /// The buffer can grow, and nothing is known about how far.
    Unknown,
    /// The buffer can hold exactly this many bytes.
    Exact(usize),
}

/// Types that have a length.
pub trait Length {
    spec fn spec_len(&self) -> nat;

    fn len(&self) -> (r: usize)
        ensures
            r == self.spec_len(),
    ;

    fn is_empty(&self) -> (r: bool)
        ensures
            r == (self.spec_len() == 0),
    {
        self.len() == 0
    }
}

/// Read access to a buffer that holds its bytes itself.
pub trait Buf: Length {
    /// A part of the buffer.
    type View;

    /// A reader over the buffer.
    type Reader;

    /// The content of the buffer.
    spec fn spec_bytes(&self) -> Seq<u8>;

    /// The content of a part of the buffer.
    spec fn view_bytes(view: &Self::View) -> Seq<u8>;

    /// The part of the buffer that `range` selects.
    fn view(&self, range: Range) -> (r: Result<Self::View, RangeOutOfBounds>)
        ensures
            r is Ok <==> range.fits_in(0, self.spec_bytes().len() as int),
            r matches Ok(view) ==> Self::view_bytes(&view) == self.spec_bytes().subrange(
                range.index_start(0),
                range.index_end(0, self.spec_bytes().len() as int),
            ),
            r matches Err(e) ==> e == (RangeOutOfBounds {
                required: range,
                bounds: (0, self.spec_bytes().len() as usize),
            }),
    ;

    /// The content that a reader over the buffer has yet to read.
    spec fn reader_bytes(reader: &Self::Reader) -> Seq<u8>;

    /// A reader over the whole buffer.
    fn reader(&self) -> (r: Self::Reader)
        ensures
            Self::reader_bytes(&r) == self.spec_bytes(),
    ;

    /// The content of the buffer.
    fn chunk(&self) -> (r: &[u8])
        ensures
            r@ == self.spec_bytes(),
    ;

    /// Whether `range` lies within the buffer.
    fn contains(&self, range: Range) -> (r: bool)
        ensures
            r == range.fits_in(0, self.spec_bytes().len() as int),
    {
        range.indices_checked_in(0, self.chunk().len()).is_ok()
    }
}

/// Write access to a buffer that holds its bytes itself.
pub trait BufMut: Buf {
    /// A part of the buffer, to write to.
    type ViewMut;

    /// A writer into the buffer.
    type Writer;

    /// How large the buffer can get.
    spec fn spec_size_limit(&self) -> SizeLimit;

    /// The part of the buffer that `range` selects, to write to.
    fn view_mut(&mut self, range: Range) -> (r: Result<Self::ViewMut, RangeOutOfBounds>)
        ensures
            r is Ok <==> range.fits_in(0, old(self).spec_bytes().len() as int),
            r matches Err(e) ==> e == (RangeOutOfBounds {
                required: range,
                bounds: (0, old(self).spec_bytes().len() as usize),
            }),
            final(self).spec_bytes() == old(self).spec_bytes(),
    ;

    /// A writer that starts at the beginning of the buffer.
    fn writer(&mut self) -> Self::Writer;

    /// Makes room for `size` bytes in all. A buffer of an exact size limit
    /// cannot grow beyond it.
    fn reserve(&mut self, size: usize) -> (r: Result<(), Full>)
        ensures
            final(self).spec_bytes() == old(self).spec_bytes(),
            final(self).spec_size_limit() == old(self).spec_size_limit(),
            old(self).spec_size_limit() matches SizeLimit::Exact(capacity) ==> {
                &&& r is Ok <==> size <= capacity
                &&& r matches Err(e) ==> e == (Full { required: size, capacity })
            },
    ;

    fn size_limit(&self) -> (r: SizeLimit)
        ensures
            r == self.spec_size_limit(),
    ;
}

} // verus!
