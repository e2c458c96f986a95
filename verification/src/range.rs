//! Ranges of indices into a buffer, and what goes wrong with them.

use vstd::prelude::*;

verus! {

/// A range into a buffer. An open end stands for the end of the buffer it is
/// applied to.
#[derive(Clone, Copy, Debug, PartialEq, Eq)]
pub struct Range {
    pub start: Option<usize>,
    pub end: Option<usize>,
}

/// A range does not lie within the bounds of a buffer.
#[derive(Clone, Copy, Debug, PartialEq, Eq)]
pub struct RangeOutOfBounds {
    pub required: Range,
    pub bounds: (usize, usize),
}

/// An index does not lie within the bounds of a buffer.
#[derive(Clone, Copy, Debug, PartialEq, Eq)]
pub struct IndexOutOfBounds {
    pub required: usize,
    pub bounds: (usize, usize),
}

impl Default for Range {
    /// The range that is open on both ends.
    fn default() -> (r: Self)
        ensures
            r == Range::full(),
    {
        Range { start: None, end: None }
    }
}

impl Range {
    /// The range that is open on both ends.
    pub open spec fn full() -> Range {
        Range { start: None, end: None }
    }

    /// First index of the range within `[lo, hi)`, counted from `lo`.
    pub open spec fn index_start(&self, lo: int) -> int {
        match self.start {
            None => lo,
            Some(start) => start + lo,
        }
    }

    /// End of the range within `[lo, hi)`, counted from `lo`.
    pub open spec fn index_end(&self, lo: int, hi: int) -> int {
        match self.end {
            None => hi,
            Some(end) => end + lo,
        }
    }

    /// Whether the range lies within `[lo, hi)`.
    pub open spec fn fits_in(&self, lo: int, hi: int) -> bool {
        self.index_start(lo) <= self.index_end(lo, hi) <= hi
    }

    #[inline]
    pub fn with_start(self, start: usize) -> (r: Self)
        ensures
            r == (Range { start: Some(start), ..self }),
    {
        Range { start: Some(start), end: self.end }
    }

    #[inline]
    pub fn with_end(self, end: usize) -> (r: Self)
        ensures
            r == (Range { end: Some(end), ..self }),
    {
        Range { start: self.start, end: Some(end) }
    }

    /// Ends the range `length` indices after its start; an open start counts
    /// as `0`.
    #[inline]
    pub fn with_length(self, length: usize) -> (r: Self)
        requires
            self.index_start(0) + length <= usize::MAX,
        ensures
            r == (Range { end: Some((self.index_start(0) + length) as usize), ..self }),
    {
        let start: usize = match self.start {
            None => 0,
            Some(start) => start,
        };
        Range { start: self.start, end: Some(start + length) }
    }

    /// Resolves the range against a buffer that spans `[lo, hi)`: the indices
    /// of the range's start and end, or an error if the range does not lie
    /// within the buffer.
    pub fn indices_checked_in(&self, lo: usize, hi: usize) -> (r: Result<
        (usize, usize),
        RangeOutOfBounds,
    >)
        ensures
            self.fits_in(lo as int, hi as int) ==> r == Ok::<(usize, usize), RangeOutOfBounds>(
                (
                    self.index_start(lo as int) as usize,
                    self.index_end(lo as int, hi as int) as usize,
                ),
            ),
            !self.fits_in(lo as int, hi as int) ==> r == Err::<(usize, usize), RangeOutOfBounds>(
                RangeOutOfBounds { required: *self, bounds: (lo, hi) },
            ),
    {
        let error = RangeOutOfBounds { required: *self, bounds: (lo, hi) };
        let index_start: usize = match self.start {
            None => lo,
            Some(start) => match start.checked_add(lo) {
                Some(index) => index,
                None => {
                    return Err(error);
                },
            },
        };
        let index_end: usize = match self.end {
            None => hi,
            Some(end) => match end.checked_add(lo) {
                Some(index) => index,
                None => {
                    return Err(error);
                },
            },
        };
        if index_start > index_end || index_end > hi {
            Err(error)
        } else {
            Ok((index_start, index_end))
        }
    }
}

} // verus!
