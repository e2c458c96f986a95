//! The buffer that holds nothing.

use super::Buf;
use super::BufMut;
use super::Full;
use super::Length;
use super::SizeLimit;
use crate::io::BufReader;
use crate::io::BufWriter;
use crate::io::End;
use crate::io::Reader;
use crate::io::Seek;
use crate::range::IndexOutOfBounds;
use crate::range::Range;
use crate::range::RangeOutOfBounds;
use vstd::prelude::*;

verus! {

/// An empty buffer.
#[derive(Debug, Clone, Copy)]
pub struct Empty;

impl Default for Empty {
    fn default() -> (r: Self) {
        Empty
    }
}

impl Empty {
    /// The bytes of the buffer: none.
    pub fn as_ref(&self) -> (r: &'static [u8])
        ensures
            r@ == Seq::<u8>::empty(),
    {
        let empty: &'static [u8] = &[];
        assert(empty@ =~= Seq::<u8>::empty());
        empty
    }

    /// Whether `other` is empty too.
    #[inline]
    pub fn eq<T: Length>(&self, other: &T) -> (r: bool)
        ensures
            r == (other.spec_len() == 0),
    {
        other.is_empty()
    }

    /// Splits the buffer at `at`, which only `0` allows. Both halves are
    /// empty.
    pub fn split_at(&mut self, at: usize) -> (r: Result<Empty, IndexOutOfBounds>)
        ensures
            r is Ok <==> at == 0,
            r matches Err(e) ==> e == (IndexOutOfBounds { required: at, bounds: (0, 0) }),
    {
        if at == 0 {
            Ok(Empty)
        } else {
            Err(IndexOutOfBounds { required: at, bounds: (0, 0) })
        }
    }
}

impl Length for Empty {
    open spec fn spec_len(&self) -> nat {
        0
    }

    #[inline]
    fn len(&self) -> (r: usize) {
        0
    }

    #[inline]
    fn is_empty(&self) -> (r: bool) {
        true
    }
}

impl Buf for Empty {
    type View = Empty;

    type Reader = Empty;

    open spec fn spec_bytes(&self) -> Seq<u8> {
        Seq::empty()
    }

    open spec fn view_bytes(view: &Empty) -> Seq<u8> {
        Seq::empty()
    }

    open spec fn reader_bytes(reader: &Empty) -> Seq<u8> {
        Seq::empty()
    }

    #[inline]
    fn view(&self, range: Range) -> (r: Result<Empty, RangeOutOfBounds>) {
        match check_range(range) {
            Ok(()) => {
                assert(Seq::<u8>::empty().subrange(0, 0) =~= Seq::<u8>::empty());
                Ok(Empty)
            },
            Err(e) => Err(e),
        }
    }

    #[inline]
    fn reader(&self) -> (r: Empty) {
        Empty
    }

    #[inline]
    fn chunk(&self) -> (r: &[u8]) {
        self.as_ref()
    }
}

impl BufMut for Empty {
    type ViewMut = Empty;

    type Writer = Empty;

    open spec fn spec_size_limit(&self) -> SizeLimit {
        SizeLimit::Exact(0)
    }

    #[inline]
    fn view_mut(&mut self, range: Range) -> (r: Result<Empty, RangeOutOfBounds>) {
        match check_range(range) {
            Ok(()) => Ok(Empty),
            Err(e) => Err(e),
        }
    }

    #[inline]
    fn writer(&mut self) -> (r: Empty) {
        Empty
    }

    #[inline]
    fn reserve(&mut self, size: usize) -> (r: Result<(), Full>) {
        if size == 0 {
            Ok(())
        } else {
            Err(Full { required: size, capacity: 0 })
        }
    }

    #[inline]
    fn size_limit(&self) -> (r: SizeLimit) {
        SizeLimit::Exact(0)
    }
}

impl BufReader for Empty {
    type View = Empty;

    open spec fn spec_rest(&self) -> Seq<u8> {
        Seq::empty()
    }

    open spec fn taken_bytes(view: &Empty) -> Seq<u8> {
        Seq::empty()
    }

    #[inline]
    fn peek_chunk(&self) -> (r: Option<&[u8]>) {
        None
    }

    #[inline]
    fn view(&mut self, length: usize) -> (r: Result<Empty, End>) {
        match check_length_read(length) {
            Ok(()) => {
                assert(Seq::<u8>::empty().subrange(0, 0) =~= Seq::<u8>::empty());
                assert(Seq::<u8>::empty().skip(0) =~= Seq::<u8>::empty());
                Ok(Empty)
            },
            Err(e) => Err(e),
        }
    }

    #[inline]
    fn peek_view(&self, length: usize) -> (r: Result<Empty, End>) {
        match check_length_read(length) {
            Ok(()) => {
                assert(Seq::<u8>::empty().subrange(0, 0) =~= Seq::<u8>::empty());
                Ok(Empty)
            },
            Err(e) => Err(e),
        }
    }

    #[inline]
    fn rest(&mut self) -> (r: Empty) {
        Empty
    }

    #[inline]
    fn peek_rest(&self) -> (r: Empty) {
        Empty
    }

    #[inline]
    fn advance(&mut self, by: usize) -> (r: Result<(), End>) {
        proof {
            assert(Seq::<u8>::empty().skip(0) =~= Seq::<u8>::empty());
        }
        check_length_read(by)
    }

    #[inline]
    fn remaining(&self) -> (r: usize) {
        0
    }
}

impl Seek for Empty {
    type Position = Empty;

    open spec fn spec_position(&self) -> Empty {
        Empty
    }

    #[inline]
    fn tell(&self) -> (r: Empty) {
        Empty
    }

    #[inline]
    fn seek(&mut self, _position: &Empty) -> (r: Empty) {
        Empty
    }
}

impl BufWriter for Empty {
    type ViewMut = Empty;

    open spec fn spec_room(&self) -> nat {
        0
    }

    #[inline]
    fn peek_chunk_mut(&mut self) -> (r: Option<&mut [u8]>) {
        None
    }

    fn view_mut(&mut self, length: usize) -> (r: Result<Empty, crate::io::Full>) {
        match check_length_write(length) {
            Ok(()) => Ok(Empty),
            Err(e) => Err(e),
        }
    }

    #[inline]
    fn peek_view_mut(&mut self, length: usize) -> (r: Result<Empty, crate::io::Full>) {
        match check_length_write(length) {
            Ok(()) => Ok(Empty),
            Err(e) => Err(e),
        }
    }

    #[inline]
    fn rest_mut(&mut self) -> (r: Empty) {
        Empty
    }

    #[inline]
    fn peek_rest_mut(&mut self) -> (r: Empty) {
        Empty
    }

    #[inline]
    fn advance(&mut self, by: usize) -> (r: Result<(), crate::io::Full>) {
        check_length_write(by)
    }

    #[inline]
    fn remaining(&self) -> (r: usize) {
        0
    }

    #[inline]
    fn extend(&mut self, with: &[u8]) -> (r: Result<(), crate::io::Full>) {
        check_length_write(with.len())
    }
}

impl Reader for Empty {
    type Error = End;

    /// There is nothing to read: no byte is ever read.
    #[inline]
    fn read_into<D: BufMut>(&mut self, _dest: D, _limit: Option<usize>) -> (r: Result<usize, End>)
        ensures
            r == Ok::<usize, End>(0),
    {
        Ok(0)
    }

    fn read_into_exact<D: BufMut>(&mut self, _dest: D, length: usize) -> (r: Result<(), End>)
        ensures
            r is Ok <==> length == 0,
            r matches Err(e) ==> e == (End { read: 0, requested: length, remaining: 0 }),
    {
        check_length_read(length)
    }

    #[inline]
    fn skip(&mut self, amount: usize) -> (r: Result<(), End>)
        ensures
            r is Ok <==> amount == 0,
            r matches Err(e) ==> e == (End { read: 0, requested: amount, remaining: 0 }),
    {
        check_length_read(amount)
    }
}

/// Only the ranges that start and end at `0`, or are open where they do not,
/// lie within an empty buffer.
#[inline]
pub fn check_range(range: Range) -> (r: Result<(), RangeOutOfBounds>)
    ensures
        r is Ok <==> range.fits_in(0, 0),
        r matches Err(e) ==> e == (RangeOutOfBounds { required: range, bounds: (0, 0) }),
{
    let start: usize = match range.start {
        Some(start) => start,
        None => 0,
    };
    let end: usize = match range.end {
        Some(end) => end,
        None => 0,
    };
    if start == 0 && end == 0 {
        Ok(())
    } else {
        Err(RangeOutOfBounds { required: range, bounds: (0, 0) })
    }
}

/// Only nothing can be written to an empty buffer.
#[inline]
pub fn check_length_write(length: usize) -> (r: Result<(), crate::io::Full>)
    ensures
        r is Ok <==> length == 0,
        r matches Err(e) ==> e == (crate::io::Full { written: 0, requested: length, remaining: 0 }),
{
    if length == 0 {
        Ok(())
    } else {
        Err(crate::io::Full { written: 0, requested: length, remaining: 0 })
    }
}

/// Only nothing can be read from an empty buffer.
#[inline]
pub fn check_length_read(length: usize) -> (r: Result<(), End>)
    ensures
        r is Ok <==> length == 0,
        r matches Err(e) ==> e == (End { read: 0, requested: length, remaining: 0 }),
{
    if length == 0 {
        Ok(())
    } else {
        Err(End { read: 0, requested: length, remaining: 0 })
    }
}

} // verus!
