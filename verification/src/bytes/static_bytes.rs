//! Bytes that live as long as the program.

use crate::buf::Buf;
use crate::buf::Length;
use crate::io::BufReader;
use crate::io::End;
use crate::range::Range;
use crate::range::RangeOutOfBounds;
use vstd::prelude::*;

verus! {

/// A byte string with static lifetime. It is read by narrowing it.
#[derive(Clone, Copy)]
pub struct Static(pub &'static [u8]);

impl Length for Static {
    open spec fn spec_len(&self) -> nat {
        self.0@.len()
    }

    #[inline]
    fn len(&self) -> (r: usize) {
        self.0.len()
    }
}

impl Buf for Static {
    type View = Static;

    type Reader = Static;

    open spec fn spec_bytes(&self) -> Seq<u8> {
        self.0@
    }

    open spec fn view_bytes(view: &Static) -> Seq<u8> {
        view.0@
    }

    open spec fn reader_bytes(reader: &Static) -> Seq<u8> {
        reader.0@
    }

    #[inline]
    fn view(&self, range: Range) -> (r: Result<Static, RangeOutOfBounds>) {
        match range.indices_checked_in(0, self.0.len()) {
            Ok((start, end)) => Ok(Static(vstd::slice::slice_subrange(self.0, start, end))),
            Err(e) => Err(e),
        }
    }

    #[inline]
    fn reader(&self) -> (r: Static) {
        *self
    }

    #[inline]
    fn chunk(&self) -> (r: &[u8]) {
        self.0
    }
}

impl BufReader for Static {
    type View = Static;

    open spec fn spec_rest(&self) -> Seq<u8> {
        self.0@
    }

    open spec fn taken_bytes(view: &Static) -> Seq<u8> {
        view.0@
    }

    fn peek_chunk(&self) -> (r: Option<&[u8]>) {
        if self.0.len() == 0 {
            None
        } else {
            Some(self.0)
        }
    }

    fn view(&mut self, length: usize) -> (r: Result<Static, End>) {
        let len: usize = self.0.len();
        if length <= len {
            let view = Static(vstd::slice::slice_subrange(self.0, 0, length));
            self.0 = vstd::slice::slice_subrange(self.0, length, len);
            assert(self.0@ =~= old(self).0@.skip(length as int));
            Ok(view)
        } else {
            Err(End { requested: length, read: 0, remaining: len })
        }
    }

    fn peek_view(&self, length: usize) -> (r: Result<Static, End>) {
        let len: usize = self.0.len();
        if length <= len {
            Ok(Static(vstd::slice::slice_subrange(self.0, 0, length)))
        } else {
            Err(End { requested: length, read: 0, remaining: len })
        }
    }

    fn rest(&mut self) -> (r: Static) {
        let len: usize = self.0.len();
        let rest = Static(self.0);
        self.0 = vstd::slice::slice_subrange(self.0, len, len);
        assert(self.0@ =~= Seq::<u8>::empty());
        rest
    }

    fn peek_rest(&self) -> (r: Static) {
        *self
    }

    fn advance(&mut self, by: usize) -> (r: Result<(), End>) {
        let len: usize = self.0.len();
        if by <= len {
            self.0 = vstd::slice::slice_subrange(self.0, by, len);
            assert(self.0@ =~= old(self).0@.skip(by as int));
            Ok(())
        } else {
            Err(End { requested: by, read: 0, remaining: len })
        }
    }

    fn remaining(&self) -> (r: usize) {
        self.0.len()
    }
}

} // verus!
