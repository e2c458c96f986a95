//! Sequential reading and writing.

use crate::buf::BufMut;
use vstd::prelude::*;

pub mod cursor;
pub mod view;

verus! {

/// A reader has fewer bytes left than were asked for.
#[derive(Clone, Copy, Debug, PartialEq, Eq)]
pub struct End {
    pub requested: usize,
    pub read: usize,
    pub remaining: usize,
}

/// A writer has less room left than was asked for.
#[derive(Clone, Copy, Debug, PartialEq, Eq)]
pub struct Full {
    pub written: usize,
    pub requested: usize,
    pub remaining: usize,
}

impl From<crate::buf::Full> for Full {
    /// A buffer that cannot hold `required` bytes is a writer that has
    /// written nothing and has `capacity` bytes of room.
    fn from(value: crate::buf::Full) -> (r: Self) {
        Full { written: 0, requested: value.required, remaining: value.capacity }
    }
}

impl vstd::std_specs::convert::FromSpecImpl<crate::buf::Full> for Full {
    open spec fn obeys_from_spec() -> bool {
        true
    }

    open spec fn from_spec(value: crate::buf::Full) -> Full {
        Full { written: 0, requested: value.required, remaining: value.capacity }
    }
}

/// Sequential reading from a buffer that holds its bytes itself.
pub trait BufReader {
    /// What is taken off the reader.
    type View;

    /// The bytes that are left to read.
    spec fn spec_rest(&self) -> Seq<u8>;

    /// The bytes that were taken off the reader.
    spec fn taken_bytes(view: &Self::View) -> Seq<u8>;

    /// The bytes that are left to read, unless there are none.
    fn peek_chunk(&self) -> (r: Option<&[u8]>)
        ensures
            r is None <==> self.spec_rest().len() == 0,
            r matches Some(chunk) ==> chunk@ == self.spec_rest(),
    ;

    /// Takes the next `length` bytes off the reader.
    fn view(&mut self, length: usize) -> (r: Result<Self::View, End>)
        ensures
            r is Ok <==> length <= old(self).spec_rest().len(),
            r matches Ok(view) ==> {
                &&& Self::taken_bytes(&view) == old(self).spec_rest().subrange(0, length as int)
                &&& final(self).spec_rest() == old(self).spec_rest().skip(length as int)
            },
            r matches Err(e) ==> {
                &&& e == (End {
                    requested: length,
                    read: 0,
                    remaining: old(self).spec_rest().len() as usize,
                })
                &&& final(self).spec_rest() == old(self).spec_rest()
            },
    ;

    /// The next `length` bytes. The reader stays where it is.
    fn peek_view(&self, length: usize) -> (r: Result<Self::View, End>)
        ensures
            r is Ok <==> length <= self.spec_rest().len(),
            r matches Ok(view) ==> Self::taken_bytes(&view) == self.spec_rest().subrange(
                0,
                length as int,
            ),
            r matches Err(e) ==> e == (End {
                requested: length,
                read: 0,
                remaining: self.spec_rest().len() as usize,
            }),
    ;

    /// Takes everything that is left off the reader.
    fn rest(&mut self) -> (r: Self::View)
        ensures
            Self::taken_bytes(&r) == old(self).spec_rest(),
            final(self).spec_rest() == Seq::<u8>::empty(),
    ;

    /// Everything that is left. The reader stays where it is.
    fn peek_rest(&self) -> (r: Self::View)
        ensures
            Self::taken_bytes(&r) == self.spec_rest(),
    ;

    /// Moves the reader `by` bytes on.
    fn advance(&mut self, by: usize) -> (r: Result<(), End>)
        ensures
            r is Ok <==> by <= old(self).spec_rest().len(),
            r is Ok ==> final(self).spec_rest() == old(self).spec_rest().skip(by as int),
            r matches Err(e) ==> {
                &&& e == (End {
                    requested: by,
                    read: 0,
                    remaining: old(self).spec_rest().len() as usize,
                })
                &&& final(self).spec_rest() == old(self).spec_rest()
            },
    ;

    /// How many bytes are left to read.
    fn remaining(&self) -> (r: usize)
        ensures
            r == self.spec_rest().len(),
    ;
}

/// Sequential writing into a buffer that holds its bytes itself and cannot
/// grow.
pub trait BufWriter {
    /// A part of the buffer, to write to.
    type ViewMut;

    /// How many bytes of room lie behind the writer.
    spec fn spec_room(&self) -> nat;

    /// The room behind the writer, unless there is none.
    fn peek_chunk_mut(&mut self) -> (r: Option<&mut [u8]>)
        ensures
            old(self).spec_room() == 0 ==> r is None,
    ;

    /// The next `length` bytes of room, which the writer moves behind.
    fn view_mut(&mut self, length: usize) -> (r: Result<Self::ViewMut, Full>)
        ensures
            r is Ok <==> length <= old(self).spec_room(),
            r is Ok ==> final(self).spec_room() == old(self).spec_room() - length,
            r matches Err(e) ==> {
                &&& e == (Full {
                    written: 0,
                    requested: length,
                    remaining: old(self).spec_room() as usize,
                })
                &&& final(self).spec_room() == old(self).spec_room()
            },
    ;

    /// The next `length` bytes of room. The writer stays where it is.
    fn peek_view_mut(&mut self, length: usize) -> (r: Result<Self::ViewMut, Full>)
        ensures
            r is Ok <==> length <= old(self).spec_room(),
            r matches Err(e) ==> e == (Full {
                written: 0,
                requested: length,
                remaining: old(self).spec_room() as usize,
            }),
            final(self).spec_room() == old(self).spec_room(),
    ;

    /// All room behind the writer, which the writer moves behind.
    fn rest_mut(&mut self) -> (r: Self::ViewMut)
        ensures
            final(self).spec_room() == 0,
    ;

    /// All room behind the writer. The writer stays where it is.
    fn peek_rest_mut(&mut self) -> (r: Self::ViewMut)
        ensures
            final(self).spec_room() == old(self).spec_room(),
    ;

    /// Moves the writer `by` bytes on.
    fn advance(&mut self, by: usize) -> (r: Result<(), Full>)
        ensures
            r is Ok <==> by <= old(self).spec_room(),
            r is Ok ==> final(self).spec_room() == old(self).spec_room() - by,
            r matches Err(e) ==> {
                &&& e == (Full {
                    written: 0,
                    requested: by,
                    remaining: old(self).spec_room() as usize,
                })
                &&& final(self).spec_room() == old(self).spec_room()
            },
    ;

    /// How many bytes of room lie behind the writer.
    fn remaining(&self) -> (r: usize)
        ensures
            r == self.spec_room(),
    ;

    /// Writes `with` behind the writer, which moves behind it.
    fn extend(&mut self, with: &[u8]) -> (r: Result<(), Full>)
        ensures
            r is Ok <==> with@.len() <= old(self).spec_room(),
            r is Ok ==> final(self).spec_room() == old(self).spec_room() - with@.len(),
            r matches Err(e) ==> {
                &&& e == (Full {
                    written: 0,
                    requested: with@.len() as usize,
                    remaining: old(self).spec_room() as usize,
                })
                &&& final(self).spec_room() == old(self).spec_room()
            },
    ;
}

/// Readers that can return to an earlier position.
pub trait Seek {
    type Position;

    /// Where the reader is.
    spec fn spec_position(&self) -> Self::Position;

    /// The current position.
    fn tell(&self) -> (r: Self::Position)
        ensures
            r == self.spec_position(),
    ;

    /// Moves to `position` and returns where the reader was.
    fn seek(&mut self, position: &Self::Position) -> (r: Self::Position)
        ensures
            r == old(self).spec_position(),
            final(self).spec_position() == *position,
    ;
}

/// Readers that copy what they read into a buffer.
pub trait Reader {
    type Error;

    /// Reads into `dest`, at most `limit` bytes if there is a limit, and
    /// returns how many bytes were read.
    fn read_into<D: BufMut>(&mut self, dest: D, limit: Option<usize>) -> Result<
        usize,
        Self::Error,
    >;

    /// Reads exactly `length` bytes into `dest`.
    fn read_into_exact<D: BufMut>(&mut self, dest: D, length: usize) -> Result<(), Self::Error>;

    /// Moves the reader `amount` bytes on.
    fn skip(&mut self, amount: usize) -> Result<(), Self::Error>;
}

} // verus!
