//! Views that are read off a cursor.

use super::End;
use super::cursor::Cursor;
use crate::buf::Buf;
use crate::range::Range;
use vstd::prelude::*;

verus! {

/// Wrapper type for reading views.
#[derive(Clone, Copy, Debug)]
pub struct View<B>(pub B);

impl<B> View<B> {
    #[inline]
    pub fn as_ref(&self) -> (r: &B)
        ensures
            *r == self.0,
    {
        &self.0
    }

    #[inline]
    pub fn into_inner(self) -> (r: B)
        ensures
            r == self.0,
    {
        self.0
    }
}

impl<B> From<B> for View<B> {
    #[inline]
    fn from(value: B) -> (r: Self) {
        View(value)
    }
}

impl<B> vstd::std_specs::convert::FromSpecImpl<B> for View<B> {
    open spec fn obeys_from_spec() -> bool {
        true
    }

    open spec fn from_spec(value: B) -> View<B> {
        View(value)
    }
}

impl<V> View<V> {
    /// Reads everything behind the offset of `reader` as a view, and moves
    /// the offset to the end of the buffer.
    pub fn read<B: Buf<View = V>>(reader: &mut Cursor<B>) -> (r: Result<View<V>, End>)
        ensures
            final(reader).buf == old(reader).buf,
            r is Ok <==> old(reader).offset <= old(reader).buf.spec_bytes().len(),
            r matches Ok(view) ==> {
                &&& B::view_bytes(&view.0) == old(reader).buf.spec_bytes().skip(
                    old(reader).offset as int,
                )
                &&& final(reader).offset == old(reader).buf.spec_bytes().len()
            },
            r matches Err(e) ==> {
                &&& e == (End { requested: 0, read: 0, remaining: 0 })
                &&& final(reader).offset == old(reader).offset
            },
    {
        let range: Range = Range::default().with_start(reader.offset);
        match reader.buf.view(range) {
            Ok(view) => {
                assert(reader.buf.spec_bytes().skip(reader.offset as int)
                    =~= reader.buf.spec_bytes().subrange(
                    reader.offset as int,
                    reader.buf.spec_bytes().len() as int,
                ));
                reader.offset = reader.buf.chunk().len();
                Ok(View(view))
            },
            Err(_) => Err(End { requested: 0, read: 0, remaining: 0 }),
        }
    }
}

} // verus!
