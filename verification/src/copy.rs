//! Copying bytes into a buffer.

use crate::buf::Full;
use crate::buf::arc_buf_mut::ArcBufMut;
use crate::buf::arena::Arena;
use crate::buf::arena::splice;
use crate::buf::writer::Fill;
use vstd::prelude::*;

verus! {

/// Copies `source` to the beginning of `destination`, which afterwards is
/// filled at least as far as `source` is long.
///
/// This fails, and changes nothing, if `source` is longer than the capacity
/// of `destination`.
pub fn copy(arena: &mut Arena, destination: &mut ArcBufMut, source: &[u8]) -> (r: Result<(), Full>)
    requires
        old(destination).wf(old(arena)@),
    ensures
        final(destination).inner == old(destination).inner,
        final(destination).wf(final(arena)@),
        r is Ok <==> source@.len() <= old(destination).spec_capacity(),
        r matches Err(e) ==> {
            &&& e == (Full {
                required: source@.len() as usize,
                capacity: old(destination).spec_capacity() as usize,
            })
            &&& *final(destination) == *old(destination)
            &&& final(arena)@ == old(arena)@
        },
        r is Ok ==> {
            &&& final(destination).filled == if old(destination).filled >= source@.len() {
                old(destination).filled
            } else {
                source@.len() as usize
            }
            &&& final(arena)@ == old(destination).inner.advanced(
                old(destination).inner.written(old(arena)@, 0, source@),
                source@.len() as int,
            )
            &&& final(destination).inner.bytes(final(arena)@) == splice(
                old(destination).inner.bytes(old(arena)@),
                0,
                source@,
            )
        },
{
    match destination.reserve(source.len()) {
        Ok(()) => {},
        Err(e) => {
            return Err(e);
        },
    }
    let mut writer = destination.writer();
    writer.fill_with(arena, source.len(), Fill::Bytes(source))
}

} // verus!
