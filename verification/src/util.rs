//! Helpers that the buffers share.

use vstd::prelude::*;

verus! {

/// Whether two byte strings have the same content.
pub fn buf_eq(left: &[u8], right: &[u8]) -> (r: bool)
    ensures
        r == (left@ == right@),
{
    if left.len() != right.len() {
        return false;
    }
    let mut i: usize = 0;
    while i < left.len()
        invariant
            i <= left@.len(),
            left@.len() == right@.len(),
            left@.subrange(0, i as int) == right@.subrange(0, i as int),
        decreases left@.len() - i,
    {
        if left[i] != right[i] {
            return false;
        }
        assert(left@.subrange(0, i as int + 1) =~= left@.subrange(0, i as int).push(left@[i as int]));
        assert(right@.subrange(0, i as int + 1) =~= right@.subrange(0, i as int).push(
            right@[i as int],
        ));
        i = i + 1;
    }
    assert(left@ =~= left@.subrange(0, i as int));
    assert(right@ =~= right@.subrange(0, i as int));
    true
}

} // verus!
