//! What holds of buffers, whatever is done with them.

use super::Length;
use super::arc_buf::ArcBuf;
use super::arc_buf_mut::ArcBufMut;
use super::arena::AllocationView;
use super::arena::ArenaView;
use super::arena::allocated;
use super::buffer_ref::BufferRef;
use super::buffer_ref::released;
use super::buffer_ref::retained;
use super::reclaim::Reclaim;
use super::ref_count::RefCount;
use vstd::prelude::*;

verus! {

/// Whether two handles refer to no common byte: one of them has no
/// allocation, they have different allocations, or their ranges do not
/// overlap.
pub open spec fn disjoint(a: BufferRef, b: BufferRef) -> bool {
    ||| a.is_static()
    ||| b.is_static()
    ||| a.slot() != b.slot()
    ||| a.end <= b.start
    ||| b.end <= a.start
}

/// A freshly created buffer has the capacity that was asked for and holds no
/// data, and its reference count is static exactly if that capacity is zero.
pub proof fn lemma_fresh_buffer(
    before: ArenaView,
    after: ArenaView,
    buf: ArcBufMut,
    capacity: usize,
    reclaim: bool,
)
    requires
        buf == ArcBufMut::from_buffer_spec(buf.inner.buf),
        buf.inner.buf.size == capacity,
        allocated(before, after, buf.inner.buf, 1, reclaim),
    ensures
        buf.spec_capacity() == capacity,
        buf.filled == 0,
        buf.spec_ref_count(after) is Static <==> capacity == 0,
        capacity != 0 ==> buf.spec_ref_count(after) == (RefCount::Counted {
            ref_count: 1,
            reclaim,
        }),
        buf.wf(after),
{
}

/// The two halves of a split refer to no common byte.
pub proof fn lemma_split_halves_are_disjoint(whole: BufferRef, at: usize)
    requires
        whole.start <= whole.end,
        at <= whole.spec_len(),
    ensures
        disjoint(
            BufferRef { end: (whole.start + at) as usize, tail: false, ..whole },
            BufferRef { start: (whole.start + at) as usize, ..whole },
        ),
{
}

/// Writing through one handle changes no byte that is visible through a
/// handle disjoint from it, and leaves that handle consistent.
pub proof fn lemma_writes_are_isolated(
    arena: ArenaView,
    writer: BufferRef,
    other: BufferRef,
    at: int,
    patch: Seq<u8>,
)
    requires
        writer.wf(arena),
        other.wf(arena),
        disjoint(writer, other),
        0 <= at,
        at + patch.len() <= writer.spec_len(),
    ensures
        other.bytes(writer.written(arena, at, patch)) == other.bytes(arena),
        other.wf(writer.written(arena, at, patch)),
        other.spec_initialized_end(writer.written(arena, at, patch)) == other.spec_initialized_end(
            arena,
        ),
{
    let after = writer.written(arena, at, patch);
    assert(other.bytes(after) =~= other.bytes(arena));
}

/// While a strong handle to an allocation is alive, the allocation cannot be
/// reclaimed.
pub proof fn lemma_no_reclaim_while_in_use(arena: ArenaView, reclaim: Reclaim, handle: BufferRef)
    requires
        reclaim.wf(arena),
        handle.wf(arena),
        !handle.is_static(),
        handle.buf == reclaim.buf,
    ensures
        !reclaim.spec_can_reclaim(arena),
{
}

/// Once the last strong handle to an allocation is given up, the allocation
/// can be reclaimed: the capability has kept it alive.
pub proof fn lemma_reclaim_after_last_release(
    arena: ArenaView,
    reclaim: Reclaim,
    handle: BufferRef,
)
    requires
        reclaim.wf(arena),
        handle.wf(arena),
        !handle.is_static(),
        handle.buf == reclaim.buf,
        arena[handle.slot()].strong == 1,
    ensures
        reclaim.wf(released(arena, handle.slot())),
        reclaim.spec_can_reclaim(released(arena, handle.slot())),
{
}

/// The buffer that a reclaim hands out is the one strong handle of its
/// allocation, which stays reclaimable; it spans the whole allocation and
/// holds no data.
pub proof fn lemma_reclaimed_buffer_is_fresh(arena: ArenaView, reclaim: Reclaim)
    requires
        reclaim.wf(arena),
        !reclaim.is_static(),
        reclaim.spec_can_reclaim(arena),
    ensures
        ({
            let after = arena.insert(
                reclaim.slot(),
                AllocationView { strong: 1, ..arena[reclaim.slot()] },
            );
            &&& reclaim.reclaimed().spec_ref_count(after) == (RefCount::Counted {
                ref_count: 1,
                reclaim: true,
            })
            &&& reclaim.reclaimed().wf(after)
            &&& reclaim.reclaimed().spec_capacity() == reclaim.buf.size
            &&& reclaim.reclaimed().filled == 0
            &&& reclaim.wf(after)
            &&& !reclaim.spec_can_reclaim(after)
        }),
{
}

/// A capability without an allocation can always reclaim, in any arena, and
/// what it hands out is the empty buffer without allocation, whose reference
/// count is static.
pub proof fn lemma_reclaim_without_allocation(arena: ArenaView, reclaim: Reclaim)
    requires
        reclaim.is_static(),
    ensures
        reclaim.spec_can_reclaim(arena),
        reclaim.reclaimed() == ArcBufMut::empty(),
        reclaim.reclaimed().spec_ref_count(arena) is Static,
        reclaim.spec_ref_count(arena) is Static,
{
}

/// Advancing the initialization boundary through a handle never lowers it,
/// and keeps it between the start and the end of a tail handle.
pub proof fn lemma_initialized_boundary_is_monotone(arena: ArenaView, handle: BufferRef, to: int)
    requires
        handle.wf(arena),
        0 <= to <= handle.spec_len(),
    ensures
        handle.wf(handle.advanced(arena, to)),
        handle.spec_initialized_end(handle.advanced(arena, to)) >= handle.spec_initialized_end(
            arena,
        ),
        handle.initialized_len(handle.advanced(arena, to)) >= to,
        handle.start <= handle.spec_initialized_end(handle.advanced(arena, to)) <= handle.end,
        !handle.is_static() ==> handle.advanced(arena, to)[handle.slot()].initialized
            >= arena[handle.slot()].initialized,
{
}

/// Writing, counting a handle and giving one up leave the initialization
/// boundary of every allocation that stays alive where it is.
pub proof fn lemma_initialized_boundary_is_kept(
    arena: ArenaView,
    handle: BufferRef,
    at: int,
    patch: Seq<u8>,
    slot: usize,
)
    requires
        handle.wf(arena),
        0 <= at,
        at + patch.len() <= handle.spec_len(),
        arena.dom().contains(slot),
    ensures
        handle.written(arena, at, patch).dom().contains(slot),
        handle.written(arena, at, patch)[slot].initialized == arena[slot].initialized,
        !handle.is_static() ==> retained(arena, handle.slot())[slot].initialized
            == arena[slot].initialized,
        !handle.is_static() && released(arena, handle.slot()).dom().contains(slot) ==> released(
            arena,
            handle.slot(),
        )[slot].initialized == arena[slot].initialized,
{
}

/// A handle that is not the tail cannot move the initialization boundary:
/// advancing through it changes nothing in the arena, so the tail's view of
/// the boundary stays intact.
pub proof fn lemma_only_the_tail_advances(
    arena: ArenaView,
    handle: BufferRef,
    tail: BufferRef,
    to: int,
)
    requires
        handle.wf(arena),
        tail.wf(arena),
        !handle.tail,
    ensures
        handle.advanced(arena, to) == arena,
        tail.wf(handle.advanced(arena, to)),
        tail.spec_initialized_end(handle.advanced(arena, to)) == tail.spec_initialized_end(arena),
{
}

/// An immutable buffer over no bytes has no allocation: its reference count
/// is static, however many handles its former allocation still has.
pub proof fn lemma_empty_buffers_are_static(arena: ArenaView, buf: ArcBuf)
    requires
        buf.wf(arena),
        buf.spec_len() == 0,
    ensures
        buf.inner.is_static(),
        buf.spec_ref_count(arena) is Static,
{
}

/// Counting a handle and giving it up again leaves the arena as it was.
pub proof fn lemma_release_undoes_retain(arena: ArenaView, handle: BufferRef)
    requires
        handle.wf(arena),
        !handle.is_static(),
    ensures
        released(retained(arena, handle.slot()), handle.slot()) == arena,
{
    assert(released(retained(arena, handle.slot()), handle.slot()) =~= arena);
}

/// Counting one more strong handle to any allocation leaves every handle
/// consistent, and every handle's bytes as they are.
pub proof fn lemma_retain_keeps_handles(arena: ArenaView, handle: BufferRef, slot: usize)
    requires
        handle.wf(arena),
        arena.dom().contains(slot),
    ensures
        handle.wf(retained(arena, slot)),
        handle.bytes(retained(arena, slot)) == handle.bytes(arena),
        handle.spec_initialized_end(retained(arena, slot)) == handle.spec_initialized_end(arena),
{
}

/// Giving up a strong handle leaves every other handle consistent: a handle
/// to another allocation in any case, and a handle to the same allocation
/// because it is counted too.
pub proof fn lemma_release_keeps_handles(arena: ArenaView, handle: BufferRef, slot: usize)
    requires
        handle.wf(arena),
        arena.dom().contains(slot),
        arena[slot].strong >= 1,
        !handle.is_static() && handle.slot() == slot ==> arena[slot].strong >= 2,
    ensures
        handle.wf(released(arena, slot)),
        handle.bytes(released(arena, slot)) == handle.bytes(arena),
        handle.spec_initialized_end(released(arena, slot)) == handle.spec_initialized_end(arena),
{
}

/// Advancing the initialization boundary through the tail leaves every handle
/// below the tail consistent, and every handle to another allocation.
pub proof fn lemma_advance_keeps_handles(
    arena: ArenaView,
    tail: BufferRef,
    handle: BufferRef,
    to: int,
)
    requires
        tail.wf(arena),
        handle.wf(arena),
        0 <= to <= tail.spec_len(),
        handle.is_static() || tail.is_static() || handle.slot() != tail.slot() || !handle.tail,
    ensures
        handle.wf(tail.advanced(arena, to)),
        handle.bytes(tail.advanced(arena, to)) == handle.bytes(arena),
{
}

} // verus!
