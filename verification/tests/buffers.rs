use byst::buf::arc_buf::ArcBuf;
use byst::buf::arc_buf_mut::ArcBufMut;
use byst::buf::arena::Arena;
use byst::buf::arena::Buffer;
use byst::buf::buffer_ref::BufferRef;
use byst::buf::ref_count::RefCount;
use byst::buf::writer::Fill;
use byst::buf::writer::Writer;
use byst::buf::Full;
use byst::buf::Length;
use byst::buf::SizeLimit;
use byst::copy::copy;
use byst::io::End;
use byst::range::IndexOutOfBounds;
use byst::range::Range;
use byst::range::RangeOutOfBounds;

fn hello(arena: &mut Arena) -> ArcBufMut {
    let mut buf = ArcBufMut::new(arena, 20);
    copy(arena, &mut buf, b"Hello World. This is").unwrap();
    buf
}

fn counted(count: RefCount) -> (usize, bool) {
    match count {
        RefCount::Counted { ref_count, reclaim } => (ref_count, reclaim),
        RefCount::Static => panic!("expected a counted buffer"),
    }
}

#[test]
fn fresh_buffers_have_their_capacity_and_no_data() {
    let mut arena = Arena::new();
    for capacity in [0usize, 1, 2, 7, 64, 1522] {
        let buf = ArcBufMut::new(&mut arena, capacity);
        assert_eq!(buf.capacity(), capacity);
        assert_eq!(buf.len(), 0);
        assert!(buf.is_empty());
        assert_eq!(buf.ref_count(&arena).is_static(), capacity == 0);
        assert_eq!(buf.inner.tail, capacity != 0);
        assert_eq!(buf.initialized(&arena).len(), 0);
        assert_eq!(buf.uninitialized(&arena).len(), capacity);
    }
}

#[test]
fn fresh_buffers_count_one_strong_handle() {
    let mut arena = Arena::new();
    let buf = ArcBufMut::new(&mut arena, 8);
    assert_eq!(counted(buf.ref_count(&arena)), (1, false));
    let (buf, reclaim) = ArcBufMut::new_reclaimable(&mut arena, 8);
    assert_eq!(counted(buf.ref_count(&arena)), (1, true));
    assert_eq!(counted(reclaim.ref_count(&arena)), (1, true));
}

#[test]
fn buffers_get_slots_of_their_own() {
    let mut arena = Arena::new();
    let a = ArcBufMut::new(&mut arena, 4);
    let b = ArcBufMut::new(&mut arena, 4);
    assert_eq!(a.inner.buf.allocation, Some(0));
    assert_eq!(b.inner.buf.allocation, Some(1));
    a.release(&mut arena);
    let c = ArcBufMut::new(&mut arena, 9);
    assert_eq!(c.inner.buf.allocation, Some(0));
    assert_eq!(c.capacity(), 9);
    assert_eq!(b.capacity(), 4);
}

#[test]
fn releasing_the_last_handle_frees_the_allocation() {
    let mut arena = Arena::new();
    let buf = ArcBufMut::new(&mut arena, 4);
    assert!(arena.slots[0].is_some());
    buf.release(&mut arena);
    assert!(arena.slots[0].is_none());
}

#[test]
fn buffer_new_and_deallocate() {
    let mut arena = Arena::new();
    let buf = Buffer::new(&mut arena, 3, 2, true);
    assert_eq!(buf.len(), 3);
    assert_eq!(counted(buf.ref_count(&arena)), (2, true));
    buf.deallocate(&mut arena);
    assert!(arena.slots[0].is_none());

    let none = Buffer::new(&mut arena, 0, 1, false);
    assert_eq!(none.len(), 0);
    assert!(none.allocation.is_none());
    assert!(none.ref_count(&arena).is_static());
    assert!(Buffer::zero_sized().allocation.is_none());
}

#[test]
fn split_at_zero_does_not_touch_the_count() {
    let mut arena = Arena::new();
    let mut buf = hello(&mut arena);
    let left = buf.split_at(&mut arena, 0).unwrap();
    assert!(left.ref_count(&arena).is_static());
    assert_eq!(left.capacity(), 0);
    assert_eq!(counted(buf.ref_count(&arena)), (1, false));
    assert_eq!(buf.filled(&arena), b"Hello World. This is");
}

#[test]
fn split_at_filled_moves_the_buffer() {
    let mut arena = Arena::new();
    let mut buf = ArcBufMut::new(&mut arena, 20);
    copy(&mut arena, &mut buf, b"Hello").unwrap();
    let left = buf.split_at(&mut arena, 5).unwrap();
    assert_eq!(left.capacity(), 20);
    assert_eq!(left.filled(&arena), b"Hello");
    assert!(left.inner.tail);
    assert_eq!(counted(left.ref_count(&arena)), (1, false));
    assert!(buf.ref_count(&arena).is_static());
    assert_eq!(buf.capacity(), 0);
    assert_eq!(buf.len(), 0);
}

#[test]
fn split_in_the_middle_counts_both_halves() {
    let mut arena = Arena::new();
    let mut buf = hello(&mut arena);
    let left = buf.split_at(&mut arena, 5).unwrap();
    assert_eq!(counted(buf.ref_count(&arena)), (2, false));
    assert_eq!(counted(left.ref_count(&arena)), (2, false));
    assert_eq!(left.capacity(), 5);
    assert_eq!(buf.capacity(), 15);
    assert_eq!((left.inner.start, left.inner.end), (0, 5));
    assert_eq!((buf.inner.start, buf.inner.end), (5, 20));
    assert!(buf.inner.tail);
    left.release(&mut arena);
    assert_eq!(counted(buf.ref_count(&arena)), (1, false));
}

#[test]
fn split_beyond_filled_is_an_error() {
    let mut arena = Arena::new();
    let mut buf = ArcBufMut::new(&mut arena, 20);
    copy(&mut arena, &mut buf, b"Hello").unwrap();
    let e = buf.split_at(&mut arena, 6).err().unwrap();
    assert_eq!(
        e,
        IndexOutOfBounds {
            required: 6,
            bounds: (0, 5)
        }
    );
    assert_eq!(buf.filled(&arena), b"Hello");
    assert_eq!(buf.capacity(), 20);
}

#[test]
fn writing_one_half_leaves_the_other_alone() {
    let mut arena = Arena::new();
    let mut buf = hello(&mut arena);
    let mut left = buf.split_at(&mut arena, 5).unwrap();
    copy(&mut arena, &mut left, b"HELLO").unwrap();
    assert_eq!(left.filled(&arena), b"HELLO");
    assert_eq!(buf.filled(&arena), b" World. This is");
    copy(&mut arena, &mut buf, b"_world").unwrap();
    assert_eq!(left.filled(&arena), b"HELLO");
    assert_eq!(buf.filled(&arena), b"_world. This is");
    left.filled_mut(&mut arena, 1, b"ipp");
    assert_eq!(left.filled(&arena), b"HippO");
    assert_eq!(buf.filled(&arena), b"_world. This is");
}

#[test]
fn freeze_of_an_unfilled_buffer_is_static() {
    let mut arena = Arena::new();
    for capacity in [0usize, 1, 10, 100] {
        let buf = ArcBufMut::new(&mut arena, capacity);
        let frozen = buf.freeze(&mut arena);
        assert!(frozen.ref_count(&arena).is_static());
        assert_eq!(frozen.len(), 0);
        assert!(frozen.inner.buf.allocation.is_none());
    }
    assert!(arena.slots.iter().all(|slot| slot.is_none()));
}

#[test]
fn freeze_keeps_what_was_filled() {
    let mut arena = Arena::new();
    let mut buf = ArcBufMut::new(&mut arena, 20);
    copy(&mut arena, &mut buf, b"Hello").unwrap();
    let frozen = buf.freeze(&mut arena);
    assert_eq!(frozen.len(), 5);
    assert_eq!(frozen.as_bytes(&arena), b"Hello");
    assert_eq!(counted(frozen.ref_count(&arena)), (1, false));
    assert!(frozen.eq(&arena, b"Hello"));
    assert!(!frozen.eq(&arena, b"Hellp"));
    assert!(!frozen.eq(&arena, b"Hell"));
}

#[test]
fn reclaim_waits_for_the_last_handle() {
    let mut arena = Arena::new();
    let (mut buf, reclaim) = ArcBufMut::new_reclaimable(&mut arena, 10);
    copy(&mut arena, &mut buf, b"0123456789").unwrap();
    assert!(!reclaim.can_reclaim(&arena));
    assert!(reclaim.try_reclaim(&mut arena).is_none());

    let left = buf.split_at(&mut arena, 4).unwrap();
    let frozen = left.freeze(&mut arena);
    let shared = frozen.clone(&mut arena);
    assert_eq!(counted(reclaim.ref_count(&arena)), (3, true));

    buf.release(&mut arena);
    assert!(!reclaim.can_reclaim(&arena));
    frozen.release(&mut arena);
    assert!(!reclaim.can_reclaim(&arena));
    assert!(reclaim.try_reclaim(&mut arena).is_none());
    shared.release(&mut arena);
    assert!(reclaim.can_reclaim(&arena));
    assert_eq!(counted(reclaim.ref_count(&arena)), (0, true));

    let again = reclaim.try_reclaim(&mut arena).unwrap();
    assert_eq!(counted(again.ref_count(&arena)), (1, true));
    assert_eq!(again.capacity(), 10);
    assert_eq!(again.len(), 0);
    assert!(again.inner.tail);
    assert_eq!(again.inner.buf.allocation, reclaim.buf.allocation);
    assert!(!reclaim.can_reclaim(&arena));
    assert!(reclaim.try_reclaim(&mut arena).is_none());
}

#[test]
fn reclaimed_buffers_stay_initialized() {
    let mut arena = Arena::new();
    let (mut buf, reclaim) = ArcBufMut::new_reclaimable(&mut arena, 6);
    copy(&mut arena, &mut buf, b"abcd").unwrap();
    buf.release(&mut arena);
    let again = reclaim.try_reclaim(&mut arena).unwrap();
    assert_eq!(again.initialized(&arena), b"abcd");
    assert_eq!(again.filled(&arena), b"");
}

#[test]
fn dropping_reclaim_lets_the_last_handle_free() {
    let mut arena = Arena::new();
    let (buf, reclaim) = ArcBufMut::new_reclaimable(&mut arena, 10);
    reclaim.release(&mut arena);
    assert_eq!(counted(buf.ref_count(&arena)), (1, false));
    assert!(arena.slots[0].is_some());
    buf.release(&mut arena);
    assert!(arena.slots[0].is_none());
}

#[test]
fn dropping_reclaim_last_frees() {
    let mut arena = Arena::new();
    let (buf, reclaim) = ArcBufMut::new_reclaimable(&mut arena, 10);
    buf.release(&mut arena);
    assert!(arena.slots[0].is_some());
    reclaim.release(&mut arena);
    assert!(arena.slots[0].is_none());
}

#[test]
fn reclaim_without_allocation() {
    let mut arena = Arena::new();
    let (buf, reclaim) = ArcBufMut::new_reclaimable(&mut arena, 0);
    assert!(buf.ref_count(&arena).is_static());
    assert!(reclaim.ref_count(&arena).is_static());
    assert!(reclaim.can_reclaim(&arena));
    let one = reclaim.try_reclaim(&mut arena).unwrap();
    let two = reclaim.try_reclaim(&mut arena).unwrap();
    assert!(one.ref_count(&arena).is_static());
    assert!(two.ref_count(&arena).is_static());
    assert_eq!(one.capacity(), 0);
    assert!(arena.slots.is_empty());
    reclaim.release(&mut arena);
    assert!(arena.slots.is_empty());
}

#[test]
fn initialized_boundary_only_moves_up() {
    let mut arena = Arena::new();
    let mut buf = ArcBufMut::new(&mut arena, 10);
    assert_eq!(buf.inner.initialized_end(&arena), 0);
    buf.uninitialized_mut(&mut arena, 0, b"abcdef");
    assert_eq!(buf.inner.initialized_end(&arena), 0);
    buf.set_initialized_to(&mut arena, 6);
    assert_eq!(buf.inner.initialized_end(&arena), 6);
    buf.set_initialized_to(&mut arena, 3);
    assert_eq!(buf.inner.initialized_end(&arena), 6);
    buf.set_initialized_to(&mut arena, 0);
    assert_eq!(buf.inner.initialized_end(&arena), 6);
    assert_eq!(buf.initialized(&arena), b"abcdef");
    buf.set_initialized_to(&mut arena, 10);
    assert_eq!(buf.inner.initialized_end(&arena), 10);
    buf.clear();
    assert_eq!(buf.inner.initialized_end(&arena), 10);
}

#[test]
fn boundary_stays_within_the_tail_after_split() {
    let mut arena = Arena::new();
    let mut buf = ArcBufMut::new(&mut arena, 20);
    copy(&mut arena, &mut buf, b"Hello World.").unwrap();
    let left = buf.split_at(&mut arena, 5).unwrap();
    assert_eq!(left.inner.initialized_end(&arena), 5);
    assert_eq!(buf.inner.initialized_end(&arena), 12);
    assert!(buf.inner.start <= buf.inner.initialized_end(&arena));
    assert!(buf.inner.initialized_end(&arena) <= buf.inner.end);
    assert_eq!(buf.initialized(&arena), b" World.");
}

#[test]
fn left_half_cannot_move_the_boundary() {
    let mut arena = Arena::new();
    let mut buf = ArcBufMut::new(&mut arena, 20);
    copy(&mut arena, &mut buf, b"Hello World.").unwrap();
    let mut left = buf.split_at(&mut arena, 5).unwrap();
    assert!(!left.inner.tail);
    assert!(buf.inner.tail);
    left.set_initialized_to(&mut arena, 5);
    left.set_initialized_to(&mut arena, 0);
    left.fully_initialize(&mut arena);
    assert_eq!(buf.inner.initialized_end(&arena), 12);
    assert_eq!(left.initialized(&arena), b"Hello");
    assert_eq!(buf.filled(&arena), b" World.");
}

#[test]
fn fully_initialize_fills_with_zeros() {
    let mut arena = Arena::new();
    let mut buf = ArcBufMut::new(&mut arena, 6);
    copy(&mut arena, &mut buf, b"ab").unwrap();
    buf.uninitialized_mut(&mut arena, 2, b"zzzz");
    buf.fully_initialize(&mut arena);
    assert_eq!(buf.initialized(&arena), b"ab\0\0\0\0");
    assert_eq!(buf.filled(&arena), b"ab");
    buf.initialized_mut(&mut arena, 2, b"\xac\xab");
    buf.set_filled_to(&arena, 4);
    assert_eq!(buf.filled(&arena), b"ab\xac\xab");
    assert!(buf.eq(&arena, b"ab\xac\xab"));
}

#[test]
fn shrink_to_nothing_is_static_while_others_remain() {
    let mut arena = Arena::new();
    let buf = hello(&mut arena);
    let frozen = buf.freeze(&mut arena);
    let mut other = frozen.clone(&mut arena);
    assert_eq!(counted(frozen.ref_count(&arena)), (2, false));
    other.inner.shrink(&mut arena, 7, 7);
    assert!(other.ref_count(&arena).is_static());
    assert!(other.inner.buf.allocation.is_none());
    assert_eq!(counted(frozen.ref_count(&arena)), (1, false));
    assert_eq!(frozen.as_bytes(&arena), b"Hello World. This is");
}

#[test]
fn shrink_narrows_the_range() {
    let mut arena = Arena::new();
    let mut buf = hello(&mut arena);
    buf.inner.shrink(&mut arena, 6, 11);
    assert_eq!(buf.inner.uninitialized(&arena), b"World");
    assert_eq!((buf.inner.start, buf.inner.end), (6, 11));
    assert!(!buf.inner.tail);
    buf.inner.shrink(&mut arena, 1, 3);
    assert_eq!(buf.inner.uninitialized(&arena), b"or");
}

#[test]
fn shrink_keeps_the_tail_at_the_boundary() {
    let mut arena = Arena::new();
    let mut buf = ArcBufMut::new(&mut arena, 10);
    copy(&mut arena, &mut buf, b"abcd").unwrap();
    let mut inner = buf.inner.clone(&mut arena);
    inner.shrink(&mut arena, 1, 8);
    assert!(inner.tail);
    assert_eq!(inner.initialized_end(&arena), 4);
    inner.shrink(&mut arena, 0, 2);
    assert!(!inner.tail);
    assert_eq!(inner.initialized_end(&arena), 3);
}

#[test]
fn buffer_ref_split_at_follows_offsets() {
    let mut arena = Arena::new();
    let mut buf = hello(&mut arena);
    let mut right = buf.inner.split_at(&mut arena, 5);
    std::mem::swap(&mut right, &mut buf.inner);
    // `buf.inner` is the left half now, `right` starts at 5
    assert_eq!((right.start, right.end), (5, 20));
    let empty = right.split_at(&mut arena, 0);
    assert!(empty.buf.allocation.is_none());
    assert_eq!((right.start, right.end), (5, 20));
    let middle = right.split_at(&mut arena, 5);
    assert_eq!((middle.start, middle.end), (5, 10));
    assert!(!middle.tail);
    assert_eq!((right.start, right.end), (10, 20));
    let all = right.split_at(&mut arena, 10);
    assert_eq!((all.start, all.end), (10, 20));
    assert!(all.tail);
    assert!(right.buf.allocation.is_none());
    assert_eq!(right.len(), 0);
}

#[test]
fn buffer_ref_from_buf_and_default() {
    let mut arena = Arena::new();
    let buf = Buffer::new(&mut arena, 5, 1, false);
    let handle = BufferRef::from_buf(buf);
    assert_eq!((handle.start, handle.end, handle.tail), (0, 5, true));
    assert_eq!(handle.len(), 5);
    let none = BufferRef::from_buf(Buffer::zero_sized());
    assert_eq!((none.start, none.end, none.tail), (0, 0, false));
    let default = BufferRef::default();
    assert_eq!((default.start, default.end, default.tail), (0, 0, false));
    assert!(default.buf.allocation.is_none());
    assert!(default.ref_count(&arena).is_static());
    assert_eq!(default.uninitialized(&arena), b"");
    assert_eq!(default.initialized(&arena), b"");
    default.release(&mut arena);
    let from_buffer = ArcBufMut::from_buffer(buf);
    assert_eq!(from_buffer.capacity(), 5);
    assert_eq!(from_buffer.len(), 0);
}

#[test]
fn buffer_ref_fill_and_write() {
    let mut arena = Arena::new();
    let buf = ArcBufMut::new(&mut arena, 6);
    buf.inner.fill(&mut arena, 0, 6, b'.');
    buf.inner.uninitialized_mut(&mut arena, 2, b"ab");
    buf.inner.fill(&mut arena, 5, 6, b'!');
    assert_eq!(buf.inner.uninitialized(&arena), b"..ab.!");
    buf.inner.set_initialized_to(&mut arena, 4);
    buf.inner.initialized_mut(&mut arena, 0, b"xy");
    assert_eq!(buf.inner.initialized(&arena), b"xyab");
}

#[test]
fn arena_reads_and_writes_blocks() {
    let mut arena = Arena::new();
    let buf = Buffer::new(&mut arena, 8, 1, false);
    let slot = buf.allocation.unwrap();
    arena.fill(slot, 0, 8, 7);
    arena.write(slot, 3, b"abc");
    assert_eq!(arena.bytes(slot, 0, 8), b"\x07\x07\x07abc\x07\x07");
    assert_eq!(arena.bytes(slot, 2, 5), b"\x07ab");
    assert_eq!(arena.initialized(slot), 0);
    arena.set_initialized(slot, 8);
    assert_eq!(arena.initialized(slot), 8);
    arena.increment(slot);
    assert_eq!(counted(arena.ref_count(slot)), (2, false));
    assert!(!arena.decrement(slot).0);
    assert!(!arena.can_reclaim(slot));
    assert!(!arena.try_reclaim(slot));
    assert!(!arena.make_unreclaimable(slot).0);
    assert!(arena.decrement(slot).0);
    arena.remove(slot);
    assert!(arena.slots[slot].is_none());
}

#[test]
fn copy_extends_and_overwrites() {
    let mut arena = Arena::new();
    let mut buf = ArcBufMut::new(&mut arena, 10);
    copy(&mut arena, &mut buf, b"abcdef").unwrap();
    assert_eq!(buf.len(), 6);
    copy(&mut arena, &mut buf, b"XY").unwrap();
    assert_eq!(buf.len(), 6);
    assert_eq!(buf.filled(&arena), b"XYcdef");
    copy(&mut arena, &mut buf, b"").unwrap();
    assert_eq!(buf.filled(&arena), b"XYcdef");
    let e = copy(&mut arena, &mut buf, b"0123456789A").unwrap_err();
    assert_eq!(
        e,
        Full {
            required: 11,
            capacity: 10
        }
    );
    assert_eq!(buf.filled(&arena), b"XYcdef");
    let mut none = ArcBufMut::default();
    copy(&mut arena, &mut none, b"").unwrap();
    assert_eq!(
        copy(&mut arena, &mut none, b"a").unwrap_err(),
        Full {
            required: 1,
            capacity: 0
        }
    );
}

#[test]
fn reserve_and_size_limit() {
    let mut arena = Arena::new();
    let mut buf = ArcBufMut::new(&mut arena, 10);
    assert_eq!(buf.reserve(0), Ok(()));
    assert_eq!(buf.reserve(10), Ok(()));
    assert_eq!(
        buf.reserve(11),
        Err(Full {
            required: 11,
            capacity: 10
        })
    );
    assert_eq!(buf.size_limit(), SizeLimit::Exact(10));
}

#[test]
fn mutable_view_selects_filled_bytes() {
    let mut arena = Arena::new();
    let buf = hello(&mut arena);
    let range = Range::default().with_start(6).with_length(5);
    assert_eq!(buf.view(&arena, range).unwrap(), b"World");
    assert_eq!(buf.view(&arena, Range::default()).unwrap().len(), 20);
    assert_eq!(buf.reader(&arena), b"Hello World. This is");
    let range = Range::default().with_start(6).with_end(21);
    assert_eq!(
        buf.view(&arena, range).unwrap_err(),
        RangeOutOfBounds {
            required: range,
            bounds: (0, 20)
        }
    );
}

#[test]
fn writer_extends_until_full() {
    let mut arena = Arena::new();
    let mut buf = ArcBufMut::new(&mut arena, 8);
    let mut writer = buf.writer();
    writer.extend(&mut arena, b"abc").unwrap();
    writer.extend(&mut arena, b"de").unwrap();
    assert_eq!(writer.position, 5);
    assert_eq!(writer.remaining(), 0);
    let e = writer.extend(&mut arena, b"wxyz").unwrap_err();
    assert_eq!(
        e,
        byst::io::Full {
            written: 0,
            requested: 4,
            remaining: 8
        }
    );
    assert_eq!(writer.position, 5);
    writer.extend(&mut arena, b"xyz").unwrap();
    assert_eq!(buf.filled(&arena), b"abcdexyz");
    assert_eq!(buf.inner.initialized_end(&arena), 8);
}

#[test]
fn writer_advance_fills_the_gap_with_zeros() {
    let mut arena = Arena::new();
    let mut buf = ArcBufMut::new(&mut arena, 8);
    buf.uninitialized_mut(&mut arena, 0, b"????????");
    copy(&mut arena, &mut buf, b"abcd").unwrap();
    let mut writer = Writer::new(&mut buf);
    writer.advance(&mut arena, 2).unwrap();
    assert_eq!(writer.position, 2);
    assert_eq!(writer.remaining(), 2);
    writer.advance(&mut arena, 4).unwrap();
    assert_eq!(writer.position, 6);
    assert_eq!(writer.remaining(), 0);
    let e = writer.advance(&mut arena, 3).unwrap_err();
    assert_eq!(
        e,
        byst::io::Full {
            written: 0,
            requested: 3,
            remaining: 8
        }
    );
    assert_eq!(buf.filled(&arena), b"abcd\0\0");
    assert_eq!(buf.uninitialized(&arena), b"abcd\0\0??");
}

#[test]
fn writer_views_stay_within_filled() {
    let mut arena = Arena::new();
    let mut buf = ArcBufMut::new(&mut arena, 8);
    copy(&mut arena, &mut buf, b"abcd").unwrap();
    let mut writer = buf.writer();
    assert_eq!(
        writer.peek_chunk_mut(),
        Some(Range {
            start: Some(0),
            end: Some(4)
        })
    );
    assert_eq!(
        writer.peek_view_mut(3),
        Ok(Range {
            start: Some(0),
            end: Some(3)
        })
    );
    assert_eq!(writer.position, 0);
    assert_eq!(
        writer.view_mut(3),
        Ok(Range {
            start: Some(0),
            end: Some(3)
        })
    );
    assert_eq!(writer.position, 3);
    assert_eq!(
        writer.view_mut(2),
        Err(byst::io::Full {
            written: 0,
            requested: 2,
            remaining: 1
        })
    );
    assert_eq!(
        writer.peek_view_mut(2),
        Err(byst::io::Full {
            written: 0,
            requested: 2,
            remaining: 1
        })
    );
    assert_eq!(
        writer.peek_rest_mut(),
        Range {
            start: Some(3),
            end: Some(4)
        }
    );
    assert_eq!(
        writer.rest_mut(),
        Range {
            start: Some(3),
            end: Some(4)
        }
    );
    assert_eq!(writer.position, 4);
    assert_eq!(writer.peek_chunk_mut(), None);
}

#[test]
fn fill_with_keeps_what_is_initialized() {
    let mut arena = Arena::new();
    let mut buf = ArcBufMut::new(&mut arena, 8);
    copy(&mut arena, &mut buf, b"abcd").unwrap();
    let mut writer = Writer {
        buf: &mut buf,
        position: 2,
    };
    writer
        .fill_with(&mut arena, 5, Fill::Zeros { keep: 2 })
        .unwrap();
    assert_eq!(writer.position, 7);
    let e = writer
        .fill_with(&mut arena, 2, Fill::Bytes(b"zz"))
        .unwrap_err();
    assert_eq!(
        e,
        Full {
            required: 2,
            capacity: 8
        }
    );
    let e = writer
        .fill_with(&mut arena, usize::MAX, Fill::Zeros { keep: 0 })
        .unwrap_err();
    assert_eq!(
        e,
        Full {
            required: usize::MAX,
            capacity: 8
        }
    );
    writer.fill_with(&mut arena, 1, Fill::Bytes(b"z")).unwrap();
    assert_eq!(buf.filled(&arena), b"abcd\0\0\0z");
}

#[test]
fn arc_buf_views_share_the_allocation() {
    let mut arena = Arena::new();
    let frozen = hello(&mut arena).freeze(&mut arena);
    let range = Range::default().with_start(6).with_length(5);
    let world = frozen.view(&mut arena, range).unwrap();
    assert_eq!(world.as_bytes(&arena), b"World");
    assert_eq!(world.len(), 5);
    assert_eq!(counted(frozen.ref_count(&arena)), (2, false));
    assert_eq!(world.inner.buf.allocation, frozen.inner.buf.allocation);

    let nothing = frozen
        .view(&mut arena, Range::default().with_start(3).with_end(3))
        .unwrap();
    assert!(nothing.ref_count(&arena).is_static());
    assert_eq!(counted(frozen.ref_count(&arena)), (2, false));

    let range = Range::default().with_start(7).with_end(3);
    assert_eq!(
        frozen.view(&mut arena, range).err().unwrap(),
        RangeOutOfBounds {
            required: range,
            bounds: (0, 20)
        }
    );
    assert_eq!(counted(frozen.ref_count(&arena)), (2, false));
    world.release(&mut arena);
    assert_eq!(counted(frozen.ref_count(&arena)), (1, false));
}

#[test]
fn arc_buf_reads_sequentially() {
    let mut arena = Arena::new();
    let mut reader = hello(&mut arena).freeze(&mut arena);
    assert_eq!(reader.peek_chunk(&arena).unwrap(), b"Hello World. This is");
    let hello = reader.take_view(&mut arena, 5).unwrap();
    assert_eq!(hello.as_bytes(&arena), b"Hello");
    assert_eq!(reader.remaining(), 15);
    reader.advance(&mut arena, 1).unwrap();
    let world = reader.peek_view(&mut arena, 5).unwrap();
    assert_eq!(world.as_bytes(&arena), b"World");
    assert_eq!(reader.remaining(), 14);
    assert_eq!(counted(reader.ref_count(&arena)), (3, false));

    let e = reader.take_view(&mut arena, 15).err().unwrap();
    assert_eq!(
        e,
        End {
            requested: 15,
            read: 0,
            remaining: 14
        }
    );
    let e = reader.peek_view(&mut arena, 15).err().unwrap();
    assert_eq!(
        e,
        End {
            requested: 15,
            read: 0,
            remaining: 14
        }
    );
    assert_eq!(
        reader.advance(&mut arena, 15),
        Err(End {
            requested: 15,
            read: 0,
            remaining: 14
        })
    );

    let position = reader.tell(&mut arena);
    reader.advance(&mut arena, 7).unwrap();
    assert_eq!(reader.as_bytes(&arena), b"This is");
    let there = reader.seek(&mut arena, &position);
    assert_eq!(there.as_bytes(&arena), b"This is");
    assert_eq!(reader.as_bytes(&arena), b"World. This is");

    let copy = reader.peek_rest(&mut arena);
    let rest = reader.rest();
    assert_eq!(rest.as_bytes(&arena), b"World. This is");
    assert_eq!(copy.as_bytes(&arena), b"World. This is");
    assert!(reader.ref_count(&arena).is_static());
    assert!(reader.peek_chunk(&arena).is_none());
    assert_eq!(reader.remaining(), 0);
    reader.advance(&mut arena, 0).unwrap();

    let mut all = rest.reader(&mut arena);
    all.advance(&mut arena, 14).unwrap();
    assert!(all.ref_count(&arena).is_static());
}

#[test]
fn default_buffers_are_static() {
    let arena = Arena::new();
    assert!(ArcBuf::default().ref_count(&arena).is_static());
    assert!(ArcBufMut::default().ref_count(&arena).is_static());
    assert_eq!(ArcBuf::default().len(), 0);
    assert_eq!(ArcBufMut::default().capacity(), 0);
    assert_eq!(ArcBuf::default().as_bytes(&arena), b"");
}

#[test]
fn validity_checks_follow_the_arena() {
    let mut arena = Arena::new();
    let mut buf = hello(&mut arena);
    assert!(buf.is_valid(&arena));
    assert!(buf.inner.is_valid(&arena));
    assert!(buf.inner.buf.is_valid(&arena));
    assert!(buf.inner.is_retainable(&arena));
    let left = buf.split_at(&mut arena, 5).unwrap();
    assert!(left.is_valid(&arena));
    assert!(buf.is_valid(&arena));
    let frozen = left.freeze(&mut arena);
    assert!(frozen.is_valid(&arena));
    assert!(frozen.is_retainable(&arena));
    frozen.release(&mut arena);
    let stale = BufferRef {
        buf: buf.inner.buf,
        start: 5,
        end: 20,
        tail: true,
    };
    buf.release(&mut arena);
    assert!(!stale.is_valid(&arena));
    assert!(!stale.buf.is_valid(&arena));
    assert!(!arena.contains(0));
    assert!(!arena.contains(7));

    let other = Arena::new();
    assert!(ArcBufMut::default().is_valid(&other));
    assert!(ArcBuf::default().is_valid(&other));
    let mut arena = Arena::new();
    let unfilled = ArcBufMut::new(&mut arena, 4);
    assert!(arena.contains(0));
    assert_eq!(arena.size(0), 4);
    let overfilled = ArcBufMut {
        inner: unfilled.inner.clone(&mut arena),
        filled: 1,
    };
    assert!(!overfilled.is_valid(&arena));
    let uninitialized = ArcBuf {
        inner: unfilled.inner.clone(&mut arena),
    };
    assert!(!uninitialized.is_valid(&arena));
    let (buf, reclaim) = ArcBufMut::new_reclaimable(&mut arena, 4);
    assert!(reclaim.is_valid(&arena));
    assert!(buf.is_valid(&arena));
    let not_reclaimable = byst::buf::reclaim::Reclaim {
        buf: unfilled.inner.buf,
    };
    assert!(!not_reclaimable.is_valid(&arena));
}

#[test]
fn fresh_blocks_are_zeroed() {
    let mut arena = Arena::new();
    let buf = ArcBufMut::new(&mut arena, 4);
    assert_eq!(buf.uninitialized(&arena), b"\0\0\0\0");
    assert_eq!(buf.initialized(&arena), b"");
}
