use byst::buf::arc_buf_mut::ArcBufMut;
use byst::buf::arena::Arena;
use byst::buf::Full;
use byst::buf::Length;
use byst::copy::copy;

#[test]
fn it_reclaims_empty_buffers_correctly() {
    let mut arena = Arena::new();
    let (buf, reclaim) = ArcBufMut::new_reclaimable(&mut arena, 0);
    assert!(buf.inner.buf.allocation.is_none());
    assert!(buf.ref_count(&arena).is_static());
    buf.release(&mut arena);
    assert!(reclaim.can_reclaim(&arena));
    let reclaimed = reclaim.try_reclaim(&mut arena).unwrap();
    assert!(reclaimed.ref_count(&arena).is_static());
}

#[test]
fn empty_bufs_dont_ref_count() {
    let mut arena = Arena::new();
    let buf = ArcBufMut::new(&mut arena, 10);
    let frozen = buf.freeze(&mut arena);
    assert!(frozen.ref_count(&arena).is_static());

    let buf = ArcBufMut::new(&mut arena, 0);
    assert!(buf.ref_count(&arena).is_static());
}

#[test]
fn empty_bufs_dont_allocate() {
    let mut arena = Arena::new();
    let buf = ArcBufMut::new(&mut arena, 0);
    assert!(buf.inner.uninitialized(&arena).is_empty());
    assert!(buf.inner.buf.allocation.is_none());

    let mut buf = ArcBufMut::new(&mut arena, 10);
    let _buf_ref = buf.inner.split_at(&mut arena, 10);
    assert!(buf.inner.buf.allocation.is_none());
}

#[test]
fn bufs_split_correctly() {
    let mut arena = Arena::new();
    let mut buf = ArcBufMut::new(&mut arena, 20);
    copy(&mut arena, &mut buf, b"Hello World. This is").unwrap();

    let new = buf.split_at(&mut arena, 5).unwrap();

    assert_eq!(new.len(), 5);
    assert_eq!(buf.len(), 15);

    assert_eq!(new.filled(&arena), b"Hello");
    assert_eq!(buf.filled(&arena), b" World. This is");
}

#[test]
fn split_off_buf_doesnt_spill_into_other_half() {
    let mut arena = Arena::new();
    let mut buf = ArcBufMut::new(&mut arena, 20);
    copy(&mut arena, &mut buf, b"Hello World. This is").unwrap();

    let mut new = buf.split_at(&mut arena, 5).unwrap();

    let e = copy(&mut arena, &mut new, b"Spill much?").unwrap_err();

    assert_eq!(
        e,
        Full {
            required: 11,
            capacity: 5
        }
    );
    assert_eq!(new.filled(&arena), b"Hello");
    assert_eq!(buf.filled(&arena), b" World. This is");
}

#[test]
fn left_half_of_split_is_not_tail() {
    let mut arena = Arena::new();
    let mut buf = ArcBufMut::new(&mut arena, 20);
    copy(&mut arena, &mut buf, b"Hello World. This is").unwrap();
    let left = buf.split_at(&mut arena, 5).unwrap();
    assert!(!left.inner.tail);
}

#[test]
fn buf_shrunk_to_zero_size_is_static() {
    let mut arena = Arena::new();
    let mut buf = ArcBufMut::new(&mut arena, 20);
    copy(&mut arena, &mut buf, b"Hello World. This is").unwrap();

    buf.inner.shrink(&mut arena, 5, 5);
    assert!(buf.ref_count(&arena).is_static());
    assert!(buf.inner.buf.allocation.is_none());
    assert!(!buf.inner.tail);
}

#[test]
fn it_splits_with_left_empty_correctly() {
    let mut arena = Arena::new();
    let mut buf = ArcBufMut::new(&mut arena, 20);
    copy(&mut arena, &mut buf, b"Hello World. This is").unwrap();

    let left = buf.split_at(&mut arena, 0).unwrap();
    assert!(left.is_empty());
    assert_eq!(buf.len(), 20);
    assert!(left.ref_count(&arena).is_static());
    assert!(left.inner.buf.allocation.is_none());
    assert!(!left.inner.tail);
}

#[test]
fn it_splits_with_right_empty_correctly() {
    let mut arena = Arena::new();
    let mut buf = ArcBufMut::new(&mut arena, 20);
    copy(&mut arena, &mut buf, b"Hello World. This is").unwrap();

    let left = buf.split_at(&mut arena, 20).unwrap();
    assert!(buf.is_empty());
    assert_eq!(left.len(), 20);
    assert!(buf.ref_count(&arena).is_static());
    assert!(buf.inner.buf.allocation.is_none());
    assert!(!buf.inner.tail);
}
