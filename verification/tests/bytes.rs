use byst::buf::arc_buf_mut::ArcBufMut;
use byst::buf::arena::Arena;
use byst::buf::empty::Empty;
use byst::buf::Buf;
use byst::buf::Length;
use byst::bytes::bytes::Bytes;
use byst::bytes::bytes::BytesImpl;
use byst::bytes::static_bytes::Static;
use byst::copy::copy;
use byst::io::BufReader;
use byst::io::End;
use byst::range::Range;
use byst::range::RangeOutOfBounds;

#[test]
fn static_views() {
    let bytes = Static(b"Hello World");
    assert_eq!(bytes.len(), 11);
    assert_eq!(bytes.chunk(), b"Hello World");
    let view = Buf::view(&bytes, Range::default().with_start(6).with_length(5)).unwrap();
    assert_eq!(view.0, b"World");
    let view = Buf::view(&bytes, Range::default().with_end(5)).unwrap();
    assert_eq!(view.0, b"Hello");
    let range = Range::default().with_start(6).with_length(6);
    assert_eq!(
        Buf::view(&bytes, range).err().unwrap(),
        RangeOutOfBounds {
            required: range,
            bounds: (0, 11)
        }
    );
    assert!(bytes.contains(Range::default()));
    assert!(!bytes.contains(range));
    assert_eq!(Buf::reader(&bytes).0, b"Hello World");
}

#[test]
fn static_reads_sequentially() {
    let mut bytes = Static(b"Hello World");
    assert_eq!(BufReader::peek_chunk(&bytes).unwrap(), b"Hello World");
    assert_eq!(BufReader::peek_view(&bytes, 5).unwrap().0, b"Hello");
    assert_eq!(BufReader::view(&mut bytes, 5).unwrap().0, b"Hello");
    assert_eq!(BufReader::remaining(&bytes), 6);
    assert_eq!(BufReader::advance(&mut bytes, 1), Ok(()));
    assert_eq!(
        BufReader::advance(&mut bytes, 6),
        Err(End {
            requested: 6,
            read: 0,
            remaining: 5
        })
    );
    assert_eq!(
        BufReader::view(&mut bytes, 6).err().unwrap(),
        End {
            requested: 6,
            read: 0,
            remaining: 5
        }
    );
    assert_eq!(
        BufReader::peek_view(&bytes, 6).err().unwrap(),
        End {
            requested: 6,
            read: 0,
            remaining: 5
        }
    );
    assert_eq!(BufReader::peek_rest(&bytes).0, b"World");
    assert_eq!(BufReader::rest(&mut bytes).0, b"World");
    assert_eq!(bytes.len(), 0);
    assert!(BufReader::peek_chunk(&bytes).is_none());
}

#[test]
fn new_bytes_are_empty() {
    let arena = Arena::new();
    let bytes = Bytes::new();
    assert!(matches!(bytes.inner, BytesImpl::Empty(_)));
    assert_eq!(bytes.len(), 0);
    assert!(bytes.is_empty());
    assert_eq!(bytes.as_bytes(&arena), b"");
    assert!(bytes.peek_chunk(&arena).is_none());
    assert!(matches!(Bytes::default().inner, BytesImpl::Empty(_)));
    assert!(matches!(Bytes::from(Empty).inner, BytesImpl::Empty(_)));
    assert!(matches!(
        Bytes::from_impl(BytesImpl::Static(Static(b"x"))).inner,
        BytesImpl::Static(_)
    ));
}

#[test]
fn bytes_over_static() {
    let mut arena = Arena::new();
    let mut bytes = Bytes::from(Static(b"Hello World"));
    assert_eq!(bytes.len(), 11);
    assert!(bytes.eq(&arena, b"Hello World"));
    let view = bytes
        .view(&mut arena, Range::default().with_start(6))
        .unwrap();
    assert_eq!(view.as_bytes(&arena), b"World");
    let hello = bytes.take_view(&mut arena, 5).unwrap();
    assert_eq!(hello.as_bytes(&arena), b"Hello");
    assert_eq!(bytes.remaining(), 6);
    assert_eq!(
        bytes.advance(&mut arena, 7),
        Err(End {
            requested: 7,
            read: 0,
            remaining: 6
        })
    );
    bytes.advance(&mut arena, 1).unwrap();
    assert_eq!(bytes.peek_chunk(&arena).unwrap(), b"World");
    let position = bytes.tell(&mut arena);
    bytes.advance(&mut arena, 5).unwrap();
    assert!(bytes.is_empty());
    let end = bytes.seek(&mut arena, &position);
    assert!(end.is_empty());
    assert_eq!(bytes.as_bytes(&arena), b"World");
    assert!(arena.slots.is_empty());
}

#[test]
fn bytes_over_shared_buffer() {
    let mut arena = Arena::new();
    let mut buf = ArcBufMut::new(&mut arena, 20);
    copy(&mut arena, &mut buf, b"Hello World").unwrap();
    let mut bytes = Bytes::freeze(&mut arena, buf);
    assert!(matches!(bytes.inner, BytesImpl::Shared(_)));
    assert_eq!(bytes.len(), 11);
    assert_eq!(bytes.as_bytes(&arena), b"Hello World");

    let clone = bytes.clone(&mut arena);
    let reader = bytes.reader(&mut arena);
    let view = bytes
        .view(&mut arena, Range::default().with_start(6).with_length(5))
        .unwrap();
    assert_eq!(view.as_bytes(&arena), b"World");
    let range = Range::default().with_start(6).with_length(6);
    assert_eq!(
        bytes.view(&mut arena, range).err().unwrap(),
        RangeOutOfBounds {
            required: range,
            bounds: (0, 11)
        }
    );
    let peeked = bytes.peek_view(&mut arena, 5).unwrap();
    assert_eq!(peeked.as_bytes(&arena), b"Hello");
    assert_eq!(
        bytes.peek_view(&mut arena, 12).err().unwrap(),
        End {
            requested: 12,
            read: 0,
            remaining: 11
        }
    );
    assert_eq!(
        bytes.take_view(&mut arena, 12).err().unwrap(),
        End {
            requested: 12,
            read: 0,
            remaining: 11
        }
    );
    let hello = bytes.take_view(&mut arena, 5).unwrap();
    assert_eq!(hello.as_bytes(&arena), b"Hello");
    assert_eq!(bytes.as_bytes(&arena), b" World");
    let rest_copy = bytes.peek_rest(&mut arena);
    let rest = bytes.rest();
    assert_eq!(rest.as_bytes(&arena), b" World");
    assert_eq!(rest_copy.as_bytes(&arena), b" World");
    assert!(bytes.is_empty());
    assert!(matches!(bytes.inner, BytesImpl::Empty(_)));

    for bytes in [clone, reader, view, peeked, hello, rest_copy, rest] {
        assert!(arena.slots[0].is_some());
        bytes.release(&mut arena);
    }
    assert!(arena.slots[0].is_none());
    bytes.release(&mut arena);
}

#[test]
fn freezing_nothing_gives_static_bytes() {
    let mut arena = Arena::new();
    let buf = ArcBufMut::new(&mut arena, 20);
    let bytes = Bytes::freeze(&mut arena, buf);
    assert!(bytes.is_empty());
    assert!(arena.slots[0].is_none());
    match bytes.inner {
        BytesImpl::Shared(buf) => assert!(buf.ref_count(&arena).is_static()),
        _ => panic!("expected a shared buffer"),
    }
}
