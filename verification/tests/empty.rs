use byst::buf::empty::check_length_read;
use byst::buf::empty::check_length_write;
use byst::buf::empty::check_range;
use byst::buf::empty::Empty;
use byst::buf::Buf;
use byst::buf::BufMut;
use byst::buf::Full;
use byst::buf::Length;
use byst::buf::SizeLimit;
use byst::bytes::static_bytes::Static;
use byst::io::BufReader;
use byst::io::BufWriter;
use byst::io::End;
use byst::io::Reader;
use byst::io::Seek;
use byst::range::IndexOutOfBounds;
use byst::range::Range;
use byst::range::RangeOutOfBounds;

#[test]
fn empty_has_no_length() {
    assert_eq!(Empty.len(), 0);
    assert!(Empty.is_empty());
    assert_eq!(Empty.as_ref(), b"");
    assert_eq!(Buf::chunk(&Empty), b"");
    assert!(Empty.eq(&Empty));
    assert!(Empty.eq(&Static(b"")));
    assert!(!Empty.eq(&Static(b"a")));
    let _: Empty = Empty::default();
}

#[test]
fn check_range_accepts_only_the_empty_range() {
    assert_eq!(check_range(Range::default()), Ok(()));
    assert_eq!(check_range(Range::default().with_start(0)), Ok(()));
    assert_eq!(check_range(Range::default().with_end(0)), Ok(()));
    assert_eq!(
        check_range(Range::default().with_start(0).with_end(0)),
        Ok(())
    );
    for range in [
        Range::default().with_start(1),
        Range::default().with_end(1),
        Range::default().with_start(1).with_end(1),
        Range::default().with_start(0).with_end(3),
    ] {
        assert_eq!(
            check_range(range),
            Err(RangeOutOfBounds {
                required: range,
                bounds: (0, 0)
            })
        );
    }
}

#[test]
fn check_lengths_accept_only_zero() {
    assert_eq!(check_length_read(0), Ok(()));
    assert_eq!(
        check_length_read(3),
        Err(End {
            read: 0,
            requested: 3,
            remaining: 0
        })
    );
    assert_eq!(check_length_write(0), Ok(()));
    assert_eq!(
        check_length_write(3),
        Err(byst::io::Full {
            written: 0,
            requested: 3,
            remaining: 0
        })
    );
}

#[test]
fn empty_views() {
    let mut empty = Empty;
    assert!(Buf::view(&empty, Range::default()).is_ok());
    let range = Range::default().with_end(1);
    assert_eq!(
        Buf::view(&empty, range).err().unwrap(),
        RangeOutOfBounds {
            required: range,
            bounds: (0, 0)
        }
    );
    assert!(BufMut::view_mut(&mut empty, Range::default()).is_ok());
    assert_eq!(
        BufMut::view_mut(&mut empty, range).err().unwrap(),
        RangeOutOfBounds {
            required: range,
            bounds: (0, 0)
        }
    );
    assert!(empty.contains(Range::default()));
    assert!(!empty.contains(range));
    let _reader: Empty = Buf::reader(&empty);
    let _writer: Empty = BufMut::writer(&mut empty);
}

#[test]
fn empty_cannot_grow() {
    let mut empty = Empty;
    assert_eq!(empty.reserve(0), Ok(()));
    assert_eq!(
        empty.reserve(1),
        Err(Full {
            required: 1,
            capacity: 0
        })
    );
    assert_eq!(empty.size_limit(), SizeLimit::Exact(0));
    assert!(empty.split_at(0).is_ok());
    assert_eq!(
        empty.split_at(2).err().unwrap(),
        IndexOutOfBounds {
            required: 2,
            bounds: (0, 0)
        }
    );
}

#[test]
fn empty_reader() {
    let mut empty = Empty;
    assert!(BufReader::peek_chunk(&empty).is_none());
    assert!(BufReader::view(&mut empty, 0).is_ok());
    assert_eq!(
        BufReader::view(&mut empty, 1).err().unwrap(),
        End {
            read: 0,
            requested: 1,
            remaining: 0
        }
    );
    assert!(BufReader::peek_view(&empty, 0).is_ok());
    assert!(BufReader::peek_view(&empty, 9).is_err());
    let _rest: Empty = BufReader::rest(&mut empty);
    let _rest: Empty = BufReader::peek_rest(&empty);
    assert_eq!(BufReader::advance(&mut empty, 0), Ok(()));
    assert_eq!(
        BufReader::advance(&mut empty, 4),
        Err(End {
            read: 0,
            requested: 4,
            remaining: 0
        })
    );
    assert_eq!(BufReader::remaining(&empty), 0);
    let position = empty.tell();
    let _previous: Empty = empty.seek(&position);
}

#[test]
fn empty_writer() {
    let mut empty = Empty;
    assert!(BufWriter::peek_chunk_mut(&mut empty).is_none());
    assert!(BufWriter::view_mut(&mut empty, 0).is_ok());
    assert_eq!(
        BufWriter::view_mut(&mut empty, 1).err().unwrap(),
        byst::io::Full {
            written: 0,
            requested: 1,
            remaining: 0
        }
    );
    assert!(BufWriter::peek_view_mut(&mut empty, 0).is_ok());
    assert!(BufWriter::peek_view_mut(&mut empty, 1).is_err());
    let _rest: Empty = BufWriter::rest_mut(&mut empty);
    let _rest: Empty = BufWriter::peek_rest_mut(&mut empty);
    assert_eq!(BufWriter::advance(&mut empty, 0), Ok(()));
    assert_eq!(
        BufWriter::advance(&mut empty, 2),
        Err(byst::io::Full {
            written: 0,
            requested: 2,
            remaining: 0
        })
    );
    assert_eq!(BufWriter::remaining(&empty), 0);
    assert_eq!(BufWriter::extend(&mut empty, b""), Ok(()));
    assert_eq!(
        BufWriter::extend(&mut empty, b"abc"),
        Err(byst::io::Full {
            written: 0,
            requested: 3,
            remaining: 0
        })
    );
}

#[test]
fn empty_reads_nothing() {
    let mut empty = Empty;
    assert_eq!(empty.read_into(Empty, None), Ok(0));
    assert_eq!(empty.read_into(Empty, Some(10)), Ok(0));
    assert_eq!(empty.read_into_exact(Empty, 0), Ok(()));
    assert_eq!(
        empty.read_into_exact(Empty, 2),
        Err(End {
            read: 0,
            requested: 2,
            remaining: 0
        })
    );
    assert_eq!(empty.skip(0), Ok(()));
    assert_eq!(
        empty.skip(5),
        Err(End {
            read: 0,
            requested: 5,
            remaining: 0
        })
    );
}
