//! [Endianness](https://en.wikipedia.org/wiki/Endianness): the order of the
//! bytes of an integer.

use vstd::prelude::*;

verus! {

/// Seals [`Endianness`]: it cannot be implemented for other types.
pub trait Sealed {

}

/// Trait for types that represent endianesses.
///
/// It is only implemented for [`BigEndian`] and [`LittleEndian`].
pub trait Endianness: Sealed {

}

/// Big endian byte order
pub struct BigEndian;

impl Endianness for BigEndian {

}

impl Sealed for BigEndian {

}

/// Little endian byte order
pub struct LittleEndian;

impl Endianness for LittleEndian {

}

impl Sealed for LittleEndian {

}

/// Network byte order.
///
/// This is always big endian.
pub type NetworkEndian = BigEndian;

/// The `len` bytes of `value` in little endian order: the lowest byte first.
pub open spec fn le_bytes(value: nat, len: nat) -> Seq<u8>
    decreases len,
{
    if len == 0 {
        Seq::empty()
    } else {
        seq![(value % 256) as u8] + le_bytes(value / 256, (len - 1) as nat)
    }
}

/// The `len` bytes of `value` in big endian order: the highest byte first.
pub open spec fn be_bytes(value: nat, len: nat) -> Seq<u8>
    decreases len,
{
    if len == 0 {
        Seq::empty()
    } else {
        be_bytes(value / 256, (len - 1) as nat).push((value % 256) as u8)
    }
}

/// The number whose bytes in little endian order are `bytes`.
pub open spec fn from_le_bytes(bytes: Seq<u8>) -> nat
    decreases bytes.len(),
{
    if bytes.len() == 0 {
        0
    } else {
        bytes[0] as nat + 256 * from_le_bytes(bytes.drop_first())
    }
}

/// The number whose bytes in big endian order are `bytes`.
pub open spec fn from_be_bytes(bytes: Seq<u8>) -> nat
    decreases bytes.len(),
{
    if bytes.len() == 0 {
        0
    } else {
        256 * from_be_bytes(bytes.drop_last()) + bytes.last() as nat
    }
}

/// `256` to the power of `len`: how many numbers have `len` bytes.
pub open spec fn pow256(len: nat) -> nat
    decreases len,
{
    if len == 0 {
        1
    } else {
        256 * pow256((len - 1) as nat)
    }
}

/// Encoding in little endian order gives `len` bytes, and decoding them
/// gives the number back, if it has no more than `len` bytes.
pub proof fn lemma_le_round_trip(value: nat, len: nat)
    requires
        value < pow256(len),
    ensures
        le_bytes(value, len).len() == len,
        from_le_bytes(le_bytes(value, len)) == value,
    decreases len,
{
    if len > 0 {
        lemma_le_round_trip(value / 256, (len - 1) as nat);
        let rest = le_bytes(value / 256, (len - 1) as nat);
        assert(le_bytes(value, len).drop_first() =~= rest);
    }
}

/// Encoding in big endian order gives `len` bytes, and decoding them gives
/// the number back, if it has no more than `len` bytes.
pub proof fn lemma_be_round_trip(value: nat, len: nat)
    requires
        value < pow256(len),
    ensures
        be_bytes(value, len).len() == len,
        from_be_bytes(be_bytes(value, len)) == value,
    decreases len,
{
    if len > 0 {
        lemma_be_round_trip(value / 256, (len - 1) as nat);
        let rest = be_bytes(value / 256, (len - 1) as nat);
        assert(be_bytes(value, len).drop_last() =~= rest);
    }
}

/// Decoding bytes in little endian order gives a number of no more bytes,
/// and encoding it gives the bytes back.
pub proof fn lemma_le_decode_encode(bytes: Seq<u8>)
    ensures
        from_le_bytes(bytes) < pow256(bytes.len()),
        le_bytes(from_le_bytes(bytes), bytes.len()) == bytes,
    decreases bytes.len(),
{
    if bytes.len() > 0 {
        lemma_le_decode_encode(bytes.drop_first());
        let value = from_le_bytes(bytes);
        let rest = from_le_bytes(bytes.drop_first());
        assert(value / 256 == rest);
        assert(value % 256 == bytes[0]);
        assert(le_bytes(value, bytes.len()) =~= bytes);
    } else {
        assert(le_bytes(0, 0) =~= bytes);
    }
}

/// Decoding bytes in big endian order gives a number of no more bytes, and
/// encoding it gives the bytes back.
pub proof fn lemma_be_decode_encode(bytes: Seq<u8>)
    ensures
        from_be_bytes(bytes) < pow256(bytes.len()),
        be_bytes(from_be_bytes(bytes), bytes.len()) == bytes,
    decreases bytes.len(),
{
    if bytes.len() > 0 {
        lemma_be_decode_encode(bytes.drop_last());
        let value = from_be_bytes(bytes);
        let rest = from_be_bytes(bytes.drop_last());
        assert(value / 256 == rest);
        assert(value % 256 == bytes.last());
        assert(be_bytes(value, bytes.len()) =~= bytes);
    } else {
        assert(be_bytes(0, 0) =~= bytes);
    }
}

/// Trait defining the length in bytes.
pub trait Size {
    const BYTES: usize;

    const BITS: usize;
}

/// Trait for types that can be encoded in `N` bytes using a specified
/// endianness.
pub trait Encode<E: Endianness, const N: usize>: Size {
    /// The bytes that stand for the value.
    spec fn spec_encode(&self) -> Seq<u8>;

    fn encode(&self) -> (r: [u8; N])
        ensures
            r@ == self.spec_encode(),
    ;
}

/// Trait for types that can be decoded from `N` bytes using a specified
/// endianness.
pub trait Decode<E: Endianness, const N: usize>: Size + Sized {
    /// The value that the bytes stand for.
    spec fn spec_decode(bytes: Seq<u8>) -> Self;

    fn decode(bytes: &[u8; N]) -> (r: Self)
        ensures
            r == Self::spec_decode(bytes@),
    ;
}

/// What shifting and masking do to a `u16`, in terms of arithmetic.
proof fn lemma_u16_bytes(high: u16, low: u16)
    ensures
        high & 0xff == high % 256,
        high >> 8 == high / 256,
        high < 0x100 && low < 256 ==> (high << 8) | low == high * 256 + low,
{
    assert(high & 0xff == high % 256) by (bit_vector);
    assert(high >> 8 == high / 256) by (bit_vector);
    assert(high < 0x100 && low < 256 ==> (high << 8) | low == high * 256 + low)
        by (bit_vector);
}

impl Size for u16 {
    const BYTES: usize = 2;

    const BITS: usize = 16;
}

impl Encode<LittleEndian, 2> for u16 {
    open spec fn spec_encode(&self) -> Seq<u8> {
        le_bytes(*self as nat, 2)
    }

    #[inline]
    fn encode(&self) -> (r: [u8; 2]) {
        let mut r: [u8; 2] = [0u8; 2];
        let mut rest: u16 = *self;
        let mut i: usize = 0;
        assert(r@.subrange(0, 0) + le_bytes(rest as nat, 2) =~= le_bytes(rest as nat, 2));
        while i < 2
            invariant
                i <= 2,
                le_bytes(*self as nat, 2) == r@.subrange(0, i as int) + le_bytes(
                    rest as nat,
                    (2 - i) as nat,
                ),
            decreases 2 - i,
        {
            proof {
                lemma_u16_bytes(rest, 0);
            }
            let ghost before = r@;
            r[i] = (rest & 0xff) as u8;
            assert(r@.subrange(0, i as int + 1) + le_bytes((rest / 256) as nat, (2 - i - 1) as nat)
                =~= before.subrange(0, i as int) + le_bytes(rest as nat, (2 - i) as nat));
            rest = rest >> 8;
            i = i + 1;
        }
        assert(r@.subrange(0, 2) + le_bytes(rest as nat, 0) =~= r@);
        r
    }
}

impl Encode<BigEndian, 2> for u16 {
    open spec fn spec_encode(&self) -> Seq<u8> {
        be_bytes(*self as nat, 2)
    }

    #[inline]
    fn encode(&self) -> (r: [u8; 2]) {
        let mut r: [u8; 2] = [0u8; 2];
        let mut rest: u16 = *self;
        let mut i: usize = 2;
        assert(be_bytes(rest as nat, 2) + r@.subrange(2, 2) =~= be_bytes(rest as nat, 2));
        while i > 0
            invariant
                i <= 2,
                be_bytes(*self as nat, 2) == be_bytes(rest as nat, i as nat) + r@.subrange(
                    i as int,
                    2,
                ),
            decreases i,
        {
            proof {
                lemma_u16_bytes(rest, 0);
            }
            let ghost before = r@;
            i = i - 1;
            r[i] = (rest & 0xff) as u8;
            assert(be_bytes((rest / 256) as nat, i as nat) + r@.subrange(i as int, 2)
                =~= be_bytes(rest as nat, (i + 1) as nat) + before.subrange(i as int + 1, 2));
            rest = rest >> 8;
        }
        assert(be_bytes(rest as nat, 0) + r@.subrange(0, 2) =~= r@);
        r
    }
}

impl Decode<LittleEndian, 2> for u16 {
    open spec fn spec_decode(bytes: Seq<u8>) -> u16 {
        from_le_bytes(bytes) as u16
    }

    #[inline]
    fn decode(bytes: &[u8; 2]) -> (r: u16) {
        let mut r: u16 = 0;
        let mut i: usize = 2;
        proof {
            reveal_with_fuel(pow256, 3);
            assert(bytes@.subrange(2, 2) =~= Seq::<u8>::empty());
        }
        while i > 0
            invariant
                i <= 2,
                bytes@.len() == 2,
                r == from_le_bytes(bytes@.subrange(i as int, 2)),
                from_le_bytes(bytes@.subrange(i as int, 2)) < pow256((2 - i) as nat),
            decreases i,
        {
            i = i - 1;
            let low: u16 = bytes[i] as u16;
            proof {
                let tail = bytes@.subrange(i as int, 2);
                assert(tail.drop_first() =~= bytes@.subrange(i as int + 1, 2));
                lemma_le_decode_encode(tail);
                reveal_with_fuel(pow256, 3);
                lemma_u16_bytes(r, low);
            }
            r = (r << 8) | low;
        }
        assert(bytes@.subrange(0, 2) =~= bytes@);
        r
    }
}

impl Decode<BigEndian, 2> for u16 {
    open spec fn spec_decode(bytes: Seq<u8>) -> u16 {
        from_be_bytes(bytes) as u16
    }

    #[inline]
    fn decode(bytes: &[u8; 2]) -> (r: u16) {
        let mut r: u16 = 0;
        let mut i: usize = 0;
        proof {
            reveal_with_fuel(pow256, 3);
            assert(bytes@.subrange(0, 0) =~= Seq::<u8>::empty());
        }
        while i < 2
            invariant
                i <= 2,
                bytes@.len() == 2,
                r == from_be_bytes(bytes@.subrange(0, i as int)),
                from_be_bytes(bytes@.subrange(0, i as int)) < pow256(i as nat),
            decreases 2 - i,
        {
            let low: u16 = bytes[i] as u16;
            proof {
                let head = bytes@.subrange(0, i as int + 1);
                assert(head.drop_last() =~= bytes@.subrange(0, i as int));
                lemma_be_decode_encode(head);
                reveal_with_fuel(pow256, 3);
                lemma_u16_bytes(r, low);
            }
            r = (r << 8) | low;
            i = i + 1;
        }
        assert(bytes@.subrange(0, 2) =~= bytes@);
        r
    }
}

/// What shifting and masking do to a `u32`, in terms of arithmetic.
proof fn lemma_u32_bytes(high: u32, low: u32)
    ensures
        high & 0xff == high % 256,
        high >> 8 == high / 256,
        high < 0x1000000 && low < 256 ==> (high << 8) | low == high * 256 + low,
{
    assert(high & 0xff == high % 256) by (bit_vector);
    assert(high >> 8 == high / 256) by (bit_vector);
    assert(high < 0x1000000 && low < 256 ==> (high << 8) | low == high * 256 + low)
        by (bit_vector);
}

impl Size for u32 {
    const BYTES: usize = 4;

    const BITS: usize = 32;
}

impl Encode<LittleEndian, 4> for u32 {
    open spec fn spec_encode(&self) -> Seq<u8> {
        le_bytes(*self as nat, 4)
    }

    #[inline]
    fn encode(&self) -> (r: [u8; 4]) {
        let mut r: [u8; 4] = [0u8; 4];
        let mut rest: u32 = *self;
        let mut i: usize = 0;
        assert(r@.subrange(0, 0) + le_bytes(rest as nat, 4) =~= le_bytes(rest as nat, 4));
        while i < 4
            invariant
                i <= 4,
                le_bytes(*self as nat, 4) == r@.subrange(0, i as int) + le_bytes(
                    rest as nat,
                    (4 - i) as nat,
                ),
            decreases 4 - i,
        {
            proof {
                lemma_u32_bytes(rest, 0);
            }
            let ghost before = r@;
            r[i] = (rest & 0xff) as u8;
            assert(r@.subrange(0, i as int + 1) + le_bytes((rest / 256) as nat, (4 - i - 1) as nat)
                =~= before.subrange(0, i as int) + le_bytes(rest as nat, (4 - i) as nat));
            rest = rest >> 8;
            i = i + 1;
        }
        assert(r@.subrange(0, 4) + le_bytes(rest as nat, 0) =~= r@);
        r
    }
}

impl Encode<BigEndian, 4> for u32 {
    open spec fn spec_encode(&self) -> Seq<u8> {
        be_bytes(*self as nat, 4)
    }

    #[inline]
    fn encode(&self) -> (r: [u8; 4]) {
        let mut r: [u8; 4] = [0u8; 4];
        let mut rest: u32 = *self;
        let mut i: usize = 4;
        assert(be_bytes(rest as nat, 4) + r@.subrange(4, 4) =~= be_bytes(rest as nat, 4));
        while i > 0
            invariant
                i <= 4,
                be_bytes(*self as nat, 4) == be_bytes(rest as nat, i as nat) + r@.subrange(
                    i as int,
                    4,
                ),
            decreases i,
        {
            proof {
                lemma_u32_bytes(rest, 0);
            }
            let ghost before = r@;
            i = i - 1;
            r[i] = (rest & 0xff) as u8;
            assert(be_bytes((rest / 256) as nat, i as nat) + r@.subrange(i as int, 4)
                =~= be_bytes(rest as nat, (i + 1) as nat) + before.subrange(i as int + 1, 4));
            rest = rest >> 8;
        }
        assert(be_bytes(rest as nat, 0) + r@.subrange(0, 4) =~= r@);
        r
    }
}

impl Decode<LittleEndian, 4> for u32 {
    open spec fn spec_decode(bytes: Seq<u8>) -> u32 {
        from_le_bytes(bytes) as u32
    }

    #[inline]
    fn decode(bytes: &[u8; 4]) -> (r: u32) {
        let mut r: u32 = 0;
        let mut i: usize = 4;
        proof {
            reveal_with_fuel(pow256, 5);
            assert(bytes@.subrange(4, 4) =~= Seq::<u8>::empty());
        }
        while i > 0
            invariant
                i <= 4,
                bytes@.len() == 4,
                r == from_le_bytes(bytes@.subrange(i as int, 4)),
                from_le_bytes(bytes@.subrange(i as int, 4)) < pow256((4 - i) as nat),
            decreases i,
        {
            i = i - 1;
            let low: u32 = bytes[i] as u32;
            proof {
                let tail = bytes@.subrange(i as int, 4);
                assert(tail.drop_first() =~= bytes@.subrange(i as int + 1, 4));
                lemma_le_decode_encode(tail);
                reveal_with_fuel(pow256, 5);
                lemma_u32_bytes(r, low);
            }
            r = (r << 8) | low;
        }
        assert(bytes@.subrange(0, 4) =~= bytes@);
        r
    }
}

impl Decode<BigEndian, 4> for u32 {
    open spec fn spec_decode(bytes: Seq<u8>) -> u32 {
        from_be_bytes(bytes) as u32
    }

    #[inline]
    fn decode(bytes: &[u8; 4]) -> (r: u32) {
        let mut r: u32 = 0;
        let mut i: usize = 0;
        proof {
            reveal_with_fuel(pow256, 5);
            assert(bytes@.subrange(0, 0) =~= Seq::<u8>::empty());
        }
        while i < 4
            invariant
                i <= 4,
                bytes@.len() == 4,
                r == from_be_bytes(bytes@.subrange(0, i as int)),
                from_be_bytes(bytes@.subrange(0, i as int)) < pow256(i as nat),
            decreases 4 - i,
        {
            let low: u32 = bytes[i] as u32;
            proof {
                let head = bytes@.subrange(0, i as int + 1);
                assert(head.drop_last() =~= bytes@.subrange(0, i as int));
                lemma_be_decode_encode(head);
                reveal_with_fuel(pow256, 5);
                lemma_u32_bytes(r, low);
            }
            r = (r << 8) | low;
            i = i + 1;
        }
        assert(bytes@.subrange(0, 4) =~= bytes@);
        r
    }
}

/// What shifting and masking do to a `u64`, in terms of arithmetic.
proof fn lemma_u64_bytes(high: u64, low: u64)
    ensures
        high & 0xff == high % 256,
        high >> 8 == high / 256,
        high < 0x100000000000000 && low < 256 ==> (high << 8) | low == high * 256 + low,
{
    assert(high & 0xff == high % 256) by (bit_vector);
    assert(high >> 8 == high / 256) by (bit_vector);
    assert(high < 0x100000000000000 && low < 256 ==> (high << 8) | low == high * 256 + low)
        by (bit_vector);
}

impl Size for u64 {
    const BYTES: usize = 8;

    const BITS: usize = 64;
}

impl Encode<LittleEndian, 8> for u64 {
    open spec fn spec_encode(&self) -> Seq<u8> {
        le_bytes(*self as nat, 8)
    }

    #[inline]
    fn encode(&self) -> (r: [u8; 8]) {
        let mut r: [u8; 8] = [0u8; 8];
        let mut rest: u64 = *self;
        let mut i: usize = 0;
        assert(r@.subrange(0, 0) + le_bytes(rest as nat, 8) =~= le_bytes(rest as nat, 8));
        while i < 8
            invariant
                i <= 8,
                le_bytes(*self as nat, 8) == r@.subrange(0, i as int) + le_bytes(
                    rest as nat,
                    (8 - i) as nat,
                ),
            decreases 8 - i,
        {
            proof {
                lemma_u64_bytes(rest, 0);
            }
            let ghost before = r@;
            r[i] = (rest & 0xff) as u8;
            assert(r@.subrange(0, i as int + 1) + le_bytes((rest / 256) as nat, (8 - i - 1) as nat)
                =~= before.subrange(0, i as int) + le_bytes(rest as nat, (8 - i) as nat));
            rest = rest >> 8;
            i = i + 1;
        }
        assert(r@.subrange(0, 8) + le_bytes(rest as nat, 0) =~= r@);
        r
    }
}

impl Encode<BigEndian, 8> for u64 {
    open spec fn spec_encode(&self) -> Seq<u8> {
        be_bytes(*self as nat, 8)
    }

    #[inline]
    fn encode(&self) -> (r: [u8; 8]) {
        let mut r: [u8; 8] = [0u8; 8];
        let mut rest: u64 = *self;
        let mut i: usize = 8;
        assert(be_bytes(rest as nat, 8) + r@.subrange(8, 8) =~= be_bytes(rest as nat, 8));
        while i > 0
            invariant
                i <= 8,
                be_bytes(*self as nat, 8) == be_bytes(rest as nat, i as nat) + r@.subrange(
                    i as int,
                    8,
                ),
            decreases i,
        {
            proof {
                lemma_u64_bytes(rest, 0);
            }
            let ghost before = r@;
            i = i - 1;
            r[i] = (rest & 0xff) as u8;
            assert(be_bytes((rest / 256) as nat, i as nat) + r@.subrange(i as int, 8)
                =~= be_bytes(rest as nat, (i + 1) as nat) + before.subrange(i as int + 1, 8));
            rest = rest >> 8;
        }
        assert(be_bytes(rest as nat, 0) + r@.subrange(0, 8) =~= r@);
        r
    }
}

impl Decode<LittleEndian, 8> for u64 {
    open spec fn spec_decode(bytes: Seq<u8>) -> u64 {
        from_le_bytes(bytes) as u64
    }

    #[inline]
    fn decode(bytes: &[u8; 8]) -> (r: u64) {
        let mut r: u64 = 0;
        let mut i: usize = 8;
        proof {
            reveal_with_fuel(pow256, 9);
            assert(bytes@.subrange(8, 8) =~= Seq::<u8>::empty());
        }
        while i > 0
            invariant
                i <= 8,
                bytes@.len() == 8,
                r == from_le_bytes(bytes@.subrange(i as int, 8)),
                from_le_bytes(bytes@.subrange(i as int, 8)) < pow256((8 - i) as nat),
            decreases i,
        {
            i = i - 1;
            let low: u64 = bytes[i] as u64;
            proof {
                let tail = bytes@.subrange(i as int, 8);
                assert(tail.drop_first() =~= bytes@.subrange(i as int + 1, 8));
                lemma_le_decode_encode(tail);
                reveal_with_fuel(pow256, 9);
                lemma_u64_bytes(r, low);
            }
            r = (r << 8) | low;
        }
        assert(bytes@.subrange(0, 8) =~= bytes@);
        r
    }
}

impl Decode<BigEndian, 8> for u64 {
    open spec fn spec_decode(bytes: Seq<u8>) -> u64 {
        from_be_bytes(bytes) as u64
    }

    #[inline]
    fn decode(bytes: &[u8; 8]) -> (r: u64) {
        let mut r: u64 = 0;
        let mut i: usize = 0;
        proof {
            reveal_with_fuel(pow256, 9);
            assert(bytes@.subrange(0, 0) =~= Seq::<u8>::empty());
        }
        while i < 8
            invariant
                i <= 8,
                bytes@.len() == 8,
                r == from_be_bytes(bytes@.subrange(0, i as int)),
                from_be_bytes(bytes@.subrange(0, i as int)) < pow256(i as nat),
            decreases 8 - i,
        {
            let low: u64 = bytes[i] as u64;
            proof {
                let head = bytes@.subrange(0, i as int + 1);
                assert(head.drop_last() =~= bytes@.subrange(0, i as int));
                lemma_be_decode_encode(head);
                reveal_with_fuel(pow256, 9);
                lemma_u64_bytes(r, low);
            }
            r = (r << 8) | low;
            i = i + 1;
        }
        assert(bytes@.subrange(0, 8) =~= bytes@);
        r
    }
}

/// What shifting and masking do to a `u128`, in terms of arithmetic.
proof fn lemma_u128_bytes(high: u128, low: u128)
    ensures
        high & 0xff == high % 256,
        high >> 8 == high / 256,
        high < 0x1000000000000000000000000000000 && low < 256 ==> (high << 8) | low == high * 256 + low,
{
    assert(high & 0xff == high % 256) by (bit_vector);
    assert(high >> 8 == high / 256) by (bit_vector);
    assert(high < 0x1000000000000000000000000000000 && low < 256 ==> (high << 8) | low == high * 256 + low)
        by (bit_vector);
}

impl Size for u128 {
    const BYTES: usize = 16;

    const BITS: usize = 128;
}

impl Encode<LittleEndian, 16> for u128 {
    open spec fn spec_encode(&self) -> Seq<u8> {
        le_bytes(*self as nat, 16)
    }

    #[inline]
    fn encode(&self) -> (r: [u8; 16]) {
        let mut r: [u8; 16] = [0u8; 16];
        let mut rest: u128 = *self;
        let mut i: usize = 0;
        assert(r@.subrange(0, 0) + le_bytes(rest as nat, 16) =~= le_bytes(rest as nat, 16));
        while i < 16
            invariant
                i <= 16,
                le_bytes(*self as nat, 16) == r@.subrange(0, i as int) + le_bytes(
                    rest as nat,
                    (16 - i) as nat,
                ),
            decreases 16 - i,
        {
            proof {
                lemma_u128_bytes(rest, 0);
            }
            let ghost before = r@;
            r[i] = (rest & 0xff) as u8;
            assert(r@.subrange(0, i as int + 1) + le_bytes((rest / 256) as nat, (16 - i - 1) as nat)
                =~= before.subrange(0, i as int) + le_bytes(rest as nat, (16 - i) as nat));
            rest = rest >> 8;
            i = i + 1;
        }
        assert(r@.subrange(0, 16) + le_bytes(rest as nat, 0) =~= r@);
        r
    }
}

impl Encode<BigEndian, 16> for u128 {
    open spec fn spec_encode(&self) -> Seq<u8> {
        be_bytes(*self as nat, 16)
    }

    #[inline]
    fn encode(&self) -> (r: [u8; 16]) {
        let mut r: [u8; 16] = [0u8; 16];
        let mut rest: u128 = *self;
        let mut i: usize = 16;
        assert(be_bytes(rest as nat, 16) + r@.subrange(16, 16) =~= be_bytes(rest as nat, 16));
        while i > 0
            invariant
                i <= 16,
                be_bytes(*self as nat, 16) == be_bytes(rest as nat, i as nat) + r@.subrange(
                    i as int,
                    16,
                ),
            decreases i,
        {
            proof {
                lemma_u128_bytes(rest, 0);
            }
            let ghost before = r@;
            i = i - 1;
            r[i] = (rest & 0xff) as u8;
            assert(be_bytes((rest / 256) as nat, i as nat) + r@.subrange(i as int, 16)
                =~= be_bytes(rest as nat, (i + 1) as nat) + before.subrange(i as int + 1, 16));
            rest = rest >> 8;
        }
        assert(be_bytes(rest as nat, 0) + r@.subrange(0, 16) =~= r@);
        r
    }
}

impl Decode<LittleEndian, 16> for u128 {
    open spec fn spec_decode(bytes: Seq<u8>) -> u128 {
        from_le_bytes(bytes) as u128
    }

    #[inline]
    fn decode(bytes: &[u8; 16]) -> (r: u128) {
        let mut r: u128 = 0;
        let mut i: usize = 16;
        proof {
            reveal_with_fuel(pow256, 17);
            assert(bytes@.subrange(16, 16) =~= Seq::<u8>::empty());
        }
        while i > 0
            invariant
                i <= 16,
                bytes@.len() == 16,
                r == from_le_bytes(bytes@.subrange(i as int, 16)),
                from_le_bytes(bytes@.subrange(i as int, 16)) < pow256((16 - i) as nat),
            decreases i,
        {
            i = i - 1;
            let low: u128 = bytes[i] as u128;
            proof {
                let tail = bytes@.subrange(i as int, 16);
                assert(tail.drop_first() =~= bytes@.subrange(i as int + 1, 16));
                lemma_le_decode_encode(tail);
                reveal_with_fuel(pow256, 17);
                lemma_u128_bytes(r, low);
            }
            r = (r << 8) | low;
        }
        assert(bytes@.subrange(0, 16) =~= bytes@);
        r
    }
}

impl Decode<BigEndian, 16> for u128 {
    open spec fn spec_decode(bytes: Seq<u8>) -> u128 {
        from_be_bytes(bytes) as u128
    }

    #[inline]
    fn decode(bytes: &[u8; 16]) -> (r: u128) {
        let mut r: u128 = 0;
        let mut i: usize = 0;
        proof {
            reveal_with_fuel(pow256, 17);
            assert(bytes@.subrange(0, 0) =~= Seq::<u8>::empty());
        }
        while i < 16
            invariant
                i <= 16,
                bytes@.len() == 16,
                r == from_be_bytes(bytes@.subrange(0, i as int)),
                from_be_bytes(bytes@.subrange(0, i as int)) < pow256(i as nat),
            decreases 16 - i,
        {
            let low: u128 = bytes[i] as u128;
            proof {
                let head = bytes@.subrange(0, i as int + 1);
                assert(head.drop_last() =~= bytes@.subrange(0, i as int));
                lemma_be_decode_encode(head);
                reveal_with_fuel(pow256, 17);
                lemma_u128_bytes(r, low);
            }
            r = (r << 8) | low;
            i = i + 1;
        }
        assert(bytes@.subrange(0, 16) =~= bytes@);
        r
    }
}

/// The unsigned number that stands for `value` in two's complement with
/// `len` bytes.
pub open spec fn twos_complement(value: int, len: nat) -> nat {
    if value >= 0 {
        value as nat
    } else {
        (value + pow256(len)) as nat
    }
}

/// The signed number that `value` stands for in two's complement with `len`
/// bytes.
pub open spec fn from_twos_complement(value: nat, len: nat) -> int {
    if 2 * value < pow256(len) {
        value as int
    } else {
        value - pow256(len)
    }
}

/// Two's complement loses nothing of a number that has room in `len` bytes.
pub proof fn lemma_twos_complement_round_trip(value: int, len: nat)
    requires
        -(pow256(len) as int) <= 2 * value < pow256(len),
    ensures
        twos_complement(value, len) < pow256(len),
        from_twos_complement(twos_complement(value, len), len) == value,
{
}

impl Size for i16 {
    const BYTES: usize = 2;

    const BITS: usize = 16;
}

impl Encode<LittleEndian, 2> for i16 {
    open spec fn spec_encode(&self) -> Seq<u8> {
        le_bytes(twos_complement(*self as int, 2), 2)
    }

    #[inline]
    fn encode(&self) -> (r: [u8; 2]) {
        let x: i16 = *self;
        proof {
            reveal_with_fuel(pow256, 3);
        }
        let unsigned: u16 = if x >= 0 {
            x as u16
        } else {
            u16::MAX - ((-(x + 1)) as u16)
        };
        <u16 as Encode<LittleEndian, 2>>::encode(&unsigned)
    }
}

impl Decode<LittleEndian, 2> for i16 {
    open spec fn spec_decode(bytes: Seq<u8>) -> i16 {
        from_twos_complement(from_le_bytes(bytes), 2) as i16
    }

    #[inline]
    fn decode(bytes: &[u8; 2]) -> (r: i16) {
        proof {
            reveal_with_fuel(pow256, 3);
            lemma_le_decode_encode(bytes@);
        }
        let unsigned: u16 = <u16 as Decode<LittleEndian, 2>>::decode(bytes);
        if unsigned <= i16::MAX as u16 {
            unsigned as i16
        } else {
            -((u16::MAX - unsigned) as i16) - 1
        }
    }
}

impl Encode<BigEndian, 2> for i16 {
    open spec fn spec_encode(&self) -> Seq<u8> {
        be_bytes(twos_complement(*self as int, 2), 2)
    }

    #[inline]
    fn encode(&self) -> (r: [u8; 2]) {
        let x: i16 = *self;
        proof {
            reveal_with_fuel(pow256, 3);
        }
        let unsigned: u16 = if x >= 0 {
            x as u16
        } else {
            u16::MAX - ((-(x + 1)) as u16)
        };
        <u16 as Encode<BigEndian, 2>>::encode(&unsigned)
    }
}

impl Decode<BigEndian, 2> for i16 {
    open spec fn spec_decode(bytes: Seq<u8>) -> i16 {
        from_twos_complement(from_be_bytes(bytes), 2) as i16
    }

    #[inline]
    fn decode(bytes: &[u8; 2]) -> (r: i16) {
        proof {
            reveal_with_fuel(pow256, 3);
            lemma_be_decode_encode(bytes@);
        }
        let unsigned: u16 = <u16 as Decode<BigEndian, 2>>::decode(bytes);
        if unsigned <= i16::MAX as u16 {
            unsigned as i16
        } else {
            -((u16::MAX - unsigned) as i16) - 1
        }
    }
}

impl Size for i32 {
    const BYTES: usize = 4;

    const BITS: usize = 32;
}

impl Encode<LittleEndian, 4> for i32 {
    open spec fn spec_encode(&self) -> Seq<u8> {
        le_bytes(twos_complement(*self as int, 4), 4)
    }

    #[inline]
    fn encode(&self) -> (r: [u8; 4]) {
        let x: i32 = *self;
        proof {
            reveal_with_fuel(pow256, 5);
        }
        let unsigned: u32 = if x >= 0 {
            x as u32
        } else {
            u32::MAX - ((-(x + 1)) as u32)
        };
        <u32 as Encode<LittleEndian, 4>>::encode(&unsigned)
    }
}

impl Decode<LittleEndian, 4> for i32 {
    open spec fn spec_decode(bytes: Seq<u8>) -> i32 {
        from_twos_complement(from_le_bytes(bytes), 4) as i32
    }

    #[inline]
    fn decode(bytes: &[u8; 4]) -> (r: i32) {
        proof {
            reveal_with_fuel(pow256, 5);
            lemma_le_decode_encode(bytes@);
        }
        let unsigned: u32 = <u32 as Decode<LittleEndian, 4>>::decode(bytes);
        if unsigned <= i32::MAX as u32 {
            unsigned as i32
        } else {
            -((u32::MAX - unsigned) as i32) - 1
        }
    }
}

impl Encode<BigEndian, 4> for i32 {
    open spec fn spec_encode(&self) -> Seq<u8> {
        be_bytes(twos_complement(*self as int, 4), 4)
    }

    #[inline]
    fn encode(&self) -> (r: [u8; 4]) {
        let x: i32 = *self;
        proof {
            reveal_with_fuel(pow256, 5);
        }
        let unsigned: u32 = if x >= 0 {
            x as u32
        } else {
            u32::MAX - ((-(x + 1)) as u32)
        };
        <u32 as Encode<BigEndian, 4>>::encode(&unsigned)
    }
}

impl Decode<BigEndian, 4> for i32 {
    open spec fn spec_decode(bytes: Seq<u8>) -> i32 {
        from_twos_complement(from_be_bytes(bytes), 4) as i32
    }

    #[inline]
    fn decode(bytes: &[u8; 4]) -> (r: i32) {
        proof {
            reveal_with_fuel(pow256, 5);
            lemma_be_decode_encode(bytes@);
        }
        let unsigned: u32 = <u32 as Decode<BigEndian, 4>>::decode(bytes);
        if unsigned <= i32::MAX as u32 {
            unsigned as i32
        } else {
            -((u32::MAX - unsigned) as i32) - 1
        }
    }
}

impl Size for i64 {
    const BYTES: usize = 8;

    const BITS: usize = 64;
}

impl Encode<LittleEndian, 8> for i64 {
    open spec fn spec_encode(&self) -> Seq<u8> {
        le_bytes(twos_complement(*self as int, 8), 8)
    }

    #[inline]
    fn encode(&self) -> (r: [u8; 8]) {
        let x: i64 = *self;
        proof {
            reveal_with_fuel(pow256, 9);
        }
        let unsigned: u64 = if x >= 0 {
            x as u64
        } else {
            u64::MAX - ((-(x + 1)) as u64)
        };
        <u64 as Encode<LittleEndian, 8>>::encode(&unsigned)
    }
}

impl Decode<LittleEndian, 8> for i64 {
    open spec fn spec_decode(bytes: Seq<u8>) -> i64 {
        from_twos_complement(from_le_bytes(bytes), 8) as i64
    }

    #[inline]
    fn decode(bytes: &[u8; 8]) -> (r: i64) {
        proof {
            reveal_with_fuel(pow256, 9);
            lemma_le_decode_encode(bytes@);
        }
        let unsigned: u64 = <u64 as Decode<LittleEndian, 8>>::decode(bytes);
        if unsigned <= i64::MAX as u64 {
            unsigned as i64
        } else {
            -((u64::MAX - unsigned) as i64) - 1
        }
    }
}

impl Encode<BigEndian, 8> for i64 {
    open spec fn spec_encode(&self) -> Seq<u8> {
        be_bytes(twos_complement(*self as int, 8), 8)
    }

    #[inline]
    fn encode(&self) -> (r: [u8; 8]) {
        let x: i64 = *self;
        proof {
            reveal_with_fuel(pow256, 9);
        }
        let unsigned: u64 = if x >= 0 {
            x as u64
        } else {
            u64::MAX - ((-(x + 1)) as u64)
        };
        <u64 as Encode<BigEndian, 8>>::encode(&unsigned)
    }
}

impl Decode<BigEndian, 8> for i64 {
    open spec fn spec_decode(bytes: Seq<u8>) -> i64 {
        from_twos_complement(from_be_bytes(bytes), 8) as i64
    }

    #[inline]
    fn decode(bytes: &[u8; 8]) -> (r: i64) {
        proof {
            reveal_with_fuel(pow256, 9);
            lemma_be_decode_encode(bytes@);
        }
        let unsigned: u64 = <u64 as Decode<BigEndian, 8>>::decode(bytes);
        if unsigned <= i64::MAX as u64 {
            unsigned as i64
        } else {
            -((u64::MAX - unsigned) as i64) - 1
        }
    }
}

impl Size for i128 {
    const BYTES: usize = 16;

    const BITS: usize = 128;
}

impl Encode<LittleEndian, 16> for i128 {
    open spec fn spec_encode(&self) -> Seq<u8> {
        le_bytes(twos_complement(*self as int, 16), 16)
    }

    #[inline]
    fn encode(&self) -> (r: [u8; 16]) {
        let x: i128 = *self;
        proof {
            reveal_with_fuel(pow256, 17);
        }
        let unsigned: u128 = if x >= 0 {
            x as u128
        } else {
            u128::MAX - ((-(x + 1)) as u128)
        };
        <u128 as Encode<LittleEndian, 16>>::encode(&unsigned)
    }
}

impl Decode<LittleEndian, 16> for i128 {
    open spec fn spec_decode(bytes: Seq<u8>) -> i128 {
        from_twos_complement(from_le_bytes(bytes), 16) as i128
    }

    #[inline]
    fn decode(bytes: &[u8; 16]) -> (r: i128) {
        proof {
            reveal_with_fuel(pow256, 17);
            lemma_le_decode_encode(bytes@);
        }
        let unsigned: u128 = <u128 as Decode<LittleEndian, 16>>::decode(bytes);
        if unsigned <= i128::MAX as u128 {
            unsigned as i128
        } else {
            -((u128::MAX - unsigned) as i128) - 1
        }
    }
}

impl Encode<BigEndian, 16> for i128 {
    open spec fn spec_encode(&self) -> Seq<u8> {
        be_bytes(twos_complement(*self as int, 16), 16)
    }

    #[inline]
    fn encode(&self) -> (r: [u8; 16]) {
        let x: i128 = *self;
        proof {
            reveal_with_fuel(pow256, 17);
        }
        let unsigned: u128 = if x >= 0 {
            x as u128
        } else {
            u128::MAX - ((-(x + 1)) as u128)
        };
        <u128 as Encode<BigEndian, 16>>::encode(&unsigned)
    }
}

impl Decode<BigEndian, 16> for i128 {
    open spec fn spec_decode(bytes: Seq<u8>) -> i128 {
        from_twos_complement(from_be_bytes(bytes), 16) as i128
    }

    #[inline]
    fn decode(bytes: &[u8; 16]) -> (r: i128) {
        proof {
            reveal_with_fuel(pow256, 17);
            lemma_be_decode_encode(bytes@);
        }
        let unsigned: u128 = <u128 as Decode<BigEndian, 16>>::decode(bytes);
        if unsigned <= i128::MAX as u128 {
            unsigned as i128
        } else {
            -((u128::MAX - unsigned) as i128) - 1
        }
    }
}

/// Decoding what was encoded gives the number back, for every unsigned
/// integer type and both byte orders.
pub proof fn lemma_unsigned_round_trip(a: u16, b: u32, c: u64, d: u128)
    ensures
        <u16 as Decode<BigEndian, 2>>::spec_decode(<u16 as Encode<BigEndian, 2>>::spec_encode(&a))
            == a,
        <u16 as Decode<LittleEndian, 2>>::spec_decode(<u16 as Encode<LittleEndian, 2>>::spec_encode(&a))
            == a,
        <u32 as Decode<BigEndian, 4>>::spec_decode(<u32 as Encode<BigEndian, 4>>::spec_encode(&b))
            == b,
        <u32 as Decode<LittleEndian, 4>>::spec_decode(<u32 as Encode<LittleEndian, 4>>::spec_encode(&b))
            == b,
        <u64 as Decode<BigEndian, 8>>::spec_decode(<u64 as Encode<BigEndian, 8>>::spec_encode(&c))
            == c,
        <u64 as Decode<LittleEndian, 8>>::spec_decode(<u64 as Encode<LittleEndian, 8>>::spec_encode(&c))
            == c,
        <u128 as Decode<BigEndian, 16>>::spec_decode(<u128 as Encode<BigEndian, 16>>::spec_encode(&d))
            == d,
        <u128 as Decode<LittleEndian, 16>>::spec_decode(<u128 as Encode<LittleEndian, 16>>::spec_encode(&d))
            == d,
{
    reveal_with_fuel(pow256, 17);
    lemma_be_round_trip(a as nat, 2);
    lemma_le_round_trip(a as nat, 2);
    lemma_be_round_trip(b as nat, 4);
    lemma_le_round_trip(b as nat, 4);
    lemma_be_round_trip(c as nat, 8);
    lemma_le_round_trip(c as nat, 8);
    lemma_be_round_trip(d as nat, 16);
    lemma_le_round_trip(d as nat, 16);
}

/// Decoding what was encoded gives the number back, for every signed integer
/// type and both byte orders.
pub proof fn lemma_signed_round_trip(a: i16, b: i32, c: i64, d: i128)
    ensures
        <i16 as Decode<BigEndian, 2>>::spec_decode(<i16 as Encode<BigEndian, 2>>::spec_encode(&a))
            == a,
        <i16 as Decode<LittleEndian, 2>>::spec_decode(<i16 as Encode<LittleEndian, 2>>::spec_encode(&a))
            == a,
        <i32 as Decode<BigEndian, 4>>::spec_decode(<i32 as Encode<BigEndian, 4>>::spec_encode(&b))
            == b,
        <i32 as Decode<LittleEndian, 4>>::spec_decode(<i32 as Encode<LittleEndian, 4>>::spec_encode(&b))
            == b,
        <i64 as Decode<BigEndian, 8>>::spec_decode(<i64 as Encode<BigEndian, 8>>::spec_encode(&c))
            == c,
        <i64 as Decode<LittleEndian, 8>>::spec_decode(<i64 as Encode<LittleEndian, 8>>::spec_encode(&c))
            == c,
        <i128 as Decode<BigEndian, 16>>::spec_decode(<i128 as Encode<BigEndian, 16>>::spec_encode(&d))
            == d,
        <i128 as Decode<LittleEndian, 16>>::spec_decode(<i128 as Encode<LittleEndian, 16>>::spec_encode(&d))
            == d,
{
    reveal_with_fuel(pow256, 17);
    lemma_twos_complement_round_trip(a as int, 2);
    lemma_be_round_trip(twos_complement(a as int, 2), 2);
    lemma_le_round_trip(twos_complement(a as int, 2), 2);
    lemma_twos_complement_round_trip(b as int, 4);
    lemma_be_round_trip(twos_complement(b as int, 4), 4);
    lemma_le_round_trip(twos_complement(b as int, 4), 4);
    lemma_twos_complement_round_trip(c as int, 8);
    lemma_be_round_trip(twos_complement(c as int, 8), 8);
    lemma_le_round_trip(twos_complement(c as int, 8), 8);
    lemma_twos_complement_round_trip(d as int, 16);
    lemma_be_round_trip(twos_complement(d as int, 16), 16);
    lemma_le_round_trip(twos_complement(d as int, 16), 16);
}

} // verus!
