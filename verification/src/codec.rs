//! Little-endian 32-bit words in byte buffers.
//!
//! The call descriptor exchanged between host and guest is laid out as four
//! little-endian 32-bit words; these are the primitives that read and write
//! such words.

use vstd::prelude::*;

verus! {

/// The four little-endian bytes of `x`, least significant first.
pub open spec fn u32_le_bytes(x: u32) -> Seq<u8> {
    seq![
        (x & 0xff) as u8,
        ((x >> 8) & 0xff) as u8,
        ((x >> 16) & 0xff) as u8,
        ((x >> 24) & 0xff) as u8,
    ]
}

/// The 32-bit word encoded by four little-endian bytes.
pub open spec fn u32_from_le(s: Seq<u8>) -> u32
    recommends
        s.len() == 4,
{
    (s[0] as u32) | (s[1] as u32) << 8 | (s[2] as u32) << 16 | (s[3] as u32) << 24
}

/// Encoding then decoding a word gives the word back, and decoding then
/// encoding gives the four bytes back.
pub proof fn lemma_u32_le_roundtrip()
    ensures
        forall|x: u32| #[trigger] u32_from_le(u32_le_bytes(x)) == x,
        forall|s: Seq<u8>| s.len() == 4 ==> #[trigger] u32_le_bytes(u32_from_le(s)) =~= s,
{
    assert forall|x: u32| #[trigger] u32_from_le(u32_le_bytes(x)) == x by {
        assert((((x & 0xff) as u8) as u32) | ((((x >> 8) & 0xff) as u8) as u32) << 8 | ((((x >> 16)
            & 0xff) as u8) as u32) << 16 | ((((x >> 24) & 0xff) as u8) as u32) << 24 == x)
            by (bit_vector);
    }
    assert forall|s: Seq<u8>| s.len() == 4 implies #[trigger] u32_le_bytes(u32_from_le(s)) =~= s by {
        let b0 = s[0];
        let b1 = s[1];
        let b2 = s[2];
        let b3 = s[3];
        let x = u32_from_le(s);
        assert(x == b0 as u32 | (b1 as u32) << 8 | (b2 as u32) << 16 | (b3 as u32) << 24);
        assert((b0 as u32 | (b1 as u32) << 8 | (b2 as u32) << 16 | (b3 as u32) << 24) & 0xff
            == b0 as u32) by (bit_vector);
        assert(((b0 as u32 | (b1 as u32) << 8 | (b2 as u32) << 16 | (b3 as u32) << 24) >> 8) & 0xff
            == b1 as u32) by (bit_vector);
        assert(((b0 as u32 | (b1 as u32) << 8 | (b2 as u32) << 16 | (b3 as u32) << 24) >> 16) & 0xff
            == b2 as u32) by (bit_vector);
        assert(((b0 as u32 | (b1 as u32) << 8 | (b2 as u32) << 16 | (b3 as u32) << 24) >> 24) & 0xff
            == b3 as u32) by (bit_vector);
    }
}

/// Reads the little-endian 32-bit word stored at `buf[at..at + 4]`.
pub fn read_u32(buf: &Vec<u8>, at: usize) -> (r: u32)
    requires
        at + 4 <= buf@.len(),
    ensures
        r == u32_from_le(buf@.subrange(at as int, at + 4)),
{
    let n = buf.len();
    let b0 = buf[at];
    let b1 = buf[at + 1];
    let b2 = buf[at + 2];
    let b3 = buf[at + 3];
    let r = (b0 as u32) | (b1 as u32) << 8 | (b2 as u32) << 16 | (b3 as u32) << 24;
    proof {
        let s = buf@.subrange(at as int, at + 4);
        assert(s[0] == b0 && s[1] == b1 && s[2] == b2 && s[3] == b3);
    }
    r
}

/// Stores `val` as a little-endian 32-bit word at `buf[at..at + 4]`; the
/// rest of the buffer is unchanged.
pub fn write_u32(buf: &mut Vec<u8>, at: usize, val: u32)
    requires
        at + 4 <= old(buf)@.len(),
    ensures
        final(buf)@.len() == old(buf)@.len(),
        final(buf)@.subrange(at as int, at + 4) == u32_le_bytes(val),
        forall|i: int|
            0 <= i < old(buf)@.len() && !(at <= i < at + 4) ==> final(buf)@[i] == old(buf)@[i],
{
    proof {
        assert(val & 0xff <= 0xff) by (bit_vector);
        assert((val >> 8) & 0xff <= 0xff) by (bit_vector);
        assert((val >> 16) & 0xff <= 0xff) by (bit_vector);
        assert((val >> 24) & 0xff <= 0xff) by (bit_vector);
    }
    let n = buf.len();
    let b0 = (val & 0xff) as u8;
    let b1 = ((val >> 8) & 0xff) as u8;
    let b2 = ((val >> 16) & 0xff) as u8;
    let b3 = ((val >> 24) & 0xff) as u8;
    buf.set(at, b0);
    buf.set(at + 1, b1);
    buf.set(at + 2, b2);
    buf.set(at + 3, b3);
    proof {
        assert(buf@.subrange(at as int, at + 4) =~= u32_le_bytes(val));
    }
}

} // verus!
