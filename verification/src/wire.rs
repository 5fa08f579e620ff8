//! Little-endian byte-level primitives shared by the wire codec.
//!
//! Every multi-byte field of the protocol is little-endian on the wire. The
//! spec functions here give the mathematical value of a run of bytes, and the
//! executable functions are proved against them.

use vstd::prelude::*;

verus! {

/// The value of two little-endian bytes.
pub open spec fn le16(b0: u8, b1: u8) -> int {
    b0 + b1 * 0x100
}

/// The value of four little-endian bytes.
pub open spec fn le32(b0: u8, b1: u8, b2: u8, b3: u8) -> int {
    b0 + b1 * 0x100 + b2 * 0x1_0000 + b3 * 0x100_0000
}

/// The value of the two little-endian bytes at `i` in `s`.
pub open spec fn le16_at(s: Seq<u8>, i: int) -> int {
    le16(s[i], s[i + 1])
}

/// Split a 16-bit value into its little-endian bytes.
pub open spec fn u16_lo(v: u16) -> u8 {
    (v % 0x100) as u8
}

/// The upper little-endian byte of a 16-bit value.
pub open spec fn u16_hi(v: u16) -> u8 {
    (v / 0x100) as u8
}

/// Read a `u16` from two little-endian bytes.
pub fn u16_from_le(b0: u8, b1: u8) -> (r: u16)
    ensures r == le16(b0, b1),
{
    b0 as u16 + (b1 as u16) * 0x100
}

/// The low little-endian byte of a 16-bit value.
pub fn u16_to_le_lo(v: u16) -> (r: u8)
    ensures r == u16_lo(v),
{
    (v % 0x100) as u8
}

/// The high little-endian byte of a 16-bit value.
pub fn u16_to_le_hi(v: u16) -> (r: u8)
    ensures r == u16_hi(v),
{
    (v / 0x100) as u8
}

/// The two little-endian bytes of a `u16` recombine to the value itself.
pub proof fn lemma_le16_roundtrip(v: u16)
    ensures le16(u16_lo(v), u16_hi(v)) == v,
{
}

/// Write the two little-endian bytes of `v` into `buf` at `i`.
pub fn put_u16_le(buf: &mut Vec<u8>, i: usize, v: u16)
    requires
        i + 2 <= old(buf).len(),
    ensures
        final(buf)@ =~= old(buf)@.update(i as int, u16_lo(v)).update(i + 1, u16_hi(v)),
        final(buf).len() == old(buf).len(),
        le16_at(final(buf)@, i as int) == v,
{
    let lo = u16_to_le_lo(v);
    let hi = u16_to_le_hi(v);
    buf.set(i, lo);
    buf.set(i + 1, hi);
}

/// Read a `u16` from the two little-endian bytes of `buf` at `i`.
pub fn get_u16_le(buf: &Vec<u8>, i: usize) -> (r: u16)
    requires
        i + 2 <= buf.len(),
    ensures
        r == le16_at(buf@, i as int),
{
    u16_from_le(buf[i], buf[i + 1])
}

/// The value of the four little-endian bytes at `i` in `s`.
pub open spec fn le32_at(s: Seq<u8>, i: int) -> int {
    le32(s[i], s[i + 1], s[i + 2], s[i + 3])
}

/// Write the four little-endian bytes of `v` into `buf` at `i`.
pub fn put_u32_le(buf: &mut Vec<u8>, i: usize, v: u32)
    requires
        i + 4 <= old(buf).len(),
    ensures
        final(buf).len() == old(buf).len(),
        le32_at(final(buf)@, i as int) == v,
        forall|j: int| 0 <= j < old(buf).len() && !(i <= j < i + 4) ==> final(buf)@[j] == old(buf)@[j],
{
    let b0 = (v % 0x100) as u8;
    let b1 = ((v / 0x100) % 0x100) as u8;
    let b2 = ((v / 0x1_0000) % 0x100) as u8;
    let b3 = ((v / 0x100_0000) % 0x100) as u8;
    buf.set(i, b0);
    buf.set(i + 1, b1);
    buf.set(i + 2, b2);
    buf.set(i + 3, b3);
    proof {
        assert(le32(b0, b1, b2, b3) == v) by {
            assert(v == (v % 0x100) + ((v / 0x100) % 0x100) * 0x100 + ((v / 0x1_0000) % 0x100)
                * 0x1_0000 + ((v / 0x100_0000) % 0x100) * 0x100_0000) by (bit_vector);
        }
    }
}

/// Read a `u32` from the four little-endian bytes of `buf` at `i`.
pub fn get_u32_le(buf: &Vec<u8>, i: usize) -> (r: u32)
    requires
        i + 4 <= buf.len(),
    ensures
        r == le32_at(buf@, i as int),
{
    buf[i] as u32 + (buf[i + 1] as u32) * 0x100 + (buf[i + 2] as u32) * 0x1_0000 + (buf[i + 3]
        as u32) * 0x100_0000
}

} // verus!
