//! Little-endian encoding of fixed-width integers as byte sequences.
use vstd::prelude::*;

verus! {

/// The four little-endian bytes of `v`.
pub open spec fn u32_le(v: u32) -> Seq<u8> {
    seq![v as u8, (v >> 8u32) as u8, (v >> 16u32) as u8, (v >> 24u32) as u8]
}

/// The eight little-endian bytes of `v`.
pub open spec fn u64_le(v: u64) -> Seq<u8> {
    seq![
        v as u8,
        (v >> 8u64) as u8,
        (v >> 16u64) as u8,
        (v >> 24u64) as u8,
        (v >> 32u64) as u8,
        (v >> 40u64) as u8,
        (v >> 48u64) as u8,
        (v >> 56u64) as u8,
    ]
}

/// Decodes the first four bytes of `b` as a little-endian `u32`.
pub open spec fn le_u32(b: Seq<u8>) -> u32 {
    (b[0] as u32) | ((b[1] as u32) << 8u32) | ((b[2] as u32) << 16u32) | ((b[3] as u32) << 24u32)
}

/// Decodes the first eight bytes of `b` as a little-endian `u64`.
pub open spec fn le_u64(b: Seq<u8>) -> u64 {
    (b[0] as u64) | ((b[1] as u64) << 8u64) | ((b[2] as u64) << 16u64) | ((b[3] as u64)
        << 24u64) | ((b[4] as u64) << 32u64) | ((b[5] as u64) << 40u64) | ((b[6] as u64)
        << 48u64) | ((b[7] as u64) << 56u64)
}

/// Decoding the encoding of a `u32` gives the value back.
pub proof fn lemma_u32_roundtrip(v: u32)
    ensures
        u32_le(v).len() == 4,
        le_u32(u32_le(v)) == v,
{
    let b = u32_le(v);
    assert(b[0] == v as u8 && b[1] == (v >> 8u32) as u8 && b[2] == (v >> 16u32) as u8 && b[3] == (v
        >> 24u32) as u8);
    assert((((v as u8) as u32) | ((((v >> 8u32) as u8) as u32) << 8u32) | ((((v >> 16u32) as u8)
        as u32) << 16u32) | ((((v >> 24u32) as u8) as u32) << 24u32)) == v) by (bit_vector);
}

/// Decoding the encoding of a `u64` gives the value back.
pub proof fn lemma_u64_roundtrip(v: u64)
    ensures
        u64_le(v).len() == 8,
        le_u64(u64_le(v)) == v,
{
    let b = u64_le(v);
    assert(b[0] == v as u8 && b[1] == (v >> 8u64) as u8 && b[2] == (v >> 16u64) as u8 && b[3] == (v
        >> 24u64) as u8);
    assert(b[4] == (v >> 32u64) as u8 && b[5] == (v >> 40u64) as u8 && b[6] == (v >> 48u64) as u8
        && b[7] == (v >> 56u64) as u8);
    assert((((v as u8) as u64) | ((((v >> 8u64) as u8) as u64) << 8u64) | ((((v >> 16u64) as u8)
        as u64) << 16u64) | ((((v >> 24u64) as u8) as u64) << 24u64) | ((((v >> 32u64) as u8)
        as u64) << 32u64) | ((((v >> 40u64) as u8) as u64) << 40u64) | ((((v >> 48u64) as u8)
        as u64) << 48u64) | ((((v >> 56u64) as u8) as u64) << 56u64)) == v) by (bit_vector);
}

/// Four zero bytes decode to zero.
pub proof fn lemma_u32_zero(b: Seq<u8>)
    requires
        b.len() >= 4,
        b[0] == 0 && b[1] == 0 && b[2] == 0 && b[3] == 0,
    ensures
        le_u32(b) == 0,
{
    let (b0, b1, b2, b3) = (b[0], b[1], b[2], b[3]);
    assert(b0 == 0 && b1 == 0 && b2 == 0 && b3 == 0 ==> ((b0 as u32) | ((b1 as u32) << 8u32) | ((
    b2 as u32) << 16u32) | ((b3 as u32) << 24u32)) == 0) by (bit_vector);
}

/// Reads the little-endian `u32` stored at `offset`.
pub fn read_u32(slot: &[u8], offset: usize) -> (v: u32)
    requires
        offset + 4 <= slot@.len(),
    ensures
        v == le_u32(slot@.subrange(offset as int, offset + 4)),
{
    let v = (slot[offset] as u32) | ((slot[offset + 1] as u32) << 8u32) | ((slot[offset + 2] as u32)
        << 16u32) | ((slot[offset + 3] as u32) << 24u32);
    let ghost b = slot@.subrange(offset as int, offset + 4);
    assert(b[0] == slot@[offset as int] && b[1] == slot@[offset + 1] && b[2] == slot@[offset + 2]
        && b[3] == slot@[offset + 3]);
    v
}

/// Reads the little-endian `u64` stored at `offset`.
pub fn read_u64(slot: &[u8], offset: usize) -> (v: u64)
    requires
        offset + 8 <= slot@.len(),
    ensures
        v == le_u64(slot@.subrange(offset as int, offset + 8)),
{
    let v = (slot[offset] as u64) | ((slot[offset + 1] as u64) << 8u64) | ((slot[offset + 2] as u64)
        << 16u64) | ((slot[offset + 3] as u64) << 24u64) | ((slot[offset + 4] as u64) << 32u64)
        | ((slot[offset + 5] as u64) << 40u64) | ((slot[offset + 6] as u64) << 48u64) | ((
    slot[offset + 7] as u64) << 56u64);
    let ghost b = slot@.subrange(offset as int, offset + 8);
    assert(b[0] == slot@[offset as int] && b[1] == slot@[offset + 1] && b[2] == slot@[offset + 2]
        && b[3] == slot@[offset + 3]);
    assert(b[4] == slot@[offset + 4] && b[5] == slot@[offset + 5] && b[6] == slot@[offset + 6]
        && b[7] == slot@[offset + 7]);
    v
}

/// `s` with the bytes starting at `at` replaced by `b` (same length as `s`).
pub open spec fn splice(s: Seq<u8>, at: int, b: Seq<u8>) -> Seq<u8> {
    Seq::new(s.len(), |i: int| if at <= i < at + b.len() { b[i - at] } else { s[i] })
}

/// Stores `value` little-endian at `offset`.
pub fn write_u32(slot: &mut [u8], offset: usize, value: u32)
    requires
        offset + 4 <= old(slot)@.len(),
    ensures
        final(slot)@ == splice(old(slot)@, offset as int, u32_le(value)),
{
    slot[offset] = value as u8;
    slot[offset + 1] = (value >> 8u32) as u8;
    slot[offset + 2] = (value >> 16u32) as u8;
    slot[offset + 3] = (value >> 24u32) as u8;
    assert(slot@ =~= splice(old(slot)@, offset as int, u32_le(value)));
}

/// Stores `value` little-endian at `offset`.
pub fn write_u64(slot: &mut [u8], offset: usize, value: u64)
    requires
        offset + 8 <= old(slot)@.len(),
    ensures
        final(slot)@ == splice(old(slot)@, offset as int, u64_le(value)),
{
    slot[offset] = value as u8;
    slot[offset + 1] = (value >> 8u64) as u8;
    slot[offset + 2] = (value >> 16u64) as u8;
    slot[offset + 3] = (value >> 24u64) as u8;
    slot[offset + 4] = (value >> 32u64) as u8;
    slot[offset + 5] = (value >> 40u64) as u8;
    slot[offset + 6] = (value >> 48u64) as u8;
    slot[offset + 7] = (value >> 56u64) as u8;
    assert(slot@ =~= splice(old(slot)@, offset as int, u64_le(value)));
}

} // verus!
