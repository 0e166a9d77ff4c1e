//! Little-endian byte layouts of the unsigned integers that appear on the
//! wire, together with the packing of the two button bytes.
//!
//! Each width has a spec-level layout (`le16`, `le32`, ...), a spec-level
//! reading (`u16_from_le`, ...), executable writers and readers proved
//! against them, and a round-trip lemma.

use vstd::prelude::*;

verus! {

// ---------------------------------------------------------------------------
// spec-level layouts
// ---------------------------------------------------------------------------

/// The two bytes of `v` in little-endian order.
pub open spec fn le16(v: u16) -> Seq<u8> {
    seq![v as u8, (v >> 8) as u8]
}

/// The four bytes of `v` in little-endian order.
pub open spec fn le32(v: u32) -> Seq<u8> {
    seq![v as u8, (v >> 8) as u8, (v >> 16) as u8, (v >> 24) as u8]
}

/// The low six bytes of `v` in little-endian order (a 48-bit MAC address).
pub open spec fn le48(v: u64) -> Seq<u8> {
    seq![
        v as u8,
        (v >> 8) as u8,
        (v >> 16) as u8,
        (v >> 24) as u8,
        (v >> 32) as u8,
        (v >> 40) as u8,
    ]
}

/// The eight bytes of `v` in little-endian order.
pub open spec fn le64(v: u64) -> Seq<u8> {
    seq![
        v as u8,
        (v >> 8) as u8,
        (v >> 16) as u8,
        (v >> 24) as u8,
        (v >> 32) as u8,
        (v >> 40) as u8,
        (v >> 48) as u8,
        (v >> 56) as u8,
    ]
}

// ---------------------------------------------------------------------------
// spec-level readings
// ---------------------------------------------------------------------------

/// The value whose little-endian bytes are `b0`, `b1`.
pub open spec fn u16_from_le(b0: u8, b1: u8) -> u16 {
    (b0 as u16) | ((b1 as u16) << 8)
}

/// The value whose little-endian bytes are `b0` .. `b3`.
pub open spec fn u32_from_le(b0: u8, b1: u8, b2: u8, b3: u8) -> u32 {
    (b0 as u32) | ((b1 as u32) << 8) | ((b2 as u32) << 16) | ((b3 as u32) << 24)
}

/// The value whose low six little-endian bytes are `b0` .. `b5`; it is
/// always below 2^48.
pub open spec fn u48_from_le(b0: u8, b1: u8, b2: u8, b3: u8, b4: u8, b5: u8) -> u64 {
    (b0 as u64) | ((b1 as u64) << 8) | ((b2 as u64) << 16) | ((b3 as u64) << 24)
        | ((b4 as u64) << 32) | ((b5 as u64) << 40)
}

/// The value whose little-endian bytes are `b0` .. `b7`.
pub open spec fn u64_from_le(
    b0: u8, b1: u8, b2: u8, b3: u8, b4: u8, b5: u8, b6: u8, b7: u8,
) -> u64 {
    (b0 as u64) | ((b1 as u64) << 8) | ((b2 as u64) << 16) | ((b3 as u64) << 24)
        | ((b4 as u64) << 32) | ((b5 as u64) << 40) | ((b6 as u64) << 48) | ((b7 as u64) << 56)
}

// ---------------------------------------------------------------------------
// round trips
// ---------------------------------------------------------------------------

/// Reading the little-endian bytes of a `u16` gives the value back.
pub proof fn lemma_le16_round_trip(v: u16)
    ensures
        u16_from_le(le16(v)[0], le16(v)[1]) == v,
{
    assert(((v as u8) as u16) | ((((v >> 8) as u8) as u16) << 8) == v) by (bit_vector);
}

/// Reading the little-endian bytes of a `u32` gives the value back.
pub proof fn lemma_le32_round_trip(v: u32)
    ensures
        u32_from_le(le32(v)[0], le32(v)[1], le32(v)[2], le32(v)[3]) == v,
{
    assert(((v as u8) as u32) | ((((v >> 8) as u8) as u32) << 8)
        | ((((v >> 16) as u8) as u32) << 16) | ((((v >> 24) as u8) as u32) << 24) == v)
        by (bit_vector);
}

/// Reading the low six little-endian bytes of a value below 2^48 gives it back.
pub proof fn lemma_le48_round_trip(v: u64)
    requires
        v < 0x1000000000000,
    ensures
        u48_from_le(le48(v)[0], le48(v)[1], le48(v)[2], le48(v)[3], le48(v)[4], le48(v)[5]) == v,
{
    assert(v < 0x1000000000000 ==> ((v as u8) as u64) | ((((v >> 8) as u8) as u64) << 8)
        | ((((v >> 16) as u8) as u64) << 16) | ((((v >> 24) as u8) as u64) << 24)
        | ((((v >> 32) as u8) as u64) << 32) | ((((v >> 40) as u8) as u64) << 40) == v)
        by (bit_vector);
}

/// A value read from six little-endian bytes is below 2^48.
pub proof fn lemma_u48_bound(b0: u8, b1: u8, b2: u8, b3: u8, b4: u8, b5: u8)
    ensures
        u48_from_le(b0, b1, b2, b3, b4, b5) < 0x1000000000000,
{
    assert((b0 as u64) | ((b1 as u64) << 8) | ((b2 as u64) << 16) | ((b3 as u64) << 24)
        | ((b4 as u64) << 32) | ((b5 as u64) << 40) < 0x1000000000000) by (bit_vector);
}

/// Reading the little-endian bytes of a `u64` gives the value back.
pub proof fn lemma_le64_round_trip(v: u64)
    ensures
        u64_from_le(
            le64(v)[0], le64(v)[1], le64(v)[2], le64(v)[3],
            le64(v)[4], le64(v)[5], le64(v)[6], le64(v)[7],
        ) == v,
{
    assert(((v as u8) as u64) | ((((v >> 8) as u8) as u64) << 8)
        | ((((v >> 16) as u8) as u64) << 16) | ((((v >> 24) as u8) as u64) << 24)
        | ((((v >> 32) as u8) as u64) << 32) | ((((v >> 40) as u8) as u64) << 40)
        | ((((v >> 48) as u8) as u64) << 48) | ((((v >> 56) as u8) as u64) << 56) == v)
        by (bit_vector);
}

/// The little-endian bytes of a zero `u32` are all zero.
pub proof fn lemma_le32_zero()
    ensures
        le32(0)[0] == 0,
        le32(0)[1] == 0,
        le32(0)[2] == 0,
        le32(0)[3] == 0,
{
    assert((0u32 as u8) == 0 && ((0u32 >> 8) as u8) == 0 && ((0u32 >> 16) as u8) == 0 && ((0u32
        >> 24) as u8) == 0) by (bit_vector);
}

// ---------------------------------------------------------------------------
// executable writers
// ---------------------------------------------------------------------------

/// Appends the two little-endian bytes of `v`.
pub fn write_u16_le(out: &mut Vec<u8>, v: u16)
    ensures
        final(out)@ == old(out)@ + le16(v),
{
    out.push(v as u8);
    out.push((v >> 8) as u8);
    assert(out@ =~= old(out)@ + le16(v));
}

/// Appends the four little-endian bytes of `v`.
pub fn write_u32_le(out: &mut Vec<u8>, v: u32)
    ensures
        final(out)@ == old(out)@ + le32(v),
{
    out.push(v as u8);
    out.push((v >> 8) as u8);
    out.push((v >> 16) as u8);
    out.push((v >> 24) as u8);
    assert(out@ =~= old(out)@ + le32(v));
}

/// Appends the low six bytes of `v` in little-endian order.
pub fn write_u48_le(out: &mut Vec<u8>, v: u64)
    ensures
        final(out)@ == old(out)@ + le48(v),
{
    out.push(v as u8);
    out.push((v >> 8) as u8);
    out.push((v >> 16) as u8);
    out.push((v >> 24) as u8);
    out.push((v >> 32) as u8);
    out.push((v >> 40) as u8);
    assert(out@ =~= old(out)@ + le48(v));
}

/// Appends the eight little-endian bytes of `v`.
pub fn write_u64_le(out: &mut Vec<u8>, v: u64)
    ensures
        final(out)@ == old(out)@ + le64(v),
{
    out.push(v as u8);
    out.push((v >> 8) as u8);
    out.push((v >> 16) as u8);
    out.push((v >> 24) as u8);
    out.push((v >> 32) as u8);
    out.push((v >> 40) as u8);
    out.push((v >> 48) as u8);
    out.push((v >> 56) as u8);
    assert(out@ =~= old(out)@ + le64(v));
}

// ---------------------------------------------------------------------------
// executable readers
// ---------------------------------------------------------------------------

/// Reads a `u16` from the two little-endian bytes at `pos`.
pub fn read_u16_le(b: &[u8], pos: usize) -> (r: u16)
    requires
        pos + 2 <= b@.len(),
    ensures
        r == u16_from_le(b@[pos as int], b@[pos + 1]),
{
    (b[pos] as u16) | ((b[pos + 1] as u16) << 8)
}

/// Reads a `u32` from the four little-endian bytes at `pos`.
pub fn read_u32_le(b: &[u8], pos: usize) -> (r: u32)
    requires
        pos + 4 <= b@.len(),
    ensures
        r == u32_from_le(b@[pos as int], b@[pos + 1], b@[pos + 2], b@[pos + 3]),
{
    (b[pos] as u32) | ((b[pos + 1] as u32) << 8) | ((b[pos + 2] as u32) << 16)
        | ((b[pos + 3] as u32) << 24)
}

/// Reads a 48-bit value from the six little-endian bytes at `pos`.
pub fn read_u48_le(b: &[u8], pos: usize) -> (r: u64)
    requires
        pos + 6 <= b@.len(),
    ensures
        r == u48_from_le(
            b@[pos as int], b@[pos + 1], b@[pos + 2], b@[pos + 3], b@[pos + 4], b@[pos + 5],
        ),
        r < 0x1000000000000,
{
    proof {
        lemma_u48_bound(b@[pos as int], b@[pos + 1], b@[pos + 2], b@[pos + 3], b@[pos + 4],
            b@[pos + 5]);
    }
    (b[pos] as u64) | ((b[pos + 1] as u64) << 8) | ((b[pos + 2] as u64) << 16)
        | ((b[pos + 3] as u64) << 24) | ((b[pos + 4] as u64) << 32) | ((b[pos + 5] as u64) << 40)
}

/// Reads a `u64` from the eight little-endian bytes at `pos`.
pub fn read_u64_le(b: &[u8], pos: usize) -> (r: u64)
    requires
        pos + 8 <= b@.len(),
    ensures
        r == u64_from_le(
            b@[pos as int], b@[pos + 1], b@[pos + 2], b@[pos + 3],
            b@[pos + 4], b@[pos + 5], b@[pos + 6], b@[pos + 7],
        ),
{
    (b[pos] as u64) | ((b[pos + 1] as u64) << 8) | ((b[pos + 2] as u64) << 16)
        | ((b[pos + 3] as u64) << 24) | ((b[pos + 4] as u64) << 32) | ((b[pos + 5] as u64) << 40)
        | ((b[pos + 6] as u64) << 48) | ((b[pos + 7] as u64) << 56)
}

// ---------------------------------------------------------------------------
// button-byte packing
// ---------------------------------------------------------------------------

/// The byte that packs eight buttons MSB-first: `bits[0]` is the most
/// significant bit.
pub open spec fn packed_bits(bits: [bool; 8]) -> u8 {
    (if bits[0] { 0x80u8 } else { 0u8 }) | (if bits[1] { 0x40u8 } else { 0u8 })
        | (if bits[2] { 0x20u8 } else { 0u8 }) | (if bits[3] { 0x10u8 } else { 0u8 })
        | (if bits[4] { 0x08u8 } else { 0u8 }) | (if bits[5] { 0x04u8 } else { 0u8 })
        | (if bits[6] { 0x02u8 } else { 0u8 }) | (if bits[7] { 0x01u8 } else { 0u8 })
}

/// Whether bit `mask` is set in `byte`, for a one-bit `mask`.
pub open spec fn bit_set(byte: u8, mask: u8) -> bool {
    byte & mask != 0
}

/// Packs eight buttons into one byte, MSB-first.
pub fn bit_array_to_u8(input: [bool; 8]) -> (r: u8)
    ensures
        r == packed_bits(input),
{
    (if input[0] { 0x80u8 } else { 0u8 }) | (if input[1] { 0x40u8 } else { 0u8 })
        | (if input[2] { 0x20u8 } else { 0u8 }) | (if input[3] { 0x10u8 } else { 0u8 })
        | (if input[4] { 0x08u8 } else { 0u8 }) | (if input[5] { 0x04u8 } else { 0u8 })
        | (if input[6] { 0x02u8 } else { 0u8 }) | (if input[7] { 0x01u8 } else { 0u8 })
}

/// Each button comes back out of the packed byte.
pub proof fn lemma_packed_bits_round_trip(bits: [bool; 8])
    ensures
        bit_set(packed_bits(bits), 0x80) == bits[0],
        bit_set(packed_bits(bits), 0x40) == bits[1],
        bit_set(packed_bits(bits), 0x20) == bits[2],
        bit_set(packed_bits(bits), 0x10) == bits[3],
        bit_set(packed_bits(bits), 0x08) == bits[4],
        bit_set(packed_bits(bits), 0x04) == bits[5],
        bit_set(packed_bits(bits), 0x02) == bits[6],
        bit_set(packed_bits(bits), 0x01) == bits[7],
{
    let b0 = bits[0];
    let b1 = bits[1];
    let b2 = bits[2];
    let b3 = bits[3];
    let b4 = bits[4];
    let b5 = bits[5];
    let b6 = bits[6];
    let b7 = bits[7];
    let v = packed_bits(bits);
    assert({
        let x = (if b0 { 0x80u8 } else { 0u8 }) | (if b1 { 0x40u8 } else { 0u8 })
            | (if b2 { 0x20u8 } else { 0u8 }) | (if b3 { 0x10u8 } else { 0u8 })
            | (if b4 { 0x08u8 } else { 0u8 }) | (if b5 { 0x04u8 } else { 0u8 })
            | (if b6 { 0x02u8 } else { 0u8 }) | (if b7 { 0x01u8 } else { 0u8 });
        (x & 0x80 != 0) == b0 && (x & 0x40 != 0) == b1 && (x & 0x20 != 0) == b2
            && (x & 0x10 != 0) == b3 && (x & 0x08 != 0) == b4 && (x & 0x04 != 0) == b5
            && (x & 0x02 != 0) == b6 && (x & 0x01 != 0) == b7
    }) by (bit_vector);
}

} // verus!
