//! Little-endian byte encoding of the 16-bit and 32-bit fields of the
//! format, together with the reader-side view: what a field read back from
//! a byte sequence is worth, and the round-trip facts connecting the two.

use vstd::prelude::*;

use vstd::arithmetic::div_mod::lemma_fundamental_div_mod_converse;

verus! {

/// The two little-endian bytes of a 16-bit value.
pub open spec fn le16(x: u16) -> Seq<u8> {
    seq![(x % 256) as u8, (x / 256) as u8]
}

/// The four little-endian bytes of a 32-bit value.
pub open spec fn le32(x: u32) -> Seq<u8> {
    seq![
        (x % 256) as u8,
        ((x / 256) % 256) as u8,
        ((x / 0x10000) % 256) as u8,
        (x / 0x1000000) as u8,
    ]
}

/// The 16-bit value stored little-endian at position `i` of `bytes`.
pub open spec fn le16_at(bytes: Seq<u8>, i: int) -> u16
    recommends
        0 <= i,
        i + 2 <= bytes.len(),
{
    (bytes[i] + bytes[i + 1] * 256) as u16
}

/// The 32-bit value stored little-endian at position `i` of `bytes`.
pub open spec fn le32_at(bytes: Seq<u8>, i: int) -> u32
    recommends
        0 <= i,
        i + 4 <= bytes.len(),
{
    (bytes[i] + bytes[i + 1] * 256 + bytes[i + 2] * 0x10000 + bytes[i + 3] * 0x1000000) as u32
}

/// Reading back an encoded 16-bit field yields the encoded value.
pub proof fn lemma_le16_round_trip(x: u16)
    ensures
        le16_at(le16(x), 0) == x,
{
}

/// Reading back an encoded 32-bit field yields the encoded value.
pub proof fn lemma_le32_round_trip(x: u32)
    ensures
        le32_at(le32(x), 0) == x,
{
}

/// Reading a 16-bit field looks only at the two bytes at its position.
pub proof fn lemma_le16_at_depends(a: Seq<u8>, b: Seq<u8>, i: int, j: int)
    requires
        0 <= i,
        i + 2 <= a.len(),
        0 <= j,
        j + 2 <= b.len(),
        a[i] == b[j],
        a[i + 1] == b[j + 1],
    ensures
        le16_at(a, i) == le16_at(b, j),
{
}

/// Reading a 32-bit field looks only at the four bytes at its position.
pub proof fn lemma_le32_at_depends(a: Seq<u8>, b: Seq<u8>, i: int, j: int)
    requires
        0 <= i,
        i + 4 <= a.len(),
        0 <= j,
        j + 4 <= b.len(),
        a[i] == b[j],
        a[i + 1] == b[j + 1],
        a[i + 2] == b[j + 2],
        a[i + 3] == b[j + 3],
    ensures
        le32_at(a, i) == le32_at(b, j),
{
}

/// A 16-bit field read from two bytes re-encodes to exactly those bytes:
/// the wire form of a 16-bit value is unique.
pub proof fn lemma_le16_canonical(bytes: Seq<u8>, i: int)
    requires
        0 <= i,
        i + 2 <= bytes.len(),
    ensures
        le16(le16_at(bytes, i)) =~= seq![bytes[i], bytes[i + 1]],
{
    let b0 = bytes[i] as int;
    let b1 = bytes[i + 1] as int;
    lemma_fundamental_div_mod_converse(b0 + b1 * 256, 256, b1, b0);
}

/// A 32-bit field read from four bytes re-encodes to exactly those
/// bytes: the wire form of a 32-bit value is unique.
pub proof fn lemma_le32_canonical(bytes: Seq<u8>, i: int)
    requires
        0 <= i,
        i + 4 <= bytes.len(),
    ensures
        le32(le32_at(bytes, i)) =~= seq![bytes[i], bytes[i + 1], bytes[i + 2], bytes[i + 3]],
{
    let b0 = bytes[i] as int;
    let b1 = bytes[i + 1] as int;
    let b2 = bytes[i + 2] as int;
    let b3 = bytes[i + 3] as int;
    let x = b0 + b1 * 256 + b2 * 0x10000 + b3 * 0x1000000;
    lemma_fundamental_div_mod_converse(x, 256, b1 + b2 * 256 + b3 * 0x10000, b0);
    lemma_fundamental_div_mod_converse(x / 256, 256, b2 + b3 * 256, b1);
    lemma_fundamental_div_mod_converse(x, 0x10000, b2 + b3 * 256, b0 + b1 * 256);
    lemma_fundamental_div_mod_converse(x / 0x10000, 256, b3, b2);
    lemma_fundamental_div_mod_converse(x, 0x1000000, b3, b0 + b1 * 256 + b2 * 0x10000);
}

/// Append the two little-endian bytes of `x` to `out`.
pub fn push_le16(out: &mut Vec<u8>, x: u16)
    ensures
        final(out)@ == old(out)@ + le16(x),
{
    out.push((x % 256) as u8);
    out.push((x / 256) as u8);
    proof {
        assert(out@ =~= old(out)@ + le16(x));
    }
}

/// Append the four little-endian bytes of `x` to `out`.
pub fn push_le32(out: &mut Vec<u8>, x: u32)
    ensures
        final(out)@ == old(out)@ + le32(x),
{
    out.push((x % 256) as u8);
    out.push(((x / 256) % 256) as u8);
    out.push(((x / 0x10000) % 256) as u8);
    out.push((x / 0x1000000) as u8);
    proof {
        assert(out@ =~= old(out)@ + le32(x));
    }
}

/// Read the 16-bit value stored little-endian at `offset`.
pub fn read_le16(bytes: &[u8], offset: usize) -> (x: u16)
    requires
        offset + 2 <= bytes@.len(),
    ensures
        x == le16_at(bytes@, offset as int),
{
    let lo = bytes[offset];
    let hi = bytes[offset + 1];
    (lo as u16) + (hi as u16) * 256
}

/// Read the 32-bit value stored little-endian at `offset`.
pub fn read_le32(bytes: &[u8], offset: usize) -> (x: u32)
    requires
        offset + 4 <= bytes@.len(),
    ensures
        x == le32_at(bytes@, offset as int),
{
    let b0 = bytes[offset];
    let b1 = bytes[offset + 1];
    let b2 = bytes[offset + 2];
    let b3 = bytes[offset + 3];
    (b0 as u32) + (b1 as u32) * 256 + (b2 as u32) * 0x10000 + (b3 as u32) * 0x1000000
}

} // verus!
