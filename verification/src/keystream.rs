//! Removing the obfuscation of a frame. The meter combines each byte with a
//! fixed keystream by exclusive-or and sends the bits of every byte in
//! reverse order.

use vstd::prelude::*;

verus! {

/// Length of a frame in bytes.
pub const FRAME_LEN: usize = 11;

/// The keystream of the meter. A frame consumes its first `FRAME_LEN` bytes.
pub const XOR_KEY: [u8; 20] = [
    0x41, 0x21, 0x73, 0x55, 0xa2, 0xc1, 0x32, 0x71, 0x66, 0xaa, 0x3b, 0xd0, 0xe2, 0xa8, 0x33, 0x14,
    0x20, 0x21, 0xaa, 0xbb,
];

/// Whether bit `index` of `b` is set, bit 0 being the least significant.
pub open spec fn bit_is_set(b: u8, index: u8) -> bool {
    (b >> index) & 1 == 1
}

/// The byte with the bit order of `b` mirrored: each bit of `b`, moved to
/// the place that is as far from the other end.
pub open spec fn mirrored(b: u8) -> u8 {
    ((b & 0x01) << 7) | ((b & 0x02) << 5) | ((b & 0x04) << 3) | ((b & 0x08) << 1) | ((b & 0x10)
        >> 1) | ((b & 0x20) >> 3) | ((b & 0x40) >> 5) | ((b & 0x80) >> 7)
}

/// Mirroring swaps bit 0 with bit 7, bit 1 with bit 6, and so on.
pub proof fn lemma_mirrored_swaps_bits(b: u8, index: u8)
    requires
        index < 8,
    ensures
        bit_is_set(mirrored(b), index) == bit_is_set(b, (7 - index) as u8),
{
    let other: u8 = (7 - index) as u8;
    assert(index < 8 && other == 7 - index ==> (((mirrored(b) >> index) & 1 == 1) == ((b >> other)
        & 1 == 1))) by (bit_vector);
}

/// Mirroring twice gives the byte back.
pub proof fn lemma_mirrored_twice(b: u8)
    ensures
        mirrored(mirrored(b)) == b,
{
    assert(mirrored(mirrored(b)) == b) by (bit_vector);
}

/// Mirrors the bit order of a byte: swaps its halves, then the pairs in
/// each half, then the bits in each pair.
pub fn reverse_bits(b: u8) -> (r: u8)
    ensures
        r == mirrored(b),
        forall|index: u8| index < 8 ==> bit_is_set(r, index) == bit_is_set(b, (7 - index) as u8),
{
    let halves: u8 = (b >> 4) | (b << 4);
    let pairs: u8 = ((halves & 0xcc) >> 2) | ((halves & 0x33) << 2);
    let bits: u8 = ((pairs & 0xaa) >> 1) | ((pairs & 0x55) << 1);
    proof {
        assert(halves == (b >> 4) | (b << 4) && pairs == ((halves & 0xcc) >> 2) | ((halves & 0x33)
            << 2) && bits == ((pairs & 0xaa) >> 1) | ((pairs & 0x55) << 1) ==> bits == mirrored(b))
            by (bit_vector);
        assert forall|index: u8| index < 8 implies bit_is_set(bits, index) == bit_is_set(
            b,
            (7 - index) as u8,
        ) by {
            lemma_mirrored_swaps_bits(b, index);
        }
    }
    bits
}

/// The plain byte behind the raw byte at `index` of a frame.
pub open spec fn plain_byte(raw: u8, index: int) -> u8 {
    mirrored(raw ^ XOR_KEY[index])
}

/// The plain record behind a raw frame: byte by byte, the keystream is
/// removed and the bit order restored.
pub open spec fn plain_frame(raw: Seq<u8>) -> Seq<u8> {
    Seq::new(raw.len(), |i: int| plain_byte(raw[i], i))
}

/// Removes the keystream from a frame and restores the bit order of its
/// bytes. Every frame has a plain record; nothing is rejected here.
pub fn decode_keystream(raw: &[u8; FRAME_LEN]) -> (plain: [u8; FRAME_LEN])
    ensures
        plain@ == plain_frame(raw@),
{
    let mut plain: [u8; FRAME_LEN] = [0u8; FRAME_LEN];
    let mut i: usize = 0;
    while i < FRAME_LEN
        invariant
            i <= FRAME_LEN,
            forall|j: int| 0 <= j < i ==> plain@[j] == plain_byte(raw@[j], j),
        decreases FRAME_LEN - i,
    {
        plain[i] = reverse_bits(raw[i] ^ XOR_KEY[i]);
        i += 1;
    }
    plain
}

} // verus!
