//! Reading bit fields out of a byte sequence. Bits are numbered from the
//! most significant bit of the first byte, and a field of several bits is a
//! big-endian number.

use vstd::prelude::*;

verus! {

/// Number of bits that `bytes` holds.
pub open spec fn bit_len(bytes: Seq<u8>) -> nat {
    8 * bytes.len()
}

/// The bit at `offset`, where offset 0 is the most significant bit of the
/// first byte.
pub open spec fn bit_at(bytes: Seq<u8>, offset: int) -> bool {
    (bytes[offset / 8] >> ((7 - offset % 8) as u8)) & 1 == 1
}

/// The number that the `width` bits from `offset` on spell, most
/// significant bit first.
pub open spec fn bits_value(bytes: Seq<u8>, offset: int, width: nat) -> nat
    decreases width,
{
    if width == 0 {
        0
    } else {
        2 * bits_value(bytes, offset, (width - 1) as nat) + if bit_at(
            bytes,
            offset + width - 1,
        ) {
            1nat
        } else {
            0nat
        }
    }
}

/// `2^exp`, the exclusive bound of a field of `exp` bits.
pub open spec fn field_bound(exp: nat) -> nat
    decreases exp,
{
    if exp == 0 {
        1
    } else {
        2 * field_bound((exp - 1) as nat)
    }
}

/// A field of `width` bits is below `2^width`.
pub proof fn lemma_bits_value_bound(bytes: Seq<u8>, offset: int, width: nat)
    ensures
        bits_value(bytes, offset, width) < field_bound(width),
    decreases width,
{
    if width > 0 {
        lemma_bits_value_bound(bytes, offset, (width - 1) as nat);
    }
}

/// The bound doubles with each bit, so it grows with the width.
pub proof fn lemma_field_bound_monotonic(a: nat, b: nat)
    requires
        a <= b,
    ensures
        field_bound(a) <= field_bound(b),
    decreases b,
{
    if a < b {
        lemma_field_bound_monotonic(a, (b - 1) as nat);
    }
}

/// Reads one bit.
pub fn read_bit(bytes: &[u8], offset: usize) -> (bit: bool)
    requires
        offset < bit_len(bytes@),
    ensures
        bit == bit_at(bytes@, offset as int),
{
    let byte: u8 = bytes[offset / 8];
    let shift: u8 = 7 - (offset % 8) as u8;
    (byte >> shift) & 1 == 1
}

/// Reads a field of up to 32 bits.
pub fn read_bits(bytes: &[u8], offset: usize, width: usize) -> (value: u32)
    requires
        width <= 32,
        offset + width <= bit_len(bytes@),
        offset + width <= usize::MAX,
    ensures
        value == bits_value(bytes@, offset as int, width as nat),
{
    let mut value: u32 = 0;
    let mut taken: usize = 0;
    while taken < width
        invariant
            taken <= width <= 32,
            offset + width <= bit_len(bytes@),
            offset + width <= usize::MAX,
            value == bits_value(bytes@, offset as int, taken as nat),
        decreases width - taken,
    {
        let bit: bool = read_bit(bytes, offset + taken);
        proof {
            lemma_bits_value_bound(bytes@, offset as int, taken as nat);
            lemma_field_bound_monotonic(taken as nat, 31);
            assert(field_bound(31) == 0x8000_0000) by {
                reveal_with_fuel(field_bound, 32);
            }
        }
        value = 2 * value + if bit {
            1
        } else {
            0
        };
        taken += 1;
    }
    value
}

} // verus!
