//! The bit layout of a plain frame and the record of its fields.
//!
//! | field          | bits  |
//! |----------------|-------|
//! | preamble       | 0-15  |
//! | dmm_id         | 16-17 |
//! | icons1         | 24-27 |
//! | seven_segments | 28-59 |
//! | icons2         | 60-86 |
//!
//! Bits 18-23 and bit 87 carry nothing.

use vstd::prelude::*;
use crate::bits::{bit_at, bits_value, field_bound, lemma_bits_value_bound, read_bit, read_bits};
use crate::error::DecodeError;
use crate::keystream::FRAME_LEN;

verus! {

pub const PREAMBLE_OFFSET: usize = 0;

pub const PREAMBLE_BITS: usize = 16;

pub const DMM_ID_OFFSET: usize = 16;

pub const DMM_ID_BITS: usize = 2;

pub const ICONS1_OFFSET: usize = 24;

pub const ICONS1_COUNT: usize = 4;

pub const SEGMENTS_OFFSET: usize = 28;

pub const SEGMENT_BITS: usize = 8;

pub const SEGMENT_COUNT: usize = 4;

pub const ICONS2_OFFSET: usize = 60;

pub const ICONS2_COUNT: usize = 27;

/// The fields of a plain frame.
#[derive(Debug, Clone, Copy, PartialEq, Eq)]
pub struct MeasurementData {
    /// Sync marker; carried along, never interpreted.
    pub preamble: u16,
    /// Which variant of the meter sent the frame.
    pub dmm_id: u8,
    /// The first four icon flags.
    pub icons1: [bool; ICONS1_COUNT],
    /// One byte for each digit of the display, leftmost first.
    pub seven_segments: [u8; SEGMENT_COUNT],
    /// The remaining twenty-seven icon flags.
    pub icons2: [bool; ICONS2_COUNT],
}

/// A `MeasurementData` with its arrays as sequences.
pub struct MeasurementDataView {
    pub preamble: u16,
    pub dmm_id: u8,
    pub icons1: Seq<bool>,
    pub seven_segments: Seq<u8>,
    pub icons2: Seq<bool>,
}

impl View for MeasurementData {
    type V = MeasurementDataView;

    open spec fn view(&self) -> MeasurementDataView {
        MeasurementDataView {
            preamble: self.preamble,
            dmm_id: self.dmm_id,
            icons1: self.icons1@,
            seven_segments: self.seven_segments@,
            icons2: self.icons2@,
        }
    }
}

/// The fields that the layout assigns to a plain frame.
pub open spec fn unpacked(plain: Seq<u8>) -> MeasurementDataView {
    MeasurementDataView {
        preamble: bits_value(plain, PREAMBLE_OFFSET as int, PREAMBLE_BITS as nat) as u16,
        dmm_id: bits_value(plain, DMM_ID_OFFSET as int, DMM_ID_BITS as nat) as u8,
        icons1: Seq::new(ICONS1_COUNT as nat, |i: int| bit_at(plain, ICONS1_OFFSET + i)),
        seven_segments: Seq::new(
            SEGMENT_COUNT as nat,
            |k: int| bits_value(plain, SEGMENTS_OFFSET + SEGMENT_BITS * k, SEGMENT_BITS as nat) as u8,
        ),
        icons2: Seq::new(ICONS2_COUNT as nat, |j: int| bit_at(plain, ICONS2_OFFSET + j)),
    }
}

/// The device variant is a field of two bits.
pub proof fn lemma_dmm_id_range(plain: Seq<u8>)
    ensures
        unpacked(plain).dmm_id <= 3,
{
    lemma_bits_value_bound(plain, DMM_ID_OFFSET as int, DMM_ID_BITS as nat);
    assert(field_bound(2) == 4) by {
        reveal_with_fuel(field_bound, 3);
    }
}

/// Splits a plain frame into its fields. A record of any other length than
/// a frame's is refused with `FormatError`.
pub fn unpack(plain: &[u8]) -> (result: Result<MeasurementData, DecodeError>)
    ensures
        plain@.len() == FRAME_LEN ==> result is Ok && result->Ok_0@ == unpacked(plain@),
        plain@.len() != FRAME_LEN ==> result == Err::<MeasurementData, DecodeError>(
            DecodeError::FormatError,
        ),
{
    if plain.len() != FRAME_LEN {
        return Err(DecodeError::FormatError);
    }
    proof {
        lemma_bits_value_bound(plain@, PREAMBLE_OFFSET as int, PREAMBLE_BITS as nat);
        lemma_bits_value_bound(plain@, DMM_ID_OFFSET as int, DMM_ID_BITS as nat);
        assert(field_bound(16) == 0x1_0000) by {
            reveal_with_fuel(field_bound, 17);
        }
        assert(field_bound(2) == 4) by {
            reveal_with_fuel(field_bound, 3);
        }
    }
    let preamble: u16 = read_bits(plain, PREAMBLE_OFFSET, PREAMBLE_BITS) as u16;
    let dmm_id: u8 = read_bits(plain, DMM_ID_OFFSET, DMM_ID_BITS) as u8;

    let mut icons1: [bool; ICONS1_COUNT] = [false; ICONS1_COUNT];
    let mut i: usize = 0;
    while i < ICONS1_COUNT
        invariant
            i <= ICONS1_COUNT,
            plain@.len() == FRAME_LEN,
            forall|n: int| 0 <= n < i ==> icons1@[n] == bit_at(plain@, ICONS1_OFFSET + n),
        decreases ICONS1_COUNT - i,
    {
        icons1[i] = read_bit(plain, ICONS1_OFFSET + i);
        i += 1;
    }

    let mut seven_segments: [u8; SEGMENT_COUNT] = [0u8; SEGMENT_COUNT];
    let mut k: usize = 0;
    while k < SEGMENT_COUNT
        invariant
            k <= SEGMENT_COUNT,
            plain@.len() == FRAME_LEN,
            forall|n: int|
                0 <= n < k ==> seven_segments@[n] == bits_value(
                    plain@,
                    SEGMENTS_OFFSET + SEGMENT_BITS * n,
                    SEGMENT_BITS as nat,
                ) as u8,
        decreases SEGMENT_COUNT - k,
    {
        let offset: usize = SEGMENTS_OFFSET + SEGMENT_BITS * k;
        proof {
            lemma_bits_value_bound(plain@, offset as int, SEGMENT_BITS as nat);
            assert(field_bound(8) == 0x100) by {
                reveal_with_fuel(field_bound, 9);
            }
        }
        seven_segments[k] = read_bits(plain, offset, SEGMENT_BITS) as u8;
        k += 1;
    }

    let mut icons2: [bool; ICONS2_COUNT] = [false; ICONS2_COUNT];
    let mut j: usize = 0;
    while j < ICONS2_COUNT
        invariant
            j <= ICONS2_COUNT,
            plain@.len() == FRAME_LEN,
            forall|n: int| 0 <= n < j ==> icons2@[n] == bit_at(plain@, ICONS2_OFFSET + n),
        decreases ICONS2_COUNT - j,
    {
        icons2[j] = read_bit(plain, ICONS2_OFFSET + j);
        j += 1;
    }

    let data = MeasurementData { preamble, dmm_id, icons1, seven_segments, icons2 };
    proof {
        assert(data@.icons1 =~= unpacked(plain@).icons1);
        assert(data@.seven_segments =~= unpacked(plain@).seven_segments);
        assert(data@.icons2 =~= unpacked(plain@).icons2);
    }
    Ok(data)
}

} // verus!
