//! One digit position of the display: seven segments and a dot.

use vstd::prelude::*;

verus! {

pub const TOP: u8 = 0b001_0000;

pub const TOP_LEFT: u8 = 0b010_0000;

pub const TOP_RIGHT: u8 = 0b000_0001;

pub const MIDDLE: u8 = 0b000_0010;

pub const BOTTOM_LEFT: u8 = 0b100_0000;

pub const BOTTOM_RIGHT: u8 = 0b000_0100;

pub const BOTTOM: u8 = 0b000_1000;

/// The eighth bit: a decimal point before the digit, or a minus sign when
/// the digit is the first one.
pub const DOT_DASH: u8 = 0b1000_0000;

/// The seven bits that select the glyph.
pub const GLYPH_MASK: u8 = 0b0111_1111;

/// The character that stands for a glyph the table does not know.
pub const UNKNOWN_GLYPH: char = '?';

/// The character that a pattern of seven segments shows, if the meter is
/// known to show it. The first nineteen are digits and the letters of the
/// meter's text modes; the rest are kept for meters that may show them.
pub open spec fn glyph_of(pattern: u8) -> Option<char> {
    match pattern {
        0b111_1101u8 => Some('0'),
        0b000_0101u8 => Some('1'),
        0b101_1011u8 => Some('2'),
        0b001_1111u8 => Some('3'),
        0b010_0111u8 => Some('4'),
        0b011_1110u8 => Some('5'),
        0b111_1110u8 => Some('6'),
        0b001_0101u8 => Some('7'),
        0b111_1111u8 => Some('8'),
        0b011_1111u8 => Some('9'),
        0b111_0111u8 => Some('A'),
        0b100_1100u8 => Some('u'),
        0b110_1010u8 => Some('t'),
        0b100_1110u8 => Some('o'),
        0b110_1000u8 => Some('L'),
        0b111_1010u8 => Some('E'),
        0b111_0010u8 => Some('F'),
        0b000_0000u8 => Some(' '),
        0b000_0010u8 => Some('-'),
        0b110_1110u8 => Some('b'),
        0b111_1000u8 => Some('C'),
        0b100_1010u8 => Some('c'),
        0b100_1111u8 => Some('d'),
        0b110_0111u8 => Some('H'),
        0b100_1101u8 => Some('J'),
        0b100_0110u8 => Some('n'),
        0b111_0011u8 => Some('P'),
        0b100_0010u8 => Some('r'),
        0b110_1101u8 => Some('U'),
        0b010_1111u8 => Some('Y'),
        _ => None,
    }
}

/// Looks a pattern of seven segments up in the glyph table.
pub fn lookup_glyph(pattern: u8) -> (glyph: Option<char>)
    ensures
        glyph == glyph_of(pattern),
{
    match pattern {
        0b111_1101u8 => Some('0'),
        0b000_0101u8 => Some('1'),
        0b101_1011u8 => Some('2'),
        0b001_1111u8 => Some('3'),
        0b010_0111u8 => Some('4'),
        0b011_1110u8 => Some('5'),
        0b111_1110u8 => Some('6'),
        0b001_0101u8 => Some('7'),
        0b111_1111u8 => Some('8'),
        0b011_1111u8 => Some('9'),
        0b111_0111u8 => Some('A'),
        0b100_1100u8 => Some('u'),
        0b110_1010u8 => Some('t'),
        0b100_1110u8 => Some('o'),
        0b110_1000u8 => Some('L'),
        0b111_1010u8 => Some('E'),
        0b111_0010u8 => Some('F'),
        0b000_0000u8 => Some(' '),
        0b000_0010u8 => Some('-'),
        0b110_1110u8 => Some('b'),
        0b111_1000u8 => Some('C'),
        0b100_1010u8 => Some('c'),
        0b100_1111u8 => Some('d'),
        0b110_0111u8 => Some('H'),
        0b100_1101u8 => Some('J'),
        0b100_0110u8 => Some('n'),
        0b111_0011u8 => Some('P'),
        0b100_0010u8 => Some('r'),
        0b110_1101u8 => Some('U'),
        0b010_1111u8 => Some('Y'),
        _ => None,
    }
}

/// One digit position of the display.
#[derive(Debug, Clone, Copy, PartialEq, Eq)]
pub struct SevenSegmentDisplay {
    /// Bits 0 to 6 are the segments, bit 7 is the dot or dash.
    pub segments: u8,
}

impl SevenSegmentDisplay {
    /// Whether any of the bits of `mask` is set.
    pub open spec fn lit(self, mask: u8) -> bool {
        self.segments & mask != 0
    }

    /// The character that the seven segments show, if it is a known one.
    pub open spec fn text(self) -> Option<char> {
        glyph_of(self.segments & GLYPH_MASK)
    }

    /// The character that stands for the digit in a reading: the one it
    /// shows, or the placeholder.
    pub open spec fn glyph(self) -> char {
        match self.text() {
            Some(c) => c,
            None => UNKNOWN_GLYPH,
        }
    }

    pub fn get_top(&self) -> (lit: bool)
        ensures
            lit == self.lit(TOP),
    {
        self.segments & TOP != 0
    }

    pub fn get_top_left(&self) -> (lit: bool)
        ensures
            lit == self.lit(TOP_LEFT),
    {
        self.segments & TOP_LEFT != 0
    }

    pub fn get_top_right(&self) -> (lit: bool)
        ensures
            lit == self.lit(TOP_RIGHT),
    {
        self.segments & TOP_RIGHT != 0
    }

    pub fn get_middle(&self) -> (lit: bool)
        ensures
            lit == self.lit(MIDDLE),
    {
        self.segments & MIDDLE != 0
    }

    pub fn get_bottom_left(&self) -> (lit: bool)
        ensures
            lit == self.lit(BOTTOM_LEFT),
    {
        self.segments & BOTTOM_LEFT != 0
    }

    pub fn get_bottom_right(&self) -> (lit: bool)
        ensures
            lit == self.lit(BOTTOM_RIGHT),
    {
        self.segments & BOTTOM_RIGHT != 0
    }

    pub fn get_bottom(&self) -> (lit: bool)
        ensures
            lit == self.lit(BOTTOM),
    {
        self.segments & BOTTOM != 0
    }

    pub fn get_dot_dash(&self) -> (lit: bool)
        ensures
            lit == self.lit(DOT_DASH),
    {
        self.segments & DOT_DASH != 0
    }

    /// The character that the seven segments show; `None` for a pattern
    /// that the table does not hold. The dot takes no part in the lookup.
    pub fn get_text(&self) -> (text: Option<char>)
        ensures
            text == self.text(),
    {
        lookup_glyph(self.segments & GLYPH_MASK)
    }
}

/// The dot changes neither the character of a digit nor any of its segments.
pub proof fn lemma_dot_is_independent(segments: u8)
    ensures
        (SevenSegmentDisplay { segments: segments ^ DOT_DASH }).text() == (SevenSegmentDisplay {
            segments,
        }).text(),
        (SevenSegmentDisplay { segments: segments ^ DOT_DASH }).lit(DOT_DASH) != (
        SevenSegmentDisplay { segments }).lit(DOT_DASH),
{
    assert((segments ^ 0x80u8) & 0x7fu8 == segments & 0x7fu8) by (bit_vector);
    assert(((segments ^ 0x80u8) & 0x80u8 != 0) != (segments & 0x80u8 != 0)) by (bit_vector);
}

} // verus!
