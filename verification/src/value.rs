//! The reading of the display: the text that its digits spell, and the
//! number where that text is one.

use vstd::prelude::*;
use crate::literal::{is_number_literal, number_of};
use crate::number::{parse_number, Number, NumberView};
use crate::segment::{SevenSegmentDisplay, DOT_DASH, UNKNOWN_GLYPH};
use crate::text::chars_of;

verus! {

/// What the display shows: a number, or the text as it stands where the
/// text is no number.
#[derive(Debug, Clone, PartialEq, Eq)]
pub enum DisplayValue {
    Number(Number),
    Text(String),
}

/// A `DisplayValue` with its text as a sequence of characters.
pub enum DisplayValueView {
    Number(NumberView),
    Text(Seq<char>),
}

impl View for DisplayValue {
    type V = DisplayValueView;

    open spec fn view(&self) -> DisplayValueView {
        match self {
            DisplayValue::Number(number) => DisplayValueView::Number(number@),
            DisplayValue::Text(text) => DisplayValueView::Text(text@),
        }
    }
}

/// The value that a text shows: its number where it is a number literal,
/// else the text itself, unchanged.
pub open spec fn value_of(text: Seq<char>) -> DisplayValueView {
    match number_of(text) {
        Some(number) => DisplayValueView::Number(number),
        None => DisplayValueView::Text(text),
    }
}

impl DisplayValue {
    /// Reads a text: a `Number` for every number literal, and the `Text`
    /// unchanged for every other text.
    pub fn parse(text: &str) -> (value: DisplayValue)
        ensures
            value@ == value_of(text@),
            value is Number <==> is_number_literal(text@),
            value matches DisplayValue::Text(kept) ==> kept@ == text@,
    {
        let chars: Vec<char> = chars_of(text);
        match parse_number(chars.as_slice()) {
            Some(number) => DisplayValue::Number(number),
            None => DisplayValue::Text(text.to_owned()),
        }
    }
}

/// What one digit position adds to the reading: its character, behind a
/// point where its dot is lit and it is not the first position.
pub open spec fn digit_text(segment: SevenSegmentDisplay, first: bool) -> Seq<char> {
    if !first && segment.lit(DOT_DASH) {
        seq!['.', segment.glyph()]
    } else {
        seq![segment.glyph()]
    }
}

/// What the digit positions spell, left to right.
pub open spec fn digits_text(segments: Seq<SevenSegmentDisplay>) -> Seq<char>
    decreases segments.len(),
{
    if segments.len() == 0 {
        Seq::empty()
    } else {
        digits_text(segments.drop_last()) + digit_text(segments.last(), segments.len() == 1)
    }
}

/// The sign of the reading: a minus where the dot of the first position is
/// lit.
pub open spec fn sign_text(segments: Seq<SevenSegmentDisplay>) -> Seq<char> {
    if segments.len() > 0 && segments[0].lit(DOT_DASH) {
        seq!['-']
    } else {
        Seq::empty()
    }
}

/// The text of the reading.
pub open spec fn reading_text(segments: Seq<SevenSegmentDisplay>) -> Seq<char> {
    sign_text(segments) + digits_text(segments)
}

/// The reading of a display of four digits, written out.
pub proof fn lemma_reading_text_of_four(segments: Seq<SevenSegmentDisplay>)
    requires
        segments.len() == 4,
    ensures
        reading_text(segments) == sign_text(segments) + seq![segments[0].glyph()] + digit_text(
            segments[1],
            false,
        ) + digit_text(segments[2], false) + digit_text(segments[3], false),
        4 <= reading_text(segments).len() <= 8,
{
    let three = segments.drop_last();
    let two = three.drop_last();
    let one = two.drop_last();
    assert(digits_text(one.drop_last()) =~= Seq::<char>::empty());
    assert(one.last() == segments[0]);
    assert(two.last() == segments[1]);
    assert(three.last() == segments[2]);
    assert(digit_text(segments[0], true) =~= seq![segments[0].glyph()]);
    assert(digits_text(one) =~= seq![segments[0].glyph()]);
    assert(digits_text(two) =~= digits_text(one) + digit_text(segments[1], false));
    assert(digits_text(three) =~= digits_text(two) + digit_text(segments[2], false));
    assert(digits_text(segments) =~= digits_text(three) + digit_text(segments[3], false));
}

/// Spells the reading of the display: a minus where the dot of the first
/// position is lit, then for each position its character, or `?` where the
/// pattern is unknown, with a point before it where the dot of a later
/// position is lit.
pub fn display_text(segments: &[SevenSegmentDisplay]) -> (text: String)
    ensures
        text@ == reading_text(segments@),
{
    let mut text: String = String::new();
    if segments.len() > 0 && segments[0].get_dot_dash() {
        text.push('-');
    }
    let mut i: usize = 0;
    while i < segments.len()
        invariant
            i <= segments@.len(),
            text@ == sign_text(segments@) + digits_text(segments@.take(i as int)),
        decreases segments@.len() - i,
    {
        let segment: SevenSegmentDisplay = segments[i];
        proof {
            let longer = segments@.take(i + 1);
            assert(longer.drop_last() =~= segments@.take(i as int));
            assert(longer.last() == segment);
        }
        if i != 0 && segment.get_dot_dash() {
            text.push('.');
        }
        match segment.get_text() {
            Some(c) => text.push(c),
            None => text.push(UNKNOWN_GLYPH),
        }
        i += 1;
    }
    assert(segments@.take(segments@.len() as int) =~= segments@);
    text
}

} // verus!
