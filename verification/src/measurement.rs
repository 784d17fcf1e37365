//! The decoder: from the eleven raw bytes of a frame to a measurement.

use vstd::prelude::*;
use crate::error::DecodeError;
use crate::frame::{lemma_dmm_id_range, unpack, unpacked, MeasurementData, SEGMENT_COUNT};
use crate::icon::{
    icon_table, is_shown, lemma_no_flag_no_icon, lemma_resolved_icon_source, lemma_shown_positions,
    resolve_icons, resolved_icons, shown_positions, DisplayIcon, DMM_3, ICON_FLAGS,
};
use crate::keystream::{decode_keystream, plain_frame, FRAME_LEN};
use crate::literal::{is_decimal_literal, is_number_literal, lemma_short_literal_fits, number_of};
use crate::number::NumberView;
use crate::segment::SevenSegmentDisplay;
use crate::unit::{resolve_unit, text_view, unit_of};
use crate::value::{
    display_text, lemma_reading_text_of_four, reading_text, value_of, DisplayValue,
    DisplayValueView,
};

verus! {

/// What a frame says: the state of the display at one moment.
#[derive(Debug, Clone, PartialEq, Eq)]
pub struct Measurement {
    /// The variant of the meter, 0 to 3.
    pub dmm_id: u8,
    /// The digit positions of the display, leftmost first.
    pub display_segments: [SevenSegmentDisplay; SEGMENT_COUNT],
    /// The reading that the digits spell.
    pub displayed_value: DisplayValue,
    /// The icons that are shown, in the order of their flags in the frame.
    pub displayed_icons: Vec<DisplayIcon>,
    /// The unit of the reading, where the icons imply one.
    pub value_unit: Option<String>,
}

/// A `Measurement` with its collections as sequences.
pub struct MeasurementView {
    pub dmm_id: u8,
    pub display_segments: Seq<SevenSegmentDisplay>,
    pub displayed_value: DisplayValueView,
    pub displayed_icons: Seq<DisplayIcon>,
    pub value_unit: Option<Seq<char>>,
}

impl View for Measurement {
    type V = MeasurementView;

    open spec fn view(&self) -> MeasurementView {
        MeasurementView {
            dmm_id: self.dmm_id,
            display_segments: self.display_segments@,
            displayed_value: self.displayed_value@,
            displayed_icons: self.displayed_icons@,
            value_unit: text_view(self.value_unit),
        }
    }
}

impl MeasurementView {
    /// Whether the parts of a measurement agree: the value is the reading
    /// of the digits and the unit is the one the icons imply.
    pub open spec fn consistent(self) -> bool {
        &&& self.dmm_id <= 3
        &&& self.display_segments.len() == SEGMENT_COUNT
        &&& self.displayed_value == value_of(reading_text(self.display_segments))
        &&& self.value_unit == unit_of(self.displayed_icons)
    }
}

/// The icon flags of a raw frame, in the order of their positions.
pub open spec fn icon_flags(raw: Seq<u8>) -> Seq<bool> {
    let fields = unpacked(plain_frame(raw));
    fields.icons1 + fields.icons2
}

/// The digit positions of a raw frame, leftmost first.
pub open spec fn display_segments(raw: Seq<u8>) -> Seq<SevenSegmentDisplay> {
    let fields = unpacked(plain_frame(raw));
    Seq::new(
        SEGMENT_COUNT as nat,
        |k: int| SevenSegmentDisplay { segments: fields.seven_segments[k] },
    )
}

/// The measurement that a raw frame holds.
pub open spec fn decoded(raw: Seq<u8>) -> MeasurementView {
    let dmm_id = unpacked(plain_frame(raw)).dmm_id;
    let icons = resolved_icons(dmm_id, icon_flags(raw));
    MeasurementView {
        dmm_id,
        display_segments: display_segments(raw),
        displayed_value: value_of(reading_text(display_segments(raw))),
        displayed_icons: icons,
        value_unit: unit_of(icons),
    }
}

/// What `Measurement::from_bytes` owes for the payload `raw`: the
/// measurement of a frame, and a length error for anything else.
pub open spec fn decodes_to(raw: Seq<u8>, result: Result<Measurement, DecodeError>) -> bool {
    if raw.len() == FRAME_LEN {
        result is Ok && result->Ok_0@ == decoded(raw)
    } else {
        result == Err::<Measurement, DecodeError>(DecodeError::LengthError)
    }
}

impl Measurement {
    /// Decodes the payload of one notification. A payload of eleven bytes
    /// always decodes; any other length is a `LengthError`.
    pub fn from_bytes(data: &[u8]) -> (result: Result<Measurement, DecodeError>)
        ensures
            decodes_to(data@, result),
            data@.len() == FRAME_LEN <==> result is Ok,
            result matches Ok(measurement) ==> measurement@.consistent(),
    {
        if data.len() != FRAME_LEN {
            return Err(DecodeError::LengthError);
        }
        proof {
            lemma_decoded_is_consistent(data@);
        }
        let mut raw: [u8; FRAME_LEN] = [0u8; FRAME_LEN];
        let mut i: usize = 0;
        while i < FRAME_LEN
            invariant
                i <= FRAME_LEN,
                data@.len() == FRAME_LEN,
                forall|j: int| 0 <= j < i ==> raw@[j] == data@[j],
            decreases FRAME_LEN - i,
        {
            raw[i] = data[i];
            i += 1;
        }
        assert(raw@ =~= data@);
        let plain: [u8; FRAME_LEN] = decode_keystream(&raw);
        let fields: MeasurementData = match unpack(plain.as_slice()) {
            Ok(fields) => fields,
            Err(error) => {
                return Err(error);
            },
        };
        let display_segments: [SevenSegmentDisplay; SEGMENT_COUNT] = [
            SevenSegmentDisplay { segments: fields.seven_segments[0] },
            SevenSegmentDisplay { segments: fields.seven_segments[1] },
            SevenSegmentDisplay { segments: fields.seven_segments[2] },
            SevenSegmentDisplay { segments: fields.seven_segments[3] },
        ];
        assert(display_segments@ =~= self::display_segments(data@));
        let text: String = display_text(display_segments.as_slice());
        let displayed_value: DisplayValue = DisplayValue::parse(text.as_str());
        let displayed_icons: Vec<DisplayIcon> = resolve_icons(
            fields.dmm_id,
            &fields.icons1,
            &fields.icons2,
        );
        let value_unit: Option<String> = resolve_unit(displayed_icons.as_slice());
        Ok(
            Measurement {
                dmm_id: fields.dmm_id,
                display_segments,
                displayed_value,
                displayed_icons,
                value_unit,
            },
        )
    }
}

/// Decoding is a function of the bytes: two results for the same payload
/// are the same measurement, or the same error.
pub proof fn lemma_decoding_is_pure(
    first: Seq<u8>,
    second: Seq<u8>,
    first_result: Result<Measurement, DecodeError>,
    second_result: Result<Measurement, DecodeError>,
)
    requires
        first == second,
        decodes_to(first, first_result),
        decodes_to(second, second_result),
    ensures
        first_result is Ok <==> second_result is Ok,
        first_result is Ok ==> first_result->Ok_0@ == second_result->Ok_0@,
        first_result is Err ==> first_result == second_result,
{
}

/// Decoding succeeds on every payload of eleven bytes, whatever they hold,
/// and fails on no other ground than the length.
pub proof fn lemma_decoding_is_total(raw: Seq<u8>, result: Result<Measurement, DecodeError>)
    requires
        decodes_to(raw, result),
    ensures
        raw.len() == FRAME_LEN <==> result is Ok,
        result is Err ==> result->Err_0 == DecodeError::LengthError,
{
}

/// The parts of a decoded measurement agree with each other, and the
/// variant is one of the four that two bits can name.
pub proof fn lemma_decoded_is_consistent(raw: Seq<u8>)
    ensures
        decoded(raw).consistent(),
        icon_flags(raw).len() == ICON_FLAGS,
{
    lemma_dmm_id_range(plain_frame(raw));
}

/// The reading of a frame is a number exactly where its text is a number
/// literal, and else the text as the digits spell it. Four digits never
/// spell a decimal too large for machine integers.
pub proof fn lemma_decoded_value(raw: Seq<u8>)
    ensures
        ({
            let text = reading_text(display_segments(raw));
            let value = decoded(raw).displayed_value;
            &&& 4 <= text.len() <= 8
            &&& value is Number <==> is_number_literal(text)
            &&& value is Number ==> number_of(text) == Some(value->Number_0)
            &&& value is Text ==> value->Text_0 == text
            &&& value matches DisplayValueView::Number(NumberView::Finite(decimal))
                ==> decimal.fits()
        }),
{
    let text = reading_text(display_segments(raw));
    lemma_reading_text_of_four(display_segments(raw));
    if is_decimal_literal(text) {
        lemma_short_literal_fits(text);
    }
}

/// A frame with no icon flag set shows no icon and has no unit.
pub proof fn lemma_no_icon_flag(raw: Seq<u8>)
    requires
        forall|position: int| 0 <= position < icon_flags(raw).len() ==> !icon_flags(raw)[position],
    ensures
        decoded(raw).displayed_icons == Seq::<DisplayIcon>::empty(),
        decoded(raw).value_unit is None,
{
    lemma_no_flag_no_icon(unpacked(plain_frame(raw)).dmm_id, icon_flags(raw));
}

/// The icons of a decoded measurement stand in the order of their flags:
/// each is the table entry of a flag that is set, and the positions of
/// their flags ascend strictly, so no flag is listed twice.
pub proof fn lemma_decoded_icons_ascend(raw: Seq<u8>)
    ensures
        ({
            let dmm_id = decoded(raw).dmm_id;
            let flags = icon_flags(raw);
            let positions = shown_positions(dmm_id, flags, flags.len());
            let icons = decoded(raw).displayed_icons;
            &&& icons.len() == positions.len()
            &&& forall|k: int|
                0 <= k < icons.len() ==> 0 <= #[trigger] positions[k] < flags.len()
                    && flags[positions[k]] && icon_table(dmm_id, positions[k]) == Some(icons[k])
            &&& forall|j: int, k: int|
                0 <= j < k < positions.len() ==> positions[j] < positions[k]
            &&& forall|position: int|
                0 <= position < flags.len() && flags[position] ==> positions.contains(position)
        }),
{
    let dmm_id = decoded(raw).dmm_id;
    let flags = icon_flags(raw);
    let positions = shown_positions(dmm_id, flags, flags.len());
    let icons = decoded(raw).displayed_icons;
    lemma_shown_positions(dmm_id, flags, flags.len());
    assert forall|k: int| 0 <= k < icons.len() implies 0 <= #[trigger] positions[k] < flags.len()
        && flags[positions[k]] && icon_table(dmm_id, positions[k]) == Some(icons[k]) by {
        assert(is_shown(dmm_id, flags, positions[k]));
    }
    assert forall|position: int|
        0 <= position < flags.len() && flags[position] implies positions.contains(position) by {
        assert(is_shown(dmm_id, flags, position));
    }
}

/// A frame that shows the volt icon and the millivolt icon reads in
/// millivolts: only the table of variant 3 holds the millivolt icon, and
/// that table has no nano icon.
pub proof fn lemma_frame_millivolt_before_volt(raw: Seq<u8>)
    requires
        decoded(raw).displayed_icons.contains(DisplayIcon::Volt),
        decoded(raw).displayed_icons.contains(DisplayIcon::MilliVolt),
    ensures
        decoded(raw).dmm_id == DMM_3,
        decoded(raw).value_unit == Some("mV"@),
{
    let dmm_id = decoded(raw).dmm_id;
    let flags = icon_flags(raw);
    lemma_resolved_icon_source(dmm_id, flags, DisplayIcon::MilliVolt);
    if resolved_icons(dmm_id, flags).contains(DisplayIcon::Nano) {
        lemma_resolved_icon_source(dmm_id, flags, DisplayIcon::Nano);
    }
}

} // verus!
