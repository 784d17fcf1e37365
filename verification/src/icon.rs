//! The status icons of the display and the tables that place them.
//!
//! A frame carries thirty-one icon flags. What a flag means depends on the
//! variant of the meter: variant 3 has its own table, every other variant
//! uses the table of variant 1.

use vstd::prelude::*;
use crate::frame::{ICONS1_COUNT, ICONS2_COUNT};

verus! {

/// A status icon of the display.
#[derive(Debug, Clone, Copy, PartialEq, Eq, Hash)]
pub enum DisplayIcon {
    AC,
    Ampere,
    Auto,
    Bluetooth,
    Buzz,
    DC,
    DegC,
    DegF,
    Delta,
    Diode,
    Farad,
    Flash,
    Hertz,
    Hold,
    KiloOhm,
    Max,
    MegaOhm,
    MicroAmpere,
    MicroFarad,
    MilliAmpere,
    MilliFarad,
    MilliVolt,
    Min,
    Nano,
    NanoFarad,
    Ohm,
    Percent,
    Volt,
    /// A position that no icon is assigned to, with a label to tell it by.
    Unknown(&'static str),
}

/// Number of icon flags in a frame.
pub const ICON_FLAGS: usize = ICONS1_COUNT + ICONS2_COUNT;

/// Number of positions in an icon table. The last one is reserved: no flag
/// reaches it, and it still has an entry.
pub const ICON_TABLE_LEN: usize = 32;

/// The variant of the meter that has an icon table of its own.
pub const DMM_3: u8 = 3;

/// The icon table of variant 3.
pub open spec fn dmm_3_icon(position: usize) -> Option<DisplayIcon> {
    match position {
        0 => Some(DisplayIcon::Unknown("?1")),
        1 => Some(DisplayIcon::Delta),
        2 => Some(DisplayIcon::Bluetooth),
        3 => Some(DisplayIcon::Buzz),
        4 => Some(DisplayIcon::Hold),
        5 => Some(DisplayIcon::DegF),
        6 => Some(DisplayIcon::DegC),
        7 => Some(DisplayIcon::Diode),
        8 => Some(DisplayIcon::Max),
        9 => Some(DisplayIcon::Min),
        10 => Some(DisplayIcon::Percent),
        11 => Some(DisplayIcon::AC),
        12 => Some(DisplayIcon::Farad),
        13 => Some(DisplayIcon::MicroFarad),
        14 => Some(DisplayIcon::MilliFarad),
        15 => Some(DisplayIcon::NanoFarad),
        16 => Some(DisplayIcon::Hertz),
        17 => Some(DisplayIcon::Ohm),
        18 => Some(DisplayIcon::KiloOhm),
        19 => Some(DisplayIcon::MegaOhm),
        20 => Some(DisplayIcon::Volt),
        21 => Some(DisplayIcon::MilliVolt),
        22 => Some(DisplayIcon::DC),
        23 => Some(DisplayIcon::Ampere),
        24 => Some(DisplayIcon::Auto),
        25 => Some(DisplayIcon::Unknown("?2")),
        26 => Some(DisplayIcon::MicroAmpere),
        27 => Some(DisplayIcon::MilliAmpere),
        28 => Some(DisplayIcon::Unknown("?3")),
        29 => Some(DisplayIcon::Unknown("?4")),
        30 => Some(DisplayIcon::Unknown("?5")),
        31 => Some(DisplayIcon::Unknown("?6")),
        _ => None,
    }
}

/// The icon table of variant 1, which every variant but 3 uses.
pub open spec fn dmm_1_icon(position: usize) -> Option<DisplayIcon> {
    match position {
        0 => Some(DisplayIcon::Unknown("?1")),
        1 => Some(DisplayIcon::Hold),
        2 => Some(DisplayIcon::Flash),
        3 => Some(DisplayIcon::Buzz),
        4 => Some(DisplayIcon::Unknown(" ")),
        5 => Some(DisplayIcon::Unknown(" ")),
        6 => Some(DisplayIcon::Unknown(" ")),
        7 => Some(DisplayIcon::Unknown(" ")),
        8 => Some(DisplayIcon::Nano),
        9 => Some(DisplayIcon::Volt),
        10 => Some(DisplayIcon::DC),
        11 => Some(DisplayIcon::AC),
        12 => Some(DisplayIcon::Farad),
        13 => Some(DisplayIcon::Diode),
        14 => Some(DisplayIcon::Ampere),
        15 => Some(DisplayIcon::MicroFarad),
        16 => Some(DisplayIcon::Ohm),
        17 => Some(DisplayIcon::KiloOhm),
        18 => Some(DisplayIcon::MegaOhm),
        19 => Some(DisplayIcon::Unknown(" ")),
        20 => Some(DisplayIcon::Hertz),
        21 => Some(DisplayIcon::DegF),
        22 => Some(DisplayIcon::DegC),
        23 => Some(DisplayIcon::Unknown(" ")),
        24 => Some(DisplayIcon::Unknown(" ")),
        25 => Some(DisplayIcon::Unknown(" ")),
        26 => Some(DisplayIcon::Unknown(" ")),
        27 => Some(DisplayIcon::Unknown(" ")),
        28 => Some(DisplayIcon::Unknown(" ")),
        29 => Some(DisplayIcon::Unknown(" ")),
        30 => Some(DisplayIcon::Unknown(" ")),
        31 => Some(DisplayIcon::Unknown(" ")),
        _ => None,
    }
}

/// The icon at `position` for the variant `dmm_id`; `None` past the end of
/// the table.
pub open spec fn icon_table(dmm_id: u8, position: int) -> Option<DisplayIcon> {
    if position < 0 || position >= ICON_TABLE_LEN {
        None
    } else if dmm_id == DMM_3 {
        dmm_3_icon(position as usize)
    } else {
        dmm_1_icon(position as usize)
    }
}

/// Both tables have an entry at every position below `ICON_TABLE_LEN` and
/// none elsewhere.
pub proof fn lemma_icon_table_domain(dmm_id: u8, position: int)
    ensures
        icon_table(dmm_id, position) is Some <==> 0 <= position < ICON_TABLE_LEN,
{
}

fn dmm_3_icon_at(position: usize) -> (icon: Option<DisplayIcon>)
    ensures
        icon == dmm_3_icon(position),
{
    match position {
        0 => Some(DisplayIcon::Unknown("?1")),
        1 => Some(DisplayIcon::Delta),
        2 => Some(DisplayIcon::Bluetooth),
        3 => Some(DisplayIcon::Buzz),
        4 => Some(DisplayIcon::Hold),
        5 => Some(DisplayIcon::DegF),
        6 => Some(DisplayIcon::DegC),
        7 => Some(DisplayIcon::Diode),
        8 => Some(DisplayIcon::Max),
        9 => Some(DisplayIcon::Min),
        10 => Some(DisplayIcon::Percent),
        11 => Some(DisplayIcon::AC),
        12 => Some(DisplayIcon::Farad),
        13 => Some(DisplayIcon::MicroFarad),
        14 => Some(DisplayIcon::MilliFarad),
        15 => Some(DisplayIcon::NanoFarad),
        16 => Some(DisplayIcon::Hertz),
        17 => Some(DisplayIcon::Ohm),
        18 => Some(DisplayIcon::KiloOhm),
        19 => Some(DisplayIcon::MegaOhm),
        20 => Some(DisplayIcon::Volt),
        21 => Some(DisplayIcon::MilliVolt),
        22 => Some(DisplayIcon::DC),
        23 => Some(DisplayIcon::Ampere),
        24 => Some(DisplayIcon::Auto),
        25 => Some(DisplayIcon::Unknown("?2")),
        26 => Some(DisplayIcon::MicroAmpere),
        27 => Some(DisplayIcon::MilliAmpere),
        28 => Some(DisplayIcon::Unknown("?3")),
        29 => Some(DisplayIcon::Unknown("?4")),
        30 => Some(DisplayIcon::Unknown("?5")),
        31 => Some(DisplayIcon::Unknown("?6")),
        _ => None,
    }
}

fn dmm_1_icon_at(position: usize) -> (icon: Option<DisplayIcon>)
    ensures
        icon == dmm_1_icon(position),
{
    match position {
        0 => Some(DisplayIcon::Unknown("?1")),
        1 => Some(DisplayIcon::Hold),
        2 => Some(DisplayIcon::Flash),
        3 => Some(DisplayIcon::Buzz),
        8 => Some(DisplayIcon::Nano),
        9 => Some(DisplayIcon::Volt),
        10 => Some(DisplayIcon::DC),
        11 => Some(DisplayIcon::AC),
        12 => Some(DisplayIcon::Farad),
        13 => Some(DisplayIcon::Diode),
        14 => Some(DisplayIcon::Ampere),
        15 => Some(DisplayIcon::MicroFarad),
        16 => Some(DisplayIcon::Ohm),
        17 => Some(DisplayIcon::KiloOhm),
        18 => Some(DisplayIcon::MegaOhm),
        20 => Some(DisplayIcon::Hertz),
        21 => Some(DisplayIcon::DegF),
        22 => Some(DisplayIcon::DegC),
        4 | 5 | 6 | 7 | 19 | 23 | 24 | 25 | 26 | 27 | 28 | 29 | 30 | 31 => Some(
            DisplayIcon::Unknown(" "),
        ),
        _ => None,
    }
}

/// Looks a position up in the table of the variant `dmm_id`. A position
/// past the end of the table has no icon.
pub fn icon_at(dmm_id: u8, position: usize) -> (icon: Option<DisplayIcon>)
    ensures
        icon == icon_table(dmm_id, position as int),
{
    if dmm_id == DMM_3 {
        dmm_3_icon_at(position)
    } else {
        dmm_1_icon_at(position)
    }
}

/// Whether the icon at `position` is shown: its flag is set and the table
/// of the variant has an entry for it.
pub open spec fn is_shown(dmm_id: u8, flags: Seq<bool>, position: int) -> bool {
    0 <= position < flags.len() && flags[position] && icon_table(dmm_id, position) is Some
}

/// The positions below `upto` whose icon is shown, in ascending order.
pub open spec fn shown_positions(dmm_id: u8, flags: Seq<bool>, upto: nat) -> Seq<int>
    decreases upto,
{
    if upto == 0 {
        Seq::empty()
    } else {
        let before = shown_positions(dmm_id, flags, (upto - 1) as nat);
        if is_shown(dmm_id, flags, upto - 1) {
            before.push(upto - 1)
        } else {
            before
        }
    }
}

/// The icons that a sequence of flags shows on a meter of the variant
/// `dmm_id`: the table entries of the shown positions, in ascending order
/// of position.
pub open spec fn resolved_icons(dmm_id: u8, flags: Seq<bool>) -> Seq<DisplayIcon> {
    shown_positions(dmm_id, flags, flags.len()).map_values(
        |position: int| icon_table(dmm_id, position)->Some_0,
    )
}

/// The shown positions are exactly the positions below `upto` whose icon is
/// shown, each listed once, in strictly ascending order.
pub proof fn lemma_shown_positions(dmm_id: u8, flags: Seq<bool>, upto: nat)
    ensures
        forall|k: int|
            0 <= k < shown_positions(dmm_id, flags, upto).len() ==> {
                let position = #[trigger] shown_positions(dmm_id, flags, upto)[k];
                position < upto && is_shown(dmm_id, flags, position)
            },
        forall|j: int, k: int|
            0 <= j < k < shown_positions(dmm_id, flags, upto).len() ==> shown_positions(
                dmm_id,
                flags,
                upto,
            )[j] < shown_positions(dmm_id, flags, upto)[k],
        forall|position: int|
            0 <= position < upto && is_shown(dmm_id, flags, position) ==> shown_positions(
                dmm_id,
                flags,
                upto,
            ).contains(position),
        shown_positions(dmm_id, flags, upto).len() <= upto,
    decreases upto,
{
    if upto > 0 {
        let before = shown_positions(dmm_id, flags, (upto - 1) as nat);
        let all = shown_positions(dmm_id, flags, upto);
        lemma_shown_positions(dmm_id, flags, (upto - 1) as nat);
        assert forall|position: int|
            0 <= position < upto && is_shown(dmm_id, flags, position) implies all.contains(
            position,
        ) by {
            if position < upto - 1 {
                let k = choose|k: int| 0 <= k < before.len() && before[k] == position;
                assert(all[k] == position);
            } else {
                assert(all[all.len() - 1] == position);
            }
        }
    }
}

/// Every resolved icon is the table entry of a flag that is set, and the
/// icons stand in the order of their flags.
pub proof fn lemma_resolved_icons_order(dmm_id: u8, flags: Seq<bool>)
    ensures
        resolved_icons(dmm_id, flags).len() == shown_positions(dmm_id, flags, flags.len()).len(),
        resolved_icons(dmm_id, flags).len() <= flags.len(),
        forall|k: int|
            0 <= k < resolved_icons(dmm_id, flags).len() ==> {
                let position = shown_positions(dmm_id, flags, flags.len())[k];
                &&& 0 <= position < flags.len()
                &&& flags[position]
                &&& icon_table(dmm_id, position) == Some(#[trigger] resolved_icons(dmm_id, flags)[k])
            },
{
    lemma_shown_positions(dmm_id, flags, flags.len());
}

/// An icon is shown only where the table of the variant holds it at a
/// position whose flag is set.
pub proof fn lemma_resolved_icon_source(dmm_id: u8, flags: Seq<bool>, icon: DisplayIcon)
    requires
        resolved_icons(dmm_id, flags).contains(icon),
    ensures
        exists|position: int|
            0 <= position < flags.len() && flags[position] && #[trigger] icon_table(
                dmm_id,
                position,
            ) == Some(icon),
{
    lemma_resolved_icons_order(dmm_id, flags);
    let icons = resolved_icons(dmm_id, flags);
    let k = choose|k: int| 0 <= k < icons.len() && icons[k] == icon;
    let position = shown_positions(dmm_id, flags, flags.len())[k];
    assert(icon_table(dmm_id, position) == Some(icons[k]));
}

/// The icon of every position whose flag is set is shown, as far as the
/// table of the variant reaches.
pub proof fn lemma_set_flag_is_resolved(dmm_id: u8, flags: Seq<bool>, position: int)
    requires
        0 <= position < flags.len(),
        position < ICON_TABLE_LEN,
        flags[position],
    ensures
        resolved_icons(dmm_id, flags).contains(icon_table(dmm_id, position)->Some_0),
{
    lemma_shown_positions(dmm_id, flags, flags.len());
    let positions = shown_positions(dmm_id, flags, flags.len());
    assert(is_shown(dmm_id, flags, position));
    let k = choose|k: int| 0 <= k < positions.len() && positions[k] == position;
    assert(resolved_icons(dmm_id, flags)[k] == icon_table(dmm_id, position)->Some_0);
}

/// Without a flag that is set, no icon is shown.
pub proof fn lemma_no_flag_no_icon(dmm_id: u8, flags: Seq<bool>)
    requires
        forall|position: int| 0 <= position < flags.len() ==> !flags[position],
    ensures
        resolved_icons(dmm_id, flags) == Seq::<DisplayIcon>::empty(),
{
    lemma_shown_positions(dmm_id, flags, flags.len());
    let positions = shown_positions(dmm_id, flags, flags.len());
    if positions.len() > 0 {
        assert(is_shown(dmm_id, flags, positions[0]));
    }
    assert(resolved_icons(dmm_id, flags) =~= Seq::<DisplayIcon>::empty());
}

/// Resolves the icon flags of a frame, `icons1` before `icons2`, into the
/// icons that a meter of the variant `dmm_id` shows. Each flag is visited
/// once, in ascending order; a flag without a table entry is passed over.
pub fn resolve_icons(
    dmm_id: u8,
    icons1: &[bool; ICONS1_COUNT],
    icons2: &[bool; ICONS2_COUNT],
) -> (icons: Vec<DisplayIcon>)
    ensures
        icons@ == resolved_icons(dmm_id, icons1@ + icons2@),
{
    let ghost flags = icons1@ + icons2@;
    let mut icons: Vec<DisplayIcon> = Vec::new();
    let mut position: usize = 0;
    while position < ICON_FLAGS
        invariant
            position <= ICON_FLAGS,
            flags == icons1@ + icons2@,
            flags.len() == ICON_FLAGS,
            icons@ == shown_positions(dmm_id, flags, position as nat).map_values(
                |p: int| icon_table(dmm_id, p)->Some_0,
            ),
        decreases ICON_FLAGS - position,
    {
        let flag: bool = if position < ICONS1_COUNT {
            icons1[position]
        } else {
            icons2[position - ICONS1_COUNT]
        };
        assert(flag == flags[position as int]);
        if flag {
            if let Some(icon) = icon_at(dmm_id, position) {
                icons.push(icon);
            }
        }
        position += 1;
    }
    icons
}

} // verus!
