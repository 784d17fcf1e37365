//! The unit of a reading, as the icons imply it.
//!
//! The unit icons are tried in a fixed order and the first one that is
//! shown decides: millivolt, volt, milliampere, microampere, ampere,
//! kilo-ohm, mega-ohm, ohm, microfarad, millifarad, farad, degree Celsius,
//! degree Fahrenheit, hertz, percent. The nano icon then puts an `n` in
//! front of the unit that was found.

use vstd::prelude::*;
use vstd::string::StringExecFns;
use crate::icon::DisplayIcon;

verus! {

/// The unit that the icons imply before the nano icon is looked at.
pub open spec fn base_unit(icons: Seq<DisplayIcon>) -> Option<Seq<char>> {
    if icons.contains(DisplayIcon::MilliVolt) {
        Some("mV"@)
    } else if icons.contains(DisplayIcon::Volt) {
        Some("V"@)
    } else if icons.contains(DisplayIcon::MilliAmpere) {
        Some("mA"@)
    } else if icons.contains(DisplayIcon::MicroAmpere) {
        Some("μA"@)
    } else if icons.contains(DisplayIcon::Ampere) {
        Some("A"@)
    } else if icons.contains(DisplayIcon::KiloOhm) {
        Some("kΩ"@)
    } else if icons.contains(DisplayIcon::MegaOhm) {
        Some("MΩ"@)
    } else if icons.contains(DisplayIcon::Ohm) {
        Some("Ω"@)
    } else if icons.contains(DisplayIcon::MicroFarad) {
        Some("μF"@)
    } else if icons.contains(DisplayIcon::MilliFarad) {
        Some("mF"@)
    } else if icons.contains(DisplayIcon::Farad) {
        Some("F"@)
    } else if icons.contains(DisplayIcon::DegC) {
        Some("°C"@)
    } else if icons.contains(DisplayIcon::DegF) {
        Some("°F"@)
    } else if icons.contains(DisplayIcon::Hertz) {
        Some("Hz"@)
    } else if icons.contains(DisplayIcon::Percent) {
        Some("%"@)
    } else {
        None
    }
}

/// The unit that the icons imply: the base unit, with `n` in front of it
/// where the nano icon is shown; none where no unit icon is shown.
pub open spec fn unit_of(icons: Seq<DisplayIcon>) -> Option<Seq<char>> {
    match base_unit(icons) {
        Some(unit) => if icons.contains(DisplayIcon::Nano) {
            Some("n"@ + unit)
        } else {
            Some(unit)
        },
        None => None,
    }
}

/// Whether an icon names a unit.
pub open spec fn is_unit_icon(icon: DisplayIcon) -> bool {
    match icon {
        DisplayIcon::MilliVolt
        | DisplayIcon::Volt
        | DisplayIcon::MilliAmpere
        | DisplayIcon::MicroAmpere
        | DisplayIcon::Ampere
        | DisplayIcon::KiloOhm
        | DisplayIcon::MegaOhm
        | DisplayIcon::Ohm
        | DisplayIcon::MicroFarad
        | DisplayIcon::MilliFarad
        | DisplayIcon::Farad
        | DisplayIcon::DegC
        | DisplayIcon::DegF
        | DisplayIcon::Hertz
        | DisplayIcon::Percent => true,
        _ => false,
    }
}

/// The view of an optional text.
pub open spec fn text_view(text: Option<String>) -> Option<Seq<char>> {
    match text {
        Some(t) => Some(t@),
        None => None,
    }
}

/// There is a unit exactly when one of the unit icons is shown.
pub proof fn lemma_unit_needs_unit_icon(icons: Seq<DisplayIcon>)
    ensures
        unit_of(icons) is Some <==> exists|k: int|
            0 <= k < icons.len() && is_unit_icon(#[trigger] icons[k]),
        unit_of(icons) is Some <==> base_unit(icons) is Some,
{
    if base_unit(icons) is None {
        assert forall|k: int| 0 <= k < icons.len() implies !is_unit_icon(#[trigger] icons[k]) by {
            if is_unit_icon(icons[k]) {
                assert(icons.contains(icons[k]));
            }
        }
    }
}

/// Where the millivolt icon and the volt icon are both shown, the reading
/// is in millivolts.
pub proof fn lemma_millivolt_before_volt(icons: Seq<DisplayIcon>)
    requires
        icons.contains(DisplayIcon::Volt),
        icons.contains(DisplayIcon::MilliVolt),
    ensures
        base_unit(icons) == Some("mV"@),
        !icons.contains(DisplayIcon::Nano) ==> unit_of(icons) == Some("mV"@),
{
}

/// Where the kilo-ohm icon and the ohm icon are both shown, and none of the
/// voltage and current icons that are tried before them, the reading is in
/// kilo-ohms.
pub proof fn lemma_kiloohm_before_ohm(icons: Seq<DisplayIcon>)
    requires
        icons.contains(DisplayIcon::Ohm),
        icons.contains(DisplayIcon::KiloOhm),
        !icons.contains(DisplayIcon::MilliVolt),
        !icons.contains(DisplayIcon::Volt),
        !icons.contains(DisplayIcon::MilliAmpere),
        !icons.contains(DisplayIcon::MicroAmpere),
        !icons.contains(DisplayIcon::Ampere),
    ensures
        base_unit(icons) == Some("kΩ"@),
        !icons.contains(DisplayIcon::Nano) ==> unit_of(icons) == Some("kΩ"@),
{
}

/// Without icons there is no unit.
pub proof fn lemma_no_icon_no_unit()
    ensures
        unit_of(Seq::<DisplayIcon>::empty()) is None,
{
}

/// Whether two icons are the same, for an icon `b` that has a name.
fn same_icon(a: DisplayIcon, b: DisplayIcon) -> (same: bool)
    requires
        !(b is Unknown),
    ensures
        same == (a == b),
{
    match (a, b) {
        (DisplayIcon::AC, DisplayIcon::AC) => true,
        (DisplayIcon::Ampere, DisplayIcon::Ampere) => true,
        (DisplayIcon::Auto, DisplayIcon::Auto) => true,
        (DisplayIcon::Bluetooth, DisplayIcon::Bluetooth) => true,
        (DisplayIcon::Buzz, DisplayIcon::Buzz) => true,
        (DisplayIcon::DC, DisplayIcon::DC) => true,
        (DisplayIcon::DegC, DisplayIcon::DegC) => true,
        (DisplayIcon::DegF, DisplayIcon::DegF) => true,
        (DisplayIcon::Delta, DisplayIcon::Delta) => true,
        (DisplayIcon::Diode, DisplayIcon::Diode) => true,
        (DisplayIcon::Farad, DisplayIcon::Farad) => true,
        (DisplayIcon::Flash, DisplayIcon::Flash) => true,
        (DisplayIcon::Hertz, DisplayIcon::Hertz) => true,
        (DisplayIcon::Hold, DisplayIcon::Hold) => true,
        (DisplayIcon::KiloOhm, DisplayIcon::KiloOhm) => true,
        (DisplayIcon::Max, DisplayIcon::Max) => true,
        (DisplayIcon::MegaOhm, DisplayIcon::MegaOhm) => true,
        (DisplayIcon::MicroAmpere, DisplayIcon::MicroAmpere) => true,
        (DisplayIcon::MicroFarad, DisplayIcon::MicroFarad) => true,
        (DisplayIcon::MilliAmpere, DisplayIcon::MilliAmpere) => true,
        (DisplayIcon::MilliFarad, DisplayIcon::MilliFarad) => true,
        (DisplayIcon::MilliVolt, DisplayIcon::MilliVolt) => true,
        (DisplayIcon::Min, DisplayIcon::Min) => true,
        (DisplayIcon::Nano, DisplayIcon::Nano) => true,
        (DisplayIcon::NanoFarad, DisplayIcon::NanoFarad) => true,
        (DisplayIcon::Ohm, DisplayIcon::Ohm) => true,
        (DisplayIcon::Percent, DisplayIcon::Percent) => true,
        (DisplayIcon::Volt, DisplayIcon::Volt) => true,
        _ => false,
    }
}

/// Whether the icon `wanted`, which has a name, is among `icons`.
fn shows_icon(icons: &[DisplayIcon], wanted: DisplayIcon) -> (found: bool)
    requires
        !(wanted is Unknown),
    ensures
        found == icons@.contains(wanted),
{
    let mut k: usize = 0;
    while k < icons.len()
        invariant
            k <= icons@.len(),
            !(wanted is Unknown),
            forall|j: int| 0 <= j < k ==> icons@[j] != wanted,
        decreases icons@.len() - k,
    {
        if same_icon(icons[k], wanted) {
            return true;
        }
        k += 1;
    }
    false
}

/// Infers the unit of a reading from the icons that are shown.
pub fn resolve_unit(icons: &[DisplayIcon]) -> (unit: Option<String>)
    ensures
        text_view(unit) == unit_of(icons@),
{
    let base: Option<&'static str> = if shows_icon(icons, DisplayIcon::MilliVolt) {
        Some("mV")
    } else if shows_icon(icons, DisplayIcon::Volt) {
        Some("V")
    } else if shows_icon(icons, DisplayIcon::MilliAmpere) {
        Some("mA")
    } else if shows_icon(icons, DisplayIcon::MicroAmpere) {
        Some("μA")
    } else if shows_icon(icons, DisplayIcon::Ampere) {
        Some("A")
    } else if shows_icon(icons, DisplayIcon::KiloOhm) {
        Some("kΩ")
    } else if shows_icon(icons, DisplayIcon::MegaOhm) {
        Some("MΩ")
    } else if shows_icon(icons, DisplayIcon::Ohm) {
        Some("Ω")
    } else if shows_icon(icons, DisplayIcon::MicroFarad) {
        Some("μF")
    } else if shows_icon(icons, DisplayIcon::MilliFarad) {
        Some("mF")
    } else if shows_icon(icons, DisplayIcon::Farad) {
        Some("F")
    } else if shows_icon(icons, DisplayIcon::DegC) {
        Some("°C")
    } else if shows_icon(icons, DisplayIcon::DegF) {
        Some("°F")
    } else if shows_icon(icons, DisplayIcon::Hertz) {
        Some("Hz")
    } else if shows_icon(icons, DisplayIcon::Percent) {
        Some("%")
    } else {
        None
    };
    match base {
        Some(unit) => {
            if shows_icon(icons, DisplayIcon::Nano) {
                Some(String::from_str("n").concat(unit))
            } else {
                Some(String::from_str(unit))
            }
        },
        None => None,
    }
}

} // verus!
