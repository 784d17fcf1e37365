use btdmm_comm::icon::{icon_at, resolve_icons, ICON_FLAGS, ICON_TABLE_LEN};
use btdmm_comm::DisplayIcon;

#[test]
fn tables_have_thirty_two_positions() {
    assert_eq!(ICON_TABLE_LEN, 32);
    assert_eq!(ICON_FLAGS, 31);
    for dmm_id in 0..=255u8 {
        for position in 0..32 {
            assert!(icon_at(dmm_id, position).is_some());
        }
        assert_eq!(icon_at(dmm_id, 32), None);
        assert_eq!(icon_at(dmm_id, 1000), None);
        assert_eq!(icon_at(dmm_id, usize::MAX), None);
    }
}

#[test]
fn reserved_position_has_an_entry() {
    assert_eq!(icon_at(3, 31), Some(DisplayIcon::Unknown("?6")));
    assert_eq!(icon_at(1, 31), Some(DisplayIcon::Unknown(" ")));
}

#[test]
fn table_of_variant_three() {
    assert_eq!(icon_at(3, 0), Some(DisplayIcon::Unknown("?1")));
    assert_eq!(icon_at(3, 1), Some(DisplayIcon::Delta));
    assert_eq!(icon_at(3, 2), Some(DisplayIcon::Bluetooth));
    assert_eq!(icon_at(3, 15), Some(DisplayIcon::NanoFarad));
    assert_eq!(icon_at(3, 20), Some(DisplayIcon::Volt));
    assert_eq!(icon_at(3, 21), Some(DisplayIcon::MilliVolt));
    assert_eq!(icon_at(3, 25), Some(DisplayIcon::Unknown("?2")));
    assert_eq!(icon_at(3, 27), Some(DisplayIcon::MilliAmpere));
    assert_eq!(icon_at(3, 30), Some(DisplayIcon::Unknown("?5")));
}

#[test]
fn table_of_the_other_variants() {
    for dmm_id in [0u8, 1, 2, 4, 7, 255] {
        assert_eq!(icon_at(dmm_id, 0), Some(DisplayIcon::Unknown("?1")));
        assert_eq!(icon_at(dmm_id, 1), Some(DisplayIcon::Hold));
        assert_eq!(icon_at(dmm_id, 2), Some(DisplayIcon::Flash));
        assert_eq!(icon_at(dmm_id, 4), Some(DisplayIcon::Unknown(" ")));
        assert_eq!(icon_at(dmm_id, 8), Some(DisplayIcon::Nano));
        assert_eq!(icon_at(dmm_id, 9), Some(DisplayIcon::Volt));
        assert_eq!(icon_at(dmm_id, 19), Some(DisplayIcon::Unknown(" ")));
        assert_eq!(icon_at(dmm_id, 22), Some(DisplayIcon::DegC));
        assert_eq!(icon_at(dmm_id, 23), Some(DisplayIcon::Unknown(" ")));
    }
}

#[test]
fn resolve_takes_the_first_four_flags_first() {
    let mut icons1 = [false; 4];
    let mut icons2 = [false; 27];
    assert_eq!(resolve_icons(3, &icons1, &icons2), Vec::<DisplayIcon>::new());
    icons2[0] = true;
    icons1[3] = true;
    icons2[26] = true;
    assert_eq!(
        resolve_icons(3, &icons1, &icons2),
        vec![DisplayIcon::Buzz, DisplayIcon::Hold, DisplayIcon::Unknown("?5")]
    );
    assert_eq!(
        resolve_icons(0, &icons1, &icons2),
        vec![DisplayIcon::Buzz, DisplayIcon::Unknown(" "), DisplayIcon::Unknown(" ")]
    );
}

#[test]
fn the_same_unassigned_icon_may_show_twice() {
    let icons1 = [false; 4];
    let mut icons2 = [false; 27];
    icons2[0] = true;
    icons2[1] = true;
    assert_eq!(
        resolve_icons(1, &icons1, &icons2),
        vec![DisplayIcon::Unknown(" "), DisplayIcon::Unknown(" ")]
    );
}
