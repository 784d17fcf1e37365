use btdmm_comm::bits::{read_bit, read_bits};
use btdmm_comm::frame::unpack;
use btdmm_comm::segment::lookup_glyph;
use btdmm_comm::value::display_text;
use btdmm_comm::{DecodeError, SevenSegmentDisplay};

#[test]
fn bits_count_from_the_most_significant() {
    let bytes = [0b1000_0001u8, 0b0100_0000];
    assert!(read_bit(&bytes, 0));
    assert!(!read_bit(&bytes, 1));
    assert!(read_bit(&bytes, 7));
    assert!(!read_bit(&bytes, 8));
    assert!(read_bit(&bytes, 9));
    assert!(!read_bit(&bytes, 15));
}

#[test]
fn fields_are_big_endian() {
    let bytes = [0x5a, 0xa5, 0xc0, 0x27, 0x74];
    assert_eq!(read_bits(&bytes, 0, 0), 0);
    assert_eq!(read_bits(&bytes, 0, 16), 0x5aa5);
    assert_eq!(read_bits(&bytes, 16, 2), 3);
    assert_eq!(read_bits(&bytes, 28, 8), 0x77);
    assert_eq!(read_bits(&bytes, 4, 8), 0xaa);
    assert_eq!(read_bits(&bytes, 0, 32), 0x5aa5_c027);
    assert_eq!(read_bits(&bytes, 8, 32), 0xa5c0_2774);
    assert_eq!(read_bits(&bytes, 39, 1), 0);
    assert_eq!(read_bits(&bytes, 37, 1), 1);
}

#[test]
fn unpack_follows_the_layout() {
    let plain = [0x5a, 0xa5, 0xc0, 0x2f, 0xd7, 0xda, 0x71, 0xf0, 0x00, 0x0e, 0x80];
    let fields = unpack(&plain).unwrap();
    assert_eq!(fields.preamble, 0x5aa5);
    assert_eq!(fields.dmm_id, 3);
    assert_eq!(fields.icons1, [false, false, true, false]);
    assert_eq!(fields.seven_segments, [0b1111_1101, 0b0111_1101, 0b1010_0111, 0b0001_1111]);
    let mut icons2 = [false; 27];
    icons2[16] = true;
    icons2[17] = true;
    icons2[18] = true;
    icons2[20] = true;
    assert_eq!(fields.icons2, icons2);
}

#[test]
fn unpack_ignores_the_unused_bits() {
    let mut plain = [0u8; 11];
    plain[2] = 0b0011_1111;
    plain[10] = 0b0000_0001;
    let fields = unpack(&plain).unwrap();
    assert_eq!(fields.dmm_id, 0);
    assert_eq!(fields.icons1, [false; 4]);
    assert_eq!(fields.icons2, [false; 27]);
    plain[2] = 0b0100_0000;
    plain[10] = 0b0000_0010;
    let fields = unpack(&plain).unwrap();
    assert_eq!(fields.dmm_id, 1);
    assert!(fields.icons2[26]);
}

#[test]
fn unpack_refuses_other_lengths() {
    assert_eq!(unpack(&[]), Err(DecodeError::FormatError));
    assert_eq!(unpack(&[0u8; 10]), Err(DecodeError::FormatError));
    assert_eq!(unpack(&[0u8; 12]), Err(DecodeError::FormatError));
    assert!(unpack(&[0u8; 11]).is_ok());
}

#[test]
fn glyph_table() {
    let table: [(u8, char); 30] = [
        (0b1111101, '0'),
        (0b0000101, '1'),
        (0b1011011, '2'),
        (0b0011111, '3'),
        (0b0100111, '4'),
        (0b0111110, '5'),
        (0b1111110, '6'),
        (0b0010101, '7'),
        (0b1111111, '8'),
        (0b0111111, '9'),
        (0b1110111, 'A'),
        (0b1001100, 'u'),
        (0b1101010, 't'),
        (0b1001110, 'o'),
        (0b1101000, 'L'),
        (0b1111010, 'E'),
        (0b1110010, 'F'),
        (0b0000000, ' '),
        (0b0000010, '-'),
        (0b1101110, 'b'),
        (0b1111000, 'C'),
        (0b1001010, 'c'),
        (0b1001111, 'd'),
        (0b1100111, 'H'),
        (0b1001101, 'J'),
        (0b1000110, 'n'),
        (0b1110011, 'P'),
        (0b1000010, 'r'),
        (0b1101101, 'U'),
        (0b0101111, 'Y'),
    ];
    let mut known: u32 = 0;
    for pattern in 0..128u8 {
        let expected = table.iter().find(|(p, _)| *p == pattern).map(|(_, c)| *c);
        assert_eq!(lookup_glyph(pattern), expected);
        let plain = SevenSegmentDisplay { segments: pattern };
        let dotted = SevenSegmentDisplay { segments: pattern | 0x80 };
        assert_eq!(plain.get_text(), expected);
        assert_eq!(dotted.get_text(), expected);
        assert!(!plain.get_dot_dash());
        assert!(dotted.get_dot_dash());
        if expected.is_some() {
            known += 1;
        }
    }
    assert_eq!(known, 30);
    for pattern in 128..=255u8 {
        assert_eq!(lookup_glyph(pattern), None);
    }
}

#[test]
fn each_segment_has_its_bit() {
    let lit = |bits: u8| {
        let d = SevenSegmentDisplay { segments: bits };
        [
            d.get_top_right(),
            d.get_middle(),
            d.get_bottom_right(),
            d.get_bottom(),
            d.get_top(),
            d.get_top_left(),
            d.get_bottom_left(),
            d.get_dot_dash(),
        ]
    };
    for bit in 0..8 {
        let mut expected = [false; 8];
        expected[bit] = true;
        assert_eq!(lit(1 << bit), expected);
    }
}

fn digits(bytes: [u8; 4]) -> [SevenSegmentDisplay; 4] {
    [
        SevenSegmentDisplay { segments: bytes[0] },
        SevenSegmentDisplay { segments: bytes[1] },
        SevenSegmentDisplay { segments: bytes[2] },
        SevenSegmentDisplay { segments: bytes[3] },
    ]
}

#[test]
fn display_text_spells_the_digits() {
    assert_eq!(display_text(&digits([0b1110111, 0b1001100, 0b1101010, 0b1001110])), "Auto");
    assert_eq!(display_text(&digits([0b1111101, 0b11111101, 0b1111101, 0b1111101])), "0.000");
    assert_eq!(display_text(&digits([0b11111101, 0b111111, 0b10111110, 0b10101])), "-09.57");
    assert_eq!(display_text(&digits([0, 0b11111101, 0b1101000, 0])), " .0L ");
    assert_eq!(display_text(&digits([0x80, 0x80, 0x80, 0x80])), "- . . . ");
    assert_eq!(display_text(&digits([0b0100110, 1, 0x81, 0xff])), "??.?.8");
    assert_eq!(display_text(&[]), "");
    assert_eq!(display_text(&[SevenSegmentDisplay { segments: 0b1000_0101 }]), "-1");
}
