use btdmm_comm::number::{is_decimal_digit, parse_decimal, parse_number};
use btdmm_comm::text::chars_of;
use btdmm_comm::{Decimal, DisplayValue, Number};

fn read_decimal(text: &str) -> Option<Decimal> {
    let chars: Vec<char> = text.chars().collect();
    parse_decimal(&chars)
}

/// The sign, the significand and the power of ten of the decimal that a
/// text spells, each of the two numbers as far as it fits.
fn read(text: &str) -> Option<(bool, Option<u64>, Option<i64>)> {
    read_decimal(text).map(|decimal| (decimal.negative, decimal.significand(), decimal.exponent()))
}

fn number(negative: bool, significand: u64, exponent: i64) -> Option<(bool, Option<u64>, Option<i64>)> {
    Some((negative, Some(significand), Some(exponent)))
}

fn read_number(text: &str) -> Option<Number> {
    let chars: Vec<char> = text.chars().collect();
    parse_number(&chars)
}

fn decimal(negative: bool, integer: &str, fraction: &str, exponent_negative: bool, exponent: &str) -> Decimal {
    let digits = |run: &str| run.bytes().map(|b| b - b'0').collect::<Vec<u8>>();
    Decimal {
        negative,
        integer: digits(integer),
        fraction: digits(fraction),
        exponent_negative,
        exponent_digits: digits(exponent),
    }
}

/// The float of a number, made as a caller would make it: from the literal
/// that its digits spell.
fn float_of(number: &Number) -> f32 {
    match number {
        Number::Finite(decimal) => {
            let run = |digits: &[u8]| digits.iter().map(|d| (b'0' + d) as char).collect::<String>();
            let exponent = if decimal.exponent_digits.is_empty() {
                "0".to_string()
            } else {
                run(&decimal.exponent_digits)
            };
            let literal = format!(
                "{}{}.{}e{}{}",
                if decimal.negative { "-" } else { "" },
                run(&decimal.integer),
                run(&decimal.fraction),
                if decimal.exponent_negative { "-" } else { "" },
                exponent
            );
            literal.parse::<f32>().unwrap()
        }
        Number::Infinite { negative: false } => f32::INFINITY,
        Number::Infinite { negative: true } => f32::NEG_INFINITY,
        Number::NotANumber { negative: false } => f32::NAN,
        Number::NotANumber { negative: true } => -f32::NAN,
    }
}

#[test]
fn plain_integers() {
    assert_eq!(read("0"), number(false, 0, 0));
    assert_eq!(read("7"), number(false, 7, 0));
    assert_eq!(read("1200"), number(false, 1200, 0));
    assert_eq!(read("0012"), number(false, 12, 0));
    assert_eq!(read("18446744073709551615"), number(false, u64::MAX, 0));
}

#[test]
fn signs() {
    assert_eq!(read("-5"), number(true, 5, 0));
    assert_eq!(read("+5"), number(false, 5, 0));
    assert_eq!(read("-0"), number(true, 0, 0));
    assert_eq!(read("-"), None);
    assert_eq!(read("+"), None);
    assert_eq!(read("--5"), None);
    assert_eq!(read("+-5"), None);
    assert_eq!(read("5-"), None);
}

#[test]
fn points() {
    assert_eq!(read("0.000"), number(false, 0, -3));
    assert_eq!(read("-09.57"), number(true, 957, -2));
    assert_eq!(read("-00.43"), number(true, 43, -2));
    assert_eq!(read("5."), number(false, 5, 0));
    assert_eq!(read(".5"), number(false, 5, -1));
    assert_eq!(read("-.5"), number(true, 5, -1));
    assert_eq!(read("123.4"), number(false, 1234, -1));
    assert_eq!(read("."), None);
    assert_eq!(read("-."), None);
    assert_eq!(read("1.2.3"), None);
    assert_eq!(read("1..2"), None);
}

#[test]
fn exponents() {
    assert_eq!(read("1E23"), number(false, 1, 23));
    assert_eq!(read("1e23"), number(false, 1, 23));
    assert_eq!(read("1E-5"), number(false, 1, -5));
    assert_eq!(read("1E+5"), number(false, 1, 5));
    assert_eq!(read("1.E5"), number(false, 1, 5));
    assert_eq!(read("1.25E5"), number(false, 125, 3));
    assert_eq!(read("-1.5e-3"), number(true, 15, -4));
    assert_eq!(read(".5E1"), number(false, 5, 0));
    assert_eq!(read("1E"), None);
    assert_eq!(read("1E-"), None);
    assert_eq!(read("1E+"), None);
    assert_eq!(read("E5"), None);
    assert_eq!(read(".E5"), None);
    assert_eq!(read("1E5E5"), None);
    assert_eq!(read("1E5.0"), None);
    assert_eq!(read("1E 5"), None);
}

#[test]
fn texts_that_are_no_numbers() {
    for text in ["", " ", "Auto", " .0L ", "?1.20", "12 ", " 12", "1,5", "0x10", "1_000", "١٢", "1\u{0660}"] {
        assert_eq!(read(text), None, "{:?}", text);
        assert_eq!(read_number(text), None, "{:?}", text);
        assert!(text.parse::<f32>().is_err(), "{:?}", text);
    }
}

#[test]
fn special_words() {
    for text in ["nan", "NaN", "NAN", "nAn", "+nan"] {
        assert_eq!(read_number(text), Some(Number::NotANumber { negative: false }), "{:?}", text);
        assert!(text.parse::<f32>().unwrap().is_nan());
    }
    assert_eq!(read_number("-nAn"), Some(Number::NotANumber { negative: true }));
    for text in ["inf", "INF", "Inf", "+inf", "infinity", "INFINITY", "+Infinity", "iNfInItY"] {
        assert_eq!(read_number(text), Some(Number::Infinite { negative: false }), "{:?}", text);
        assert_eq!(text.parse::<f32>().unwrap(), f32::INFINITY);
    }
    for text in ["-inf", "-INF", "-infinity", "-Infinity"] {
        assert_eq!(read_number(text), Some(Number::Infinite { negative: true }), "{:?}", text);
        assert_eq!(text.parse::<f32>().unwrap(), f32::NEG_INFINITY);
    }
    for text in [
        "na", "nanx", "n", "infi", "infinit", "infinityy", "in", "--nan", "+-inf", "nan ", " inf",
        "n\u{c1}n", "\u{49}\u{6e}\u{46}\u{0}", "\u{14e}an", "ınf", "i\u{4e}\u{46}\u{20}",
    ] {
        assert_eq!(read_number(text), None, "{:?}", text);
        assert!(text.parse::<f32>().is_err(), "{:?}", text);
    }
    assert_eq!(read_number("12"), Some(Number::Finite(decimal(false, "12", "", false, ""))));
    assert_eq!(read("nan"), None);
    assert_eq!(read("inf"), None);
}

#[test]
fn digits_are_kept_as_written() {
    assert_eq!(read_decimal("0.000"), Some(decimal(false, "0", "000", false, "")));
    assert_eq!(read_decimal("-09.57"), Some(decimal(true, "09", "57", false, "")));
    assert_eq!(read_decimal("5."), Some(decimal(false, "5", "", false, "")));
    assert_eq!(read_decimal(".5"), Some(decimal(false, "", "5", false, "")));
    assert_eq!(read_decimal("+1.25E5"), Some(decimal(false, "1", "25", false, "5")));
    assert_eq!(read_decimal("-1.5e-03"), Some(decimal(true, "1", "5", true, "03")));
    assert_eq!(read_decimal("1e+7"), Some(decimal(false, "1", "", false, "7")));
    assert_eq!(read_decimal("1e-0"), Some(decimal(false, "1", "", true, "0")));
    assert_eq!(read_decimal("-1"), Some(decimal(true, "1", "", false, "")));
    assert_eq!(read_decimal("1e"), None);
    assert_eq!(read_decimal("Auto"), None);
}

#[test]
fn every_literal_is_a_number_however_long() {
    let twenty_one = "100000000000000000000";
    assert_eq!(twenty_one.len(), 21);
    assert_eq!(
        read_number(twenty_one),
        Some(Number::Finite(decimal(false, twenty_one, "", false, "")))
    );
    assert_eq!(
        DisplayValue::parse(twenty_one),
        DisplayValue::Number(Number::Finite(decimal(false, twenty_one, "", false, "")))
    );
    let long_digits = "1234567890".repeat(40);
    let long_exponent = format!("1e-{}", "9".repeat(60));
    let long_fraction = format!("0.{}1", "0".repeat(100));
    for text in [
        twenty_one,
        "18446744073709551616",
        "1.00000000000000000000",
        "1e9223372036854775808",
        "1e-9223372036854775809",
        "1e340282366920938463463374607431768211456",
        long_digits.as_str(),
        long_exponent.as_str(),
        long_fraction.as_str(),
    ] {
        let expected = text.parse::<f32>().unwrap();
        let number = read_number(text).unwrap_or_else(|| panic!("{:?}", text));
        assert_eq!(float_of(&number).to_bits(), expected.to_bits(), "{:?}", text);
        assert!(matches!(DisplayValue::parse(text), DisplayValue::Number(_)), "{:?}", text);
    }
}

#[test]
fn machine_integers_as_far_as_they_fit() {
    assert_eq!(read("18446744073709551615"), number(false, u64::MAX, 0));
    assert_eq!(read("18446744073709551616"), Some((false, None, Some(0))));
    assert_eq!(read("99999999999999999999"), Some((false, None, Some(0))));
    assert_eq!(read("1844674407370955161.6"), Some((false, None, Some(-1))));
    assert_eq!(read("1.0000000000000000000"), number(false, 10_000_000_000_000_000_000, -19));
    assert_eq!(read("1.00000000000000000000"), Some((false, None, Some(-20))));
    assert_eq!(read("000000000000000000000000000001"), number(false, 1, 0));
    assert_eq!(read("1e9223372036854775807"), number(false, 1, i64::MAX));
    assert_eq!(read("1e9223372036854775808"), Some((false, Some(1), None)));
    assert_eq!(read("1e-9223372036854775808"), number(false, 1, i64::MIN));
    assert_eq!(read("1e-9223372036854775809"), Some((false, Some(1), None)));
    assert_eq!(read("1.0e-9223372036854775808"), Some((false, Some(10), None)));
    assert_eq!(read("1.0e9223372036854775808"), number(false, 10, i64::MAX));
    assert_eq!(read("1e340282366920938463463374607431768211456"), Some((false, Some(1), None)));
    assert_eq!(read("-1e-340282366920938463463374607431768211456"), Some((true, Some(1), None)));
    assert_eq!(
        read("1e99999999999999999999999999999999999999999999999999"),
        Some((false, Some(1), None))
    );
    assert_eq!(read("340282366920938463463374607431768211456"), Some((false, None, Some(0))));
    let outside = Decimal {
        negative: false,
        integer: vec![12, 255],
        fraction: vec![],
        exponent_negative: false,
        exponent_digits: vec![],
    };
    assert_eq!(outside.significand(), Some(375));
    assert_eq!(outside.exponent(), Some(0));
}

#[test]
fn digits_are_the_ten_ascii_digits() {
    for c in '0'..='9' {
        assert!(is_decimal_digit(c));
    }
    for c in ['/', ':', 'a', ' ', '-', '.', '٣', '０'] {
        assert!(!is_decimal_digit(c));
    }
}

#[test]
fn chars_of_keeps_every_character() {
    assert_eq!(chars_of(""), Vec::<char>::new());
    assert_eq!(chars_of("-09.57"), vec!['-', '0', '9', '.', '5', '7']);
    assert_eq!(chars_of("kΩ"), vec!['k', 'Ω']);
}

#[test]
fn parse_gives_number_or_the_text_unchanged() {
    assert_eq!(
        DisplayValue::parse("0.000"),
        DisplayValue::Number(Number::Finite(decimal(false, "0", "000", false, "")))
    );
    assert_eq!(
        DisplayValue::parse("-09.57"),
        DisplayValue::Number(Number::Finite(decimal(true, "09", "57", false, "")))
    );
    assert_eq!(DisplayValue::parse("Auto"), DisplayValue::Text("Auto".to_string()));
    assert_eq!(DisplayValue::parse(" .0L "), DisplayValue::Text(" .0L ".to_string()));
    assert_eq!(DisplayValue::parse(""), DisplayValue::Text(String::new()));
    assert_eq!(DisplayValue::parse("-"), DisplayValue::Text("-".to_string()));
}

/// Every reading that four digit positions can spell from the characters
/// that matter to a literal is a number exactly where the float parser of
/// the standard library takes it, and then it is the same number.
#[test]
fn readings_agree_with_the_float_parser() {
    let glyphs = ['0', '1', '5', '9', 'E', '-', ' ', '?', 'A', 'n'];
    let mut checked: u32 = 0;
    for a in glyphs {
        for b in glyphs {
            for c in glyphs {
                for d in glyphs {
                    for dots in 0..16u8 {
                        let mut text = String::new();
                        if dots & 1 != 0 {
                            text.push('-');
                        }
                        text.push(a);
                        for (k, glyph) in [b, c, d].iter().enumerate() {
                            if dots & (2 << k) != 0 {
                                text.push('.');
                            }
                            text.push(*glyph);
                        }
                        let expected = text.parse::<f32>().ok();
                        match DisplayValue::parse(&text) {
                            DisplayValue::Number(number) => {
                                let float = expected.unwrap_or_else(|| panic!("{:?}", text));
                                assert_eq!(float_of(&number).is_nan(), float.is_nan(), "{:?}", text);
                                if !float.is_nan() {
                                    assert_eq!(
                                        float_of(&number).to_bits(),
                                        float.to_bits(),
                                        "{:?}",
                                        text
                                    );
                                }
                            }
                            DisplayValue::Text(kept) => {
                                assert_eq!(expected, None, "{:?}", text);
                                assert_eq!(kept, text);
                            }
                        }
                        checked += 1;
                    }
                }
            }
        }
    }
    assert_eq!(checked, 160_000);
}

/// Every text of up to five characters over the characters of the grammar
/// is a number exactly where the float parser of the standard library
/// takes it, and then it is the same number.
#[test]
fn short_texts_agree_with_the_float_parser() {
    let alphabet = ['0', '7', '+', '-', '.', 'e', 'E', 'n', 'a', 'i', 'f', ' '];
    let mut texts: Vec<String> = vec![String::new()];
    let mut from: usize = 0;
    for _ in 0..5 {
        let upto = texts.len();
        for k in from..upto {
            for c in alphabet {
                let mut longer = texts[k].clone();
                longer.push(c);
                texts.push(longer);
            }
        }
        from = upto;
    }
    assert_eq!(texts.len(), 1 + 12 + 144 + 1728 + 20736 + 248832);
    let mut numbers: u32 = 0;
    for text in texts.iter() {
        let expected = text.parse::<f32>().ok();
        match read_number(text) {
            Some(number) => {
                let float = expected.unwrap_or_else(|| panic!("{:?}", text));
                assert_eq!(float_of(&number).is_nan(), float.is_nan(), "{:?}", text);
                if !float.is_nan() {
                    assert_eq!(float_of(&number).to_bits(), float.to_bits(), "{:?}", text);
                }
                numbers += 1;
            }
            None => assert_eq!(expected, None, "{:?}", text),
        }
    }
    assert_eq!(numbers, 840);
}

#[test]
fn long_infinity_agrees_with_the_float_parser() {
    for text in ["infinity", "-infinity", "+INFINITY", "Infinity", "infinit", "infinityy", "1e5", "1e-45", "1e39", "-1e39", "3.4028235e38", "16777217"] {
        let expected = text.parse::<f32>().ok();
        assert_eq!(read_number(text).map(|n| float_of(&n).to_bits()), expected.map(f32::to_bits), "{:?}", text);
    }
}
