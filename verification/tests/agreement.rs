use statement_parser::amount::parse_amount;
use statement_parser::font::{DecodeError, FontInfo};
use statement_parser::number::Number;
use statement_parser::ordering::stable_order;
use statement_parser::points::parse_points;
use statement_parser::text::{char_is_whitespace, chars_of, contains, replaced, starts_with, string_of};

#[test]
fn whitespace_is_what_the_standard_library_calls_whitespace() {
    for n in 0u32..=0x10ffff {
        if let Some(c) = char::from_u32(n) {
            assert_eq!(char_is_whitespace(c), c.is_whitespace(), "U+{:04X}", n);
        }
    }
}

#[test]
fn bits_tell_what_the_numbers_tell() {
    let mut bits: u32 = 0;
    loop {
        let x = f32::from_bits(bits);
        let n = Number::from_bits(bits);
        assert_eq!(n.is_negligible(), x.abs() < f32::EPSILON, "{:#x}", bits);
        assert_eq!(n.is_finite(), x.is_finite(), "{:#x}", bits);
        assert_eq!(n.is_finite(), (x - x).abs() < f32::EPSILON, "{:#x}", bits);
        match bits.checked_add(65_521) {
            Some(next) => bits = next,
            None => break,
        }
    }
    for bits in [0x33ff_ffffu32, 0x3400_0000, 0x3400_0001, 0xb3ff_ffff, 0xb400_0000, 0x7f7f_ffff, 0x7f80_0000, 0x7f80_0001, 0xff7f_ffff, 0xff80_0000, 0xffff_ffff, 0x8000_0000] {
        let x = f32::from_bits(bits);
        let n = Number::from_bits(bits);
        assert_eq!(n.is_negligible(), x.abs() < f32::EPSILON, "{:#x}", bits);
        assert_eq!(n.is_finite(), x.is_finite(), "{:#x}", bits);
    }
}

fn utf16_reference(units: &[u16]) -> Result<String, (String, DecodeError)> {
    let mut out = String::new();
    for item in char::decode_utf16(units.iter().copied()) {
        match item {
            Ok(c) => out.push(c),
            Err(_) => return Err((out, DecodeError::Utf16Decode)),
        }
    }
    Ok(out)
}

#[test]
fn utf16_is_decoded_as_the_standard_library_decodes_it() {
    let samples: [u16; 12] = [
        0x0000, 0x0041, 0x00e9, 0x20b9, 0xd7ff, 0xd800, 0xdbff, 0xdc00, 0xdfff, 0xe000, 0xfeff, 0xffff,
    ];
    let font = FontInfo::default();
    let mut sequences: Vec<Vec<u16>> = vec![vec![]];
    for a in samples {
        sequences.push(vec![a]);
        for b in samples {
            sequences.push(vec![a, b]);
            for c in samples {
                sequences.push(vec![a, b, c]);
            }
        }
    }
    sequences.push(vec![0xd83d, 0xde00, 0xd83d, 0xde00, 0x0021]);
    sequences.push(vec![0x0041, 0xd800, 0xd800, 0xdc00, 0x0042]);
    for units in sequences {
        for tail in [&[][..], &[0x7a][..]] {
            let mut data = vec![0xfe, 0xff];
            for u in &units {
                data.extend_from_slice(&u.to_be_bytes());
            }
            data.extend_from_slice(tail);
            let mut out = String::new();
            let result = font.decode(&data, &mut out);
            match utf16_reference(&units) {
                Ok(text) => {
                    assert_eq!(result, Ok(()), "{:x?}", units);
                    assert_eq!(out, text, "{:x?}", units);
                }
                Err((text, e)) => {
                    assert_eq!(result, Err(e), "{:x?}", units);
                    assert_eq!(out, text, "{:x?}", units);
                }
            }
        }
    }
}

#[test]
fn utf8_is_decoded_as_the_standard_library_decodes_it() {
    let font = FontInfo::default();
    let bytes: [u8; 14] = [0x00, 0x41, 0x7f, 0x80, 0xbf, 0xc0, 0xc2, 0xe0, 0xed, 0xef, 0xf0, 0xf4, 0xf5, 0xff];
    let mut inputs: Vec<Vec<u8>> = vec![vec![]];
    for a in bytes {
        inputs.push(vec![a]);
        for b in bytes {
            inputs.push(vec![a, b]);
            for c in bytes {
                inputs.push(vec![a, b, c]);
                inputs.push(vec![a, b, c, 0x80]);
            }
        }
    }
    for data in inputs {
        if data.starts_with(&[0xfe, 0xff]) {
            continue;
        }
        let mut out = String::from("|");
        let result = font.decode(&data, &mut out);
        match std::str::from_utf8(&data) {
            Ok(text) => {
                assert_eq!(result, Ok(()), "{:x?}", data);
                assert_eq!(out, format!("|{}", text), "{:x?}", data);
            }
            Err(_) => {
                assert_eq!(result, Err(DecodeError::Utf16Decode), "{:x?}", data);
                assert_eq!(out, "|", "{:x?}", data);
            }
        }
    }
}

#[test]
fn points_are_read_as_by_closing_up_trimming_and_parsing() {
    let pieces = ["", "+", "-", " ", "+ ", "- ", "1", "23", "0", "x", ".", "2147483647", "2147483648", "\u{a0}"];
    for a in pieces {
        for b in pieces {
            for c in pieces {
                let s = format!("{}{}{}", a, b, c);
                let expected = s.replace("+ ", "+").replace("- ", "-").trim().parse::<i32>().ok();
                assert_eq!(parse_points(&s), expected, "{:?}", s);
            }
        }
    }
}

#[test]
fn amounts_agree_with_floating_point_on_plain_decimals() {
    let cells = [
        "1,234.50", "0.01", "12.", ".5", "\u{20b9}99.99", " 7.25 ", "+3.50", "+ 3.50", "1,00,000.00", "000.10",
        "\u{20b9} 1,234.5", "42", "+42",
    ];
    for cell in cells {
        for credit in [false, true] {
            let clean = cell.replace('\u{20b9}', "").replace(',', "").trim().to_string();
            let (is_credit, numeral) = if clean.starts_with('+') {
                (true, clean.trim_start_matches('+').trim())
            } else {
                (credit, clean.as_str())
            };
            let expected = numeral.parse::<f32>().ok().map(|x| if is_credit { x } else { -x });
            let got = parse_amount(cell, credit).map(|a| a.to_text().parse::<f32>().unwrap());
            assert_eq!(got, expected, "{:?} {}", cell, credit);
        }
    }
}

#[test]
fn text_helpers_agree_with_the_standard_library() {
    let texts = ["", "a", "ab", "aab", "abab", "aaa", "ba", "xaby", "%Y%Y", "a%Yb", "%", "%%Y"];
    let patterns = ["a", "ab", "aa", "b", "%Y", "abab", "z"];
    for t in texts {
        for p in patterns {
            let chars = chars_of(t);
            assert_eq!(contains(&chars, p), t.contains(p), "{:?} {:?}", t, p);
            assert_eq!(starts_with(&chars, p), t.starts_with(p), "{:?} {:?}", t, p);
            for to in ["", "a", "zz", "ab"] {
                assert_eq!(string_of(&replaced(&chars, p, to)), t.replace(p, to), "{:?} {:?} {:?}", t, p, to);
            }
        }
        assert!(contains(&chars_of(t), ""));
        assert!(starts_with(&chars_of(t), ""));
        assert_eq!(string_of(&replaced(&chars_of(t), "", "x")), t);
    }
}

#[test]
fn order_agrees_with_a_stable_sort() {
    let mut seed: u32 = 12345;
    for round in 0..200 {
        let n = round % 9;
        let mut days = Vec::new();
        for _ in 0..n {
            seed = seed.wrapping_mul(1_103_515_245).wrapping_add(12_345);
            let year = 2020 + ((seed >> 16) % 3) as i32;
            seed = seed.wrapping_mul(1_103_515_245).wrapping_add(12_345);
            let month = 1 + (seed >> 16) % 2;
            seed = seed.wrapping_mul(1_103_515_245).wrapping_add(12_345);
            let day = 1 + (seed >> 16) % 3;
            days.push((year, month, day));
        }
        let mut expected: Vec<usize> = (0..days.len()).collect();
        expected.sort_by(|a, b| days[*a].cmp(&days[*b]));
        assert_eq!(stable_order(&days), expected, "{:?}", days);
    }
}
