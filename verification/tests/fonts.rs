use pdf::font::ToUnicodeMap;
use std::collections::HashMap;
use statement_parser::font::{BaseTable, DecodeError, FontInfo};
use statement_parser::font_cache::FontCache;
use statement_parser::number::{Matrix, Number, Point};
use statement_parser::page::{
    BaseEncoding, Encoding, Font, GraphicsState, GraphicsStateFont, Page, Resources,
    TextDrawAdjusted, TextOp,
};
use statement_parser::pipeline::{extract_page_texts, page_transactions, text_fragments};
use statement_parser::text_state::{ops_with_text_state, page_text, TextState};

fn cmap(entries: &[(u16, &str)]) -> ToUnicodeMap {
    let mut map = ToUnicodeMap::new();
    for (code, text) in entries {
        map.insert(*code, (*text).into());
    }
    map
}

fn names(entries: &[(u32, &str)]) -> HashMap<u32, String> {
    entries.iter().map(|(code, name)| (*code, name.to_string())).collect()
}

fn decoded(font: &FontInfo, data: &[u8]) -> Result<String, DecodeError> {
    let mut out = String::from(">");
    font.decode(data, &mut out).map(|_| out)
}

fn num(x: f32) -> Number {
    Number::from_bits(x.to_bits())
}

fn cmap_font(name: &str, entries: &[(u16, &str)]) -> Font {
    Font { name: Some(name.to_string()), to_unicode: Some(cmap(entries)), encoding: None }
}

fn draw(text: &[u8]) -> TextOp {
    TextOp::TextDraw { text: text.to_vec() }
}

#[test]
fn character_map_looks_up_each_byte() {
    let font = FontInfo::with_character_map(cmap(&[(0x41, "a"), (0x42, "bee"), (0x141, "x")]));
    assert_eq!(decoded(&font, b"ABCA"), Ok(">abeea".to_string()));
    assert_eq!(decoded(&font, b""), Ok(">".to_string()));
    assert_eq!(decoded(&font, &[0x01, 0x41]), Ok(">a".to_string()));
}

#[test]
fn character_map_after_mark_looks_up_two_byte_codes() {
    let font = FontInfo::with_character_map(cmap(&[
        (0x0041, "A"),
        (0x0042, "B"),
        (0x4100, "<"),
        (0xfeff, "^"),
        (0xff00, "~"),
    ]));
    assert_eq!(decoded(&font, &[0xfe, 0xff, 0x00, 0x41]), Ok(">^A".to_string()));
    assert_eq!(decoded(&font, &[0xfe, 0xff, 0x00, 0x41, 0x00, 0x42]), Ok(">^AB".to_string()));
    assert_eq!(decoded(&font, &[0xfe, 0xff, 0x41, 0x00, 0x00, 0x09]), Ok(">^<".to_string()));
    assert_eq!(decoded(&font, &[0xfe, 0xff]), Ok(">^".to_string()));
    assert_eq!(decoded(&font, &[0xfe, 0xff, 0x00]), Ok(">^".to_string()));
    assert_eq!(decoded(&font, &[0xfe, 0xff, 0x00, 0x41, 0x00]), Ok(">^A".to_string()));
    let plain = FontInfo::with_character_map(cmap(&[(0x0041, "A")]));
    assert_eq!(decoded(&plain, &[0xfe, 0xff, 0x00, 0x41, 0x00, 0x41]), Ok(">AA".to_string()));
    assert_eq!(decoded(&plain, &[0xff, 0xfe, 0x00, 0x41]), Ok(">A".to_string()));
}

#[test]
fn encoding_looks_up_each_byte_differences_first() {
    let font = FontInfo::with_encoding(
        Some(BaseTable::WinAnsi),
        &names(&[(65, "Alpha"), (66, "no such glyph")]),
    );
    assert_eq!(decoded(&font, b"ABC"), Ok(">\u{391}BC".to_string()));
    assert_eq!(decoded(&font, &[0x80]), Ok(">\u{20ac}".to_string()));
    let standard = FontInfo::with_encoding(Some(BaseTable::Standard), &names(&[]));
    assert_eq!(decoded(&standard, &[0xd0, 0x27, 0x05]), Ok(">\u{2014}\u{2019}".to_string()));
    let mac = FontInfo::with_encoding(Some(BaseTable::MacRoman), &names(&[]));
    assert_eq!(decoded(&mac, &[0x80]), Ok(">\u{c4}".to_string()));
    let symbol = FontInfo::with_encoding(Some(BaseTable::Symbol), &names(&[]));
    assert_eq!(decoded(&symbol, &[0x61]), Ok(">\u{3b1}".to_string()));
    let bare = FontInfo::with_encoding(None, &names(&[(1, "gamma")]));
    assert_eq!(decoded(&bare, &[0x01, 0x41]), Ok(">\u{3b3}".to_string()));
}

#[test]
fn difference_goes_before_the_base_and_unknown_glyph_falls_back() {
    let font = FontInfo::with_encoding(
        Some(BaseTable::WinAnsi),
        &names(&[(65, "gamma"), (66, "beta"), (67, "no such glyph"), (300, "delta")]),
    );
    assert_eq!(decoded(&font, b"ABCD"), Ok(">\u{3b3}\u{3b2}CD".to_string()));
    let bare = FontInfo::with_encoding(None, &names(&[(65, "no such glyph"), (66, "beta")]));
    assert_eq!(decoded(&bare, b"ABC"), Ok(">\u{3b2}".to_string()));
}

#[test]
fn passthrough_reads_utf8() {
    let font = FontInfo::default();
    assert_eq!(decoded(&font, "h\u{e9}llo \u{20b9}".as_bytes()), Ok(">h\u{e9}llo \u{20b9}".to_string()));
    assert_eq!(decoded(&font, b""), Ok(">".to_string()));
    assert_eq!(decoded(&font, &[0xfe]), Err(DecodeError::Utf16Decode));
}

#[test]
fn passthrough_rejects_bad_utf8_and_appends_nothing() {
    let font = FontInfo::default();
    let mut out = String::from("kept");
    assert_eq!(font.decode(&[0x61, 0xff, 0x62], &mut out), Err(DecodeError::Utf16Decode));
    assert_eq!(out, "kept");
    assert_eq!(font.decode(&[0xc0, 0x80], &mut out), Err(DecodeError::Utf16Decode));
    assert_eq!(font.decode(&[0xed, 0xa0, 0x80], &mut out), Err(DecodeError::Utf16Decode));
    assert_eq!(font.decode(&[0xf4, 0x90, 0x80, 0x80], &mut out), Err(DecodeError::Utf16Decode));
    assert_eq!(out, "kept");
}

#[test]
fn passthrough_reads_utf16_after_mark() {
    let font = FontInfo::default();
    assert_eq!(decoded(&font, &[0xfe, 0xff, 0x00, 0x48, 0x00, 0x69]), Ok(">Hi".to_string()));
    assert_eq!(decoded(&font, &[0xfe, 0xff]), Ok(">".to_string()));
    assert_eq!(decoded(&font, &[0xfe, 0xff, 0x20, 0xb9]), Ok(">\u{20b9}".to_string()));
    assert_eq!(
        decoded(&font, &[0xfe, 0xff, 0xd8, 0x34, 0xdd, 0x1e, 0x00, 0x21]),
        Ok(">\u{1d11e}!".to_string())
    );
    assert_eq!(decoded(&font, &[0xfe, 0xff, 0x00, 0x48, 0x69]), Ok(">H".to_string()));
}

#[test]
fn passthrough_stops_at_an_unpaired_surrogate() {
    let font = FontInfo::default();
    let mut out = String::from(">");
    assert_eq!(
        font.decode(&[0xfe, 0xff, 0x00, 0x48, 0xd8, 0x00, 0x00, 0x69], &mut out),
        Err(DecodeError::Utf16Decode)
    );
    assert_eq!(out, ">H");
    let mut out = String::new();
    assert_eq!(font.decode(&[0xfe, 0xff, 0xdc, 0x00], &mut out), Err(DecodeError::Utf16Decode));
    assert_eq!(out, "");
    let mut out = String::new();
    assert_eq!(font.decode(&[0xfe, 0xff, 0x00, 0x41, 0xd8, 0x34], &mut out), Err(DecodeError::Utf16Decode));
    assert_eq!(out, "A");
    let mut out = String::new();
    assert_eq!(
        font.decode(&[0xfe, 0xff, 0xd8, 0x34, 0xd8, 0x34, 0xdd, 0x1e], &mut out),
        Err(DecodeError::Utf16Decode)
    );
    assert_eq!(out, "");
}

#[test]
fn numbers_are_judged_by_their_bits() {
    let samples = [
        0.0f32,
        -0.0,
        1.0,
        -1.0,
        f32::EPSILON,
        -f32::EPSILON,
        f32::EPSILON / 2.0,
        1.1920928e-7,
        1.192093e-7,
        1e-8,
        -1e-8,
        1e-6,
        f32::MIN_POSITIVE,
        1e-45,
        f32::MAX,
        f32::MIN,
        f32::INFINITY,
        f32::NEG_INFINITY,
        f32::NAN,
        -f32::NAN,
        12.5,
        720.0,
    ];
    for x in samples {
        assert_eq!(num(x).is_negligible(), x.abs() < f32::EPSILON, "{}", x);
        assert_eq!(num(x).is_finite(), x.is_finite(), "{}", x);
        assert_eq!(num(x).is_finite(), (x - x).abs() < f32::EPSILON, "{}", x);
    }
    assert_eq!(Number::zero(), num(0.0));
    assert_eq!(Number::one(), num(1.0));
    let id = Matrix::identity();
    assert_eq!((id.a, id.b, id.c, id.d, id.e, id.f), (num(1.0), num(0.0), num(0.0), num(1.0), num(0.0), num(0.0)));
}

fn sample_page(ops: Vec<TextOp>) -> Page {
    let f1 = cmap_font("Body", &[(0x41, "x"), (0x42, "y")]);
    let f2 = Font {
        name: Some("Sym".to_string()),
        to_unicode: None,
        encoding: Some(Encoding {
            base: BaseEncoding::WinAnsiEncoding,
            differences: names(&[(65, "Alpha")]),
        }),
    };
    let unsupported = Font {
        name: Some("Cjk".to_string()),
        to_unicode: None,
        encoding: Some(Encoding { base: BaseEncoding::IdentityH, differences: names(&[]) }),
    };
    let silent = Font { name: None, to_unicode: None, encoding: None };
    let via_state = cmap_font("Inner", &[(0x41, "i")]);
    let nameless = Font { name: None, to_unicode: Some(cmap(&[(0x41, "n")])), encoding: None };
    Page {
        contents: Some(ops),
        resources: Some(Resources {
            fonts: vec![
                ("F1".to_string(), Some(f1)),
                ("F2".to_string(), Some(f2)),
                ("F3".to_string(), Some(unsupported)),
                ("F4".to_string(), None),
                ("F5".to_string(), Some(silent)),
            ],
            graphics_states: vec![
                (
                    "GS1".to_string(),
                    GraphicsState { font: Some(GraphicsStateFont { font: Some(via_state), size: num(9.0) }) },
                ),
                ("GS2".to_string(), GraphicsState { font: None }),
                (
                    "GS3".to_string(),
                    GraphicsState { font: Some(GraphicsStateFont { font: None, size: num(7.0) }) },
                ),
                (
                    "GS4".to_string(),
                    GraphicsState { font: Some(GraphicsStateFont { font: Some(nameless), size: num(6.0) }) },
                ),
            ],
        }),
    }
}

#[test]
fn cache_finds_fonts_by_name() {
    let page = sample_page(vec![]);
    let cache = FontCache::new(&page);
    assert_eq!(decoded(&cache.get_by_font_name("F1"), b"AB"), Ok(">xy".to_string()));
    assert_eq!(decoded(&cache.get_by_font_name("F2"), b"AB"), Ok(">\u{391}B".to_string()));
    assert_eq!(decoded(&cache.get_by_font_name("Inner"), b"AB"), Ok(">i".to_string()));
    for missing in ["F3", "F4", "F5", "Body", "nothing", ""] {
        assert_eq!(decoded(&cache.get_by_font_name(missing), b"AB"), Ok(">AB".to_string()), "{}", missing);
    }
}

#[test]
fn cache_finds_fonts_by_graphics_state() {
    let page = sample_page(vec![]);
    let cache = FontCache::new(&page);
    let (font, size) = cache.get_by_graphic_state_name("GS1").unwrap();
    assert_eq!(decoded(&font, b"AB"), Ok(">i".to_string()));
    assert_eq!(size, num(9.0));
    assert!(cache.get_by_graphic_state_name("GS2").is_none());
    assert!(cache.get_by_graphic_state_name("GS9").is_none());
    let (font, size) = cache.get_by_graphic_state_name("GS3").unwrap();
    assert_eq!(decoded(&font, b"AB"), Ok(">AB".to_string()));
    assert_eq!(size, num(7.0));
    let (font, size) = cache.get_by_graphic_state_name("GS4").unwrap();
    assert_eq!(decoded(&font, b"AB"), Ok(">AB".to_string()));
    assert_eq!(size, num(6.0));
    let bare = Page { contents: None, resources: None };
    let cache = FontCache::new(&bare);
    assert!(cache.get_by_graphic_state_name("GS1").is_none());
    assert_eq!(decoded(&cache.get_by_font_name("F1"), b"AB"), Ok(">AB".to_string()));
}

#[test]
fn later_font_of_a_name_counts() {
    let mut page = sample_page(vec![]);
    if let Some(resources) = page.resources.as_mut() {
        resources.fonts.push(("F1".to_string(), Some(cmap_font("Other", &[(0x41, "late")]))));
        resources.graphics_states.push((
            "GS5".to_string(),
            GraphicsState {
                font: Some(GraphicsStateFont {
                    font: Some(Font {
                        name: Some("F2".to_string()),
                        to_unicode: Some(cmap(&[(0x41, "state")])),
                        encoding: None,
                    }),
                    size: num(1.0),
                }),
            },
        ));
    }
    let cache = FontCache::new(&page);
    assert_eq!(decoded(&cache.get_by_font_name("F1"), b"A"), Ok(">late".to_string()));
    assert_eq!(decoded(&cache.get_by_font_name("F2"), b"A"), Ok(">state".to_string()));
}

#[test]
fn state_follows_the_operators() {
    let p = Point { x: num(10.0), y: num(-12.0) };
    let m = Matrix { a: num(2.0), b: num(0.0), c: num(0.0), d: num(2.0), e: num(72.0), f: num(700.0) };
    let page = sample_page(vec![
        TextOp::TextFont { name: "F1".to_string(), size: num(12.0) },
        TextOp::Leading { leading: num(14.0) },
        TextOp::TextNewline,
        TextOp::MoveTextPosition { translation: p },
        TextOp::Other,
        TextOp::SetTextMatrix { matrix: m },
        TextOp::TextNewline,
        TextOp::GraphicsState { name: "GS1".to_string() },
        TextOp::GraphicsState { name: "GS2".to_string() },
        TextOp::TextFont { name: "missing".to_string(), size: num(3.0) },
        draw(b"AB"),
        TextOp::BeginText,
    ]);
    let pairs = ops_with_text_state(&page);
    assert_eq!(pairs.len(), 12);
    let state = |i: usize| -> &TextState { &pairs[i].1 };
    assert!(matches!(pairs[0].0, TextOp::TextFont { .. }));
    assert!(matches!(pairs[10].0, TextOp::TextDraw { .. }));
    assert_eq!(state(0).font_size, num(12.0));
    assert_eq!(decoded(&state(0).font, b"AB"), Ok(">xy".to_string()));
    assert_eq!(state(0).text_leading, num(0.0));
    assert_eq!(state(1).text_leading, num(14.0));
    assert_eq!(state(1).text_matrix.base, Matrix::identity());
    assert_eq!(state(1).text_matrix.moves, vec![]);
    assert_eq!(state(2).text_matrix.moves, vec![Point { x: num(0.0), y: num(14.0) }]);
    assert_eq!(state(3).text_matrix.moves, vec![Point { x: num(0.0), y: num(14.0) }, p]);
    assert_eq!(state(4).text_matrix.moves, state(3).text_matrix.moves);
    assert_eq!(state(5).text_matrix.base, m);
    assert_eq!(state(5).text_matrix.moves, vec![]);
    assert_eq!(state(5).font_size, num(12.0));
    assert_eq!(state(6).text_matrix.base, m);
    assert_eq!(state(6).text_matrix.moves, vec![Point { x: num(0.0), y: num(14.0) }]);
    assert_eq!(state(7).font_size, num(9.0));
    assert_eq!(decoded(&state(7).font, b"AB"), Ok(">i".to_string()));
    assert_eq!(state(8).font_size, num(9.0));
    assert_eq!(decoded(&state(8).font, b"AB"), Ok(">i".to_string()));
    assert_eq!(state(9).font_size, num(3.0));
    assert_eq!(decoded(&state(9).font, b"AB"), Ok(">AB".to_string()));
    assert_eq!(state(10).text_leading, num(14.0));
    assert_eq!(state(11).font_size, num(0.0));
    assert_eq!(state(11).text_leading, num(0.0));
    assert_eq!(state(11).text_matrix.base, Matrix::identity());
    assert_eq!(state(11).text_matrix.moves, vec![]);
    assert_eq!(decoded(&state(11).font, b"AB"), Ok(">AB".to_string()));
    assert_eq!(state(2).text_matrix.moves.len(), 1);
    let none = Page { contents: None, resources: None };
    assert_eq!(ops_with_text_state(&none).len(), 0);
}

#[test]
fn page_text_decodes_and_breaks_lines() {
    let m = |f: f32| Matrix { a: num(1.0), b: num(0.0), c: num(0.0), d: num(1.0), e: num(0.0), f: num(f) };
    let page = sample_page(vec![
        TextOp::BeginText,
        TextOp::TextFont { name: "F1".to_string(), size: num(12.0) },
        draw(b"AB"),
        TextOp::TextNewline,
        TextOp::TextDrawAdjusted {
            array: vec![
                TextDrawAdjusted::Text(b"A".to_vec()),
                TextDrawAdjusted::Spacing(num(-120.0)),
                TextDrawAdjusted::Text(b"BZ".to_vec()),
            ],
        },
        TextOp::MoveTextPosition { translation: Point { x: num(5.0), y: num(0.0) } },
        TextOp::MoveTextPosition { translation: Point { x: num(0.0), y: num(-14.0) } },
        TextOp::SetTextMatrix { matrix: m(700.0) },
        TextOp::SetTextMatrix { matrix: m(f32::INFINITY) },
        TextOp::SetTextMatrix { matrix: m(f32::NAN) },
        TextOp::Other,
        TextOp::BeginText,
        draw("caf\u{e9}".as_bytes()),
    ]);
    assert_eq!(page_text(&page), Ok("xy\nxy\n\n\t\tcaf\u{e9}".to_string()));
    let none = Page { contents: None, resources: None };
    assert_eq!(page_text(&none), Ok(String::new()));
}

#[test]
fn page_text_fails_where_a_string_does_not_decode() {
    let page = sample_page(vec![draw(b"ok"), draw(&[0xff]), draw(b"later")]);
    assert_eq!(page_text(&page), Err(DecodeError::Utf16Decode));
    let page = sample_page(vec![TextOp::TextDrawAdjusted {
        array: vec![
            TextDrawAdjusted::Text(b"ok".to_vec()),
            TextDrawAdjusted::Text(vec![0xfe, 0xff, 0xd8, 0x00]),
        ],
    }]);
    assert_eq!(page_text(&page), Err(DecodeError::Utf16Decode));
}

#[test]
fn page_texts_are_trimmed_utf8_strings() {
    let ops = vec![
        draw(b"  Domestic Transactions "),
        TextOp::TextNewline,
        draw(b"   "),
        draw(&[0xff, 0x41]),
        draw(b""),
        TextOp::TextDrawAdjusted { array: vec![TextDrawAdjusted::Text(b"skipped".to_vec())] },
        draw("\u{a0}1,234.50\n".as_bytes()),
    ];
    assert_eq!(extract_page_texts(&ops), vec!["Domestic Transactions".to_string(), "1,234.50".to_string()]);
    assert_eq!(extract_page_texts(&vec![]), Vec::<String>::new());
}

#[test]
fn fragments_are_decoded_with_the_font_in_force() {
    let page = sample_page(vec![
        draw(b" AB "),
        TextOp::TextFont { name: "F1".to_string(), size: num(8.0) },
        draw(b"ABZ"),
        draw(b"ZZ"),
        TextOp::BeginText,
        draw(&[0xff]),
        draw(&[0xfe, 0xff, 0x00, 0x20, 0x00, 0x48, 0x00, 0x20]),
    ]);
    let fragments = text_fragments(&page);
    let texts: Vec<&str> = fragments.iter().map(|f| f.text.as_str()).collect();
    assert_eq!(texts, vec!["AB", "xy", "H"]);
    assert_eq!(fragments[0].state.font_size, num(0.0));
    assert_eq!(fragments[1].state.font_size, num(8.0));
    assert_eq!(fragments[2].state.font_size, num(0.0));
    assert_eq!(text_fragments(&Page { contents: None, resources: None }).len(), 0);
}

#[test]
fn page_gives_its_transactions() {
    let strings = [
        "Domestic Transactions",
        "Jane Doe",
        "PI",
        "Jane Doe",
        "19/10/2025| 00:57",
        "AMAZON RETAIL",
        "123",
        "1,234.50",
        "Page 1 of 2",
    ];
    let mut ops = vec![TextOp::BeginText];
    for s in strings {
        ops.push(draw(s.as_bytes()));
        ops.push(TextOp::TextNewline);
    }
    let page = Page { contents: Some(ops), resources: None };
    let rows = page_transactions(&page, "Jane Doe");
    assert_eq!(rows.len(), 1);
    assert_eq!(rows[0].description, "AMAZON RETAIL");
    assert_eq!(rows[0].points, 123);
    assert_eq!(rows[0].amount.to_text(), "-1234.50");
    assert_eq!((rows[0].date.day, rows[0].date.month, rows[0].date.year), (19, 10, 2025));
    assert_eq!(page_transactions(&Page { contents: None, resources: None }, "Jane Doe").len(), 0);
}
