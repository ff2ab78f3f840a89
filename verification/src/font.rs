//! Fonts as far as text extraction needs them: how the bytes of a drawn
//! string become text.
//!
//! A font decodes in one of three ways, fixed when the font is registered:
//! through a character map from codes to text, through a base encoding
//! with differences, or, knowing nothing of the font, by taking the bytes
//! as UTF-16 (big endian, after a byte-order mark) or UTF-8.

use pdf::font::ToUnicodeMap;
use pdf_encoding::DifferenceForwardMap;
use std::collections::HashMap;
use vstd::prelude::*;
use vstd::slice::slice_subrange;
use vstd::utf8::{decode_utf8, valid_utf8};

verus! {

#[verifier::external_type_specification]
#[verifier::external_body]
pub struct ExToUnicodeMap(pdf::font::ToUnicodeMap);

#[verifier::external_type_specification]
#[verifier::external_body]
pub struct ExDifferenceForwardMap(pdf_encoding::DifferenceForwardMap);

/// The entries of a character map: the text that each code stands for.
pub uninterp spec fn cmap_entries(map: ToUnicodeMap) -> Map<u16, Seq<char>>;

/// The entries of an encoding with differences: the text that each byte
/// stands for.
pub uninterp spec fn difference_entries(map: DifferenceForwardMap) -> Map<u8, Seq<char>>;

/// The text that `pdf_encoding` knows for a glyph name, as its
/// `glyphname_to_unicode` gives it; `None` for a name it does not know.
pub uninterp spec fn glyph_text(name: Seq<char>) -> Option<Seq<char>>;

/// The character that a base table of `pdf_encoding` holds for a byte, as
/// `ForwardMap::get` gives it; `None` where the table has none.
pub uninterp spec fn base_entry(base: BaseTable, byte: u8) -> Option<char>;

/// The glyph name that the differences give to `code`, if any.
pub open spec fn difference_name(differences: Map<u32, Seq<char>>, code: u32) -> Option<
    Seq<char>,
> {
    if differences.contains_key(code) {
        Some(differences[code])
    } else {
        None
    }
}

/// The text that a byte stands for under a base table and differences:
/// the text of the glyph that the differences name for the byte, where
/// they name one that is known; else the character of the base table,
/// where there is a table and it has one; else none.
pub open spec fn byte_text(
    base: Option<BaseTable>,
    differences: Map<u32, Seq<char>>,
    byte: u8,
) -> Option<Seq<char>> {
    let named = match difference_name(differences, byte as u32) {
        Some(name) => glyph_text(name),
        None => None,
    };
    match named {
        Some(text) => Some(text),
        None => match base {
            Some(table) => match base_entry(table, byte) {
                Some(c) => Some(seq![c]),
                None => None,
            },
            None => None,
        },
    }
}

/// The entries of the encoding made of a base table and of differences
/// (glyph names by code): a difference goes before the base.
pub open spec fn difference_table(
    base: Option<BaseTable>,
    differences: Map<u32, Seq<char>>,
) -> Map<u8, Seq<char>> {
    Map::new(
        |byte: u8| byte_text(base, differences, byte) is Some,
        |byte: u8| byte_text(base, differences, byte)->0,
    )
}

/// `ToUnicodeMap::get` looks the code up among the entries of the map.
pub assume_specification<'a>[ ToUnicodeMap::get ](map: &'a ToUnicodeMap, gid: u16) -> (r: Option<
    &'a str,
>)
    ensures
        r is Some <==> cmap_entries(*map).contains_key(gid),
        r matches Some(s) ==> s@ == cmap_entries(*map)[gid],
;

/// `DifferenceForwardMap::get` looks the byte up among the entries of the
/// encoding.
pub assume_specification<'a>[ DifferenceForwardMap::get ](
    map: &'a DifferenceForwardMap,
    codepoint: u8,
) -> (r: Option<&'a String>)
    ensures
        r is Some <==> difference_entries(*map).contains_key(codepoint),
        r matches Some(s) ==> s@ == difference_entries(*map)[codepoint],
;

/// Calls `clone` on a `pdf::font::ToUnicodeMap`. Trusted: the copy has the
/// entries of the map it was made from.
#[verifier::external_body]
pub(crate) fn copy_character_map(map: &ToUnicodeMap) -> (r: ToUnicodeMap)
    ensures
        cmap_entries(r) == cmap_entries(*map),
{
    map.clone()
}

/// The base tables that an encoding with differences can start from.
#[derive(Debug, Clone, Copy, PartialEq, Eq, Structural)]
pub enum BaseTable {
    Standard,
    Symbol,
    WinAnsi,
    MacRoman,
}

/// What the differences stand for: glyph names by code.
pub open spec fn differences_view(differences: Map<u32, String>) -> Map<u32, Seq<char>> {
    differences.map_values(|name: String| name@)
}

/// Calls `pdf_encoding::DifferenceForwardMap::new` with the table of the
/// crate that `base` names and a copy of the differences. Trusted: for
/// each byte the function takes the text of the glyph that the differences
/// name for it, if the crate knows the glyph, and else the character of
/// the base table, if there is one.
#[verifier::external_body]
fn build_difference_map(base: Option<BaseTable>, differences: &HashMap<u32, String>) -> (r:
    DifferenceForwardMap)
    ensures
        difference_entries(r) == difference_table(base, differences_view(differences@)),
        forall|byte: u8| #[trigger]
            difference_entries(r).contains_key(byte) <==> (match difference_name(
                differences_view(differences@),
                byte as u32,
            ) {
                Some(name) => glyph_text(name) is Some,
                None => false,
            } || match base {
                Some(table) => base_entry(table, byte) is Some,
                None => false,
            }),
{
    let table = match base {
        Some(BaseTable::Standard) => Some(&pdf_encoding::STANDARD),
        Some(BaseTable::Symbol) => Some(&pdf_encoding::SYMBOL),
        Some(BaseTable::WinAnsi) => Some(&pdf_encoding::WINANSI),
        Some(BaseTable::MacRoman) => Some(&pdf_encoding::MACROMAN),
        None => None,
    };
    DifferenceForwardMap::new(table, differences.clone())
}

/// The 16-bit number whose high byte is `hi` and whose low byte is `lo`.
pub open spec fn be16(hi: u8, lo: u8) -> u16 {
    (hi * 256 + lo) as u16
}

/// The 16-bit units that `data` holds in big-endian order. A last odd byte
/// belongs to no unit.
pub open spec fn utf16be_units(data: Seq<u8>) -> Seq<u16> {
    Seq::new((data.len() / 2) as nat, |i: int| be16(data[2 * i], data[2 * i + 1]))
}

/// `u` is one half of a surrogate pair.
pub open spec fn is_surrogate(u: u16) -> bool {
    0xD800 <= u <= 0xDFFF
}

/// `u` is the second half of a surrogate pair.
pub open spec fn is_trail_surrogate(u: u16) -> bool {
    0xDC00 <= u <= 0xDFFF
}

/// The character that the surrogate pair stands for.
pub open spec fn surrogate_pair(lead: u16, trail: u16) -> char {
    (0x10000 + (lead - 0xD800) * 0x400 + (trail - 0xDC00)) as char
}

/// The characters that the UTF-16 units stand for, with `None` in place of
/// each surrogate that has no partner. After a lone surrogate decoding
/// goes on with the next unit.
pub open spec fn utf16_decoded(units: Seq<u16>) -> Seq<Option<char>>
    decreases units.len(),
{
    if units.len() == 0 {
        Seq::empty()
    } else if !is_surrogate(units[0]) {
        seq![Some(units[0] as char)].add(utf16_decoded(units.skip(1)))
    } else if !is_trail_surrogate(units[0]) && units.len() >= 2 && is_trail_surrogate(units[1]) {
        seq![Some(surrogate_pair(units[0], units[1]))].add(utf16_decoded(units.skip(2)))
    } else {
        seq![None].add(utf16_decoded(units.skip(1)))
    }
}

/// Calls `pdf::font::utf16be_to_char` and collects what it yields, an
/// error as `None`. Trusted: the function pairs the bytes into big-endian
/// units, drops a last odd byte, and decodes the units as UTF-16, yielding
/// an error for each unpaired surrogate.
#[verifier::external_body]
fn utf16be_chars(data: &[u8]) -> (r: Vec<Option<char>>)
    ensures
        r@ == utf16_decoded(utf16be_units(data@)),
{
    pdf::font::utf16be_to_char(data).map(|c| c.ok()).collect()
}

/// Calls `std::str::from_utf8`. Trusted: it succeeds exactly on well-formed
/// UTF-8 and then gives the text that the bytes encode.
#[verifier::external_body]
pub(crate) fn utf8_text(data: &[u8]) -> (r: Option<&str>)
    ensures
        r is Some <==> valid_utf8(data@),
        r matches Some(s) ==> s@ == decode_utf8(data@),
{
    std::str::from_utf8(data).ok()
}

/// `data` begins with the UTF-16 big-endian byte-order mark.
pub open spec fn has_byte_order_mark(data: Seq<u8>) -> bool {
    data.len() >= 2 && data[0] == 0xfe && data[1] == 0xff
}

/// The text of `code` in a character map; empty where the map has none.
pub open spec fn cmap_text(entries: Map<u16, Seq<char>>, code: u16) -> Seq<char> {
    if entries.contains_key(code) {
        entries[code]
    } else {
        Seq::empty()
    }
}

/// The text of `byte` in an encoding; empty where the encoding has none.
pub open spec fn difference_text(entries: Map<u8, Seq<char>>, byte: u8) -> Seq<char> {
    if entries.contains_key(byte) {
        entries[byte]
    } else {
        Seq::empty()
    }
}

/// The texts of the codes `codes` in a character map, in order.
pub open spec fn cmap_codes_text(entries: Map<u16, Seq<char>>, codes: Seq<u16>) -> Seq<char>
    decreases codes.len(),
{
    if codes.len() == 0 {
        Seq::empty()
    } else {
        cmap_codes_text(entries, codes.drop_last()) + cmap_text(entries, codes.last())
    }
}

/// The texts of the bytes of `data`, each read as a code, in order.
pub open spec fn cmap_bytes_text(entries: Map<u16, Seq<char>>, data: Seq<u8>) -> Seq<char>
    decreases data.len(),
{
    if data.len() == 0 {
        Seq::empty()
    } else {
        cmap_bytes_text(entries, data.drop_last()) + cmap_text(entries, data.last() as u16)
    }
}

/// The texts of the bytes of `data` in an encoding, in order.
pub open spec fn difference_bytes_text(entries: Map<u8, Seq<char>>, data: Seq<u8>) -> Seq<char>
    decreases data.len(),
{
    if data.len() == 0 {
        Seq::empty()
    } else {
        difference_bytes_text(entries, data.drop_last()) + difference_text(entries, data.last())
    }
}

/// The characters at the start of `items`, up to the first `None`.
pub open spec fn leading_chars(items: Seq<Option<char>>) -> Seq<char>
    decreases items.len(),
{
    if items.len() == 0 {
        Seq::empty()
    } else {
        match items.last() {
            Some(c) => if all_chars(items.drop_last()) {
                leading_chars(items.drop_last()).push(c)
            } else {
                leading_chars(items.drop_last())
            },
            None => leading_chars(items.drop_last()),
        }
    }
}

/// No item is `None`.
pub open spec fn all_chars(items: Seq<Option<char>>) -> bool {
    forall|i: int| 0 <= i < items.len() ==> (#[trigger] items[i]) is Some
}

/// What a font stands for: its way of decoding.
pub enum DecoderView {
    /// An encoding with differences: one text for each byte that it knows.
    Encoding(Map<u8, Seq<char>>),
    /// A character map: one text for each code that it knows.
    CharacterMap(Map<u16, Seq<char>>),
    /// Nothing is known of the font.
    Passthrough,
}

impl DecoderView {
    /// The text that `data` decodes to, as far as it decodes, and whether it
    /// decodes in full.
    ///
    /// With a character map: where `data` begins with a byte-order mark, it
    /// is cut into two-byte big-endian codes, of which the mark is the
    /// first, and each code is looked up; a last odd byte belongs to no
    /// code. Without a mark every byte is a code. A code without an entry
    /// adds nothing. With an encoding every byte is looked up likewise.
    /// Both always decode in full. Without either, `data` is UTF-16 after a
    /// byte-order mark, decoded up to the first unpaired surrogate, and
    /// UTF-8 otherwise, which decodes in full or not at all.
    pub open spec fn decoded(self, data: Seq<u8>) -> (Seq<char>, bool) {
        match self {
            DecoderView::CharacterMap(entries) => if has_byte_order_mark(data) {
                (cmap_codes_text(entries, utf16be_units(data)), true)
            } else {
                (cmap_bytes_text(entries, data), true)
            },
            DecoderView::Encoding(entries) => (difference_bytes_text(entries, data), true),
            DecoderView::Passthrough => if has_byte_order_mark(data) {
                let items = utf16_decoded(utf16be_units(data.skip(2)));
                (leading_chars(items), all_chars(items))
            } else if valid_utf8(data) {
                (decode_utf8(data), true)
            } else {
                (Seq::empty(), false)
            },
        }
    }
}

/// The ways of decoding.
pub enum Decoder {
    Encoding(DifferenceForwardMap),
    CharacterMap(ToUnicodeMap),
    Passthrough,
}

/// Why bytes did not decode.
#[derive(Debug, Clone, Copy, PartialEq, Eq, Structural)]
pub enum DecodeError {
    /// The bytes are neither well-formed UTF-16 after a byte-order mark nor
    /// well-formed UTF-8 without one.
    Utf16Decode,
}

/// A font: its way of decoding the bytes of a string into text.
pub struct FontInfo {
    decoder: Decoder,
}

impl View for FontInfo {
    type V = DecoderView;

    closed spec fn view(&self) -> DecoderView {
        match self.decoder {
            Decoder::Encoding(map) => DecoderView::Encoding(difference_entries(map)),
            Decoder::CharacterMap(map) => DecoderView::CharacterMap(cmap_entries(map)),
            Decoder::Passthrough => DecoderView::Passthrough,
        }
    }
}

impl Default for FontInfo {
    /// The font of which nothing is known.
    fn default() -> (font: FontInfo)
        ensures
            font@ == DecoderView::Passthrough,
    {
        FontInfo { decoder: Decoder::Passthrough }
    }
}

impl FontInfo {
    /// The font that decodes through the character map `map`.
    pub fn with_character_map(map: ToUnicodeMap) -> (font: FontInfo)
        ensures
            font@ == DecoderView::CharacterMap(cmap_entries(map)),
    {
        FontInfo { decoder: Decoder::CharacterMap(map) }
    }

    /// The font that decodes through the base table `base`, if any, on top
    /// of which `differences` name the glyphs of single codes.
    pub fn with_encoding(base: Option<BaseTable>, differences: &HashMap<u32, String>) -> (font:
        FontInfo)
        ensures
            font@ == DecoderView::Encoding(difference_table(base, differences_view(differences@))),
    {
        FontInfo { decoder: Decoder::Encoding(build_difference_map(base, differences)) }
    }

    /// Decodes `data` and appends the text to `out`. Fails where the font
    /// has neither map nor encoding and `data` is not well-formed; what was
    /// decoded up to there has then been appended.
    pub fn decode(&self, data: &[u8], out: &mut String) -> (r: Result<(), DecodeError>)
        ensures
            final(out)@ == old(out)@ + self@.decoded(data@).0,
            r is Ok <==> self@.decoded(data@).1,
    {
        let marked = data.len() >= 2 && data[0] == 0xfe && data[1] == 0xff;
        match &self.decoder {
            Decoder::CharacterMap(map) => {
                if marked {
                    let ghost start = out@;
                    let ghost entries = cmap_entries(*map);
                    let ghost codes = utf16be_units(data@);
                    let count: usize = data.len() / 2;
                    let mut k: usize = 0;
                    assert(codes.take(0) == Seq::<u16>::empty());
                    while k < count
                        invariant
                            k <= count,
                            count == data.len() / 2,
                            codes == utf16be_units(data@),
                            entries == cmap_entries(*map),
                            out@ == start + cmap_codes_text(entries, codes.take(k as int)),
                        decreases count - k,
                    {
                        assert(codes.take(k + 1).drop_last() == codes.take(k as int));
                        assert(codes.take(k + 1).last() == be16(
                            data@[2 * k as int],
                            data@[2 * k + 1],
                        ));
                        let code: u16 = (data[2 * k] as u16) * 256 + (data[2 * k + 1] as u16);
                        match map.get(code) {
                            Some(s) => {
                                out.append(s);
                            },
                            None => {},
                        }
                        k += 1;
                    }
                    assert(codes.take(count as int) == codes);
                } else {
                    let ghost start = out@;
                    let ghost entries = cmap_entries(*map);
                    let mut k: usize = 0;
                    while k < data.len()
                        invariant
                            k <= data.len(),
                            entries == cmap_entries(*map),
                            out@ == start + cmap_bytes_text(entries, data@.take(k as int)),
                        decreases data.len() - k,
                    {
                        assert(data@.take(k + 1).drop_last() == data@.take(k as int));
                        match map.get(data[k] as u16) {
                            Some(s) => {
                                out.append(s);
                            },
                            None => {},
                        }
                        k += 1;
                    }
                    assert(data@.take(data.len() as int) == data@);
                }
                Ok(())
            },
            Decoder::Encoding(map) => {
                let ghost start = out@;
                let ghost entries = difference_entries(*map);
                let mut k: usize = 0;
                while k < data.len()
                    invariant
                        k <= data.len(),
                        entries == difference_entries(*map),
                        out@ == start + difference_bytes_text(entries, data@.take(k as int)),
                    decreases data.len() - k,
                {
                    assert(data@.take(k + 1).drop_last() == data@.take(k as int));
                    match map.get(data[k]) {
                        Some(s) => {
                            out.append(s.as_str());
                        },
                        None => {},
                    }
                    k += 1;
                }
                assert(data@.take(data.len() as int) == data@);
                Ok(())
            },
            Decoder::Passthrough => {
                if marked {
                    let rest = slice_subrange(data, 2, data.len());
                    assert(rest@ == data@.skip(2));
                    let items = utf16be_chars(rest);
                    let ghost start = out@;
                    let mut k: usize = 0;
                    while k < items.len()
                        invariant
                            k <= items.len(),
                            self@ == DecoderView::Passthrough,
                            has_byte_order_mark(data@),
                            items@ == utf16_decoded(utf16be_units(data@.skip(2))),
                            start == old(out)@,
                            all_chars(items@.take(k as int)),
                            out@ == start + leading_chars(items@.take(k as int)),
                        decreases items.len() - k,
                    {
                        assert(items@.take(k + 1).drop_last() == items@.take(k as int));
                        match items[k] {
                            Some(c) => {
                                out.push(c);
                            },
                            None => {
                                proof {
                                    lemma_leading_chars_stop(items@, k as int);
                                    assert(!(items@[k as int] is Some));
                                }
                                return Err(DecodeError::Utf16Decode);
                            },
                        }
                        assert(all_chars(items@.take(k + 1))) by {
                            assert forall|i: int| 0 <= i < k + 1 implies (#[trigger] items@.take(
                                k + 1,
                            )[i]) is Some by {
                                if i < k {
                                    assert(items@.take(k as int)[i] is Some);
                                }
                            }
                        }
                        k += 1;
                    }
                    assert(items@.take(items.len() as int) == items@);
                    Ok(())
                } else {
                    match utf8_text(data) {
                        Some(text) => {
                            out.append(text);
                            Ok(())
                        },
                        None => {
                            assert(out@ + Seq::<char>::empty() == out@);
                            Err(DecodeError::Utf16Decode)
                        },
                    }
                }
            },
        }
    }
}

/// Once an item is `None`, the characters before it are all that lead.
pub proof fn lemma_leading_chars_stop(items: Seq<Option<char>>, k: int)
    requires
        0 <= k < items.len(),
        items[k] is None,
        all_chars(items.take(k)),
    ensures
        leading_chars(items) == leading_chars(items.take(k)),
    decreases items.len() - k,
{
    if items.len() == k + 1 {
        assert(items.drop_last() == items.take(k));
    } else {
        lemma_leading_chars_stop(items.drop_last(), k);
        assert(items.drop_last().take(k) == items.take(k));
        assert(!all_chars(items.drop_last())) by {
            assert(items.drop_last()[k] is None);
        }
    }
}

} // verus!
