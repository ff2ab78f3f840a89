//! From a page to its transactions: the strings that the page draws become
//! text fragments, and the row machine groups the fragments into rows.

use crate::font::{utf8_text, DecoderView};
use crate::font_cache::page_fonts;
use crate::page::{Page, TextOp};
use crate::rows::{page_rows, parse, rows_view, texts_view};
use crate::text::{chars_of, string_of, trim, trimmed};
use crate::text_state::{ops_with_text_state, state_after, TextState, TextStateView};
use crate::transaction::Transaction;
use std::rc::Rc;
use vstd::prelude::*;
use vstd::utf8::{decode_utf8, valid_utf8};

verus! {

/// The text of a drawn string taken as UTF-8, without surrounding space;
/// `None` where the bytes are not UTF-8 or nothing but space is left.
pub open spec fn plain_text(data: Seq<u8>) -> Option<Seq<char>> {
    if valid_utf8(data) && trim(decode_utf8(data)).len() > 0 {
        Some(trim(decode_utf8(data)))
    } else {
        None
    }
}

/// The texts of the strings that `ops` draw, each taken as UTF-8 and
/// trimmed, in order; strings that are not UTF-8 or hold nothing but space
/// are left out.
pub open spec fn page_texts(ops: Seq<TextOp>) -> Seq<Seq<char>>
    decreases ops.len(),
{
    if ops.len() == 0 {
        Seq::empty()
    } else {
        let before = page_texts(ops.drop_last());
        match ops.last() {
            TextOp::TextDraw { text } => match plain_text(text@) {
                Some(t) => before.push(t),
                None => before,
            },
            _ => before,
        }
    }
}

/// The texts of the strings that the operators draw, each taken as UTF-8,
/// without surrounding space. Strings that are not UTF-8 or hold nothing
/// but space are left out.
pub fn extract_page_texts(ops: &Vec<TextOp>) -> (texts: Vec<String>)
    ensures
        texts_view(texts@) == page_texts(ops@),
{
    let mut texts: Vec<String> = Vec::new();
    let mut i: usize = 0;
    assert(ops@.take(0) == Seq::<TextOp>::empty());
    assert(texts_view(texts@) == Seq::<Seq<char>>::empty());
    while i < ops.len()
        invariant
            i <= ops.len(),
            texts_view(texts@) == page_texts(ops@.take(i as int)),
        decreases ops.len() - i,
    {
        assert(ops@.take(i + 1).drop_last() == ops@.take(i as int));
        match &ops[i] {
            TextOp::TextDraw { text } => {
                match utf8_text(text.as_slice()) {
                    Some(s) => {
                        let clean = trimmed(&chars_of(s));
                        if clean.len() > 0 {
                            let ghost before = texts_view(texts@);
                            let owned = string_of(&clean);
                            texts.push(owned);
                            assert(texts_view(texts@) == before.push(clean@));
                        }
                    },
                    None => {},
                }
            },
            _ => {},
        }
        i += 1;
    }
    assert(ops@.take(ops.len() as int) == ops@);
    texts
}

/// A piece of text that a page draws, with the typographic state in which
/// it was drawn. The text is not empty and has no space at either end.
pub struct TextFragment {
    pub text: String,
    pub state: Rc<TextState>,
}

/// What a [`TextFragment`] stands for.
pub struct TextFragmentView {
    pub text: Seq<char>,
    pub state: TextStateView,
}

impl View for TextFragment {
    type V = TextFragmentView;

    open spec fn view(&self) -> TextFragmentView {
        TextFragmentView { text: self.text@, state: self.state@ }
    }
}

/// The text of a drawn string under `font`, without surrounding space;
/// `None` where the string does not decode or nothing but space is left.
pub open spec fn fragment_text(font: DecoderView, data: Seq<u8>) -> Option<Seq<char>> {
    if font.decoded(data).1 && trim(font.decoded(data).0).len() > 0 {
        Some(trim(font.decoded(data).0))
    } else {
        None
    }
}

/// The fragments that the operators `ops` of a page draw, in order: one
/// for each drawn string that decodes under the font in force to more than
/// space.
pub open spec fn fragments_of(page: Page, fonts: Map<Seq<char>, DecoderView>, ops: Seq<TextOp>)
    -> Seq<TextFragmentView>
    decreases ops.len(),
{
    if ops.len() == 0 {
        Seq::empty()
    } else {
        let before = fragments_of(page, fonts, ops.drop_last());
        let state = state_after(page, fonts, ops);
        match ops.last() {
            TextOp::TextDraw { text } => match fragment_text(state.font, text@) {
                Some(t) => before.push(TextFragmentView { text: t, state }),
                None => before,
            },
            _ => before,
        }
    }
}

/// The fragments of a page. A page without a content stream has none.
pub open spec fn page_fragments(page: Page) -> Seq<TextFragmentView> {
    match page.contents {
        Some(ops) => fragments_of(page, page_fonts(page), ops@),
        None => Seq::empty(),
    }
}

/// What a list of fragments stands for.
pub open spec fn fragments_view(fragments: Seq<TextFragment>) -> Seq<TextFragmentView> {
    fragments.map_values(|f: TextFragment| f@)
}

/// The texts of the fragments, in order.
pub open spec fn fragment_texts(fragments: Seq<TextFragmentView>) -> Seq<Seq<char>> {
    fragments.map_values(|f: TextFragmentView| f.text)
}

/// The text fragments of the page, in drawing order: each drawn string,
/// decoded with the font in force and trimmed, with the state in which it
/// was drawn. A string that does not decode, or that holds nothing but
/// space, gives no fragment.
pub fn text_fragments(page: &Page) -> (fragments: Vec<TextFragment>)
    ensures
        fragments_view(fragments@) == page_fragments(*page),
{
    let mut fragments: Vec<TextFragment> = Vec::new();
    let pairs = ops_with_text_state(page);
    assert(fragments_view(fragments@) == Seq::<TextFragmentView>::empty());
    match &page.contents {
        Some(ops) => {
            let ghost fonts = page_fonts(*page);
            let mut i: usize = 0;
            assert(ops@.take(0) == Seq::<TextOp>::empty());
            while i < pairs.len()
                invariant
                    i <= pairs.len(),
                    page.contents == Some(*ops),
                    fonts == page_fonts(*page),
                    pairs@.len() == ops@.len(),
                    forall|k: int|
                        0 <= k < pairs@.len() ==> {
                            &&& *(#[trigger] pairs@[k]).0 == ops@[k]
                            &&& pairs@[k].1@ == state_after(*page, fonts, ops@.take(k + 1))
                        },
                    fragments_view(fragments@) == fragments_of(*page, fonts, ops@.take(i as int)),
                decreases pairs.len() - i,
            {
                assert(ops@.take(i + 1).drop_last() == ops@.take(i as int));
                assert(ops@.take(i + 1).last() == ops@[i as int]);
                let op: &TextOp = pairs[i].0;
                let state: &Rc<TextState> = &pairs[i].1;
                match op {
                    TextOp::TextDraw { text } => {
                        let mut decoded = String::new();
                        match state.font.decode(text.as_slice(), &mut decoded) {
                            Ok(()) => {
                                assert(decoded@ == state@.font.decoded(text@).0) by {
                                    assert(Seq::<char>::empty() + state@.font.decoded(text@).0
                                        == state@.font.decoded(text@).0);
                                }
                                let clean = trimmed(&chars_of(decoded.as_str()));
                                if clean.len() > 0 {
                                    let ghost before = fragments_view(fragments@);
                                    let fragment = TextFragment {
                                        text: string_of(&clean),
                                        state: crate::font_cache::share(state),
                                    };
                                    let ghost view = fragment@;
                                    fragments.push(fragment);
                                    assert(fragments_view(fragments@) == before.push(view));
                                }
                            },
                            Err(_) => {},
                        }
                    },
                    _ => {},
                }
                i += 1;
            }
            assert(ops@.take(ops.len() as int) == ops@);
        },
        None => {},
    }
    fragments
}

/// The transactions of one page: its text fragments, grouped into rows by
/// the row machine. `cardholder_name` is the name that ends the header of
/// each section.
pub fn page_transactions(page: &Page, cardholder_name: &str) -> (rows: Vec<Transaction>)
    ensures
        rows_view(rows@) == page_rows(
            fragment_texts(page_fragments(*page)),
            cardholder_name@,
        ),
        forall|i: int| 0 <= i < rows@.len() ==> (#[trigger] rows@[i]).wf(),
{
    let fragments = text_fragments(page);
    let mut texts: Vec<String> = Vec::new();
    let mut i: usize = 0;
    assert(texts_view(texts@) == fragment_texts(fragments_view(fragments@).take(0)));
    while i < fragments.len()
        invariant
            i <= fragments.len(),
            texts_view(texts@) == fragment_texts(fragments_view(fragments@).take(i as int)),
        decreases fragments.len() - i,
    {
        let ghost before = texts_view(texts@);
        texts.push(fragments[i].text.clone());
        assert(texts_view(texts@) == before.push(fragments@[i as int].text@));
        assert(fragment_texts(fragments_view(fragments@).take(i + 1)) == fragment_texts(
            fragments_view(fragments@).take(i as int),
        ).push(fragments@[i as int].text@));
        i += 1;
    }
    assert(fragments_view(fragments@).take(fragments.len() as int) == fragments_view(
        fragments@,
    ));
    parse(&texts, cardholder_name)
}

} // verus!
