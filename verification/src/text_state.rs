//! The typographic state of a page, followed operator by operator, and the
//! plain text that the page draws.

use crate::font::{DecodeError, DecoderView, FontInfo};
use crate::font_cache::{font_named, graphics_state_font, page_fonts, share, FontCache};
use crate::number::{Matrix, Number, Point};
use crate::page::{Page, TextDrawAdjusted, TextOp};
use std::rc::Rc;
use vstd::prelude::*;

verus! {

/// A text matrix: `base`, moved by each of the offsets of `moves` in turn,
/// each offset taken in the coordinates that the moves before it have left.
pub struct TextMatrix {
    pub base: Matrix,
    pub moves: Vec<Point>,
}

/// The typographic state at one operator: the font and its size, the
/// distance between lines, and the text matrix.
pub struct TextState {
    pub font: Rc<FontInfo>,
    pub font_size: Number,
    pub text_leading: Number,
    pub text_matrix: TextMatrix,
}

/// What a [`TextState`] stands for.
pub struct TextStateView {
    pub font: DecoderView,
    pub font_size: Number,
    pub text_leading: Number,
    pub base: Matrix,
    pub moves: Seq<Point>,
}

impl View for TextState {
    type V = TextStateView;

    open spec fn view(&self) -> TextStateView {
        TextStateView {
            font: self.font@,
            font_size: self.font_size,
            text_leading: self.text_leading,
            base: self.text_matrix.base,
            moves: self.text_matrix.moves@,
        }
    }
}

impl TextStateView {
    /// The state at the start of a text object: a font of which nothing is
    /// known, size and leading zero, and the identity as text matrix.
    pub open spec fn initial() -> TextStateView {
        TextStateView {
            font: DecoderView::Passthrough,
            font_size: Number::spec_zero(),
            text_leading: Number::spec_zero(),
            base: Matrix::spec_identity(),
            moves: Seq::empty(),
        }
    }

    /// The state with the text matrix moved by `offset`.
    pub open spec fn moved(self, offset: Point) -> TextStateView {
        TextStateView { moves: self.moves.push(offset), ..self }
    }

    /// The state after the operator `op` on a page with the given fonts.
    ///
    /// A new text object starts from the initial state. A graphics state
    /// that selects a font sets font and size, and so does a font operator.
    /// The leading operator sets the leading. A new line moves the text
    /// matrix down by the leading, a move by its offset, and a text matrix
    /// operator replaces the matrix. Nothing else changes the state.
    pub open spec fn after(self, page: Page, fonts: Map<Seq<char>, DecoderView>, op: TextOp)
        -> TextStateView {
        match op {
            TextOp::BeginText => TextStateView::initial(),
            TextOp::GraphicsState { name } => match graphics_state_font(page, fonts, name@) {
                Some((font, size)) => TextStateView { font, font_size: size, ..self },
                None => self,
            },
            TextOp::TextFont { name, size } => TextStateView {
                font: font_named(fonts, name@),
                font_size: size,
                ..self
            },
            TextOp::Leading { leading } => TextStateView { text_leading: leading, ..self },
            TextOp::TextNewline => self.moved(
                Point { x: Number::spec_zero(), y: self.text_leading },
            ),
            TextOp::MoveTextPosition { translation } => self.moved(translation),
            TextOp::SetTextMatrix { matrix } => TextStateView {
                base: matrix,
                moves: Seq::empty(),
                ..self
            },
            _ => self,
        }
    }
}

/// The state after all of `ops`, from the initial state.
pub open spec fn state_after(page: Page, fonts: Map<Seq<char>, DecoderView>, ops: Seq<TextOp>)
    -> TextStateView
    decreases ops.len(),
{
    if ops.len() == 0 {
        TextStateView::initial()
    } else {
        state_after(page, fonts, ops.drop_last()).after(page, fonts, ops.last())
    }
}

impl Default for TextState {
    fn default() -> (state: TextState)
        ensures
            state@ == TextStateView::initial(),
    {
        TextState {
            font: Rc::new(FontInfo::default()),
            font_size: Number::zero(),
            text_leading: Number::zero(),
            text_matrix: TextMatrix { base: Matrix::identity(), moves: Vec::new() },
        }
    }
}

impl Clone for TextState {
    /// A state of its own that shares the font.
    fn clone(&self) -> (state: TextState)
        ensures
            state@ == self@,
    {
        let mut moves: Vec<Point> = Vec::new();
        let mut i: usize = 0;
        while i < self.text_matrix.moves.len()
            invariant
                i <= self.text_matrix.moves.len(),
                moves@ == self.text_matrix.moves@.take(i as int),
            decreases self.text_matrix.moves.len() - i,
        {
            moves.push(self.text_matrix.moves[i]);
            i += 1;
        }
        assert(self.text_matrix.moves@.take(self.text_matrix.moves.len() as int)
            == self.text_matrix.moves@);
        TextState {
            font: share(&self.font),
            font_size: self.font_size,
            text_leading: self.text_leading,
            text_matrix: TextMatrix { base: self.text_matrix.base, moves },
        }
    }
}

/// The state that follows `state` at the operator `op`.
fn next_state(cache: &FontCache, state: &Rc<TextState>, op: &TextOp) -> (next: Rc<TextState>)
    requires
        cache.wf(),
    ensures
        next@ == state@.after(cache.page(), cache.fonts(), *op),
{
    match op {
        TextOp::BeginText => Rc::new(TextState::default()),
        TextOp::GraphicsState { name } => {
            match cache.get_by_graphic_state_name(name.as_str()) {
                Some((font, size)) => {
                    let mut new_state = (**state).clone();
                    new_state.font = font;
                    new_state.font_size = size;
                    Rc::new(new_state)
                },
                None => Rc::new((**state).clone()),
            }
        },
        TextOp::TextFont { name, size } => {
            let mut new_state = (**state).clone();
            new_state.font = cache.get_by_font_name(name.as_str());
            new_state.font_size = *size;
            Rc::new(new_state)
        },
        TextOp::Leading { leading } => {
            let mut new_state = (**state).clone();
            new_state.text_leading = *leading;
            Rc::new(new_state)
        },
        TextOp::TextNewline => {
            let mut new_state = (**state).clone();
            let down = Point { x: Number::zero(), y: new_state.text_leading };
            new_state.text_matrix.moves.push(down);
            Rc::new(new_state)
        },
        TextOp::MoveTextPosition { translation } => {
            let mut new_state = (**state).clone();
            new_state.text_matrix.moves.push(*translation);
            Rc::new(new_state)
        },
        TextOp::SetTextMatrix { matrix } => {
            let mut new_state = (**state).clone();
            new_state.text_matrix = TextMatrix { base: *matrix, moves: Vec::new() };
            Rc::new(new_state)
        },
        _ => share(state),
    }
}

/// The operators of the page, each with the state that holds once it has
/// taken effect. A page without a content stream gives none.
pub fn ops_with_text_state<'a>(page: &'a Page) -> (pairs: Vec<(&'a TextOp, Rc<TextState>)>)
    ensures
        match page.contents {
            Some(ops) => {
                &&& pairs@.len() == ops@.len()
                &&& forall|i: int|
                    0 <= i < pairs@.len() ==> {
                        &&& *(#[trigger] pairs@[i]).0 == ops@[i]
                        &&& pairs@[i].1@ == state_after(
                            *page,
                            page_fonts(*page),
                            ops@.take(i + 1),
                        )
                    }
            },
            None => pairs@.len() == 0,
        },
{
    let mut pairs: Vec<(&'a TextOp, Rc<TextState>)> = Vec::new();
    match &page.contents {
        Some(ops) => {
            let cache = FontCache::new(page);
            let mut state: Rc<TextState> = Rc::new(TextState::default());
            let mut i: usize = 0;
            assert(ops@.take(0) == Seq::<TextOp>::empty());
            while i < ops.len()
                invariant
                    i <= ops.len(),
                    cache.wf(),
                    cache.page() == *page,
                    cache.fonts() == page_fonts(*page),
                    state@ == state_after(*page, page_fonts(*page), ops@.take(i as int)),
                    pairs@.len() == i,
                    forall|k: int|
                        0 <= k < i ==> {
                            &&& *(#[trigger] pairs@[k]).0 == ops@[k]
                            &&& pairs@[k].1@ == state_after(
                                *page,
                                page_fonts(*page),
                                ops@.take(k + 1),
                            )
                        },
                decreases ops.len() - i,
            {
                assert(ops@.take(i + 1).drop_last() == ops@.take(i as int));
                let op: &'a TextOp = &ops[i];
                state = next_state(&cache, &state, op);
                pairs.push((op, share(&state)));
                i += 1;
            }
        },
        None => {},
    }
    pairs
}

/// The text that the pieces of an adjusted string decode to under `font`,
/// as far as they decode, and whether all of them decode.
pub open spec fn pieces_text(font: DecoderView, pieces: Seq<TextDrawAdjusted>) -> (Seq<char>, bool)
    decreases pieces.len(),
{
    if pieces.len() == 0 {
        (Seq::empty(), true)
    } else {
        let before = pieces_text(font, pieces.drop_last());
        if !before.1 {
            before
        } else {
            match pieces.last() {
                TextDrawAdjusted::Text(data) => (
                    before.0 + font.decoded(data@).0,
                    font.decoded(data@).1,
                ),
                TextDrawAdjusted::Spacing(_) => before,
            }
        }
    }
}

/// The plain text that the operator `op` adds in the state `state`, and
/// whether it decodes.
///
/// A drawn string adds its text. A new line adds a line break, and so does
/// a move whose vertical part is closer to zero than the machine epsilon.
/// A text matrix operator adds a line break where the vertical offset of
/// the new matrix is that of the state, and a tab otherwise; as the state
/// at the operator holds the new matrix already, the two are one number,
/// which equals itself unless it is an infinity or a NaN.
pub open spec fn op_text(state: TextStateView, op: TextOp) -> (Seq<char>, bool) {
    match op {
        TextOp::TextDraw { text } => state.font.decoded(text@),
        TextOp::TextDrawAdjusted { array } => pieces_text(state.font, array@),
        TextOp::TextNewline => (seq!['\n'], true),
        TextOp::MoveTextPosition { translation } => if translation.y.spec_is_negligible() {
            (seq!['\n'], true)
        } else {
            (Seq::empty(), true)
        },
        TextOp::SetTextMatrix { matrix } => if matrix.f.spec_is_finite() {
            (seq!['\n'], true)
        } else {
            (seq!['\t'], true)
        },
        _ => (Seq::empty(), true),
    }
}

/// The plain text of the operators `ops` of a page, as far as it decodes,
/// and whether all of it decodes.
pub open spec fn ops_text(page: Page, fonts: Map<Seq<char>, DecoderView>, ops: Seq<TextOp>) -> (
    Seq<char>,
    bool,
)
    decreases ops.len(),
{
    if ops.len() == 0 {
        (Seq::empty(), true)
    } else {
        let before = ops_text(page, fonts, ops.drop_last());
        if !before.1 {
            before
        } else {
            let added = op_text(state_after(page, fonts, ops), ops.last());
            (before.0 + added.0, added.1)
        }
    }
}

/// The plain text of a page, as far as it decodes, and whether all of it
/// decodes. A page without a content stream has no text.
pub open spec fn spec_page_text(page: Page) -> (Seq<char>, bool) {
    match page.contents {
        Some(ops) => ops_text(page, page_fonts(page), ops@),
        None => (Seq::empty(), true),
    }
}

/// The plain text of the page: what its strings decode to under the fonts
/// in force, with line breaks and tabs where the text position jumps.
/// Fails where a string does not decode.
pub fn page_text(page: &Page) -> (r: Result<String, DecodeError>)
    ensures
        match r {
            Ok(text) => spec_page_text(*page).1 && text@ == spec_page_text(*page).0,
            Err(_) => !spec_page_text(*page).1,
        },
{
    let mut out = String::new();
    let pairs = ops_with_text_state(page);
    match &page.contents {
        Some(ops) => {
            let ghost fonts = page_fonts(*page);
            let mut i: usize = 0;
            assert(ops@.take(0) == Seq::<TextOp>::empty());
            while i < pairs.len()
                invariant
                    i <= pairs.len(),
                    page.contents == Some(*ops),
                    fonts == page_fonts(*page),
                    pairs@.len() == ops@.len(),
                    forall|k: int|
                        0 <= k < pairs@.len() ==> {
                            &&& *(#[trigger] pairs@[k]).0 == ops@[k]
                            &&& pairs@[k].1@ == state_after(*page, fonts, ops@.take(k + 1))
                        },
                    ops_text(*page, fonts, ops@.take(i as int)) == (out@, true),
                decreases pairs.len() - i,
            {
                assert(ops@.take(i + 1).drop_last() == ops@.take(i as int));
                assert(ops@.take(i + 1).last() == ops@[i as int]);
                let op: &TextOp = pairs[i].0;
                let state: &Rc<TextState> = &pairs[i].1;
                let ghost before = out@;
                match op {
                    TextOp::TextDraw { text } => {
                        match state.font.decode(text.as_slice(), &mut out) {
                            Ok(()) => {},
                            Err(e) => {
                                proof {
                                    lemma_failure_stays(*page, fonts, ops@, i + 1);
                                }
                                return Err(e);
                            },
                        }
                    },
                    TextOp::TextDrawAdjusted { array } => {
                        let mut k: usize = 0;
                        assert(array@.take(0) == Seq::<TextDrawAdjusted>::empty());
                        while k < array.len()
                            invariant
                                k <= array.len(),
                                i < pairs.len(),
                                pairs@.len() == ops@.len(),
                                page.contents == Some(*ops),
                                fonts == page_fonts(*page),
                                ops@[i as int] == *op,
                                *op == (TextOp::TextDrawAdjusted { array: *array }),
                                *state == pairs@[i as int].1,
                                state@ == state_after(*page, fonts, ops@.take(i + 1)),
                                ops@.take(i + 1).drop_last() == ops@.take(i as int),
                                ops@.take(i + 1).last() == ops@[i as int],
                                ops_text(*page, fonts, ops@.take(i as int)) == (before, true),
                                pieces_text(state@.font, array@.take(k as int)) == (
                                    out@.skip(before.len() as int),
                                    true,
                                ),
                                out@.take(before.len() as int) == before,
                                out@.len() >= before.len(),
                            decreases array.len() - k,
                        {
                            assert(array@.take(k + 1).drop_last() == array@.take(k as int));
                            let ghost sofar = out@;
                            match &array[k] {
                                TextDrawAdjusted::Text(data) => {
                                    let ghost added = state@.font.decoded(data@).0;
                                    match state.font.decode(data.as_slice(), &mut out) {
                                        Ok(()) => {
                                            assert(out@.skip(before.len() as int) == sofar.skip(
                                                before.len() as int,
                                            ) + added);
                                            assert(out@.take(before.len() as int) == before);
                                        },
                                        Err(e) => {
                                            proof {
                                                lemma_pieces_failure_stays(
                                                    state@.font,
                                                    array@,
                                                    k + 1,
                                                );
                                                lemma_failure_stays(*page, fonts, ops@, i + 1);
                                            }
                                            return Err(e);
                                        },
                                    }
                                },
                                TextDrawAdjusted::Spacing(_) => {},
                            }
                            k += 1;
                        }
                        assert(array@.take(array.len() as int) == array@);
                        assert(out@ == before + out@.skip(before.len() as int));
                    },
                    TextOp::TextNewline => {
                        out.push('\n');
                        assert(out@ == before + seq!['\n']);
                    },
                    TextOp::MoveTextPosition { translation } => {
                        if translation.y.is_negligible() {
                            out.push('\n');
                            assert(out@ == before + seq!['\n']);
                        } else {
                            assert(out@ == before + Seq::<char>::empty());
                        }
                    },
                    TextOp::SetTextMatrix { matrix } => {
                        if matrix.f.is_finite() {
                            out.push('\n');
                            assert(out@ == before + seq!['\n']);
                        } else {
                            out.push('\t');
                            assert(out@ == before + seq!['\t']);
                        }
                    },
                    _ => {
                        assert(out@ == before + Seq::<char>::empty());
                    },
                }
                i += 1;
            }
            assert(ops@.take(ops.len() as int) == ops@);
            Ok(out)
        },
        None => Ok(out),
    }
}

/// Once the text of a page has failed to decode, more operators do not
/// mend it.
pub proof fn lemma_failure_stays(
    page: Page,
    fonts: Map<Seq<char>, DecoderView>,
    ops: Seq<TextOp>,
    k: int,
)
    requires
        0 <= k <= ops.len(),
        !ops_text(page, fonts, ops.take(k)).1,
    ensures
        !ops_text(page, fonts, ops).1,
    decreases ops.len() - k,
{
    if k == ops.len() {
        assert(ops.take(k) == ops);
    } else {
        assert(ops.drop_last().take(k) == ops.take(k));
        lemma_failure_stays(page, fonts, ops.drop_last(), k);
    }
}

/// Once a piece of an adjusted string has failed to decode, more pieces do
/// not mend it.
pub proof fn lemma_pieces_failure_stays(font: DecoderView, pieces: Seq<TextDrawAdjusted>, k: int)
    requires
        0 <= k <= pieces.len(),
        !pieces_text(font, pieces.take(k)).1,
    ensures
        !pieces_text(font, pieces).1,
    decreases pieces.len() - k,
{
    if k == pieces.len() {
        assert(pieces.take(k) == pieces);
    } else {
        assert(pieces.drop_last().take(k) == pieces.take(k));
        lemma_pieces_failure_stays(font, pieces.drop_last(), k);
    }
}

} // verus!
