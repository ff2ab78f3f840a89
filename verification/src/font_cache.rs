//! The fonts of one page by name.

use crate::font::{
    cmap_entries, copy_character_map, difference_table, differences_view, DecoderView, FontInfo,
};
use crate::number::Number;
use crate::page::{Font, GraphicsState, Page};
use std::rc::Rc;
use vstd::prelude::*;
use vstd::string::StringExecFns;

verus! {

/// Calls `Rc::clone`. Trusted: the new pointer leads to the same value.
#[verifier::external_body]
pub(crate) fn share<T>(value: &Rc<T>) -> (r: Rc<T>)
    ensures
        r == *value,
{
    Rc::clone(value)
}

/// How the font decodes: through its character map if it has one, else
/// through its encoding if that names a supported base or none; `None`
/// where the font gives neither, and it is passed over.
pub open spec fn font_decoder(font: Font) -> Option<DecoderView> {
    match font.to_unicode {
        Some(map) => Some(DecoderView::CharacterMap(cmap_entries(map))),
        None => match font.encoding {
            Some(encoding) => match encoding.base.spec_table() {
                Some(base) => Some(
                    DecoderView::Encoding(
                        difference_table(base, differences_view(encoding.differences@)),
                    ),
                ),
                None => None,
            },
            None => None,
        },
    }
}

/// The fonts by name after `font` was offered under `name`.
pub open spec fn with_font(
    fonts: Map<Seq<char>, DecoderView>,
    name: Seq<char>,
    font: Font,
) -> Map<Seq<char>, DecoderView> {
    match font_decoder(font) {
        Some(decoder) => fonts.insert(name, decoder),
        None => fonts,
    }
}

/// The fonts by name after the font entries of the resources were walked.
pub open spec fn fonts_registered(entries: Seq<(String, Option<Font>)>) -> Map<
    Seq<char>,
    DecoderView,
>
    decreases entries.len(),
{
    if entries.len() == 0 {
        Map::empty()
    } else {
        let before = fonts_registered(entries.drop_last());
        match entries.last().1 {
            Some(font) => with_font(before, entries.last().0@, font),
            None => before,
        }
    }
}

/// The font that a graphics state selects, where it has a name of its own.
pub open spec fn named_font_of(state: GraphicsState) -> Option<Font> {
    match state.font {
        Some(selected) => match selected.font {
            Some(font) => if font.name is Some {
                Some(font)
            } else {
                None
            },
            None => None,
        },
        None => None,
    }
}

/// The fonts by name after the graphics states of the resources were
/// walked: each font that a state selects is offered under its own name.
pub open spec fn states_registered(
    fonts: Map<Seq<char>, DecoderView>,
    states: Seq<(String, GraphicsState)>,
) -> Map<Seq<char>, DecoderView>
    decreases states.len(),
{
    if states.len() == 0 {
        fonts
    } else {
        let before = states_registered(fonts, states.drop_last());
        match named_font_of(states.last().1) {
            Some(font) => with_font(before, font.name->0@, font),
            None => before,
        }
    }
}

/// The fonts of a page by name: those of its font resources, then those
/// that its graphics states select.
pub open spec fn page_fonts(page: Page) -> Map<Seq<char>, DecoderView> {
    match page.resources {
        Some(resources) => states_registered(
            fonts_registered(resources.fonts@),
            resources.graphics_states@,
        ),
        None => Map::empty(),
    }
}

/// The graphics state that stands under `name`: the last entry of that name.
pub open spec fn state_named(states: Seq<(String, GraphicsState)>, name: Seq<char>) -> Option<
    GraphicsState,
>
    decreases states.len(),
{
    if states.len() == 0 {
        None
    } else if states.last().0@ == name {
        Some(states.last().1)
    } else {
        state_named(states.drop_last(), name)
    }
}

/// The font under `name`; the font of which nothing is known where there
/// is none.
pub open spec fn font_named(fonts: Map<Seq<char>, DecoderView>, name: Seq<char>) -> DecoderView {
    if fonts.contains_key(name) {
        fonts[name]
    } else {
        DecoderView::Passthrough
    }
}

/// The font and the size that the graphics state under `name` selects on
/// `page`, if there is such a state and it selects a font. A font that
/// cannot be reached or has no name counts as the font of which nothing is
/// known.
pub open spec fn graphics_state_font(
    page: Page,
    fonts: Map<Seq<char>, DecoderView>,
    name: Seq<char>,
) -> Option<(DecoderView, Number)> {
    match page.resources {
        Some(resources) => match state_named(resources.graphics_states@, name) {
            Some(state) => match state.font {
                Some(selected) => Some(
                    (
                        match named_font_of(state) {
                            Some(font) => font_named(fonts, font.name->0@),
                            None => DecoderView::Passthrough,
                        },
                        selected.size,
                    ),
                ),
                None => None,
            },
            None => None,
        },
        None => None,
    }
}

/// The map that a list of named fonts stands for; of two entries with one
/// name the later counts.
pub open spec fn entries_map(entries: Seq<(String, Rc<FontInfo>)>) -> Map<Seq<char>, DecoderView>
    decreases entries.len(),
{
    if entries.len() == 0 {
        Map::empty()
    } else {
        entries_map(entries.drop_last()).insert(entries.last().0@, entries.last().1@)
    }
}

/// Entries from `from` on that do not bear `name` do not matter to it.
proof fn lemma_entries_map_tail(entries: Seq<(String, Rc<FontInfo>)>, from: int, name: Seq<char>)
    requires
        0 <= from <= entries.len(),
        forall|j: int| from <= j < entries.len() ==> (#[trigger] entries[j]).0@ != name,
    ensures
        entries_map(entries).contains_key(name) == entries_map(entries.take(from)).contains_key(
            name,
        ),
        entries_map(entries).contains_key(name) ==> entries_map(entries)[name] == entries_map(
            entries.take(from),
        )[name],
    decreases entries.len() - from,
{
    if from == entries.len() {
        assert(entries.take(from) == entries);
    } else {
        lemma_entries_map_tail(entries.drop_last(), from, name);
        assert(entries.drop_last().take(from) == entries.take(from));
        assert(entries.last() == entries[entries.len() - 1]);
    }
}

/// The fonts of one page by name, built once from the resources of the
/// page.
pub struct FontCache<'a> {
    fonts: Vec<(String, Rc<FontInfo>)>,
    page: &'a Page,
    default_font: Rc<FontInfo>,
}

impl<'a> FontCache<'a> {
    /// The fonts by name.
    pub closed spec fn fonts(&self) -> Map<Seq<char>, DecoderView> {
        entries_map(self.fonts@)
    }

    /// The page whose fonts these are.
    pub closed spec fn page(&self) -> Page {
        *self.page
    }

    /// The font that stands in for a missing one decodes knowing nothing.
    pub closed spec fn wf(&self) -> bool {
        self.default_font@ == DecoderView::Passthrough
    }

    /// The fonts of `page`.
    pub fn new(page: &'a Page) -> (cache: FontCache<'a>)
        ensures
            cache.wf(),
            cache.page() == *page,
            cache.fonts() == page_fonts(*page),
    {
        let mut cache = FontCache {
            fonts: Vec::new(),
            page,
            default_font: Rc::new(FontInfo::default()),
        };
        cache.populate();
        cache
    }

    /// Walks the resources of the page and registers their fonts.
    fn populate(&mut self)
        requires
            old(self).fonts@.len() == 0,
        ensures
            final(self).page() == old(self).page(),
            final(self).default_font == old(self).default_font,
            final(self).fonts() == page_fonts(old(self).page()),
    {
        let page: &Page = self.page;
        match &page.resources {
            Some(resources) => {
                let mut i: usize = 0;
                assert(resources.fonts@.take(0) == Seq::<(String, Option<Font>)>::empty());
                while i < resources.fonts.len()
                    invariant
                        i <= resources.fonts.len(),
                        self.page == page,
                        self.default_font == old(self).default_font,
                        self.fonts() == fonts_registered(resources.fonts@.take(i as int)),
                    decreases resources.fonts.len() - i,
                {
                    assert(resources.fonts@.take(i + 1).drop_last() == resources.fonts@.take(
                        i as int,
                    ));
                    let entry = &resources.fonts[i];
                    match &entry.1 {
                        Some(font) => {
                            self.add_font(entry.0.clone(), font);
                        },
                        None => {},
                    }
                    i += 1;
                }
                assert(resources.fonts@.take(resources.fonts.len() as int) == resources.fonts@);
                let ghost direct = self.fonts();
                let mut k: usize = 0;
                assert(resources.graphics_states@.take(0) == Seq::<
                    (String, GraphicsState),
                >::empty());
                while k < resources.graphics_states.len()
                    invariant
                        k <= resources.graphics_states.len(),
                        self.page == page,
                        self.default_font == old(self).default_font,
                        self.fonts() == states_registered(
                            direct,
                            resources.graphics_states@.take(k as int),
                        ),
                    decreases resources.graphics_states.len() - k,
                {
                    assert(resources.graphics_states@.take(k + 1).drop_last()
                        == resources.graphics_states@.take(k as int));
                    let state = &resources.graphics_states[k].1;
                    match &state.font {
                        Some(selected) => match &selected.font {
                            Some(font) => match &font.name {
                                Some(name) => {
                                    self.add_font(name.clone(), font);
                                },
                                None => {},
                            },
                            None => {},
                        },
                        None => {},
                    }
                    k += 1;
                }
                assert(resources.graphics_states@.take(resources.graphics_states.len() as int)
                    == resources.graphics_states@);
            },
            None => {},
        }
    }

    /// Registers `font` under `name`, if it says how it decodes.
    fn add_font(&mut self, name: String, font: &Font)
        ensures
            final(self).page == old(self).page,
            final(self).default_font == old(self).default_font,
            final(self).fonts() == with_font(old(self).fonts(), name@, *font),
    {
        let info = match &font.to_unicode {
            Some(map) => FontInfo::with_character_map(copy_character_map(map)),
            None => match &font.encoding {
                Some(encoding) => match encoding.base.table() {
                    Some(base) => FontInfo::with_encoding(base, &encoding.differences),
                    None => {
                        return ;
                    },
                },
                None => {
                    return ;
                },
            },
        };
        let ghost before = self.fonts@;
        self.fonts.push((name, Rc::new(info)));
        assert(self.fonts@.drop_last() == before);
    }

    /// The font under `name`; the font of which nothing is known where the
    /// page has none of that name.
    pub fn get_by_font_name(&self, name: &str) -> (font: Rc<FontInfo>)
        requires
            self.wf(),
        ensures
            font@ == font_named(self.fonts(), name@),
    {
        let wanted = String::from_str(name);
        let mut i: usize = self.fonts.len();
        while i > 0
            invariant
                i <= self.fonts.len(),
                wanted@ == name@,
                forall|j: int| i <= j < self.fonts.len() ==> (#[trigger] self.fonts@[j]).0@ != name@,
            decreases i,
        {
            i -= 1;
            if self.fonts[i].0 == wanted {
                proof {
                    lemma_entries_map_tail(self.fonts@, i + 1, name@);
                    assert(self.fonts@.take(i + 1).drop_last() == self.fonts@.take(i as int));
                }
                return share(&self.fonts[i].1);
            }
        }
        proof {
            lemma_entries_map_tail(self.fonts@, 0, name@);
        }
        share(&self.default_font)
    }

    /// The font and the size that the graphics state under `name` selects,
    /// if the page has such a state and it selects a font.
    pub fn get_by_graphic_state_name(&self, name: &str) -> (r: Option<(Rc<FontInfo>, Number)>)
        requires
            self.wf(),
        ensures
            match r {
                Some((font, size)) => graphics_state_font(self.page(), self.fonts(), name@)
                    == Some((font@, size)),
                None => graphics_state_font(self.page(), self.fonts(), name@) is None,
            },
    {
        let page: &Page = self.page;
        match &page.resources {
            Some(resources) => {
                let wanted = String::from_str(name);
                let states = &resources.graphics_states;
                let mut i: usize = states.len();
                assert(states@.take(i as int) == states@);
                while i > 0
                    invariant
                        i <= states.len(),
                        wanted@ == name@,
                        self.wf(),
                        self.page == page,
                        page.resources == Some(*resources),
                        states == &resources.graphics_states,
                        state_named(states@, name@) == state_named(states@.take(i as int), name@),
                    decreases i,
                {
                    assert(states@.take(i as int).drop_last() == states@.take(i - 1));
                    i -= 1;
                    if states[i].0 == wanted {
                        return match &states[i].1.font {
                            Some(selected) => {
                                let font = match &selected.font {
                                    Some(font) => match &font.name {
                                        Some(own) => self.get_by_font_name(own.as_str()),
                                        None => share(&self.default_font),
                                    },
                                    None => share(&self.default_font),
                                };
                                Some((font, selected.size))
                            },
                            None => None,
                        };
                    }
                }
                None
            },
            None => None,
        }
    }
}

} // verus!
