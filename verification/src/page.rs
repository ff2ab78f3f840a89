//! What the library reads of a page: the operators of its content stream
//! that bear on text, and the fonts that its resources declare.

use crate::font::BaseTable;
use crate::number::{Matrix, Point, Number};
use pdf::font::ToUnicodeMap;
use std::collections::HashMap;
use vstd::prelude::*;

verus! {

/// One piece of a string drawn with adjustments.
pub enum TextDrawAdjusted {
    /// Bytes to draw.
    Text(Vec<u8>),
    /// A shift between two pieces.
    Spacing(Number),
}

/// A drawing operator, as far as it bears on text.
pub enum TextOp {
    /// Begins a text object.
    BeginText,
    /// Selects a graphics state by the name it has in the resources.
    GraphicsState { name: String },
    /// Selects a font by the name it has in the resources, and its size.
    TextFont { name: String, size: Number },
    /// Sets the distance between lines.
    Leading { leading: Number },
    /// Moves to the start of the next line.
    TextNewline,
    /// Moves the text position by an offset.
    MoveTextPosition { translation: Point },
    /// Sets the text matrix.
    SetTextMatrix { matrix: Matrix },
    /// Draws a string.
    TextDraw { text: Vec<u8> },
    /// Draws a string in pieces with shifts between them.
    TextDrawAdjusted { array: Vec<TextDrawAdjusted> },
    /// Any other operator.
    Other,
}

/// The base encodings that a font can name.
pub enum BaseEncoding {
    StandardEncoding,
    SymbolEncoding,
    MacRomanEncoding,
    WinAnsiEncoding,
    MacExpertEncoding,
    IdentityH,
    /// The font names no base encoding.
    Unnamed,
    /// A name that is none of the above.
    Other(String),
}

impl BaseEncoding {
    /// The table that decoding starts from: `Some(None)` where the font
    /// names no base, `None` where it names one that is not supported.
    pub open spec fn spec_table(self) -> Option<Option<BaseTable>> {
        match self {
            BaseEncoding::StandardEncoding => Some(Some(BaseTable::Standard)),
            BaseEncoding::SymbolEncoding => Some(Some(BaseTable::Symbol)),
            BaseEncoding::WinAnsiEncoding => Some(Some(BaseTable::WinAnsi)),
            BaseEncoding::MacRomanEncoding => Some(Some(BaseTable::MacRoman)),
            BaseEncoding::Unnamed => Some(None),
            _ => None,
        }
    }

    /// The table that decoding starts from.
    pub fn table(&self) -> (r: Option<Option<BaseTable>>)
        ensures
            r == self.spec_table(),
    {
        match self {
            BaseEncoding::StandardEncoding => Some(Some(BaseTable::Standard)),
            BaseEncoding::SymbolEncoding => Some(Some(BaseTable::Symbol)),
            BaseEncoding::WinAnsiEncoding => Some(Some(BaseTable::WinAnsi)),
            BaseEncoding::MacRomanEncoding => Some(Some(BaseTable::MacRoman)),
            BaseEncoding::Unnamed => Some(None),
            _ => None,
        }
    }
}

/// The encoding of a font: a base and the glyph names of single codes.
pub struct Encoding {
    pub base: BaseEncoding,
    pub differences: HashMap<u32, String>,
}

/// A font resource, as far as decoding needs it.
pub struct Font {
    /// The name that the font gives itself.
    pub name: Option<String>,
    /// The character map embedded in the font.
    pub to_unicode: Option<ToUnicodeMap>,
    /// The encoding that the font declares.
    pub encoding: Option<Encoding>,
}

/// The font that a graphics state selects, `None` where the reference to
/// it leads nowhere, and its size.
pub struct GraphicsStateFont {
    pub font: Option<Font>,
    pub size: Number,
}

/// A graphics state resource, as far as text needs it.
pub struct GraphicsState {
    pub font: Option<GraphicsStateFont>,
}

/// The resources of a page, as far as text needs them, each list in the
/// order in which the page's dictionary is walked. Where a name stands
/// twice in a list, the later entry counts.
pub struct Resources {
    /// The fonts by resource name; `None` where the entry leads to no font.
    pub fonts: Vec<(String, Option<Font>)>,
    /// The graphics states by resource name.
    pub graphics_states: Vec<(String, GraphicsState)>,
}

/// A page: its operators, where it has a content stream, and its
/// resources, where they can be read.
pub struct Page {
    pub contents: Option<Vec<TextOp>>,
    pub resources: Option<Resources>,
}

} // verus!
