//! Text drawing commands: what the rasterizer is asked to put on the canvas.

use vstd::prelude::*;

verus! {

/// A run of text in one style.
#[derive(Clone, Debug, PartialEq, Eq)]
pub struct Span {
    pub text: String,
    /// The packed colour of the glyphs.
    pub color: u32,
    /// The name of the font family.
    pub family: String,
    pub bold: bool,
    pub italic: bool,
}

/// A span with its texts as characters.
pub struct SpanView {
    pub text: Seq<char>,
    pub color: u32,
    pub family: Seq<char>,
    pub bold: bool,
    pub italic: bool,
}

impl View for Span {
    type V = SpanView;

    open spec fn view(&self) -> SpanView {
        SpanView {
            text: self.text@,
            color: self.color,
            family: self.family@,
            bold: self.bold,
            italic: self.italic,
        }
    }
}

/// The spans of `spans`, each with its texts as characters.
pub open spec fn span_views(spans: Seq<Span>) -> Seq<SpanView> {
    Seq::new(spans.len(), |i: int| spans[i]@)
}

/// Where the rasterizer takes its fonts from.
#[derive(Clone, Copy, Debug, PartialEq, Eq, Structural)]
pub enum FontSource {
    /// The font that ships with the program, beside the fonts folder.
    Bundled,
    /// The fonts folder alone.
    FontsFolder,
}

/// One call of the rasterizer: styled text in a box on the canvas.
#[derive(Clone, Debug, PartialEq, Eq)]
pub struct TextDraw {
    pub font_size: u64,
    pub line_height: u64,
    /// Device pixels per logical pixel, in hundredths.
    pub scale_factor: u64,
    pub font_source: FontSource,
    pub x: u64,
    pub y: u64,
    pub width: u64,
    pub height: u64,
    pub spans: Vec<Span>,
}

/// A text drawing command with its spans as a sequence.
pub struct TextDrawView {
    pub font_size: u64,
    pub line_height: u64,
    pub scale_factor: u64,
    pub font_source: FontSource,
    pub x: u64,
    pub y: u64,
    pub width: u64,
    pub height: u64,
    pub spans: Seq<SpanView>,
}

impl View for TextDraw {
    type V = TextDrawView;

    open spec fn view(&self) -> TextDrawView {
        TextDrawView {
            font_size: self.font_size,
            line_height: self.line_height,
            scale_factor: self.scale_factor,
            font_source: self.font_source,
            x: self.x,
            y: self.y,
            width: self.width,
            height: self.height,
            spans: span_views(self.spans@),
        }
    }
}

} // verus!
