//! The block of highlighted code.

use vstd::prelude::*;
use crate::component::{Component, ComponentContext, RenderParams};
use crate::draw::{span_views, FontSource, Span, TextDraw, TextDrawView};
use crate::highlight::{HighlightRequest, HighlightRequestView, HighlightResult};
use crate::measure::{spec_times, times};
use crate::render_error::{RenderError, RenderErrorView};
use crate::style::{ComponentStyle, RawComponentStyle, Size, Style};
use crate::text::{
    line_count, line_lengths, lines, longest, longest_line, prepare_code, prepared,
};

verus! {

/// The width that one character takes, in the code and in the gutter.
pub const CHAR_WIDTH: u64 = 905;

/// The least width of a block of code.
pub const MIN_WIDTH: u64 = 10000;

/// The width of a block of text whose lines are `char_width` wide per
/// character: that of its longest line.
pub open spec fn spec_width(text: Seq<char>, char_width: u64) -> u64 {
    spec_times(char_width, longest_line(text))
}

/// The height of a block of text with lines `line_height` high.
pub open spec fn spec_height(text: Seq<char>, line_height: u64) -> u64 {
    spec_times(line_height, line_count(text))
}

/// `width`, or the least width where `width` is under it.
pub open spec fn spec_min_width(width: u64) -> u64 {
    if width < MIN_WIDTH {
        MIN_WIDTH
    } else {
        width
    }
}

/// The width and the height of a block of text: the width of its longest
/// line, at `char_width` per character, and `line_height` for each line.
pub fn calc_wh(text: &str, char_width: u64, line_height: u64) -> (wh: (u64, u64))
    ensures
        wh.0 == spec_width(text@, char_width),
        wh.1 == spec_height(text@, line_height),
{
    let lengths = line_lengths(text);
    let mut max_length: usize = 0;
    let mut i: usize = 0;
    while i < lengths.len()
        invariant
            i <= lengths.len(),
            lengths@.len() == lines(text@).len(),
            forall|k: int|
                0 <= k < lengths@.len() ==> lengths@[k] == #[trigger] lines(text@)[k].len(),
            max_length == longest(lines(text@).take(i as int)),
        decreases lengths.len() - i,
    {
        proof {
            assert(lines(text@).take(i + 1).drop_last() =~= lines(text@).take(i as int));
        }
        if lengths[i] > max_length {
            max_length = lengths[i];
        }
        i = i + 1;
    }
    proof {
        assert(lines(text@).take(lengths.len() as int) =~= lines(text@));
    }
    (times(char_width, max_length), times(line_height, lengths.len()))
}

/// The width and the height of a block of text, the width no less than the
/// least width.
pub fn calc_wh_with_min_width(text: &str, char_width: u64, line_height: u64) -> (wh: (u64, u64))
    ensures
        wh.0 == spec_min_width(spec_width(text@, char_width)),
        wh.1 == spec_height(text@, line_height),
        wh.0 >= MIN_WIDTH,
        line_height * line_count(text@) <= u64::MAX ==> wh.1 == line_height * line_count(text@),
{
    let (width, height) = calc_wh(text, char_width, line_height);
    if width < MIN_WIDTH {
        (MIN_WIDTH, height)
    } else {
        (width, height)
    }
}

/// A block of source text. Its size comes from its text alone.
pub struct Code {
    children: Vec<Component>,
    line_height: u64,
    font_size: u64,
    value: String,
}

/// What a block of code holds.
pub struct CodeView {
    /// The text that is drawn.
    pub value: Seq<char>,
    pub line_height: u64,
    pub font_size: u64,
}

impl View for Code {
    type V = CodeView;

    closed spec fn view(&self) -> CodeView {
        CodeView { value: self.value@, line_height: self.line_height, font_size: self.font_size }
    }
}

impl Code {
    #[verifier::type_invariant]
    spec fn well_formed(&self) -> bool {
        self.children@.len() == 0
    }

    /// The block of code that shows `value` in a font of size `font_size`,
    /// with lines `line_height` high. The text is prepared for display at
    /// once, and the block keeps the prepared text.
    pub fn new(value: &str, line_height: u64, font_size: u64) -> (code: Code)
        ensures
            code@ == (CodeView { value: prepared(value@), line_height, font_size }),
    {
        Code { value: prepare_code(value), line_height, font_size, children: Vec::new() }
    }

    /// What the block asks for.
    pub open spec fn spec_style(&self) -> RawComponentStyle {
        Style {
            width: Size::Num(spec_min_width(spec_width(self@.value, CHAR_WIDTH))),
            height: Size::Num(spec_height(self@.value, self@.line_height)),
            margin: crate::style::Margin::zero(),
        }
    }

    /// The children of the block: it has none.
    pub fn children(&self) -> (children: &Vec<Component>)
        ensures
            children@.len() == 0,
    {
        proof {
            use_type_invariant(self);
        }
        &self.children
    }

    /// The text that is drawn.
    pub fn value(&self) -> (value: &str)
        ensures
            value@ == self@.value,
    {
        self.value.as_str()
    }

    /// What the block asks for: the width of its longest line, but no less
    /// than the least width, and the height of its lines.
    pub fn style(&self) -> (style: RawComponentStyle)
        ensures
            style == self.spec_style(),
            style.width matches Size::Num(width) && width >= MIN_WIDTH,
            style.height matches Size::Num(height) && (self@.line_height * line_count(
                self@.value,
            ) <= u64::MAX ==> height == self@.line_height * line_count(self@.value)),
    {
        let (w, h) = calc_wh_with_min_width(self.value.as_str(), CHAR_WIDTH, self.line_height);
        Style::<Size>::default().size(Size::Num(w), Size::Num(h))
    }

    /// What the highlighter is asked before the block is drawn.
    pub open spec fn spec_highlight_request(
        &self,
        context: ComponentContext,
    ) -> HighlightRequestView {
        HighlightRequestView { text: self@.value, font_family: context.code.font_family@ }
    }

    /// What the highlighter is asked before the block is drawn: the text of
    /// the block, and the font family of the options.
    pub fn highlight_request(&self, context: &ComponentContext) -> (request: HighlightRequest)
        ensures
            request@ == self.spec_highlight_request(*context),
    {
        HighlightRequest {
            text: self.value.clone(),
            font_family: context.code.font_family.clone(),
        }
    }

    /// The drawing of the block at `render_params` in a box of `style`, with
    /// the spans that the highlighter gave.
    pub open spec fn spec_draw(
        &self,
        context: ComponentContext,
        render_params: RenderParams,
        style: ComponentStyle,
        spans: Seq<Span>,
    ) -> TextDrawView {
        TextDrawView {
            font_size: self@.font_size,
            line_height: self@.line_height,
            scale_factor: context.scale_factor,
            font_source: FontSource::Bundled,
            x: render_params.x,
            y: render_params.y,
            width: style.width,
            height: style.height,
            spans: span_views(spans),
        }
    }

    /// Draws the block with the highlighter's answer to its request. With
    /// spans, they are drawn as they came, at `render_params` in a box of
    /// `style`. Without, nothing is drawn and the highlighter's report comes
    /// back as the error.
    pub fn draw_self(
        &self,
        context: &ComponentContext,
        render_params: &RenderParams,
        style: &ComponentStyle,
        _parent_style: &ComponentStyle,
        highlight_result: HighlightResult,
    ) -> (drawn: Result<TextDraw, RenderError>)
        ensures
            match highlight_result {
                HighlightResult::Spans(spans) => drawn is Ok && drawn->Ok_0@ == self.spec_draw(
                    *context,
                    *render_params,
                    *style,
                    spans@,
                ),
                HighlightResult::Failed(report) => drawn is Err && drawn->Err_0@
                    == RenderErrorView::HighlightCodeFailed(report@),
            },
    {
        match highlight_result {
            HighlightResult::Failed(report) => Err(RenderError::HighlightCodeFailed(report)),
            HighlightResult::Spans(spans) => Ok(
                TextDraw {
                    font_size: self.font_size,
                    line_height: self.line_height,
                    scale_factor: context.scale_factor,
                    font_source: FontSource::Bundled,
                    x: render_params.x,
                    y: render_params.y,
                    width: style.width,
                    height: style.height,
                    spans,
                },
            ),
        }
    }
}

} // verus!
