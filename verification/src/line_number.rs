//! The gutter of line numbers.

use vstd::prelude::*;
use crate::code::CHAR_WIDTH;
use crate::color::{rgb, spec_rgb};
use crate::component::{Component, ComponentContext, RenderParams};
use crate::config;
use crate::draw::{FontSource, Span, SpanView, TextDraw, TextDrawView};
use crate::measure::{spec_times, times};
use crate::render_error::RenderError;
use crate::style::{ComponentStyle, Margin, RawComponentStyle, Size, Style};
use crate::text::{
    decimal, digit_count, join, join_lines, lemma_digit_count_monotonic, lemma_lines_nonempty,
    line_count, line_lengths, pad_left, push_decimal, right_align, texts,
};

verus! {

/// The font size of the line numbers.
pub const FONT_SIZE: u64 = 1400;

/// The space between the gutter and what stands to its right.
pub const MARGIN_RIGHT: u64 = 1000;

/// The column of line numbers beside the code. It is made once and never
/// changes.
pub struct LineNumber {
    children: Vec<Component>,
    line_height: u64,
    render_condition: bool,
    line_number_content: Vec<String>,
    number_of_digit: usize,
}

/// What a gutter holds.
pub struct LineNumberView {
    /// Whether the gutter is shown at all.
    pub render_condition: bool,
    /// The text of each line of the gutter, top to bottom.
    pub lines: Seq<Seq<char>>,
    /// The width of the column, in digits.
    pub number_of_digit: nat,
    pub line_height: u64,
}

/// The gutter of a text of `count` lines whose first line has the number
/// `start`: each number in base ten, moved to the right edge of a column as
/// wide as the last number.
pub open spec fn numbered(start: nat, count: nat) -> Seq<Seq<char>> {
    Seq::new(count, |i: int| pad_left(decimal((start + i) as nat), column_width(start, count)))
}

/// The width in digits of the gutter of a text of `count` lines whose first
/// line has the number `start`: that of the largest number shown.
pub open spec fn column_width(start: nat, count: nat) -> nat {
    digit_count((start + count - 1) as nat)
}

/// The packed colour of the line numbers.
pub open spec fn text_color() -> u32 {
    spec_rgb(73, 81, 98)
}

/// The colour of the line numbers is opaque, with red 73, green 81 and
/// blue 98.
pub proof fn lemma_text_color()
    ensures
        text_color() == 0xFF49_5162u32,
{
    assert(0xFF00_0000u32 | (73u32 << 16) | (81u32 << 8) | 98u32 == 0xFF49_5162u32)
        by (bit_vector);
}

impl LineNumberView {
    /// The gutter that is not shown: no line, no width, no height.
    pub open spec fn hidden() -> LineNumberView {
        LineNumberView {
            render_condition: false,
            lines: Seq::empty(),
            number_of_digit: 0,
            line_height: 0,
        }
    }

    /// The gutter for `content` with the given options.
    pub open spec fn of(
        line_number: Option<config::LineNumberOptions>,
        content: Seq<char>,
        line_height: u64,
    ) -> LineNumberView {
        match line_number {
            None => LineNumberView::hidden(),
            Some(options) => LineNumberView {
                render_condition: true,
                lines: numbered(options.start_number as nat, line_count(content)),
                number_of_digit: column_width(options.start_number as nat, line_count(content)),
                line_height,
            },
        }
    }
}

impl View for LineNumber {
    type V = LineNumberView;

    closed spec fn view(&self) -> LineNumberView {
        LineNumberView {
            render_condition: self.render_condition,
            lines: texts(self.line_number_content@),
            number_of_digit: self.number_of_digit as nat,
            line_height: self.line_height,
        }
    }
}

impl Default for LineNumber {
    /// The gutter that is not shown.
    fn default() -> (gutter: LineNumber)
        ensures
            gutter@ == LineNumberView::hidden(),
    {
        let gutter = LineNumber {
            children: Vec::new(),
            line_height: 0,
            render_condition: false,
            line_number_content: Vec::new(),
            number_of_digit: 0,
        };
        assert(gutter@.lines =~= Seq::empty());
        gutter
    }
}

impl LineNumber {
    #[verifier::type_invariant]
    spec fn well_formed(&self) -> bool {
        &&& self.children@.len() == 0
        &&& forall|i: int|
            0 <= i < self.line_number_content@.len() ==> (
            #[trigger] self.line_number_content@[i])@.len() == self.number_of_digit
    }

    /// The gutter for `code`, with lines `line_height` high. Where `code`
    /// asks for no line numbers, the gutter is not shown. Else it has one
    /// line for each line of the content, numbered from the start number on,
    /// and every line is as wide as the largest number.
    pub fn new(code: config::Code, line_height: u64) -> (gutter: LineNumber)
        ensures
            gutter@ == LineNumberView::of(code.line_number, code.content@, line_height),
            gutter@.render_condition == code.line_number is Some,
            code.line_number matches Some(options) ==> {
                &&& gutter@.lines.len() == line_count(code.content@)
                &&& gutter@.number_of_digit == digit_count(
                    (options.start_number + line_count(code.content@) - 1) as nat,
                )
                &&& forall|i: int|
                    0 <= i < gutter@.lines.len() ==> (#[trigger] gutter@.lines[i]).len()
                        == gutter@.number_of_digit
            },
    {
        match code.line_number {
            None => LineNumber::default(),
            Some(line_number) => {
                let lengths = line_lengths(code.content.as_str());
                let count: usize = lengths.len();
                proof {
                    lemma_lines_nonempty(code.content@);
                }
                let start: u128 = line_number.start_number as u128;
                let max_line_number: u128 = start + (count as u128 - 1);
                let mut widest = String::new();
                push_decimal(&mut widest, max_line_number);
                let number_of_digit: usize = widest.as_str().unicode_len();
                let ghost wanted = numbered(start as nat, count as nat);
                let mut line_number_content: Vec<String> = Vec::new();
                let mut i: usize = 0;
                while i < count
                    invariant
                        i <= count,
                        count >= 1,
                        max_line_number == start + count - 1,
                        start <= u32::MAX,
                        number_of_digit == column_width(start as nat, count as nat),
                        wanted == numbered(start as nat, count as nat),
                        line_number_content@.len() == i,
                        forall|k: int|
                            0 <= k < i ==> (#[trigger] line_number_content@[k])@ == wanted[k],
                        forall|k: int|
                            0 <= k < i ==> (#[trigger] line_number_content@[k])@.len()
                                == number_of_digit,
                    decreases count - i,
                {
                    let mut shown = String::new();
                    push_decimal(&mut shown, start + i as u128);
                    let line = right_align(shown.as_str(), number_of_digit);
                    proof {
                        lemma_digit_count_monotonic((start + i) as nat, max_line_number as nat);
                        assert(shown@ =~= decimal((start + i) as nat));
                    }
                    line_number_content.push(line);
                    i = i + 1;
                }
                let gutter = LineNumber {
                    line_number_content,
                    number_of_digit,
                    children: Vec::new(),
                    render_condition: true,
                    line_height,
                };
                assert(gutter@.lines =~= wanted);
                gutter
            },
        }
    }

    /// What the gutter asks for.
    pub open spec fn spec_style(&self) -> RawComponentStyle {
        Style {
            width: Size::Num(spec_times(CHAR_WIDTH, self@.number_of_digit)),
            height: Size::Num(spec_times(self@.line_height, self@.lines.len())),
            margin: Margin { top: 0, right: MARGIN_RIGHT, bottom: 0, left: 0 },
        }
    }

    /// Whether the gutter is shown at all.
    pub fn render_condition(&self) -> (visible: bool)
        ensures
            visible == self@.render_condition,
    {
        self.render_condition
    }

    /// The children of the gutter: it has none.
    pub fn children(&self) -> (children: &Vec<Component>)
        ensures
            children@.len() == 0,
    {
        proof {
            use_type_invariant(self);
        }
        &self.children
    }

    /// The text of each line of the gutter, top to bottom. All have the
    /// same length.
    pub fn content(&self) -> (lines: &Vec<String>)
        ensures
            texts(lines@) == self@.lines,
            forall|i: int|
                0 <= i < lines@.len() ==> (#[trigger] lines@[i])@.len() == self@.number_of_digit,
    {
        proof {
            use_type_invariant(self);
        }
        &self.line_number_content
    }

    /// The width of the column, in digits.
    pub fn number_of_digit(&self) -> (digits: usize)
        ensures
            digits == self@.number_of_digit,
    {
        self.number_of_digit
    }

    /// What the gutter asks for: a column as wide as its digits and as high
    /// as its lines, and a margin to its right.
    pub fn style(&self) -> (style: RawComponentStyle)
        ensures
            style == self.spec_style(),
    {
        Style::<Size>::default().size(
            Size::Num(times(CHAR_WIDTH, self.number_of_digit)),
            Size::Num(times(self.line_height, self.line_number_content.len())),
        ).margin(Margin { top: 0, right: MARGIN_RIGHT, bottom: 0, left: 0 })
    }

    /// The drawing of the gutter at `render_params` in a box of `style`.
    pub open spec fn spec_draw(
        &self,
        context: ComponentContext,
        render_params: RenderParams,
        style: ComponentStyle,
    ) -> TextDrawView {
        TextDrawView {
            font_size: FONT_SIZE,
            line_height: self@.line_height,
            scale_factor: context.scale_factor,
            font_source: FontSource::FontsFolder,
            x: render_params.x,
            y: render_params.y,
            width: style.width,
            height: style.height,
            spans: seq![
                SpanView {
                    text: join_lines(self@.lines),
                    color: text_color(),
                    family: context.code.font_family@,
                    bold: false,
                    italic: false,
                },
            ],
        }
    }

    /// Draws the gutter: its lines as one block of text in one muted colour,
    /// in the font family of the code, at `render_params` in a box of
    /// `style`. It cannot fail.
    pub fn draw_self(
        &self,
        context: &ComponentContext,
        render_params: &RenderParams,
        style: &ComponentStyle,
        _parent_style: &ComponentStyle,
    ) -> (drawn: Result<TextDraw, RenderError>)
        ensures
            drawn is Ok,
            drawn->Ok_0@ == self.spec_draw(*context, *render_params, *style),
    {
        let span = Span {
            text: join(&self.line_number_content),
            color: rgb(73, 81, 98),
            family: context.code.font_family.clone(),
            bold: false,
            italic: false,
        };
        let mut spans: Vec<Span> = Vec::new();
        spans.push(span);
        let draw = TextDraw {
            font_size: FONT_SIZE,
            line_height: self.line_height,
            scale_factor: context.scale_factor,
            font_source: FontSource::FontsFolder,
            x: render_params.x,
            y: render_params.y,
            width: style.width,
            height: style.height,
            spans,
        };
        assert(draw@.spans =~= self.spec_draw(*context, *render_params, *style).spans);
        Ok(draw)
    }
}

} // verus!
