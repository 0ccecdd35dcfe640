use codesnap::code::CHAR_WIDTH;
use codesnap::component::{ComponentContext, RenderParams};
use codesnap::config::{Code, LineNumberOptions};
use codesnap::draw::FontSource;
use codesnap::line_number::{LineNumber, FONT_SIZE, MARGIN_RIGHT};
use codesnap::style::{Margin, Size, Style};

fn options(content: &str, start: Option<u32>) -> Code {
    Code {
        content: content.to_string(),
        line_number: start.map(|start_number| LineNumberOptions { start_number }),
        font_family: "Fira Code".to_string(),
    }
}

fn context(content: &str, start: Option<u32>) -> ComponentContext {
    ComponentContext { scale_factor: 300, code: options(content, start) }
}

#[test]
fn three_lines_from_one_need_no_padding() {
    let gutter = LineNumber::new(options("a\nbb\nccc", Some(1)), 2000);
    assert_eq!(gutter.content(), &vec!["1".to_string(), "2".to_string(), "3".to_string()]);
    assert_eq!(gutter.number_of_digit(), 1);
    assert!(gutter.render_condition());
}

#[test]
fn eleven_lines_from_one_are_two_digits_wide() {
    let content = "x\n".repeat(10) + "x";
    let gutter = LineNumber::new(options(&content, Some(1)), 2000);
    assert_eq!(gutter.number_of_digit(), 2);
    assert_eq!(gutter.content().len(), 11);
    assert_eq!(gutter.content()[0], " 1");
    assert_eq!(gutter.content()[8], " 9");
    assert_eq!(gutter.content()[9], "10");
    assert_eq!(gutter.content()[10], "11");
}

#[test]
fn no_line_number_options_give_a_hidden_gutter() {
    let gutter = LineNumber::new(options("a\nb", None), 2000);
    assert!(!gutter.render_condition());
    assert!(gutter.content().is_empty());
    assert_eq!(gutter.number_of_digit(), 0);
    assert!(gutter.children().is_empty());
}

#[test]
fn default_gutter_is_hidden() {
    let gutter = LineNumber::default();
    assert!(!gutter.render_condition());
    assert!(gutter.content().is_empty());
    assert_eq!(gutter.number_of_digit(), 0);
}

#[test]
fn one_line_per_line_of_content_and_all_equally_wide() {
    for (content, start) in [
        ("", 1u32),
        ("one", 0),
        ("a\nb\n", 8),
        ("a\n\n\n\n\n\n\n\n\n\n\nz", 95),
        ("x\ny", 999),
        ("x\ny", 4294967295),
    ] {
        let gutter = LineNumber::new(options(content, Some(start)), 1800);
        let lines = content.split('\n').count();
        assert_eq!(gutter.content().len(), lines);
        let largest = start as u128 + lines as u128 - 1;
        let width = largest.to_string().len();
        assert_eq!(gutter.number_of_digit(), width);
        for (i, line) in gutter.content().iter().enumerate() {
            assert_eq!(line.chars().count(), width);
            assert_eq!(line, &format!("{:>width$}", start as u128 + i as u128, width = width));
        }
    }
}

#[test]
fn numbers_pass_the_largest_32_bit_number() {
    let gutter = LineNumber::new(options("a\nb\nc", Some(4294967294)), 2000);
    assert_eq!(
        gutter.content(),
        &vec!["4294967294".to_string(), "4294967295".to_string(), "4294967296".to_string()]
    );
    assert_eq!(gutter.number_of_digit(), 10);
}

#[test]
fn numbering_from_zero() {
    let gutter = LineNumber::new(options("a\nb", Some(0)), 2000);
    assert_eq!(gutter.content(), &vec!["0".to_string(), "1".to_string()]);
    assert_eq!(gutter.number_of_digit(), 1);
}

#[test]
fn width_grows_where_the_last_number_has_one_more_digit() {
    let gutter = LineNumber::new(options("a\nb", Some(9)), 2000);
    assert_eq!(gutter.content(), &vec![" 9".to_string(), "10".to_string()]);
    let gutter = LineNumber::new(options("a\nb", Some(99)), 2000);
    assert_eq!(gutter.content(), &vec![" 99".to_string(), "100".to_string()]);
}

#[test]
fn trailing_line_feed_of_the_content_is_a_line_of_the_gutter() {
    let gutter = LineNumber::new(options("a\n", Some(1)), 2000);
    assert_eq!(gutter.content(), &vec!["1".to_string(), "2".to_string()]);
}

#[test]
fn gutter_style_is_digits_by_lines_with_a_right_margin() {
    let content = "x\n".repeat(10) + "x";
    let gutter = LineNumber::new(options(&content, Some(1)), 2000);
    let style = gutter.style();
    assert_eq!(style.width, Size::Num(2 * CHAR_WIDTH));
    assert_eq!(style.width, Size::Num(1810));
    assert_eq!(style.height, Size::Num(22000));
    assert_eq!(style.margin, Margin { top: 0, right: MARGIN_RIGHT, bottom: 0, left: 0 });
    assert_eq!(MARGIN_RIGHT, 1000);
}

#[test]
fn hidden_gutter_asks_for_no_size() {
    let gutter = LineNumber::new(options("a\nb", None), 2000);
    let style = gutter.style();
    assert_eq!(style.width, Size::Num(0));
    assert_eq!(style.height, Size::Num(0));
}

#[test]
fn gutter_height_saturates() {
    let gutter = LineNumber::new(options("a\nb", Some(1)), u64::MAX);
    assert_eq!(gutter.style().height, Size::Num(u64::MAX));
}

#[test]
fn gutter_draws_its_lines_as_one_muted_block() {
    let gutter = LineNumber::new(options("a\nb\nc\nd\ne\nf\ng\nh\ni\nj", Some(1)), 2000);
    let style = Style { width: 1810, height: 20000, margin: Margin::default() };
    let parent = Style { width: 50000, height: 20000, margin: Margin::default() };
    let draw = gutter
        .draw_self(
            &context("a\nb\nc\nd\ne\nf\ng\nh\ni\nj", Some(1)),
            &RenderParams { x: 1200, y: 3400 },
            &style,
            &parent,
        )
        .unwrap();
    assert_eq!(draw.font_size, FONT_SIZE);
    assert_eq!(draw.font_size, 1400);
    assert_eq!(draw.line_height, 2000);
    assert_eq!(draw.scale_factor, 300);
    assert_eq!(draw.font_source, FontSource::FontsFolder);
    assert_eq!((draw.x, draw.y, draw.width, draw.height), (1200, 3400, 1810, 20000));
    assert_eq!(draw.spans.len(), 1);
    assert_eq!(draw.spans[0].text, " 1\n 2\n 3\n 4\n 5\n 6\n 7\n 8\n 9\n10");
    assert_eq!(draw.spans[0].family, "Fira Code");
    assert!(!draw.spans[0].bold);
    assert!(!draw.spans[0].italic);
}

#[test]
fn gutter_colour_is_the_shaper_s_packing_of_73_81_98() {
    let gutter = LineNumber::new(options("a", Some(1)), 2000);
    let style = Style { width: 905, height: 2000, margin: Margin::default() };
    let draw = gutter
        .draw_self(&context("a", Some(1)), &RenderParams { x: 0, y: 0 }, &style, &style)
        .unwrap();
    assert_eq!(draw.spans[0].color, 0xFF495162);
    assert_eq!(draw.spans[0].color, cosmic_text::Color::rgb(73, 81, 98).0);
    let color = cosmic_text::Color(draw.spans[0].color);
    assert_eq!(color.as_rgba_tuple(), (73, 81, 98, 255));
}

#[test]
fn hidden_gutter_draws_an_empty_block() {
    let gutter = LineNumber::default();
    let style = Style { width: 0, height: 0, margin: Margin::default() };
    let draw = gutter
        .draw_self(&context("a", None), &RenderParams { x: 0, y: 0 }, &style, &style)
        .unwrap();
    assert_eq!(draw.spans.len(), 1);
    assert_eq!(draw.spans[0].text, "");
    assert_eq!((draw.width, draw.height), (0, 0));
}
