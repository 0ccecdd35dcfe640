use codesnap::code::Code;
use codesnap::component::{Component, ComponentContext, Container};
use codesnap::config;
use codesnap::draw::{FontSource, Span, TextDraw};
use codesnap::highlight::{HighlightRequest, HighlightResult};
use codesnap::layout::layout;
use codesnap::line_number::LineNumber;
use codesnap::render::{Action, Event, RenderPass};
use codesnap::render_error::RenderError;
use codesnap::style::{ComponentStyle, Margin, RawComponentStyle, Size, Style};

fn options(content: &str, start: Option<u32>) -> config::Code {
    config::Code {
        content: content.to_string(),
        line_number: start.map(|start_number| config::LineNumberOptions { start_number }),
        font_family: "Fira Code".to_string(),
    }
}

fn context(content: &str, start: Option<u32>) -> ComponentContext {
    ComponentContext { scale_factor: 300, code: options(content, start) }
}

fn editor(content: &str, start: Option<u32>) -> Component {
    Component::Container(Container::new(
        vec![
            Component::LineNumber(LineNumber::new(options(content, start), 2000)),
            Component::Code(Code::new(content, 2000, 1400)),
        ],
        RawComponentStyle::default().size(Size::Num(30000), Size::Num(6000)),
    ))
}

fn canvas() -> ComponentStyle {
    Style { width: 0, height: 0, margin: Margin::default() }
}

/// One span for each word of the text, as a highlighter might give them.
fn words(request: &HighlightRequest) -> HighlightResult {
    HighlightResult::Spans(
        request
            .text
            .split_inclusive(' ')
            .map(|word| Span {
                text: word.to_string(),
                color: 0xFF000000 | word.len() as u32,
                family: request.font_family.clone(),
                bold: word.starts_with("fn"),
                italic: false,
            })
            .collect(),
    )
}

struct Run {
    requests: Vec<HighlightRequest>,
    draws: Vec<TextDraw>,
    error: Option<RenderError>,
    steps: usize,
}

/// Runs a pass to its end as a caller does: answers each request with
/// `highlight` and keeps each drawing.
fn run(
    tree: &Component,
    context: &ComponentContext,
    highlight: &dyn Fn(&HighlightRequest) -> HighlightResult,
) -> Run {
    let mut pass = RenderPass::new(layout(tree, &canvas()));
    let mut out = Run { requests: vec![], draws: vec![], error: None, steps: 0 };
    let mut event = Event::Resume;
    loop {
        out.steps += 1;
        assert!(out.steps <= 2 * pass.boxes().len() + 1, "a pass ends");
        match pass.step(context, event) {
            Action::Highlight(request) => {
                event = Event::Highlighted(highlight(&request));
                out.requests.push(request);
            }
            Action::Draw(draw) => {
                out.draws.push(draw);
                event = Event::Resume;
            }
            Action::Finish => return out,
            Action::Abort(error) => {
                out.error = Some(error);
                return out;
            }
        }
    }
}

#[test]
fn gutter_is_drawn_before_the_code() {
    let tree = editor("fn a\nbb\nccc", Some(1));
    let done = run(&tree, &context("fn a\nbb\nccc", Some(1)), &words);
    assert_eq!(done.error, None);
    assert_eq!(done.draws.len(), 2);
    assert_eq!(done.requests.len(), 1);

    let gutter = &done.draws[0];
    assert_eq!(gutter.font_source, FontSource::FontsFolder);
    assert_eq!(gutter.spans.len(), 1);
    assert_eq!(gutter.spans[0].text, "1\n2\n3");
    assert_eq!((gutter.x, gutter.y, gutter.width, gutter.height), (0, 0, 905, 6000));
    assert_eq!(gutter.font_size, 1400);
    assert_eq!(gutter.scale_factor, 300);

    let code = &done.draws[1];
    assert_eq!(code.font_source, FontSource::Bundled);
    assert_eq!((code.x, code.y, code.width, code.height), (1905, 0, 10000, 6000));
    assert_eq!(code.line_height, 2000);
    assert_eq!(code.scale_factor, 300);
    let texts: Vec<&str> = code.spans.iter().map(|span| span.text.as_str()).collect();
    assert_eq!(texts, vec!["fn ", "a\nbb\nccc"]);
    assert!(code.spans[0].bold);

    assert_eq!(
        done.requests[0],
        HighlightRequest { text: "fn a\nbb\nccc".to_string(), font_family: "Fira Code".to_string() }
    );
}

#[test]
fn hidden_gutter_is_never_drawn() {
    let tree = editor("a\nbb\nccc", None);
    let done = run(&tree, &context("a\nbb\nccc", None), &words);
    assert_eq!(done.error, None);
    assert_eq!(done.draws.len(), 1);
    assert_eq!(done.requests.len(), 1);
    assert_eq!(done.draws[0].font_source, FontSource::Bundled);
    assert_eq!((done.draws[0].x, done.draws[0].y), (0, 0));
}

#[test]
fn draws_are_counted_by_the_rendered_nodes_that_draw() {
    let leaf = |text: &str| Component::Code(Code::new(text, 2000, 1400));
    let gutter = |start: Option<u32>| {
        Component::LineNumber(LineNumber::new(options("a\nb", start), 2000))
    };
    let size = RawComponentStyle::default().size(Size::Num(1), Size::Num(1));
    let tree = Component::Container(Container::new(
        vec![
            gutter(None),
            Component::Container(Container::new(vec![gutter(Some(1)), leaf("a"), gutter(None)], size)),
            gutter(None),
            leaf("b"),
            Component::Container(Container::new(vec![], size)),
        ],
        size,
    ));
    let done = run(&tree, &context("a\nb", Some(1)), &words);
    assert_eq!(done.error, None);
    assert_eq!(done.draws.len(), 3);
    assert_eq!(done.requests.len(), 2);
    let sources: Vec<FontSource> = done.draws.iter().map(|draw| draw.font_source).collect();
    assert_eq!(sources, vec![FontSource::FontsFolder, FontSource::Bundled, FontSource::Bundled]);
}

#[test]
fn hidden_root_draws_nothing() {
    let tree = Component::LineNumber(LineNumber::default());
    let done = run(&tree, &context("a", None), &words);
    assert_eq!(done.error, None);
    assert!(done.draws.is_empty());
    assert!(done.requests.is_empty());
    assert_eq!(done.steps, 1);
}

#[test]
fn rendering_twice_gives_the_same_drawings() {
    let tree = editor("fn main() {\n\tlet a = 1;\n}\n", Some(98));
    let shared = context("fn main() {\n\tlet a = 1;\n}\n", Some(98));
    let first = run(&tree, &shared, &words);
    let second = run(&tree, &shared, &words);
    assert_eq!(first.draws, second.draws);
    assert_eq!(first.requests, second.requests);
    assert_eq!(first.error, second.error);
    assert_eq!(first.steps, second.steps);
    assert_eq!(first.draws.len(), 2);
}

#[test]
fn failed_highlighting_ends_the_pass() {
    let leaf = |text: &str| Component::Code(Code::new(text, 2000, 1400));
    let tree = Component::Container(Container::new(
        vec![
            Component::LineNumber(LineNumber::new(options("a", Some(1)), 2000)),
            leaf("first"),
            leaf("second"),
        ],
        RawComponentStyle::default(),
    ));
    let fail = |request: &HighlightRequest| {
        HighlightResult::Failed(format!("cannot highlight {}", request.text))
    };
    let done = run(&tree, &context("a", Some(1)), &fail);
    assert_eq!(
        done.error,
        Some(RenderError::HighlightCodeFailed("cannot highlight first".to_string()))
    );
    // The gutter was drawn before the failure; nothing came after it.
    assert_eq!(done.draws.len(), 1);
    assert_eq!(done.requests.len(), 1);
}

#[test]
fn failed_pass_stays_failed() {
    let tree = editor("a", None);
    let shared = context("a", None);
    let mut pass = RenderPass::new(layout(&tree, &canvas()));
    assert!(matches!(pass.step(&shared, Event::Resume), Action::Highlight(_)));
    let failure = Event::Highlighted(HighlightResult::Failed("broken".to_string()));
    let error = RenderError::HighlightCodeFailed("broken".to_string());
    assert_eq!(pass.step(&shared, failure), Action::Abort(error.clone()));
    assert_eq!(pass.step(&shared, Event::Resume), Action::Abort(error.clone()));
    let late = Event::Highlighted(HighlightResult::Spans(vec![]));
    assert_eq!(pass.step(&shared, late), Action::Abort(error));
}

#[test]
fn finished_pass_stays_finished() {
    let tree = editor("a", Some(1));
    let shared = context("a", Some(1));
    let mut pass = RenderPass::new(layout(&tree, &canvas()));
    assert!(matches!(pass.step(&shared, Event::Resume), Action::Draw(_)));
    assert!(matches!(pass.step(&shared, Event::Resume), Action::Highlight(_)));
    let answer = Event::Highlighted(HighlightResult::Spans(vec![]));
    assert!(matches!(pass.step(&shared, answer.clone()), Action::Draw(_)));
    assert_eq!(pass.step(&shared, Event::Resume), Action::Finish);
    assert_eq!(pass.step(&shared, Event::Resume), Action::Finish);
    assert_eq!(pass.step(&shared, answer), Action::Finish);
}

#[test]
fn waiting_pass_asks_again_until_it_is_answered() {
    let tree = editor("let a", None);
    let shared = context("let a", None);
    let mut pass = RenderPass::new(layout(&tree, &canvas()));
    let request =
        HighlightRequest { text: "let a".to_string(), font_family: "Fira Code".to_string() };
    assert_eq!(pass.step(&shared, Event::Resume), Action::Highlight(request.clone()));
    assert_eq!(pass.step(&shared, Event::Resume), Action::Highlight(request.clone()));
    assert_eq!(pass.step(&shared, Event::Resume), Action::Highlight(request.clone()));
    match pass.step(&shared, Event::Highlighted(words(&request))) {
        Action::Draw(draw) => assert_eq!(draw.spans.len(), 2),
        other => panic!("expected a drawing, got {:?}", other),
    }
    assert_eq!(pass.step(&shared, Event::Resume), Action::Finish);
}

#[test]
fn answer_that_was_not_asked_for_counts_as_resume() {
    let tree = editor("a", Some(1));
    let shared = context("a", Some(1));
    let mut pass = RenderPass::new(layout(&tree, &canvas()));
    let stray = Event::Highlighted(HighlightResult::Failed("stray".to_string()));
    match pass.step(&shared, stray) {
        Action::Draw(draw) => assert_eq!(draw.spans[0].text, "1"),
        other => panic!("expected the gutter, got {:?}", other),
    }
    let stray = Event::Highlighted(HighlightResult::Spans(vec![]));
    assert!(matches!(pass.step(&shared, stray), Action::Highlight(_)));
}

#[test]
fn empty_layout_finishes_at_once() {
    let mut pass = RenderPass::new(Vec::new());
    assert!(pass.boxes().is_empty());
    assert_eq!(pass.step(&context("", None), Event::Resume), Action::Finish);
}

#[test]
fn containers_alone_draw_nothing() {
    let size = RawComponentStyle::default().size(Size::Num(10), Size::Num(10));
    let tree = Component::Container(Container::new(
        vec![Component::Container(Container::new(vec![], size))],
        size,
    ));
    assert!(!tree.draws());
    let done = run(&tree, &context("", None), &words);
    assert!(done.draws.is_empty());
    assert_eq!(done.steps, 1);
}
