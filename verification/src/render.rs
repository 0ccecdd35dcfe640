//! The render pass: the boxes of a layout are drawn in order.
//!
//! The pass neither highlights nor rasterizes. It says what is to be done
//! next, and is told what came of it: the caller highlights where the pass
//! asks for it, and puts each drawing on the canvas as it comes.

use vstd::prelude::*;
use crate::component::{Component, ComponentContext, RenderParams};
use crate::draw::{span_views, TextDraw, TextDrawView};
use crate::highlight::{HighlightRequest, HighlightRequestView, HighlightResult};
use crate::layout::{lemma_layout_visits_rendered_nodes, spec_layout, Placed};
use crate::render_error::{RenderError, RenderErrorView};
use crate::style::ComponentStyle;

verus! {

/// What the caller of a pass is to do next.
#[derive(Clone, Debug, PartialEq, Eq)]
pub enum Action {
    /// Highlight this, and hand the answer to the next step.
    Highlight(HighlightRequest),
    /// Put this on the canvas.
    Draw(TextDraw),
    /// Nothing: every box is drawn.
    Finish,
    /// Nothing: the pass has failed, and nothing more is drawn.
    Abort(RenderError),
}

/// An action with its texts as characters.
pub enum ActionView {
    Highlight(HighlightRequestView),
    Draw(TextDrawView),
    Finish,
    Abort(RenderErrorView),
}

impl View for Action {
    type V = ActionView;

    open spec fn view(&self) -> ActionView {
        match self {
            Action::Highlight(request) => ActionView::Highlight(request@),
            Action::Draw(draw) => ActionView::Draw(draw@),
            Action::Finish => ActionView::Finish,
            Action::Abort(error) => ActionView::Abort(error@),
        }
    }
}

/// What a step of a pass is told.
#[derive(Clone, Debug, PartialEq, Eq)]
pub enum Event {
    /// The last action is done, or the pass begins.
    Resume,
    /// The highlighter's answer to the request of the last action.
    Highlighted(HighlightResult),
}

/// How far a pass is.
pub enum Status {
    /// Between two boxes.
    Walking,
    /// The next box is a block of code, and the pass has asked for its
    /// spans.
    AwaitingHighlight,
    /// Every box is drawn.
    Finished,
    /// The pass has failed.
    Failed(RenderErrorView),
}

/// The state of a pass: the index of the next box to draw, and how far the
/// pass is.
pub struct RenderState {
    pub next: nat,
    pub status: Status,
}

/// A pass with its boxes as a sequence.
pub struct RenderPassView<'a> {
    pub boxes: Seq<Placed<'a>>,
    pub state: RenderState,
}

impl RenderState {
    /// Whether this is a state of a pass over `boxes`.
    pub open spec fn fits(self, boxes: Seq<Placed>) -> bool {
        &&& self.next <= boxes.len()
        &&& self.status is AwaitingHighlight ==> self.next < boxes.len()
            && boxes[self.next as int].node is Code
    }

    /// The steps that a pass over `count` boxes has at most before it: each
    /// box takes one, and a block of code one more for its spans.
    pub open spec fn distance(self, count: nat) -> nat {
        match self.status {
            Status::Walking => (2 * (count - self.next) + 1) as nat,
            Status::AwaitingHighlight => (2 * (count - self.next)) as nat,
            Status::Finished => 0,
            Status::Failed(_) => 0,
        }
    }
}

/// The index of the first box from `from` on whose node draws something,
/// or the number of boxes where there is none.
pub open spec fn next_drawn(boxes: Seq<Placed>, from: nat) -> nat
    decreases boxes.len() - from,
{
    if from >= boxes.len() {
        boxes.len()
    } else if boxes[from as int].node.spec_draws() {
        from
    } else {
        next_drawn(boxes, from + 1)
    }
}

/// One step of a pass over `boxes`: the state after it, and the action
/// that it asks for.
///
/// Between two boxes the pass goes on to the next box that draws something.
/// A gutter is drawn at once. For a block of code the pass asks for its
/// spans and waits; with the spans it draws the block, and without them it
/// fails. A pass that has failed or finished stays so. Boxes are drawn in
/// their order, and an event that is no answer to the last action counts as
/// `Resume`.
pub open spec fn spec_step(
    boxes: Seq<Placed>,
    context: ComponentContext,
    state: RenderState,
    event: Event,
) -> (RenderState, ActionView) {
    match state.status {
        Status::Failed(error) => (state, ActionView::Abort(error)),
        Status::Finished => (state, ActionView::Finish),
        Status::AwaitingHighlight => {
            let placed = boxes[state.next as int];
            match (placed.node, event) {
                (Component::Code(code), Event::Highlighted(HighlightResult::Spans(spans))) => (
                    RenderState { next: state.next + 1, status: Status::Walking },
                    ActionView::Draw(
                        code.spec_draw(context, placed.render_params, placed.style, spans@),
                    ),
                ),
                (Component::Code(code), Event::Highlighted(HighlightResult::Failed(report))) => {
                    let error = RenderErrorView::HighlightCodeFailed(report@);
                    (
                        RenderState { next: state.next, status: Status::Failed(error) },
                        ActionView::Abort(error),
                    )
                },
                (Component::Code(code), Event::Resume) => (
                    state,
                    ActionView::Highlight(code.spec_highlight_request(context)),
                ),
                _ => (state, ActionView::Finish),
            }
        },
        Status::Walking => {
            let k = next_drawn(boxes, state.next);
            if k >= boxes.len() {
                (RenderState { next: boxes.len(), status: Status::Finished }, ActionView::Finish)
            } else {
                let placed = boxes[k as int];
                match placed.node {
                    Component::Code(code) => (
                        RenderState { next: k, status: Status::AwaitingHighlight },
                        ActionView::Highlight(code.spec_highlight_request(context)),
                    ),
                    Component::LineNumber(gutter) => (
                        RenderState { next: k + 1, status: Status::Walking },
                        ActionView::Draw(
                            gutter.spec_draw(context, placed.render_params, placed.style),
                        ),
                    ),
                    // The search for a node that draws never stops at a container.
                    Component::Container(_) => (state, ActionView::Finish),
                }
            }
        },
    }
}

/// Whether `draw` is a drawing of the node of `placed`: the node is
/// rendered and draws, and the drawing has the place and the size of the
/// box.
pub open spec fn is_drawing_of(draw: TextDrawView, placed: Placed) -> bool {
    &&& placed.node.spec_render_condition()
    &&& placed.node.spec_draws()
    &&& draw.x == placed.render_params.x
    &&& draw.y == placed.render_params.y
    &&& draw.width == placed.style.width
    &&& draw.height == placed.style.height
}

/// Whether `request` asks for the spans of the node of `placed`: the node
/// is a rendered block of code, and the request is the one that it makes.
pub open spec fn is_request_of(
    request: HighlightRequestView,
    context: ComponentContext,
    placed: Placed,
) -> bool {
    &&& placed.node.spec_render_condition()
    &&& placed.node matches Component::Code(code)
    &&& request == code.spec_highlight_request(context)
}

/// The search for the next box that draws something stops inside the boxes
/// or at their end, never before where it began, and passes containers only.
pub proof fn lemma_next_drawn(boxes: Seq<Placed>, from: nat)
    requires
        from <= boxes.len(),
    ensures
        from <= next_drawn(boxes, from) <= boxes.len(),
        next_drawn(boxes, from) < boxes.len() ==> boxes[next_drawn(
            boxes,
            from,
        ) as int].node.spec_draws(),
        forall|i: int|
            from <= i < next_drawn(boxes, from) ==> !(#[trigger] boxes[i]).node.spec_draws(),
    decreases boxes.len() - from,
{
    if from < boxes.len() && !boxes[from as int].node.spec_draws() {
        lemma_next_drawn(boxes, from + 1);
    }
}

/// A step leaves a state of a pass over `boxes` such a state. A step that
/// draws, and one that asks for spans for the first time, bring the pass
/// nearer to its end.
pub proof fn lemma_step_progress(
    boxes: Seq<Placed>,
    context: ComponentContext,
    state: RenderState,
    event: Event,
)
    requires
        state.fits(boxes),
    ensures
        spec_step(boxes, context, state, event).0.fits(boxes),
        spec_step(boxes, context, state, event).1 is Draw ==> spec_step(
            boxes,
            context,
            state,
            event,
        ).0.distance(boxes.len()) < state.distance(boxes.len()),
        state.status is Walking ==> spec_step(boxes, context, state, event).0.distance(
            boxes.len(),
        ) < state.distance(boxes.len()),
{
    lemma_next_drawn(boxes, state.next);
}

/// A pass over a layout visits rendered nodes only: what a step draws is a
/// box of the layout, in the place and with the size that layout gave it,
/// and the node of that box is rendered; a step asks for the spans of such
/// a node only.
pub proof fn lemma_step_draws_rendered_nodes(
    root: &Component,
    cursor: RenderParams,
    canvas: ComponentStyle,
    context: ComponentContext,
    state: RenderState,
    event: Event,
)
    requires
        state.fits(spec_layout(root, cursor, canvas)),
    ensures
        ({
            let boxes = spec_layout(root, cursor, canvas);
            match spec_step(boxes, context, state, event).1 {
                ActionView::Draw(draw) => exists|k: int|
                    0 <= k < boxes.len() && is_drawing_of(draw, #[trigger] boxes[k]),
                ActionView::Highlight(request) => exists|k: int|
                    0 <= k < boxes.len() && is_request_of(request, context, #[trigger] boxes[k]),
                _ => true,
            }
        }),
{
    let boxes = spec_layout(root, cursor, canvas);
    lemma_layout_visits_rendered_nodes(root, cursor, canvas);
    lemma_next_drawn(boxes, state.next);
    match state.status {
        Status::Walking => {
            let k = next_drawn(boxes, state.next) as int;
            if k < boxes.len() {
                assert(boxes[k].node.spec_render_condition());
                match boxes[k].node {
                    Component::Code(code) => {
                        assert(is_request_of(code.spec_highlight_request(context), context, boxes[k]));
                    },
                    Component::LineNumber(gutter) => {
                        assert(is_drawing_of(
                            gutter.spec_draw(context, boxes[k].render_params, boxes[k].style),
                            boxes[k],
                        ));
                    },
                    Component::Container(_) => {},
                }
            }
        },
        Status::AwaitingHighlight => {
            let k = state.next as int;
            assert(boxes[k].node.spec_render_condition());
            match (boxes[k].node, event) {
                (Component::Code(code), Event::Highlighted(HighlightResult::Spans(spans))) => {
                    assert(is_drawing_of(
                        code.spec_draw(context, boxes[k].render_params, boxes[k].style, spans@),
                        boxes[k],
                    ));
                },
                (Component::Code(code), Event::Resume) => {
                    assert(is_request_of(code.spec_highlight_request(context), context, boxes[k]));
                },
                _ => {},
            }
        },
        _ => {},
    }
}

/// A step goes by what the highlighter's answer holds: two answers with the
/// same spans, or with the same report, lead to the same state and to the
/// same action.
pub proof fn lemma_step_is_repeatable(
    boxes: Seq<Placed>,
    context: ComponentContext,
    state: RenderState,
    first: HighlightResult,
    second: HighlightResult,
)
    requires
        match (first, second) {
            (HighlightResult::Spans(a), HighlightResult::Spans(b)) => span_views(a@) == span_views(
                b@,
            ),
            (HighlightResult::Failed(a), HighlightResult::Failed(b)) => a@ == b@,
            _ => false,
        },
    ensures
        spec_step(boxes, context, state, Event::Highlighted(first)) == spec_step(
            boxes,
            context,
            state,
            Event::Highlighted(second),
        ),
{
}

/// A render pass over the boxes of a layout.
pub struct RenderPass<'a> {
    boxes: Vec<Placed<'a>>,
    next: usize,
    waiting: bool,
    finished: bool,
    error: Option<RenderError>,
}

impl<'a> View for RenderPass<'a> {
    type V = RenderPassView<'a>;

    closed spec fn view(&self) -> RenderPassView<'a> {
        RenderPassView {
            boxes: self.boxes@,
            state: RenderState {
                next: self.next as nat,
                status: match self.error {
                    Some(error) => Status::Failed(error@),
                    None => if self.finished {
                        Status::Finished
                    } else if self.waiting {
                        Status::AwaitingHighlight
                    } else {
                        Status::Walking
                    },
                },
            },
        }
    }
}

impl<'a> RenderPass<'a> {
    #[verifier::type_invariant]
    spec fn well_formed(&self) -> bool {
        self@.state.fits(self.boxes@)
    }

    /// A pass over `boxes` that has not begun.
    pub fn new(boxes: Vec<Placed<'a>>) -> (pass: RenderPass<'a>)
        ensures
            pass@.boxes == boxes@,
            pass@.state == (RenderState { next: 0, status: Status::Walking }),
    {
        RenderPass { boxes, next: 0, waiting: false, finished: false, error: None }
    }

    /// The boxes that the pass draws.
    pub fn boxes(&self) -> (boxes: &Vec<Placed<'a>>)
        ensures
            boxes@ == self@.boxes,
    {
        &self.boxes
    }

    /// Takes one step: tells the pass what came of its last action, and
    /// learns what to do next.
    pub fn step(&mut self, context: &ComponentContext, event: Event) -> (action: Action)
        ensures
            old(self)@.state.fits(old(self)@.boxes),
            final(self)@.boxes == old(self)@.boxes,
            (final(self)@.state, action@) == spec_step(
                old(self)@.boxes,
                *context,
                old(self)@.state,
                event,
            ),
    {
        proof {
            use_type_invariant(&*self);
        }
        if let Some(error) = &self.error {
            return Action::Abort(error.duplicate());
        }
        if self.finished {
            return Action::Finish;
        }
        if self.waiting {
            let index: usize = self.next;
            assert(index < self.boxes.len());
            let placed = self.boxes[index];
            match placed.node {
                Component::Code(code) => match event {
                    Event::Resume => Action::Highlight(code.highlight_request(context)),
                    Event::Highlighted(highlight_result) => {
                        match code.draw_self(
                            context,
                            &placed.render_params,
                            &placed.style,
                            &placed.parent_style,
                            highlight_result,
                        ) {
                            Ok(draw) => {
                                self.waiting = false;
                                self.next = index + 1;
                                Action::Draw(draw)
                            },
                            Err(error) => {
                                let action = Action::Abort(error.duplicate());
                                self.error = Some(error);
                                action
                            },
                        }
                    },
                },
                _ => Action::Finish,
            }
        } else {
            let mut k: usize = self.next;
            while k < self.boxes.len() && !self.boxes[k as usize].node.draws()
                invariant
                    self.next <= k <= self.boxes.len(),
                    next_drawn(self.boxes@, k as nat) == next_drawn(self.boxes@, self.next as nat),
                decreases self.boxes.len() - k,
            {
                k = k + 1;
            }
            if k >= self.boxes.len() {
                self.next = self.boxes.len();
                self.finished = true;
                Action::Finish
            } else {
                let placed = self.boxes[k];
                match placed.node {
                    Component::Code(code) => {
                        self.next = k;
                        self.waiting = true;
                        Action::Highlight(code.highlight_request(context))
                    },
                    Component::LineNumber(gutter) => {
                        self.next = k + 1;
                        match gutter.draw_self(
                            context,
                            &placed.render_params,
                            &placed.style,
                            &placed.parent_style,
                        ) {
                            Ok(draw) => Action::Draw(draw),
                            Err(error) => Action::Abort(error),
                        }
                    },
                    Component::Container(_) => Action::Finish,
                }
            }
        }
    }
}

} // verus!
