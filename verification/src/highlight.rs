//! What the highlighter is asked, and what it answers.

use vstd::prelude::*;
use crate::draw::Span;

verus! {

/// A request to the highlighter: the text to colour and the font family
/// that the spans are to name.
#[derive(Clone, Debug, PartialEq, Eq)]
pub struct HighlightRequest {
    pub text: String,
    pub font_family: String,
}

/// A highlight request with its texts as characters.
pub struct HighlightRequestView {
    pub text: Seq<char>,
    pub font_family: Seq<char>,
}

impl View for HighlightRequest {
    type V = HighlightRequestView;

    open spec fn view(&self) -> HighlightRequestView {
        HighlightRequestView { text: self.text@, font_family: self.font_family@ }
    }
}

/// The highlighter's answer: the styled spans of the text in order, or its
/// report of why it has none.
#[derive(Clone, Debug, PartialEq, Eq)]
pub enum HighlightResult {
    Spans(Vec<Span>),
    Failed(String),
}

} // verus!
