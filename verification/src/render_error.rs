//! Why a render pass stopped.

use vstd::prelude::*;

verus! {

/// A failure of the draw phase. It ends the pass; nothing is drawn after it.
#[derive(Clone, Debug, PartialEq, Eq)]
pub enum RenderError {
    /// The highlighter could not turn the code into styled spans. The text
    /// is the highlighter's own report.
    HighlightCodeFailed(String),
}

/// A render error with its text as characters.
pub enum RenderErrorView {
    HighlightCodeFailed(Seq<char>),
}

impl View for RenderError {
    type V = RenderErrorView;

    open spec fn view(&self) -> RenderErrorView {
        match self {
            RenderError::HighlightCodeFailed(report) => RenderErrorView::HighlightCodeFailed(
                report@,
            ),
        }
    }
}

impl RenderError {
    /// A copy of this error.
    pub fn duplicate(&self) -> (copy: RenderError)
        ensures
            copy@ == self@,
    {
        match self {
            RenderError::HighlightCodeFailed(report) => RenderError::HighlightCodeFailed(
                report.clone(),
            ),
        }
    }

    /// What went wrong, for a reader.
    pub fn message(&self) -> (text: String)
        ensures
            text@ == match self@ {
                RenderErrorView::HighlightCodeFailed(report) => "Highlight code failed: "@
                    + report,
            },
    {
        match self {
            RenderError::HighlightCodeFailed(report) => {
                let mut text = String::from_str("Highlight code failed: ");
                text.append(report.as_str());
                text
            },
        }
    }
}

} // verus!
