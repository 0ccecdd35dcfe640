//! The options that a screenshot is asked for with.

use vstd::prelude::*;

verus! {

/// The request for a gutter of line numbers.
#[derive(Clone, Copy, Debug, PartialEq, Eq, Structural)]
pub struct LineNumberOptions {
    /// The number shown beside the first line.
    pub start_number: u32,
}

/// The code to show and how to show it.
#[derive(Clone, Debug)]
pub struct Code {
    /// The source text.
    pub content: String,
    /// The gutter of line numbers, where one is wanted.
    pub line_number: Option<LineNumberOptions>,
    /// The name of the font family that the text is set in.
    pub font_family: String,
}

} // verus!
