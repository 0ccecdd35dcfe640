//! Layout and draw planning for code screenshots: a tree of components is
//! sized, placed and turned into text drawing commands.
//!
//! Every measure is a `u64` in hundredths of a pixel.

pub mod code;
pub mod color;
pub mod component;
pub mod config;
pub mod draw;
pub mod highlight;
pub mod layout;
pub mod line_number;
pub mod measure;
pub mod render;
pub mod render_error;
pub mod style;
pub mod text;
