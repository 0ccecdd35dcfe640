//! Colours, packed as the text shaper takes them.

use vstd::prelude::*;

verus! {

/// The opaque colour with the given red, green and blue parts, packed in 32
/// bits: alpha in the top byte, then red, green and blue.
pub open spec fn spec_rgb(r: u8, g: u8, b: u8) -> u32 {
    0xFF00_0000u32 | ((r as u32) << 16) | ((g as u32) << 8) | (b as u32)
}

/// Calls `cosmic_text::Color::rgb` and hands out the 32 bits that the colour
/// holds. Trusted: the bits are full alpha in the top byte, then `r`, `g`
/// and `b`, a byte each.
#[verifier::external_body]
pub(crate) fn rgb(r: u8, g: u8, b: u8) -> (bits: u32)
    ensures
        bits == spec_rgb(r, g, b),
{
    cosmic_text::Color::rgb(r, g, b).0
}

} // verus!
