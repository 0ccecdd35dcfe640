//! What a component asks for (a size and a margin) and what it is given.

use vstd::prelude::*;
use crate::measure::{percent_of, spec_percent_of};

verus! {

/// A requested extent along one axis.
#[derive(Clone, Copy, Debug, PartialEq, Eq, Structural)]
pub enum Size {
    /// An absolute measure.
    Num(u64),
    /// Hundredths of the parent's extent along the same axis.
    Percent(u64),
}

/// Insets at the four edges of a component.
#[derive(Clone, Copy, Debug, PartialEq, Eq, Structural)]
pub struct Margin {
    pub top: u64,
    pub right: u64,
    pub bottom: u64,
    pub left: u64,
}

/// A size and a margin, with extents of type `T`.
#[derive(Clone, Copy, Debug, PartialEq, Eq, Structural)]
pub struct Style<T> {
    pub width: T,
    pub height: T,
    pub margin: Margin,
}

/// What a component asks for.
pub type RawComponentStyle = Style<Size>;

/// What a component is given: its resolved extents, with its margin.
pub type ComponentStyle = Style<u64>;

impl Margin {
    /// The margin with no inset at any edge.
    pub open spec fn zero() -> Margin {
        Margin { top: 0, right: 0, bottom: 0, left: 0 }
    }
}

impl Default for Margin {
    fn default() -> (margin: Margin)
        ensures
            margin == Margin::zero(),
    {
        Margin { top: 0, right: 0, bottom: 0, left: 0 }
    }
}

impl Size {
    /// The extent that this request comes to inside a parent of extent
    /// `parent`.
    pub open spec fn spec_resolve(self, parent: u64) -> u64 {
        match self {
            Size::Num(extent) => extent,
            Size::Percent(percent) => spec_percent_of(parent, percent),
        }
    }

    /// Resolves this request against the resolved extent of the parent.
    #[verifier::when_used_as_spec(spec_resolve)]
    pub fn resolve(self, parent: u64) -> (extent: u64)
        ensures
            extent == self.spec_resolve(parent),
    {
        match self {
            Size::Num(extent) => extent,
            Size::Percent(percent) => percent_of(parent, percent),
        }
    }
}

impl Style<Size> {
    /// The request for nothing: no extent and no margin.
    pub open spec fn empty() -> RawComponentStyle {
        Style { width: Size::Num(0), height: Size::Num(0), margin: Margin::zero() }
    }

    /// This request with its size replaced.
    pub fn size(self, width: Size, height: Size) -> (style: RawComponentStyle)
        ensures
            style == (Style { width, height, margin: self.margin }),
    {
        Style { width, height, margin: self.margin }
    }

    /// This request with its margin replaced.
    pub fn margin(self, margin: Margin) -> (style: RawComponentStyle)
        ensures
            style == (Style { width: self.width, height: self.height, margin }),
    {
        Style { width: self.width, height: self.height, margin }
    }

    /// What this request comes to inside `parent`.
    pub open spec fn spec_resolve(self, parent: ComponentStyle) -> ComponentStyle {
        Style {
            width: self.width.spec_resolve(parent.width),
            height: self.height.spec_resolve(parent.height),
            margin: self.margin,
        }
    }

    /// Resolves this request against the resolved style of the parent: an
    /// absolute extent stays, a percentage is taken of the parent's extent
    /// along the same axis, and the margin is kept.
    #[verifier::when_used_as_spec(spec_resolve)]
    pub fn resolve(self, parent: ComponentStyle) -> (style: ComponentStyle)
        ensures
            style == self.spec_resolve(parent),
    {
        Style {
            width: self.width.resolve(parent.width),
            height: self.height.resolve(parent.height),
            margin: self.margin,
        }
    }
}

impl Default for Style<Size> {
    fn default() -> (style: RawComponentStyle)
        ensures
            style == RawComponentStyle::empty(),
    {
        Style { width: Size::Num(0), height: Size::Num(0), margin: Margin::default() }
    }
}

impl Style<u64> {
    /// The style of nothing: no extent and no margin.
    pub open spec fn none() -> ComponentStyle {
        Style { width: 0, height: 0, margin: Margin::zero() }
    }
}

impl Default for Style<u64> {
    fn default() -> (style: ComponentStyle)
        ensures
            style == ComponentStyle::none(),
    {
        Style { width: 0, height: 0, margin: Margin::default() }
    }
}

} // verus!
