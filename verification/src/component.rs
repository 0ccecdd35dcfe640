//! The nodes of the render tree.

use vstd::prelude::*;
use crate::code::Code;
use crate::config;
use crate::line_number::LineNumber;
use crate::style::{ComponentStyle, RawComponentStyle, Style};

verus! {

/// Where a component is drawn: the top left corner of its box.
#[derive(Clone, Copy, Debug, PartialEq, Eq, Structural)]
pub struct RenderParams {
    pub x: u64,
    pub y: u64,
}

/// What every draw of one render pass shares. It is made before layout and
/// only read afterwards.
#[derive(Clone, Debug)]
pub struct ComponentContext {
    /// Device pixels per logical pixel, in hundredths.
    pub scale_factor: u64,
    /// The options that the screenshot was asked for with.
    pub code: config::Code,
}

/// A node that draws nothing itself and holds other nodes, which are laid
/// out inside its box in a row.
pub struct Container {
    pub children: Vec<Component>,
    pub style: RawComponentStyle,
}

/// A node of the render tree. A node owns its children, so the nodes form a
/// tree.
pub enum Component {
    Code(Code),
    LineNumber(LineNumber),
    Container(Container),
}

impl Container {
    /// A container of `children` that asks for `style`.
    pub fn new(children: Vec<Component>, style: RawComponentStyle) -> (container: Container)
        ensures
            container.children == children,
            container.style == style,
    {
        Container { children, style }
    }
}

impl Component {
    /// Whether layout and drawing visit this node at all.
    pub open spec fn spec_render_condition(&self) -> bool {
        match self {
            Component::Code(_) => true,
            Component::LineNumber(gutter) => gutter@.render_condition,
            Component::Container(_) => true,
        }
    }

    /// The children of this node, in drawing order.
    pub open spec fn spec_children(&self) -> Seq<Component> {
        match self {
            Component::Code(_) => Seq::empty(),
            Component::LineNumber(_) => Seq::empty(),
            Component::Container(container) => container.children@,
        }
    }

    /// What this node asks for.
    pub open spec fn spec_style(&self) -> RawComponentStyle {
        match self {
            Component::Code(code) => code.spec_style(),
            Component::LineNumber(gutter) => gutter.spec_style(),
            Component::Container(container) => container.style,
        }
    }

    /// What this node is given inside a parent of style `parent`: nothing
    /// where it is not rendered, else its request resolved against the
    /// parent.
    pub open spec fn spec_parsed_style(&self, parent: ComponentStyle) -> ComponentStyle {
        if self.spec_render_condition() {
            self.spec_style().spec_resolve(parent)
        } else {
            ComponentStyle::none()
        }
    }

    /// Whether this node draws anything itself. A container does not.
    pub open spec fn spec_draws(&self) -> bool {
        !(self is Container)
    }

    /// Whether this node draws anything itself.
    #[verifier::when_used_as_spec(spec_draws)]
    pub fn draws(&self) -> (draws: bool)
        ensures
            draws == self.spec_draws(),
    {
        match self {
            Component::Container(_) => false,
            _ => true,
        }
    }

    /// Whether layout and drawing visit this node at all.
    #[verifier::when_used_as_spec(spec_render_condition)]
    pub fn render_condition(&self) -> (visible: bool)
        ensures
            visible == self.spec_render_condition(),
    {
        match self {
            Component::Code(_) => true,
            Component::LineNumber(gutter) => gutter.render_condition(),
            Component::Container(_) => true,
        }
    }

    /// The children of this node, in drawing order.
    pub fn children(&self) -> (children: &Vec<Component>)
        ensures
            children@ == self.spec_children(),
    {
        match self {
            Component::Code(code) => {
                let children = code.children();
                assert(children@ =~= self.spec_children());
                children
            },
            Component::LineNumber(gutter) => {
                let children = gutter.children();
                assert(children@ =~= self.spec_children());
                children
            },
            Component::Container(container) => &container.children,
        }
    }

    /// What this node asks for. It is computed on each call.
    pub fn style(&self) -> (style: RawComponentStyle)
        ensures
            style == self.spec_style(),
    {
        match self {
            Component::Code(code) => code.style(),
            Component::LineNumber(gutter) => gutter.style(),
            Component::Container(container) => container.style,
        }
    }

    /// What this node is given inside a parent of style `parent`.
    pub fn parsed_style(&self, parent: &ComponentStyle) -> (style: ComponentStyle)
        ensures
            style == self.spec_parsed_style(*parent),
            !self.spec_render_condition() ==> style.width == 0 && style.height == 0,
    {
        if self.render_condition() {
            self.style().resolve(*parent)
        } else {
            Style::<u64>::default()
        }
    }
}

} // verus!
