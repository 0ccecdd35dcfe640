//! The layout pass: every rendered node of a tree gets its box.

use vstd::prelude::*;
use crate::component::{Component, RenderParams};
use crate::measure::{plus, spec_plus};
use crate::style::{ComponentStyle, Margin};

verus! {

/// A node of the tree with the box that layout gave it.
#[derive(Clone, Copy)]
pub struct Placed<'a> {
    pub node: &'a Component,
    /// The top left corner of the node's box.
    pub render_params: RenderParams,
    /// The resolved style of the node.
    pub style: ComponentStyle,
    /// The resolved style of the node's parent.
    pub parent_style: ComponentStyle,
}

/// Where a box with `margin` begins when its margins begin at `cursor`.
pub open spec fn spec_inset(cursor: RenderParams, margin: Margin) -> RenderParams {
    RenderParams { x: spec_plus(cursor.x, margin.left), y: spec_plus(cursor.y, margin.top) }
}

/// Where the margins of the next sibling begin, when those of `node` begin
/// at `cursor` inside a parent of style `parent`. A node that is not
/// rendered takes no room.
pub open spec fn spec_advance(
    cursor: RenderParams,
    node: &Component,
    parent: ComponentStyle,
) -> RenderParams {
    if node.spec_render_condition() {
        let style = node.spec_parsed_style(parent);
        RenderParams {
            x: spec_plus(
                spec_plus(spec_plus(cursor.x, style.margin.left), style.width),
                style.margin.right,
            ),
            y: cursor.y,
        }
    } else {
        cursor
    }
}

/// The boxes of `node` and of the nodes below it, in drawing order: the node
/// first, then each child with all that is below it. The margins of `node`
/// begin at `cursor`, and `parent` is the resolved style of its parent. A
/// node that is not rendered has no box, and neither has any node below it.
pub open spec fn spec_layout<'a>(
    node: &'a Component,
    cursor: RenderParams,
    parent: ComponentStyle,
) -> Seq<Placed<'a>>
    decreases node,
{
    if node.spec_render_condition() {
        let style = node.spec_parsed_style(parent);
        let at = spec_inset(cursor, style.margin);
        let below = match node {
            Component::Container(container) => spec_layout_row(container.children@, at, style),
            _ => Seq::empty(),
        };
        seq![Placed { node, render_params: at, style, parent_style: parent }] + below
    } else {
        Seq::empty()
    }
}

/// The boxes of `children` and of the nodes below them, in drawing order.
/// The children stand in a row from `cursor` to the right, inside a parent
/// of style `parent`.
pub open spec fn spec_layout_row<'a>(
    children: Seq<Component>,
    cursor: RenderParams,
    parent: ComponentStyle,
) -> Seq<Placed<'a>>
    decreases children,
{
    if children.len() == 0 {
        Seq::empty()
    } else {
        spec_layout(&children[0], cursor, parent) + spec_layout_row(
            children.drop_first(),
            spec_advance(cursor, &children[0], parent),
            parent,
        )
    }
}

/// Whether `below` is the box of a child of the node of `above`: it was
/// resolved against the style that `above` was given.
pub open spec fn is_child_box(above: Placed, below: Placed) -> bool {
    &&& below.parent_style == above.style
    &&& above.node.spec_children().contains(*below.node)
}

/// Whether the box of the parent of the box at `k` stands before it in
/// `boxes`.
pub open spec fn has_parent_before(boxes: Seq<Placed>, k: int) -> bool {
    exists|j: int| 0 <= j < k && is_child_box(#[trigger] boxes[j], boxes[k])
}

/// Whether the box at `k` in `boxes`, the layout of the row `children`
/// inside a parent of style `parent`, is that of a child of the row or
/// stands after the box of its own parent.
pub open spec fn has_origin(
    children: Seq<Component>,
    parent: ComponentStyle,
    boxes: Seq<Placed>,
    k: int,
) -> bool {
    ||| (children.contains(*boxes[k].node) && boxes[k].parent_style == parent)
    ||| has_parent_before(boxes, k)
}

/// A node that is not rendered is never visited: it has no box, no node
/// below it has one, it is given no size, and the siblings after it stand
/// where they would stand without it.
pub proof fn lemma_hidden_node_is_skipped(
    node: &Component,
    cursor: RenderParams,
    parent: ComponentStyle,
)
    requires
        !node.spec_render_condition(),
    ensures
        spec_layout(node, cursor, parent).len() == 0,
        node.spec_parsed_style(parent).width == 0,
        node.spec_parsed_style(parent).height == 0,
        spec_advance(cursor, node, parent) == cursor,
{
}

/// A row lays out as it would without a child that is not rendered.
pub proof fn lemma_hidden_child_takes_no_room(
    children: Seq<Component>,
    i: int,
    cursor: RenderParams,
    parent: ComponentStyle,
)
    requires
        0 <= i < children.len(),
        !children[i].spec_render_condition(),
    ensures
        spec_layout_row(children, cursor, parent) == spec_layout_row(
            children.remove(i),
            cursor,
            parent,
        ),
    decreases i,
{
    if i == 0 {
        assert(children.remove(0) =~= children.drop_first());
        assert(spec_layout(&children[0], cursor, parent) =~= Seq::empty());
        assert(spec_layout_row(children, cursor, parent) =~= spec_layout_row(
            children.drop_first(),
            cursor,
            parent,
        ));
    } else {
        let rest = children.drop_first();
        let next = spec_advance(cursor, &children[0], parent);
        lemma_hidden_child_takes_no_room(rest, i - 1, next, parent);
        assert(children.remove(i).drop_first() =~= rest.remove(i - 1));
        assert(children.remove(i)[0] == children[0]);
    }
}

/// Every box of a layout belongs to a rendered node, and its style is that
/// node's request resolved against the style of its parent.
pub proof fn lemma_layout_visits_rendered_nodes(
    node: &Component,
    cursor: RenderParams,
    parent: ComponentStyle,
)
    ensures
        forall|k: int|
            0 <= k < spec_layout(node, cursor, parent).len() ==> {
                let placed = #[trigger] spec_layout(node, cursor, parent)[k];
                &&& placed.node.spec_render_condition()
                &&& placed.style == placed.node.spec_style().spec_resolve(placed.parent_style)
            },
    decreases node,
{
    if node.spec_render_condition() {
        let style = node.spec_parsed_style(parent);
        let at = spec_inset(cursor, style.margin);
        match node {
            Component::Container(container) => {
                lemma_row_visits_rendered_nodes(container.children@, at, style);
            },
            _ => {},
        }
    }
}

/// Every box of the layout of a row belongs to a rendered node, and its
/// style is that node's request resolved against the style of its parent.
pub proof fn lemma_row_visits_rendered_nodes(
    children: Seq<Component>,
    cursor: RenderParams,
    parent: ComponentStyle,
)
    ensures
        forall|k: int|
            0 <= k < spec_layout_row(children, cursor, parent).len() ==> {
                let placed = #[trigger] spec_layout_row(children, cursor, parent)[k];
                &&& placed.node.spec_render_condition()
                &&& placed.style == placed.node.spec_style().spec_resolve(placed.parent_style)
            },
    decreases children,
{
    if children.len() > 0 {
        lemma_layout_visits_rendered_nodes(&children[0], cursor, parent);
        lemma_row_visits_rendered_nodes(
            children.drop_first(),
            spec_advance(cursor, &children[0], parent),
            parent,
        );
    }
}

/// In the layout of a row, each box is that of a child of the row, resolved
/// against the row's parent, or stands after the box of its own parent.
proof fn lemma_row_parents_first(
    children: Seq<Component>,
    cursor: RenderParams,
    parent: ComponentStyle,
)
    ensures
        forall|k: int|
            0 <= k < spec_layout_row(children, cursor, parent).len() ==> #[trigger] has_origin(
                children,
                parent,
                spec_layout_row(children, cursor, parent),
                k,
            ),
    decreases children,
{
    if children.len() > 0 {
        let boxes = spec_layout_row(children, cursor, parent);
        let first = spec_layout(&children[0], cursor, parent);
        let next = spec_advance(cursor, &children[0], parent);
        let rest = spec_layout_row(children.drop_first(), next, parent);
        lemma_node_parents_first(&children[0], cursor, parent);
        lemma_row_parents_first(children.drop_first(), next, parent);
        assert forall|k: int| 0 <= k < boxes.len() implies #[trigger] has_origin(
            children,
            parent,
            boxes,
            k,
        ) by {
            if k < first.len() {
                assert(boxes[k] == first[k]);
                if k == 0 {
                    assert(children[0] == *boxes[k].node);
                } else {
                    assert(has_parent_before(first, k));
                    let j = choose|j: int| 0 <= j < k && is_child_box(#[trigger] first[j], first[k]);
                    assert(boxes[j] == first[j]);
                    assert(is_child_box(boxes[j], boxes[k]));
                }
            } else {
                let m = k - first.len();
                assert(boxes[k] == rest[m]);
                assert(has_origin(children.drop_first(), parent, rest, m));
                if children.drop_first().contains(*rest[m].node) && rest[m].parent_style
                    == parent {
                    let w = choose|w: int|
                        0 <= w < children.drop_first().len() && children.drop_first()[w]
                            == *rest[m].node;
                    assert(children[w + 1] == *rest[m].node);
                } else {
                    let j = choose|j: int| 0 <= j < m && is_child_box(#[trigger] rest[j], rest[m]);
                    assert(boxes[j + first.len()] == rest[j]);
                    assert(is_child_box(boxes[j + first.len()], boxes[k]));
                }
            }
        }
    }
}

/// In the layout of a node, the first box is the node's own, and each later
/// box stands after the box of its parent.
proof fn lemma_node_parents_first(node: &Component, cursor: RenderParams, parent: ComponentStyle)
    ensures
        spec_layout(node, cursor, parent).len() > 0 ==> {
            &&& spec_layout(node, cursor, parent)[0].node == node
            &&& spec_layout(node, cursor, parent)[0].parent_style == parent
        },
        forall|k: int|
            0 < k < spec_layout(node, cursor, parent).len() ==> has_parent_before(
                spec_layout(node, cursor, parent),
                k,
            ),
    decreases node,
{
    if node.spec_render_condition() {
        let boxes = spec_layout(node, cursor, parent);
        let style = node.spec_parsed_style(parent);
        let at = spec_inset(cursor, style.margin);
        match node {
            Component::Container(container) => {
                let below = spec_layout_row(container.children@, at, style);
                lemma_row_parents_first(container.children@, at, style);
                assert forall|k: int| 0 < k < boxes.len() implies has_parent_before(boxes, k) by {
                    assert(boxes[k] == below[k - 1]);
                    assert(has_origin(container.children@, style, below, k - 1));
                    if container.children@.contains(*below[k - 1].node) && below[k - 1].parent_style
                        == style {
                        assert(is_child_box(boxes[0], boxes[k]));
                    } else {
                        let j = choose|j: int|
                            0 <= j < k - 1 && is_child_box(#[trigger] below[j], below[k - 1]);
                        assert(boxes[j + 1] == below[j]);
                        assert(is_child_box(boxes[j + 1], boxes[k]));
                    }
                }
            },
            _ => {},
        }
    }
}

/// A box is resolved only after the box of its parent: the first box of a
/// layout is the root's, resolved against the canvas, and every other box
/// stands after the box of its parent, whose resolved style it was resolved
/// against.
pub proof fn lemma_parent_is_resolved_first(
    root: &Component,
    cursor: RenderParams,
    canvas: ComponentStyle,
    k: int,
)
    requires
        0 <= k < spec_layout(root, cursor, canvas).len(),
    ensures
        ({
            let boxes = spec_layout(root, cursor, canvas);
            &&& boxes[k].style == boxes[k].node.spec_style().spec_resolve(boxes[k].parent_style)
            &&& k == 0 ==> boxes[k].node == root && boxes[k].parent_style == canvas
            &&& k > 0 ==> exists|j: int|
                0 <= j < k && boxes[k].parent_style == (#[trigger] boxes[j]).style
                    && boxes[j].node.spec_children().contains(*boxes[k].node)
        }),
{
    lemma_layout_visits_rendered_nodes(root, cursor, canvas);
    lemma_node_parents_first(root, cursor, canvas);
    let boxes = spec_layout(root, cursor, canvas);
    if k > 0 {
        assert(has_parent_before(boxes, k));
        let j = choose|j: int| 0 <= j < k && is_child_box(#[trigger] boxes[j], boxes[k]);
        assert(boxes[k].parent_style == boxes[j].style);
    }
}

/// Where a box with `margin` begins when its margins begin at `cursor`.
#[verifier::when_used_as_spec(spec_inset)]
pub fn inset(cursor: RenderParams, margin: Margin) -> (at: RenderParams)
    ensures
        at == spec_inset(cursor, margin),
{
    RenderParams { x: plus(cursor.x, margin.left), y: plus(cursor.y, margin.top) }
}

/// Where the margins of the next sibling begin, when those of `node` begin
/// at `cursor` inside a parent of style `parent`.
pub fn advance(cursor: RenderParams, node: &Component, parent: &ComponentStyle) -> (next:
    RenderParams)
    ensures
        next == spec_advance(cursor, node, *parent),
        !node.spec_render_condition() ==> next == cursor,
{
    if node.render_condition() {
        let style = node.parsed_style(parent);
        RenderParams {
            x: plus(plus(plus(cursor.x, style.margin.left), style.width), style.margin.right),
            y: cursor.y,
        }
    } else {
        cursor
    }
}

/// Puts the boxes of `node` and of the nodes below it at the end of
/// `placed`.
fn layout_into<'a>(
    node: &'a Component,
    cursor: RenderParams,
    parent: &ComponentStyle,
    placed: &mut Vec<Placed<'a>>,
)
    ensures
        final(placed)@ == old(placed)@ + spec_layout(node, cursor, *parent),
    decreases node,
{
    if !node.render_condition() {
        assert(placed@ =~= old(placed)@ + spec_layout(node, cursor, *parent));
        return ;
    }
    let style = node.parsed_style(parent);
    let at = inset(cursor, style.margin);
    placed.push(Placed { node, render_params: at, style, parent_style: *parent });
    match node {
        Component::Container(container) => {
            let ghost head = placed@;
            let mut next = at;
            let mut i: usize = 0;
            proof {
                assert(container.children@.skip(0) =~= container.children@);
            }
            while i < container.children.len()
                invariant
                    i <= container.children.len(),
                    *node == Component::Container(*container),
                    placed@ + spec_layout_row(container.children@.skip(i as int), next, style)
                        == head + spec_layout_row(container.children@, at, style),
                decreases container.children.len() - i,
            {
                let child = &container.children[i];
                let ghost rest = container.children@.skip(i as int);
                let ghost before = placed@;
                proof {
                    assert(rest[0] == *child);
                    assert(rest.drop_first() =~= container.children@.skip(i + 1));
                    assert(node->Container_0 == *container);
                }
                layout_into(child, next, &style, placed);
                let ghost row = spec_layout_row(
                    rest.drop_first(),
                    spec_advance(next, child, style),
                    style,
                );
                proof {
                    assert(placed@ + row =~= before + (spec_layout(child, next, style) + row));
                }
                next = advance(next, child, &style);
                i = i + 1;
            }
            proof {
                assert(container.children@.skip(i as int) =~= Seq::<Component>::empty());
                assert(placed@ =~= head + spec_layout_row(container.children@, at, style));
                assert(placed@ =~= old(placed)@ + spec_layout(node, cursor, *parent));
            }
        },
        _ => {
            assert(placed@ =~= old(placed)@ + spec_layout(node, cursor, *parent));
        },
    }
}

/// Lays out the tree under `root` inside a canvas of style `canvas`, from
/// the canvas's top left corner. The result holds the box of each rendered
/// node, in drawing order.
pub fn layout<'a>(root: &'a Component, canvas: &ComponentStyle) -> (placed: Vec<Placed<'a>>)
    ensures
        placed@ == spec_layout(root, RenderParams { x: 0, y: 0 }, *canvas),
        !root.spec_render_condition() ==> placed@.len() == 0,
{
    let mut placed: Vec<Placed<'a>> = Vec::new();
    layout_into(root, RenderParams { x: 0, y: 0 }, canvas, &mut placed);
    assert(placed@ =~= spec_layout(root, RenderParams { x: 0, y: 0 }, *canvas));
    placed
}

/// The right edge of a box, its right margin included.
pub open spec fn right_edge(placed: Placed) -> u64 {
    spec_plus(spec_plus(placed.render_params.x, placed.style.width), placed.style.margin.right)
}

/// The bottom edge of a box, its bottom margin included.
pub open spec fn bottom_edge(placed: Placed) -> u64 {
    spec_plus(spec_plus(placed.render_params.y, placed.style.height), placed.style.margin.bottom)
}

/// The width and the height of the least canvas that holds `boxes` with
/// their right and bottom margins: the largest right edge and the largest
/// bottom edge, and nothing where there is no box.
pub open spec fn spec_extent(boxes: Seq<Placed>) -> (u64, u64)
    decreases boxes.len(),
{
    if boxes.len() == 0 {
        (0, 0)
    } else {
        let rest = spec_extent(boxes.drop_last());
        let right = right_edge(boxes.last());
        let bottom = bottom_edge(boxes.last());
        (
            if right > rest.0 {
                right
            } else {
                rest.0
            },
            if bottom > rest.1 {
                bottom
            } else {
                rest.1
            },
        )
    }
}

/// The extent of a layout reaches every box of it, and no further than the
/// box that reaches furthest.
pub proof fn lemma_extent_is_least_cover(boxes: Seq<Placed>)
    ensures
        forall|k: int|
            0 <= k < boxes.len() ==> right_edge(#[trigger] boxes[k]) <= spec_extent(boxes).0
                && bottom_edge(boxes[k]) <= spec_extent(boxes).1,
        boxes.len() > 0 ==> exists|k: int|
            0 <= k < boxes.len() && right_edge(#[trigger] boxes[k]) == spec_extent(boxes).0,
        boxes.len() > 0 ==> exists|k: int|
            0 <= k < boxes.len() && bottom_edge(#[trigger] boxes[k]) == spec_extent(boxes).1,
    decreases boxes.len(),
{
    if boxes.len() > 0 {
        let shorter = boxes.drop_last();
        let last = boxes.len() - 1;
        lemma_extent_is_least_cover(shorter);
        assert forall|k: int| 0 <= k < boxes.len() implies right_edge(#[trigger] boxes[k])
            <= spec_extent(boxes).0 && bottom_edge(boxes[k]) <= spec_extent(boxes).1 by {
            if k < last {
                assert(boxes[k] == shorter[k]);
            }
        }
        if right_edge(boxes[last]) >= spec_extent(shorter).0 {
            assert(right_edge(boxes[last]) == spec_extent(boxes).0);
        } else {
            let k = choose|k: int|
                0 <= k < shorter.len() && right_edge(#[trigger] shorter[k]) == spec_extent(
                    shorter,
                ).0;
            assert(boxes[k] == shorter[k]);
        }
        if bottom_edge(boxes[last]) >= spec_extent(shorter).1 {
            assert(bottom_edge(boxes[last]) == spec_extent(boxes).1);
        } else {
            let k = choose|k: int|
                0 <= k < shorter.len() && bottom_edge(#[trigger] shorter[k]) == spec_extent(
                    shorter,
                ).1;
            assert(boxes[k] == shorter[k]);
        }
    }
}

/// The width and the height of the least canvas that holds `boxes` with
/// their right and bottom margins.
pub fn extent(boxes: &Vec<Placed>) -> (size: (u64, u64))
    ensures
        size == spec_extent(boxes@),
{
    let mut width: u64 = 0;
    let mut height: u64 = 0;
    let mut i: usize = 0;
    while i < boxes.len()
        invariant
            i <= boxes.len(),
            (width, height) == spec_extent(boxes@.take(i as int)),
        decreases boxes.len() - i,
    {
        let placed = &boxes[i];
        proof {
            assert(boxes@.take(i + 1).drop_last() =~= boxes@.take(i as int));
        }
        let right = plus(plus(placed.render_params.x, placed.style.width), placed.style.margin.right);
        let bottom = plus(
            plus(placed.render_params.y, placed.style.height),
            placed.style.margin.bottom,
        );
        if right > width {
            width = right;
        }
        if bottom > height {
            height = bottom;
        }
        i = i + 1;
    }
    proof {
        assert(boxes@.take(boxes.len() as int) =~= boxes@);
    }
    (width, height)
}

} // verus!
