//! Structural comparison of a declared tree with a live subtree.

use vstd::prelude::*;
use vstd::std_specs::cmp::PartialEqSpec;
use crate::layout::{ContainerLayout, NodeView};
use crate::scene::SceneView;
use crate::util::{is_window, window_matches, Criteria};

verus! {

/// Whether a node has exactly one child, its regular and its floating
/// children counted together.
pub open spec fn has_sole_child(live: SceneView) -> bool {
    live.nodes.len() + live.floating_nodes.len() == 1
}

/// The one child of a node that has exactly one.
pub open spec fn sole_child(live: SceneView) -> SceneView {
    if live.nodes.len() == 1 {
        live.nodes[0]
    } else {
        live.floating_nodes[0]
    }
}

/// Whether a live subtree has the shape that a declared tree asks for.
///
/// A live node with exactly one child stands for that child, at every
/// level. Of any other node a declared window asks that it answer to the
/// window's criteria; a declared container asks that it be no window, that
/// it arrange its children as declared, and that its regular children
/// match the declared children one by one, in their order.
pub open spec fn structurally_matches(expected: NodeView, live: SceneView) -> bool
    decreases live,
{
    if has_sole_child(live) {
        structurally_matches(expected, sole_child(live))
    } else {
        match expected {
            NodeView::Window(criteria) => window_matches(criteria, live),
            NodeView::Container { layout, content } => {
                &&& !is_window(live)
                &&& layout.eq_spec(&live.layout)
                &&& content.len() == live.nodes.len()
                &&& forall|i: int|
                    0 <= i < content.len() ==> structurally_matches(
                        #[trigger] content[i],
                        live.nodes[i],
                    )
            },
        }
    }
}

/// A live node with exactly one child matches what that child matches.
pub proof fn lemma_auto_flatten(expected: NodeView, live: SceneView)
    requires
        has_sole_child(live),
    ensures
        structurally_matches(expected, live) == structurally_matches(expected, sole_child(live)),
{
}

/// A declared window matches a live node whose only child's only child
/// answers to its criteria: the wrappers between them are looked through.
pub proof fn lemma_window_below_wrappers(criteria: Criteria, live: SceneView)
    requires
        has_sole_child(live),
        has_sole_child(sole_child(live)),
        !has_sole_child(sole_child(sole_child(live))),
        window_matches(criteria, sole_child(sole_child(live))),
    ensures
        structurally_matches(NodeView::Window(criteria), live),
{
    lemma_auto_flatten(NodeView::Window(criteria), live);
    lemma_auto_flatten(NodeView::Window(criteria), sole_child(live));
}

/// Children are compared by position: a container of two declared trees
/// does not match a live node whose two children match them in swapped
/// order only.
pub proof fn lemma_order_sensitive(
    layout: ContainerLayout,
    first: NodeView,
    second: NodeView,
    live: SceneView,
)
    requires
        live.nodes.len() == 2,
        structurally_matches(first, live.nodes[1]),
        structurally_matches(second, live.nodes[0]),
        !structurally_matches(first, live.nodes[0]) || !structurally_matches(
            second,
            live.nodes[1],
        ),
    ensures
        !structurally_matches(NodeView::Container { layout, content: seq![first, second] }, live),
{
    let content = seq![first, second];
}

} // verus!
