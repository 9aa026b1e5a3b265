//! Reduction of a declared tree against a pool of live windows: what it
//! keeps, what it takes from the pool, and what holds of every outcome.

use vstd::prelude::*;
use crate::layout::NodeView;
use crate::scene::SceneView;
use crate::search::{first_index, lemma_first_index_none};
use crate::util::{window_matches, Criteria};

verus! {

/// The windows that answer to the criteria.
pub open spec fn fits(criteria: Criteria) -> spec_fn(SceneView) -> bool {
    |window: SceneView| window_matches(criteria, window)
}

/// What reduction makes of a declared tree and a pool: the tree that is
/// left, if any, and the pool without the windows that were taken.
///
/// A declared window takes the first window of the pool that answers to it
/// and stays; without one it goes. A container reduces its children from
/// first to last, each on the pool that the one before left, and keeps
/// those that stay: none, and it goes; one, and that child stands in its
/// place; more, and it stays with them.
pub open spec fn reduce_spec(node: NodeView, pool: Seq<SceneView>) -> (
    Option<NodeView>,
    Seq<SceneView>,
)
    decreases node, 0nat,
{
    match node {
        NodeView::Window(criteria) => match first_index(pool, fits(criteria)) {
            Some(i) => (Some(node), pool.remove(i)),
            None => (None, pool),
        },
        NodeView::Container { layout, content } => {
            let (kept, rest) = reduce_children(content, pool, content.len());
            if kept.len() == 0 {
                (None, rest)
            } else if kept.len() == 1 {
                (Some(kept[0]), rest)
            } else {
                (Some(NodeView::Container { layout, content: kept }), rest)
            }
        },
    }
}

/// What reduction makes of the first `n` children of a container: those
/// that stay, in their order, and the pool that is left after them.
pub open spec fn reduce_children(content: Seq<NodeView>, pool: Seq<SceneView>, n: nat) -> (
    Seq<NodeView>,
    Seq<SceneView>,
)
    decreases content, n,
{
    if n == 0 || n > content.len() {
        (Seq::empty(), pool)
    } else {
        let (kept, rest) = reduce_children(content, pool, (n - 1) as nat);
        match reduce_spec(content[n - 1], rest) {
            (Some(child), after) => (kept.push(child), after),
            (None, after) => (kept, after),
        }
    }
}

/// No declared window of the tree has a match among the windows of the pool.
pub open spec fn unmatched(node: NodeView, pool: Seq<SceneView>) -> bool
    decreases node,
{
    match node {
        NodeView::Window(criteria) => forall|j: int|
            0 <= j < pool.len() ==> !window_matches(criteria, #[trigger] pool[j]),
        NodeView::Container { content, .. } => forall|i: int|
            0 <= i < content.len() ==> unmatched(#[trigger] content[i], pool),
    }
}

/// The number of declared windows in a tree.
pub open spec fn leaves(node: NodeView) -> nat
    decreases node, 0nat,
{
    match node {
        NodeView::Window(_) => 1,
        NodeView::Container { content, .. } => leaves_among(content, content.len()),
    }
}

/// The number of declared windows in the first `n` trees of a sequence.
pub open spec fn leaves_among(content: Seq<NodeView>, n: nat) -> nat
    decreases content, n,
{
    if n == 0 || n > content.len() {
        0
    } else {
        leaves_among(content, (n - 1) as nat) + leaves(content[n - 1])
    }
}

/// The number of declared windows in a tree that may be absent.
pub open spec fn leaves_left(node: Option<NodeView>) -> nat {
    match node {
        Some(n) => leaves(n),
        None => 0,
    }
}

/// No container of the tree has fewer than two children.
pub open spec fn is_reduced(node: NodeView) -> bool
    decreases node,
{
    match node {
        NodeView::Window(_) => true,
        NodeView::Container { content, .. } => content.len() >= 2 && forall|i: int|
            0 <= i < content.len() ==> is_reduced(#[trigger] content[i]),
    }
}

/// The count over a prefix does not look at what follows the prefix.
proof fn lemma_leaves_among_push(content: Seq<NodeView>, child: NodeView, n: nat)
    requires
        n <= content.len(),
    ensures
        leaves_among(content.push(child), n) == leaves_among(content, n),
    decreases n,
{
    if n > 0 {
        lemma_leaves_among_push(content, child, (n - 1) as nat);
    }
}

/// Reduction takes one window from the pool for each declared window that
/// it keeps, and keeps no declared window that the tree did not have.
pub proof fn lemma_reduce_consumes(node: NodeView, pool: Seq<SceneView>)
    ensures
        reduce_spec(node, pool).1.len() + leaves_left(reduce_spec(node, pool).0) == pool.len(),
        leaves_left(reduce_spec(node, pool).0) <= leaves(node),
    decreases node, 0nat,
{
    match node {
        NodeView::Window(_) => {},
        NodeView::Container { layout, content } => {
            lemma_reduce_children_consume(content, pool, content.len());
            let kept = reduce_children(content, pool, content.len()).0;
            if kept.len() == 1 {
                assert(leaves_among(kept, 1) == leaves_among(kept, 0) + leaves(kept[0]));
            }
        },
    }
}

/// The same of the first `n` children of a container.
pub proof fn lemma_reduce_children_consume(content: Seq<NodeView>, pool: Seq<SceneView>, n: nat)
    requires
        n <= content.len(),
    ensures
        ({
            let (kept, rest) = reduce_children(content, pool, n);
            &&& rest.len() + leaves_among(kept, kept.len()) == pool.len()
            &&& leaves_among(kept, kept.len()) <= leaves_among(content, n)
            &&& kept.len() <= n
        }),
    decreases content, n,
{
    if n > 0 {
        lemma_reduce_children_consume(content, pool, (n - 1) as nat);
        let (kept, rest) = reduce_children(content, pool, (n - 1) as nat);
        lemma_reduce_consumes(content[n - 1], rest);
        if let Some(child) = reduce_spec(content[n - 1], rest).0 {
            lemma_leaves_among_push(kept, child, kept.len());
        }
    }
}

/// Reduction leaves no container with fewer than two children.
pub proof fn lemma_reduce_shape(node: NodeView, pool: Seq<SceneView>)
    ensures
        reduce_spec(node, pool).0 matches Some(out) ==> is_reduced(out),
    decreases node, 0nat,
{
    match node {
        NodeView::Window(_) => {},
        NodeView::Container { layout, content } => {
            lemma_reduce_children_shape(content, pool, content.len());
            let kept = reduce_children(content, pool, content.len()).0;
            assert(forall|i: int| 0 <= i < kept.len() ==> is_reduced(#[trigger] kept[i]));
        },
    }
}

/// Each of the children that reduction keeps has no container with fewer
/// than two children.
pub proof fn lemma_reduce_children_shape(content: Seq<NodeView>, pool: Seq<SceneView>, n: nat)
    requires
        n <= content.len(),
    ensures
        forall|i: int|
            0 <= i < reduce_children(content, pool, n).0.len() ==> is_reduced(
                #[trigger] reduce_children(content, pool, n).0[i],
            ),
    decreases content, n,
{
    if n > 0 {
        lemma_reduce_children_shape(content, pool, (n - 1) as nat);
        let (kept, rest) = reduce_children(content, pool, (n - 1) as nat);
        lemma_reduce_shape(content[n - 1], rest);
    }
}

/// A tree none of whose declared windows has a match in the pool reduces
/// to nothing and leaves the pool as it was.
pub proof fn lemma_reduce_unmatched(node: NodeView, pool: Seq<SceneView>)
    requires
        unmatched(node, pool),
    ensures
        reduce_spec(node, pool) == (None::<NodeView>, pool),
    decreases node, 0nat,
{
    match node {
        NodeView::Window(criteria) => {
            lemma_first_index_none(pool, fits(criteria));
        },
        NodeView::Container { layout, content } => {
            lemma_reduce_children_unmatched(content, pool, content.len());
        },
    }
}

/// Children none of whose declared windows has a match in the pool all go.
pub proof fn lemma_reduce_children_unmatched(content: Seq<NodeView>, pool: Seq<SceneView>, n: nat)
    requires
        n <= content.len(),
        forall|i: int| 0 <= i < content.len() ==> unmatched(#[trigger] content[i], pool),
    ensures
        reduce_children(content, pool, n) == (Seq::<NodeView>::empty(), pool),
    decreases content, n,
{
    if n > 0 {
        lemma_reduce_children_unmatched(content, pool, (n - 1) as nat);
        lemma_reduce_unmatched(content[n - 1], pool);
    }
}

} // verus!
