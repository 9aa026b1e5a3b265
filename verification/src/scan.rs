//! The order in which a scene graph is scanned, and the windows found on
//! the way.

use vstd::prelude::*;
use crate::scene::SceneView;
use crate::search::lemma_filter_single;
use crate::util::is_window;

verus! {

/// Every node of a subtree in the order of the scan: the node itself, then
/// the subtrees of its children, from its last floating child back to its
/// first regular child.
pub open spec fn sweep(node: SceneView) -> Seq<SceneView>
    decreases node, 0nat,
{
    seq![node] + sweep_back(node.floating_nodes, node.floating_nodes.len()) + sweep_back(
        node.nodes,
        node.nodes.len(),
    )
}

/// The nodes of the first `n` subtrees of a sequence in the order of the
/// scan, which takes the subtrees from the last to the first.
pub open spec fn sweep_back(nodes: Seq<SceneView>, n: nat) -> Seq<SceneView>
    decreases nodes, n,
{
    if n == 0 || n > nodes.len() {
        Seq::empty()
    } else {
        sweep(nodes[n - 1]) + sweep_back(nodes, (n - 1) as nat)
    }
}

/// The nodes that count as windows.
pub open spec fn only_windows() -> spec_fn(SceneView) -> bool {
    |node: SceneView| is_window(node)
}

/// The windows of a subtree, the root among them if it is one, in the order
/// of the scan.
pub open spec fn windows_of(node: SceneView) -> Seq<SceneView> {
    sweep(node).filter(only_windows())
}

/// The windows that a scan will still find when the subtrees in `pending`
/// are left to it, the last of them being next.
pub open spec fn windows_pending(pending: Seq<SceneView>) -> Seq<SceneView> {
    sweep_back(pending, pending.len()).filter(only_windows())
}

/// The scan of a prefix does not look at what follows the prefix.
proof fn lemma_sweep_back_prefix(a: Seq<SceneView>, b: Seq<SceneView>, n: nat)
    requires
        n <= a.len(),
    ensures
        sweep_back(a + b, n) == sweep_back(a, n),
    decreases n,
{
    if n > 0 {
        lemma_sweep_back_prefix(a, b, (n - 1) as nat);
    }
}

/// The scan of two sequences of subtrees, one after the other, takes the
/// second before the first.
proof fn lemma_sweep_back_concat(a: Seq<SceneView>, b: Seq<SceneView>, n: nat)
    requires
        n <= b.len(),
    ensures
        sweep_back(a + b, a.len() + n) == sweep_back(b, n) + sweep_back(a, a.len()),
    decreases n,
{
    if n == 0 {
        lemma_sweep_back_prefix(a, b, a.len());
    } else {
        lemma_sweep_back_concat(a, b, (n - 1) as nat);
    }
}

/// One step of the scan: with `top` next and `rest` below it, the scan
/// visits `top` and goes on with the children of `top` above `rest`.
pub proof fn lemma_sweep_step(rest: Seq<SceneView>, top: SceneView)
    ensures
        sweep_back(rest.push(top), rest.len() + 1) == seq![top] + sweep_back(
            rest + top.nodes + top.floating_nodes,
            rest.len() + top.nodes.len() + top.floating_nodes.len(),
        ),
        windows_pending(rest.push(top)) == (if is_window(top) {
            seq![top]
        } else {
            Seq::empty()
        }) + windows_pending(rest + top.nodes + top.floating_nodes),
{
    let next = rest + top.nodes + top.floating_nodes;
    let below = sweep_back(rest, rest.len());
    let regular = sweep_back(top.nodes, top.nodes.len());
    let floating = sweep_back(top.floating_nodes, top.floating_nodes.len());
    assert(rest.push(top) =~= rest + seq![top]);
    lemma_sweep_back_prefix(rest, seq![top], rest.len());
    lemma_sweep_back_concat(rest, top.nodes, top.nodes.len());
    lemma_sweep_back_concat(rest + top.nodes, top.floating_nodes, top.floating_nodes.len());
    assert(sweep(top) + below =~= seq![top] + (floating + (regular + below)));
    Seq::filter_distributes_over_add(seq![top], sweep_back(next, next.len()), only_windows());
    lemma_filter_single(top, only_windows());
}

/// With a single subtree left to it, the scan finds the windows of that
/// subtree.
pub proof fn lemma_windows_pending_single(node: SceneView)
    ensures
        windows_pending(seq![node]) == windows_of(node),
{
    assert(sweep_back(seq![node], 1) =~= sweep(node)) by {
        assert(sweep_back(seq![node], 0) =~= Seq::<SceneView>::empty());
    }
}

/// With nothing left to it, the scan finds nothing.
pub proof fn lemma_windows_pending_empty()
    ensures
        windows_pending(Seq::<SceneView>::empty()).len() == 0,
{
    reveal_with_fuel(Seq::filter, 1);
}

} // verus!
