//! Finding the workspace that a layout is held against.

use vstd::prelude::*;
use crate::layout::{IdentView, WorkspaceIdent};
use crate::scene::{lemma_child_views, NodeKind, SceneNode, SceneView};
use crate::search::{
    first_match, lemma_first_index_concat, lemma_first_index_found, lemma_first_index_none,
};

verus! {

/// Why the scene graph could not be held against a layout.
#[derive(Clone, Copy, Debug, PartialEq, Eq, Structural)]
pub enum LayoutError {
    /// No workspace was named, none has the focus, and the scene graph
    /// holds none at all.
    NoWorkspace,
}

/// Every node of a subtree in document order: the node itself, then the
/// subtrees of its regular children from first to last, then those of its
/// floating children.
pub open spec fn preorder(node: SceneView) -> Seq<SceneView>
    decreases node, 0nat,
{
    seq![node] + preorder_among(node.nodes, node.nodes.len()) + preorder_among(
        node.floating_nodes,
        node.floating_nodes.len(),
    )
}

/// The nodes of the first `n` subtrees of a sequence in document order.
pub open spec fn preorder_among(nodes: Seq<SceneView>, n: nat) -> Seq<SceneView>
    decreases nodes, n,
{
    if n == 0 || n > nodes.len() {
        Seq::empty()
    } else {
        preorder_among(nodes, (n - 1) as nat) + preorder(nodes[n - 1])
    }
}

/// The workspaces that answer to an identifier: the one of that name or
/// number, or any workspace where no identifier is given.
pub open spec fn answers_to(ident: Option<IdentView>) -> spec_fn(SceneView) -> bool {
    |node: SceneView|
        node.node_type == NodeKind::Workspace && match ident {
            Some(IdentView::Name(name)) => node.name == Some(name),
            Some(IdentView::Number(num)) => node.num == Some(num),
            None => true,
        }
}

/// The nodes that have the focus.
pub open spec fn has_focus() -> spec_fn(SceneView) -> bool {
    |node: SceneView| node.focused
}

/// The nodes with a given identity.
pub open spec fn has_id(id: i64) -> spec_fn(SceneView) -> bool {
    |node: SceneView| node.id == id
}

/// The children of a node, the regular ones before the floating ones.
pub open spec fn children(node: SceneView) -> Seq<SceneView> {
    node.nodes + node.floating_nodes
}

/// The child that a node's focus order puts first: the first child whose
/// identity heads that order.
pub open spec fn focus_child(node: SceneView) -> Option<SceneView> {
    if node.focus.len() == 0 {
        None
    } else {
        first_match(children(node), has_id(node.focus[0]))
    }
}

/// The first node that satisfies `p` on the way from a node down its
/// chain of focused children.
pub open spec fn focused_match(node: SceneView, p: spec_fn(SceneView) -> bool) -> Option<
    SceneView,
>
    decreases node,
{
    if p(node) {
        Some(node)
    } else {
        match focus_child(node) {
            Some(child) => focused_match(child, p),
            None => None,
        }
    }
}

/// The workspace that a layout is held against.
///
/// With an identifier it is the first workspace of that name or number in
/// document order, and nothing where there is none. Without one it is the
/// first workspace on the chain of focused children, else the first
/// workspace in document order, and an error where the scene graph holds
/// no workspace.
pub open spec fn resolve_spec(tree: SceneView, ident: Option<IdentView>) -> Result<
    Option<SceneView>,
    LayoutError,
> {
    match ident {
        Some(_) => Ok(first_match(preorder(tree), answers_to(ident))),
        None => match focused_match(tree, answers_to(None)) {
            Some(workspace) => Ok(Some(workspace)),
            None => match first_match(preorder(tree), answers_to(None)) {
                Some(workspace) => Ok(Some(workspace)),
                None => Err(LayoutError::NoWorkspace),
            },
        },
    }
}

/// The mathematical value of an identifier that may be absent.
pub open spec fn ident_view(ident: Option<&WorkspaceIdent>) -> Option<IdentView> {
    match ident {
        Some(i) => Some(i@),
        None => None,
    }
}

/// The mathematical value of a node that may be absent.
pub open spec fn found_view(node: Option<&SceneNode>) -> Option<SceneView> {
    match node {
        Some(n) => Some(n@),
        None => None,
    }
}

/// The mathematical value of what a lookup of the workspace gave.
pub open spec fn resolved_view(r: Result<Option<&SceneNode>, LayoutError>) -> Result<
    Option<SceneView>,
    LayoutError,
> {
    match r {
        Ok(found) => Ok(found_view(found)),
        Err(e) => Err(e),
    }
}

/// Whether a node is a workspace that answers to the identifier.
pub fn is_sought(node: &SceneNode, ident: Option<&WorkspaceIdent>) -> (r: bool)
    ensures
        r == answers_to(ident_view(ident))(node@),
{
    node.node_type == NodeKind::Workspace && match ident {
        Some(WorkspaceIdent::Name(name)) => match &node.name {
            Some(have) => *have == *name,
            None => false,
        },
        Some(WorkspaceIdent::Number(num)) => match node.num {
            Some(have) => have == *num,
            None => false,
        },
        None => true,
    }
}

/// A match among the first subtrees of a sequence is the match among all
/// of them.
proof fn lemma_preorder_among_found(
    nodes: Seq<SceneView>,
    k: nat,
    n: nat,
    p: spec_fn(SceneView) -> bool,
)
    requires
        k <= n <= nodes.len(),
        first_match(preorder_among(nodes, k), p) is Some,
    ensures
        first_match(preorder_among(nodes, n), p) == first_match(preorder_among(nodes, k), p),
    decreases n - k,
{
    if k < n {
        lemma_preorder_among_found(nodes, k, (n - 1) as nat, p);
        lemma_first_index_concat(preorder_among(nodes, (n - 1) as nat), preorder(nodes[n - 1]), p);
    }
}

/// The first workspace of a subtree, in document order, that answers to the
/// identifier; any workspace answers where none is given.
#[verifier::loop_isolation(false)]
pub fn find_workspace<'a>(tree: &'a SceneNode, ident: Option<&WorkspaceIdent>) -> (r: Option<
    &'a SceneNode,
>)
    ensures
        found_view(r) == first_match(preorder(tree@), answers_to(ident_view(ident))),
    decreases tree,
{
    let ghost p = answers_to(ident_view(ident));
    let ghost regular = preorder_among(tree@.nodes, tree@.nodes.len());
    let ghost floating = preorder_among(tree@.floating_nodes, tree@.floating_nodes.len());
    proof {
        lemma_child_views(tree.nodes@);
        lemma_child_views(tree.floating_nodes@);
        lemma_first_index_concat(seq![tree@], regular, p);
        lemma_first_index_concat(seq![tree@] + regular, floating, p);
        lemma_first_index_none(seq![tree@], p);
    }
    if is_sought(tree, ident) {
        proof {
            lemma_first_index_found(seq![tree@], p, 0);
        }
        return Some(tree);
    }
    let mut i: usize = 0;
    while i < tree.nodes.len()
        invariant
            i <= tree.nodes.len(),
            first_match(preorder_among(tree@.nodes, i as nat), p) is None,
        decreases tree.nodes.len() - i,
    {
        let found = find_workspace(&tree.nodes[i], ident);
        proof {
            lemma_first_index_concat(
                preorder_among(tree@.nodes, i as nat),
                preorder(tree@.nodes[i as int]),
                p,
            );
        }
        if found.is_some() {
            proof {
                lemma_preorder_among_found(tree@.nodes, (i + 1) as nat, tree@.nodes.len(), p);
            }
            return found;
        }
        i += 1;
    }
    let mut j: usize = 0;
    while j < tree.floating_nodes.len()
        invariant
            j <= tree.floating_nodes.len(),
            first_match(preorder_among(tree@.floating_nodes, j as nat), p) is None,
        decreases tree.floating_nodes.len() - j,
    {
        let found = find_workspace(&tree.floating_nodes[j], ident);
        proof {
            lemma_first_index_concat(
                preorder_among(tree@.floating_nodes, j as nat),
                preorder(tree@.floating_nodes[j as int]),
                p,
            );
        }
        if found.is_some() {
            proof {
                lemma_preorder_among_found(
                    tree@.floating_nodes,
                    (j + 1) as nat,
                    tree@.floating_nodes.len(),
                    p,
                );
            }
            return found;
        }
        j += 1;
    }
    None
}

/// The child that a node's focus order puts first, if it has one.
#[verifier::loop_isolation(false)]
pub fn focus_child_of<'a>(node: &'a SceneNode) -> (r: Option<&'a SceneNode>)
    ensures
        found_view(r) == focus_child(node@),
        r matches Some(child) ==> decreases_to!(node => child),
{
    proof {
        lemma_child_views(node.nodes@);
        lemma_child_views(node.floating_nodes@);
    }
    if node.focus.len() == 0 {
        return None;
    }
    let first = node.focus[0];
    let ghost q = has_id(first);
    proof {
        lemma_first_index_concat(node@.nodes, node@.floating_nodes, q);
        lemma_first_index_none(node@.nodes, q);
        lemma_first_index_none(node@.floating_nodes, q);
    }
    let mut i: usize = 0;
    while i < node.nodes.len()
        invariant
            i <= node.nodes.len(),
            forall|k: int| 0 <= k < i ==> !q(#[trigger] node@.nodes[k]),
        decreases node.nodes.len() - i,
    {
        if node.nodes[i].id == first {
            proof {
                lemma_first_index_found(node@.nodes, q, i as int);
            }
            return Some(&node.nodes[i]);
        }
        i += 1;
    }
    let mut j: usize = 0;
    while j < node.floating_nodes.len()
        invariant
            j <= node.floating_nodes.len(),
            forall|k: int| 0 <= k < j ==> !q(#[trigger] node@.floating_nodes[k]),
        decreases node.floating_nodes.len() - j,
    {
        if node.floating_nodes[j].id == first {
            proof {
                lemma_first_index_found(node@.floating_nodes, q, j as int);
            }
            return Some(&node.floating_nodes[j]);
        }
        j += 1;
    }
    None
}

/// The first workspace on the way from a node down its chain of focused
/// children.
pub fn find_focused_workspace<'a>(tree: &'a SceneNode) -> (r: Option<&'a SceneNode>)
    ensures
        found_view(r) == focused_match(tree@, answers_to(None)),
    decreases tree,
{
    if is_sought(tree, None) {
        return Some(tree);
    }
    match focus_child_of(tree) {
        Some(child) => find_focused_workspace(child),
        None => None,
    }
}

/// The first node that has the focus on the way from a node down its chain
/// of focused children.
pub fn find_focused_node<'a>(tree: &'a SceneNode) -> (r: Option<&'a SceneNode>)
    ensures
        found_view(r) == focused_match(tree@, has_focus()),
    decreases tree,
{
    if tree.focused {
        return Some(tree);
    }
    match focus_child_of(tree) {
        Some(child) => find_focused_node(child),
        None => None,
    }
}

/// Finds the workspace that a layout is held against: the one that the identifier
/// names, or without an identifier the focused workspace, or else the first
/// workspace there is.
pub fn resolve_workspace<'a>(tree: &'a SceneNode, ident: Option<&WorkspaceIdent>) -> (r: Result<
    Option<&'a SceneNode>,
    LayoutError,
>)
    ensures
        resolved_view(r) == resolve_spec(tree@, ident_view(ident)),
{
    if ident.is_some() {
        return Ok(find_workspace(tree, ident));
    }
    let focused = find_focused_workspace(tree);
    if focused.is_some() {
        return Ok(focused);
    }
    let any = find_workspace(tree, None);
    if any.is_some() {
        Ok(any)
    } else {
        Err(LayoutError::NoWorkspace)
    }
}

} // verus!
