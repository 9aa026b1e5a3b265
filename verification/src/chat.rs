//! Putting the chat workspace in order: what to move, and where to.

use vstd::prelude::*;
use crate::layout::{IdentView, WorkspaceIdent};
use crate::resolve::{
    answers_to, find_focused_node, find_workspace, focused_match, has_focus, preorder,
};
use crate::scene::{lemma_child_views, scene_views, SceneLayout, SceneNode, SceneView};
use crate::search::{first_match, lemma_filter_single};

verus! {

/// The number of the workspace that holds the chat windows.
pub const CHAT_WORKSPACE: i32 = 5;

/// One command to the compositor, by the identity of the node it is about.
#[derive(Clone, Copy, Debug, PartialEq, Eq, Structural)]
pub enum Step {
    /// Move the window to the scratchpad.
    Stash(i64),
    /// Move the window to the chat workspace, tiled, and split it
    /// vertically.
    PlaceAndSplit(i64),
    /// Move the window to the chat workspace, tiled.
    Place(i64),
    /// Move the window to the chat workspace, tiled, move it to the left
    /// and split it vertically.
    PlaceLeftAndSplit(i64),
    /// Give the node the focus.
    Focus(i64),
}

/// Why the chat workspace cannot be put in order.
#[derive(Clone, Copy, Debug, PartialEq, Eq, Structural)]
pub enum CleanUpError {
    /// The scene graph holds no chat workspace.
    NoChatWorkspace,
    /// The chat workspace has no child.
    EmptyChatWorkspace,
    /// The chat workspace holds three windows or fewer.
    TooFewWindows,
}

/// Whether a workspace is laid out for chat: two columns side by side, each
/// split vertically, one of them at least with two children.
pub open spec fn chat_layout(workspace: SceneView) -> bool {
    &&& workspace.nodes.len() == 2
    &&& workspace.layout == SceneLayout::SplitH
    &&& forall|i: int|
        0 <= i < workspace.nodes.len() ==> (#[trigger] workspace.nodes[i]).layout
            == SceneLayout::SplitV
    &&& exists|i: int|
        0 <= i < workspace.nodes.len() && (#[trigger] workspace.nodes[i]).nodes.len() == 2
}

/// Every node of a subtree that is reached through regular children, each
/// after the nodes below it.
pub open spec fn postorder(node: SceneView) -> Seq<SceneView>
    decreases node, 0nat,
{
    postorder_among(node.nodes, node.nodes.len()) + seq![node]
}

/// The nodes of the first `n` subtrees of a sequence, each after the nodes
/// below it.
pub open spec fn postorder_among(nodes: Seq<SceneView>, n: nat) -> Seq<SceneView>
    decreases nodes, n,
{
    if n == 0 || n > nodes.len() {
        Seq::empty()
    } else {
        postorder_among(nodes, (n - 1) as nat) + postorder(nodes[n - 1])
    }
}

/// The nodes that belong to a process.
pub open spec fn with_process() -> spec_fn(SceneView) -> bool {
    |node: SceneView| node.pid is Some
}

/// The nodes of a subtree that belong to a process, each after those below
/// it.
pub open spec fn processes_of(node: SceneView) -> Seq<SceneView> {
    postorder(node).filter(with_process())
}

/// The steps that put the given windows in order and then give the focus
/// back. Every window goes to the scratchpad first. The first three come
/// back and make up the two columns; the others follow, the last first.
pub open spec fn steps_for(windows: Seq<SceneView>, focused: Option<SceneView>) -> Seq<Step> {
    Seq::new(windows.len(), |i: int| Step::Stash(windows[i].id)) + seq![
        Step::PlaceAndSplit(windows[0].id),
        Step::Place(windows[1].id),
        Step::PlaceLeftAndSplit(windows[2].id),
    ] + Seq::new(
        (windows.len() - 3) as nat,
        |i: int| Step::Place(windows[windows.len() - 1 - i].id),
    ) + match focused {
        Some(node) => seq![Step::Focus(node.id)],
        None => Seq::empty(),
    }
}

/// The steps that put the chat workspace of a scene graph in order: none
/// where it is in order already, and an error where there is no chat
/// workspace, where it is empty, or where it holds too few windows.
pub open spec fn clean_up_spec(root: SceneView) -> Result<Seq<Step>, CleanUpError> {
    match first_match(preorder(root), answers_to(Some(IdentView::Number(CHAT_WORKSPACE)))) {
        None => Err(CleanUpError::NoChatWorkspace),
        Some(workspace) => if workspace.nodes.len() == 0 {
            Err(CleanUpError::EmptyChatWorkspace)
        } else if chat_layout(workspace) {
            Ok(Seq::empty())
        } else if processes_of(workspace).len() <= 3 {
            Err(CleanUpError::TooFewWindows)
        } else {
            Ok(steps_for(processes_of(workspace), focused_match(root, has_focus())))
        },
    }
}

/// The mathematical value of a plan, or of the error in its place.
pub open spec fn plan_view(r: Result<Vec<Step>, CleanUpError>) -> Result<Seq<Step>, CleanUpError> {
    match r {
        Ok(steps) => Ok(steps@),
        Err(e) => Err(e),
    }
}

/// Whether the workspace is laid out for chat.
pub fn chat_layout_correct(workspace: &SceneNode) -> (r: bool)
    ensures
        r == chat_layout(workspace@),
{
    proof {
        lemma_child_views(workspace.nodes@);
    }
    if workspace.nodes.len() != 2 || workspace.layout != SceneLayout::SplitH {
        return false;
    }
    let left = &workspace.nodes[0];
    let right = &workspace.nodes[1];
    proof {
        lemma_child_views(left.nodes@);
        lemma_child_views(right.nodes@);
        assert(workspace@.nodes[0] == left@);
        assert(workspace@.nodes[1] == right@);
    }
    left.layout == SceneLayout::SplitV && right.layout == SceneLayout::SplitV && (left.nodes.len()
        == 2 || right.nodes.len() == 2)
}

/// All nodes of a subtree that belong to a process, those below a node
/// before the node itself. Floating children are not looked at.
#[verifier::loop_isolation(false)]
pub fn find_all<'a>(node: &'a SceneNode) -> (r: Vec<&'a SceneNode>)
    ensures
        scene_views(r@) == processes_of(node@),
    decreases node,
{
    let ghost p = with_process();
    proof {
        lemma_child_views(node.nodes@);
    }
    let mut found: Vec<&'a SceneNode> = Vec::new();
    let mut i: usize = 0;
    assert(scene_views(found@) =~= postorder_among(node@.nodes, 0).filter(p)) by {
        reveal_with_fuel(Seq::filter, 1);
    }
    while i < node.nodes.len()
        invariant
            i <= node.nodes.len(),
            scene_views(found@) == postorder_among(node@.nodes, i as nat).filter(p),
        decreases node.nodes.len() - i,
    {
        let mut below = find_all(&node.nodes[i]);
        found.append(&mut below);
        proof {
            Seq::filter_distributes_over_add(
                postorder_among(node@.nodes, i as nat),
                postorder(node@.nodes[i as int]),
                p,
            );
        }
        i += 1;
    }
    proof {
        Seq::filter_distributes_over_add(
            postorder_among(node@.nodes, node@.nodes.len()),
            seq![node@],
            p,
        );
        lemma_filter_single(node@, p);
    }
    if node.pid.is_some() {
        found.push(node);
    }
    found
}

/// Plans the commands that put the chat workspace in order and give the
/// focus back to the node that had it.
#[verifier::loop_isolation(false)]
pub fn clean_up_5(root: &SceneNode) -> (r: Result<Vec<Step>, CleanUpError>)
    ensures
        plan_view(r) == clean_up_spec(root@),
{
    let focused = find_focused_node(root);
    let chat = WorkspaceIdent::Number(CHAT_WORKSPACE);
    let chat_workspace = match find_workspace(root, Some(&chat)) {
        Some(workspace) => workspace,
        None => {
            return Err(CleanUpError::NoChatWorkspace);
        },
    };
    proof {
        lemma_child_views(chat_workspace.nodes@);
    }
    if chat_workspace.nodes.is_empty() {
        return Err(CleanUpError::EmptyChatWorkspace);
    }
    if chat_layout_correct(chat_workspace) {
        return Ok(Vec::new());
    }
    let windows = find_all(chat_workspace);
    if windows.len() <= 3 {
        return Err(CleanUpError::TooFewWindows);
    }
    let ghost all = processes_of(chat_workspace@);
    let ghost stash = Seq::new(all.len(), |i: int| Step::Stash(all[i].id));
    let ghost columns = seq![
        Step::PlaceAndSplit(all[0].id),
        Step::Place(all[1].id),
        Step::PlaceLeftAndSplit(all[2].id),
    ];
    let ghost others = Seq::new(
        (all.len() - 3) as nat,
        |i: int| Step::Place(all[all.len() - 1 - i].id),
    );
    let mut steps: Vec<Step> = Vec::new();
    let mut i: usize = 0;
    while i < windows.len()
        invariant
            i <= windows.len(),
            steps@ == stash.take(i as int),
        decreases windows.len() - i,
    {
        steps.push(Step::Stash(windows[i].id));
        i += 1;
    }
    steps.push(Step::PlaceAndSplit(windows[0].id));
    steps.push(Step::Place(windows[1].id));
    steps.push(Step::PlaceLeftAndSplit(windows[2].id));
    let mut k: usize = windows.len();
    while k > 3
        invariant
            3 <= k <= windows.len(),
            steps@ == stash + columns + others.take(windows.len() - k),
        decreases k,
    {
        k -= 1;
        steps.push(Step::Place(windows[k].id));
    }
    match focused {
        Some(node) => {
            steps.push(Step::Focus(node.id));
            assert(steps@ =~= stash + columns + others + seq![Step::Focus(node@.id)]);
        },
        None => {
            assert(steps@ =~= stash + columns + others + Seq::<Step>::empty());
        },
    }
    Ok(steps)
}

} // verus!
