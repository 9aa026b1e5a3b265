//! The declared layout and the check of a scene graph against it.

use vstd::prelude::*;
use vstd::std_specs::cmp::PartialEqSpecImpl;
use vstd::std_specs::convert::FromSpecImpl;
use crate::matcher::structurally_matches;
use crate::reduce::{
    fits, is_reduced, leaves, leaves_left, lemma_reduce_consumes, lemma_reduce_shape,
    lemma_reduce_unmatched, reduce_children, reduce_spec, unmatched,
};
use crate::resolve::{ident_view, resolve_spec, resolve_workspace, LayoutError};
use crate::scan::windows_of;
use crate::scene::{lemma_child_views, scene_views, text_of, SceneLayout, SceneNode, SceneView};
use crate::search::{lemma_first_index_found, lemma_first_index_none};
use crate::util::{Criteria, NodeExt};

verus! {

/// The arrangements that a declared container can ask for.
#[derive(Clone, Copy, Debug)]
pub enum ContainerLayout {
    SplitH,
    SplitV,
    Stacked,
    Tabbed,
}

impl PartialEq<SceneLayout> for ContainerLayout {
    /// Whether a live node arranges its children as the container asks.
    fn eq(&self, other: &SceneLayout) -> (r: bool) {
        match (self, other) {
            (ContainerLayout::SplitH, SceneLayout::SplitH) => true,
            (ContainerLayout::SplitV, SceneLayout::SplitV) => true,
            (ContainerLayout::Stacked, SceneLayout::Stacked) => true,
            (ContainerLayout::Tabbed, SceneLayout::Tabbed) => true,
            _ => false,
        }
    }
}

impl PartialEqSpecImpl<SceneLayout> for ContainerLayout {
    open spec fn obeys_eq_spec() -> bool {
        true
    }

    open spec fn eq_spec(&self, other: &SceneLayout) -> bool {
        match (*self, *other) {
            (ContainerLayout::SplitH, SceneLayout::SplitH) => true,
            (ContainerLayout::SplitV, SceneLayout::SplitV) => true,
            (ContainerLayout::Stacked, SceneLayout::Stacked) => true,
            (ContainerLayout::Tabbed, SceneLayout::Tabbed) => true,
            _ => false,
        }
    }
}

/// Names a workspace by its name or by its number.
#[derive(Debug)]
pub enum WorkspaceIdent {
    Name(String),
    Number(i32),
}

/// The mathematical value of a [`WorkspaceIdent`].
pub enum IdentView {
    Name(Seq<char>),
    Number(i32),
}

impl View for WorkspaceIdent {
    type V = IdentView;

    open spec fn view(&self) -> IdentView {
        match self {
            WorkspaceIdent::Name(name) => IdentView::Name(name@),
            WorkspaceIdent::Number(num) => IdentView::Number(*num),
        }
    }
}

impl Clone for WorkspaceIdent {
    fn clone(&self) -> (r: Self)
        ensures
            r@ == self@,
    {
        match self {
            WorkspaceIdent::Name(name) => WorkspaceIdent::Name(name.clone()),
            WorkspaceIdent::Number(num) => WorkspaceIdent::Number(*num),
        }
    }
}

impl From<String> for WorkspaceIdent {
    /// The workspace of that name.
    fn from(name: String) -> (r: Self) {
        WorkspaceIdent::Name(name)
    }
}

impl FromSpecImpl<String> for WorkspaceIdent {
    open spec fn obeys_from_spec() -> bool {
        true
    }

    open spec fn from_spec(name: String) -> Self {
        WorkspaceIdent::Name(name)
    }
}

impl From<i32> for WorkspaceIdent {
    /// The workspace of that number.
    fn from(num: i32) -> (r: Self) {
        WorkspaceIdent::Number(num)
    }
}

impl FromSpecImpl<i32> for WorkspaceIdent {
    open spec fn obeys_from_spec() -> bool {
        true
    }

    open spec fn from_spec(num: i32) -> Self {
        WorkspaceIdent::Number(num)
    }
}

/// A declared tree: a window to look for, or a container of declared trees.
#[derive(Debug)]
pub enum Node {
    Window { name: Option<String>, app_id: Option<String>, class: Option<String> },
    Container { layout: ContainerLayout, content: Vec<Node> },
}

/// The mathematical value of a [`Node`].
pub enum NodeView {
    Window(Criteria),
    Container { layout: ContainerLayout, content: Seq<NodeView> },
}

impl View for Node {
    type V = NodeView;

    open spec fn view(&self) -> NodeView
        decreases self,
    {
        match self {
            Node::Window { name, app_id, class } => NodeView::Window(
                Criteria { name: text_of(*name), app_id: text_of(*app_id), class: text_of(*class) },
            ),
            Node::Container { layout, content } => NodeView::Container {
                layout: *layout,
                content: node_views(content@),
            },
        }
    }
}

/// The mathematical value of a declared tree that may be absent.
pub open spec fn kept_view(node: Option<Node>) -> Option<NodeView> {
    match node {
        Some(n) => Some(n@),
        None => None,
    }
}

/// The mathematical values of a sequence of declared trees.
pub open spec fn node_views(nodes: Seq<Node>) -> Seq<NodeView>
    decreases nodes,
{
    Seq::new(
        nodes.len(),
        |i: int|
            if 0 <= i < nodes.len() {
                nodes[i]@
            } else {
                arbitrary()
            },
    )
}

/// The view of a sequence of declared trees holds the view of each, in
/// the same place.
pub proof fn lemma_node_views(nodes: Seq<Node>)
    ensures
        node_views(nodes).len() == nodes.len(),
        forall|i: int| 0 <= i < nodes.len() ==> #[trigger] node_views(nodes)[i] == nodes[i]@,
{
    reveal_with_fuel(node_views, 2);
}

impl Clone for Node {
    #[verifier::loop_isolation(false)]
    fn clone(&self) -> (r: Self)
        ensures
            r@ == self@,
        decreases self,
    {
        match self {
            Node::Window { name, app_id, class } => Node::Window {
                name: name.clone(),
                app_id: app_id.clone(),
                class: class.clone(),
            },
            Node::Container { layout, content } => {
                let mut copy: Vec<Node> = Vec::new();
                let mut i: usize = 0;
                while i < content.len()
                    invariant
                        i <= content.len(),
                        copy.len() == i,
                        forall|k: int| 0 <= k < i ==> copy[k]@ == content[k]@,
                    decreases content.len() - i,
                {
                    copy.push(content[i].clone());
                    i += 1;
                }
                let r = Node::Container { layout: *layout, content: copy };
                assert(r@->content =~= self@->content);
                r
            },
        }
    }
}

impl Node {
    /// Prunes the tree to what the pool of live windows can satisfy, and
    /// takes from the pool the first window that answers to each declared
    /// window that stays.
    #[verifier::loop_isolation(false)]
    pub fn reduce<'a>(self, windows: &mut Vec<&'a SceneNode>) -> (r: Option<Node>)
        ensures
            (kept_view(r), scene_views(final(windows)@)) == reduce_spec(
                self@,
                scene_views(old(windows)@),
            ),
            final(windows)@.len() + leaves_left(kept_view(r)) == old(windows)@.len(),
            leaves_left(kept_view(r)) <= leaves(self@),
            r matches Some(n) ==> is_reduced(n@),
        decreases self,
    {
        let ghost before = scene_views(windows@);
        proof {
            lemma_reduce_consumes(self@, before);
            lemma_reduce_shape(self@, before);
        }
        match self {
            Node::Window { name, app_id, class } => {
                let ghost criteria = Criteria {
                    name: text_of(name),
                    app_id: text_of(app_id),
                    class: text_of(class),
                };
                let mut idx: usize = 0;
                while idx < windows.len()
                    invariant
                        idx <= windows.len(),
                        before == scene_views(windows@),
                        forall|j: int| 0 <= j < idx ==> !fits(criteria)(#[trigger] before[j]),
                    decreases windows.len() - idx,
                {
                    if windows[idx].matches(&name, &app_id, &class) {
                        proof {
                            lemma_first_index_found(before, fits(criteria), idx as int);
                        }
                        windows.remove(idx);
                        return Some(Node::Window { name, app_id, class });
                    }
                    idx += 1;
                }
                proof {
                    lemma_first_index_none(before, fits(criteria));
                }
                None
            },
            Node::Container { layout, content } => {
                let ghost items = content;
                let ghost declared = node_views(items@);
                assert(self@ == (NodeView::Container { layout, content: declared }));
                let mut kept: Vec<Node> = Vec::new();
                for child in it: content.into_iter()
                    invariant
                        it.seq() == items@,
                        (node_views(kept@), scene_views(windows@)) == reduce_children(
                            declared,
                            before,
                            it.index() as nat,
                        ),
                {
                    if let Some(node) = child.reduce(windows) {
                        kept.push(node);
                    }
                }
                if kept.len() == 0 {
                    None
                } else if kept.len() == 1 {
                    kept.pop()
                } else {
                    let r = Node::Container { layout, content: kept };
                    Some(r)
                }
            },
        }
    }

    /// Whether the live subtree has the shape that this tree asks for.
    #[verifier::loop_isolation(false)]
    pub fn matches(&self, node: &SceneNode) -> (r: bool)
        ensures
            r == structurally_matches(self@, node@),
        decreases node,
    {
        proof {
            lemma_child_views(node.nodes@);
            lemma_child_views(node.floating_nodes@);
        }
        if node.nodes.len() == 1 && node.floating_nodes.len() == 0 {
            self.matches(&node.nodes[0])
        } else if node.nodes.len() == 0 && node.floating_nodes.len() == 1 {
            self.matches(&node.floating_nodes[0])
        } else {
            match self {
                Node::Window { name, app_id, class } => node.matches(name, app_id, class),
                Node::Container { layout, content } => {
                    proof {
                        lemma_node_views(content@);
                    }
                    if node.is_window() || !(*layout == node.layout) || content.len()
                        != node.nodes.len() {
                        return false;
                    }
                    let mut i: usize = 0;
                    while i < content.len()
                        invariant
                            i <= content.len(),
                            forall|k: int|
                                0 <= k < i ==> structurally_matches(
                                    #[trigger] self@->content[k],
                                    node@.nodes[k],
                                ),
                        decreases content.len() - i,
                    {
                        if !content[i].matches(&node.nodes[i]) {
                            assert(!structurally_matches(
                                self@->content[i as int],
                                node@.nodes[i as int],
                            ));
                            return false;
                        }
                        i += 1;
                    }
                    true
                },
            }
        }
    }
}

/// The layouts that a configuration declares.
#[derive(Debug)]
pub struct LayoutFile {
    pub layouts: Vec<Layout>,
}

impl Default for LayoutFile {
    fn default() -> (r: Self)
        ensures
            r.layouts@ == Seq::<Layout>::empty(),
    {
        LayoutFile { layouts: Vec::new() }
    }
}

/// A declared layout: the tree that is asked for, and the output and the
/// workspace that it is meant for.
#[derive(Debug)]
pub struct Layout {
    pub output: Option<String>,
    pub workspace: Option<WorkspaceIdent>,
    pub content: Node,
}

/// The mathematical value of a [`Layout`].
pub struct LayoutView {
    pub output: Option<Seq<char>>,
    pub workspace: Option<IdentView>,
    pub content: NodeView,
}

impl View for Layout {
    type V = LayoutView;

    open spec fn view(&self) -> LayoutView {
        LayoutView {
            output: text_of(self.output),
            workspace: match self.workspace {
                Some(ident) => Some(ident@),
                None => None,
            },
            content: self.content@,
        }
    }
}

/// Whether a scene graph satisfies a declared layout.
///
/// The declared tree is reduced against the windows of the whole scene
/// graph. Where nothing of it is left, the layout is satisfied. Else the
/// workspace is looked up, by the caller's identifier if there is one and
/// by the layout's own otherwise: the layout is satisfied if the workspace
/// has the shape of what is left of the tree, or, where no workspace
/// answers to the identifier, if the reduction has taken every window.
pub open spec fn verdict(layout: LayoutView, tree: SceneView, chosen: Option<IdentView>) -> Result<
    bool,
    LayoutError,
> {
    let (expected, rest) = reduce_spec(layout.content, windows_of(tree));
    let ident = if chosen is Some {
        chosen
    } else {
        layout.workspace
    };
    match expected {
        None => Ok(true),
        Some(expected) => match resolve_spec(tree, ident) {
            Ok(Some(workspace)) => Ok(structurally_matches(expected, workspace)),
            Ok(None) => Ok(rest.len() == 0),
            Err(e) => Err(e),
        },
    }
}

/// A layout none of whose declared windows has a match among the windows
/// of the scene graph is satisfied, whatever the workspaces hold.
pub proof fn lemma_vacuous_truth(layout: LayoutView, tree: SceneView, chosen: Option<IdentView>)
    requires
        unmatched(layout.content, windows_of(tree)),
    ensures
        verdict(layout, tree, chosen) == Ok::<bool, LayoutError>(true),
{
    lemma_reduce_unmatched(layout.content, windows_of(tree));
}

impl Layout {
    /// Whether the scene graph satisfies this layout, on the workspace that
    /// `workspace` names or else on the layout's own.
    pub fn is_correct(&self, tree: &SceneNode, workspace: Option<&WorkspaceIdent>) -> (r: Result<
        bool,
        LayoutError,
    >)
        ensures
            r == verdict(self@, tree@, ident_view(workspace)),
    {
        let mut windows = tree.windows().collect();
        let expected_layout = match self.content.clone().reduce(&mut windows) {
            Some(expected_layout) => expected_layout,
            None => {
                return Ok(true);
            },
        };
        let ident = match workspace {
            Some(ident) => Some(ident),
            None => self.workspace.as_ref(),
        };
        match resolve_workspace(tree, ident) {
            Ok(Some(workspace)) => Ok(expected_layout.matches(workspace)),
            Ok(None) => Ok(windows.is_empty()),
            Err(e) => Err(e),
        }
    }
}

} // verus!
