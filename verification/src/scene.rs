//! A snapshot of the compositor's scene graph, as plain values.

use vstd::prelude::*;

verus! {

/// What a node of the scene graph is.
#[derive(Clone, Copy, Debug, PartialEq, Eq, Structural)]
pub enum NodeKind {
    Root,
    Output,
    Workspace,
    Con,
    FloatingCon,
    Dockarea,
    Unknown,
}

/// How a node of the scene graph arranges its children.
#[derive(Clone, Copy, Debug, PartialEq, Eq, Structural)]
pub enum SceneLayout {
    SplitH,
    SplitV,
    Stacked,
    Tabbed,
    Output,
    Dockarea,
    NoLayout,
    Unknown,
}

/// The legacy properties that some windows report in place of an app identifier.
#[derive(Debug)]
pub struct WindowProperties {
    pub class: Option<String>,
}

/// One node of the scene graph with the subtree below it.
#[derive(Debug)]
pub struct SceneNode {
    pub id: i64,
    pub name: Option<String>,
    pub node_type: NodeKind,
    pub layout: SceneLayout,
    pub focused: bool,
    pub focus: Vec<i64>,
    pub nodes: Vec<SceneNode>,
    pub floating_nodes: Vec<SceneNode>,
    pub app_id: Option<String>,
    pub pid: Option<i32>,
    pub num: Option<i32>,
    pub window_properties: Option<WindowProperties>,
}

/// The mathematical value of a [`SceneNode`].
pub struct SceneView {
    pub id: i64,
    pub name: Option<Seq<char>>,
    pub node_type: NodeKind,
    pub layout: SceneLayout,
    pub focused: bool,
    pub focus: Seq<i64>,
    pub nodes: Seq<SceneView>,
    pub floating_nodes: Seq<SceneView>,
    pub app_id: Option<Seq<char>>,
    pub pid: Option<i32>,
    pub num: Option<i32>,
    pub class: Option<Seq<char>>,
}

/// The characters of an optional string.
pub open spec fn text_of(s: Option<String>) -> Option<Seq<char>> {
    match s {
        Some(t) => Some(t@),
        None => None,
    }
}

/// The class string that a node's legacy properties carry, if any.
pub open spec fn class_of(p: Option<WindowProperties>) -> Option<Seq<char>> {
    match p {
        Some(props) => text_of(props.class),
        None => None,
    }
}

impl View for SceneNode {
    type V = SceneView;

    open spec fn view(&self) -> SceneView
        decreases self,
    {
        SceneView {
            id: self.id,
            name: text_of(self.name),
            node_type: self.node_type,
            layout: self.layout,
            focused: self.focused,
            focus: self.focus@,
            nodes: child_views(self.nodes@),
            floating_nodes: child_views(self.floating_nodes@),
            app_id: text_of(self.app_id),
            pid: self.pid,
            num: self.num,
            class: class_of(self.window_properties),
        }
    }
}

/// The mathematical values of a node's children.
pub open spec fn child_views(nodes: Seq<SceneNode>) -> Seq<SceneView>
    decreases nodes,
{
    Seq::new(
        nodes.len(),
        |i: int|
            if 0 <= i < nodes.len() {
                nodes[i]@
            } else {
                arbitrary()
            },
    )
}

/// The view of a node's children holds the view of each, in the same place.
pub proof fn lemma_child_views(nodes: Seq<SceneNode>)
    ensures
        child_views(nodes).len() == nodes.len(),
        forall|i: int| 0 <= i < nodes.len() ==> #[trigger] child_views(nodes)[i] == nodes[i]@,
{
    reveal_with_fuel(child_views, 2);
}

/// The mathematical values of a sequence of borrowed nodes.
pub open spec fn scene_views(nodes: Seq<&SceneNode>) -> Seq<SceneView> {
    Seq::new(nodes.len(), |i: int| nodes[i]@)
}

} // verus!
