//! What the layout check asks of a single scene node: whether it is a
//! window, whether it answers to a set of criteria, and which windows lie
//! below it.

use vstd::prelude::*;
use crate::scan::{
    lemma_sweep_step, lemma_windows_pending_empty, lemma_windows_pending_single, sweep_back,
    windows_of, windows_pending,
};
use crate::scene::{lemma_child_views, scene_views, text_of, NodeKind, SceneNode, SceneView};

verus! {

/// What a declared window asks of a live one. An absent field asks nothing.
pub struct Criteria {
    pub name: Option<Seq<char>>,
    pub app_id: Option<Seq<char>>,
    pub class: Option<Seq<char>>,
}

/// A node counts as a window when it is an ordinary or floating leaf
/// container that belongs to a process.
pub open spec fn is_window(node: SceneView) -> bool {
    (node.node_type == NodeKind::Con || node.node_type == NodeKind::FloatingCon)
        && node.pid is Some
}

/// Whether a live node answers to the criteria. A class criterion that the
/// node's legacy class meets also settles the app identifier.
pub open spec fn window_matches(criteria: Criteria, node: SceneView) -> bool {
    &&& (criteria.name is None || node.name == criteria.name)
    &&& (criteria.app_id is None || node.app_id == criteria.app_id || (criteria.class is Some
        && node.class == criteria.class))
    &&& (criteria.class is None || node.class == criteria.class)
}

/// Whether two optional strings hold the same text, or are both absent.
pub fn same_text(a: &Option<String>, b: &Option<String>) -> (r: bool)
    ensures
        r == (text_of(*a) == text_of(*b)),
{
    match (a, b) {
        (Some(x), Some(y)) => *x == *y,
        (None, None) => true,
        _ => false,
    }
}

/// A scan of a subtree that hands out its windows one by one.
pub struct NodeIter<'a> {
    stack: Vec<&'a SceneNode>,
}

impl<'a> NodeIter<'a> {
    /// The subtrees that are left to the scan, the last of them being next.
    pub closed spec fn pending(&self) -> Seq<SceneView> {
        scene_views(self.stack@)
    }

    /// The windows that the scan has yet to hand out, in its order.
    pub open spec fn remaining(&self) -> Seq<SceneView> {
        windows_pending(self.pending())
    }

    /// Hands out the next window of the scan, or nothing when none is left.
    #[verifier::loop_isolation(false)]
    pub fn next(&mut self) -> (r: Option<&'a SceneNode>)
        ensures
            match r {
                Some(window) => {
                    &&& old(self).remaining().len() > 0
                    &&& window@ == old(self).remaining()[0]
                    &&& final(self).remaining() == old(self).remaining().drop_first()
                },
                None => old(self).remaining().len() == 0 && final(self).remaining().len() == 0,
            },
    {
        loop
            invariant
                self.remaining() == old(self).remaining(),
            decreases sweep_back(self.pending(), self.pending().len()).len(),
        {
            let ghost before = scene_views(self.stack@);
            let node = match self.stack.pop() {
                Some(node) => node,
                None => {
                    proof {
                        lemma_windows_pending_empty();
                    }
                    return None;
                },
            };
            let ghost rest = scene_views(self.stack@);
            proof {
                assert(before =~= rest.push(node@));
                lemma_child_views(node.nodes@);
                lemma_child_views(node.floating_nodes@);
                lemma_sweep_step(rest, node@);
            }
            let mut i: usize = 0;
            while i < node.nodes.len()
                invariant
                    i <= node.nodes.len(),
                    scene_views(self.stack@) == rest + node@.nodes.take(i as int),
                decreases node.nodes.len() - i,
            {
                let ghost so_far = scene_views(self.stack@);
                self.stack.push(&node.nodes[i]);
                assert(scene_views(self.stack@) =~= so_far.push(node@.nodes[i as int]));
                i += 1;
            }
            let mut j: usize = 0;
            while j < node.floating_nodes.len()
                invariant
                    j <= node.floating_nodes.len(),
                    scene_views(self.stack@) == rest + node@.nodes + node@.floating_nodes.take(
                        j as int,
                    ),
                decreases node.floating_nodes.len() - j,
            {
                let ghost so_far = scene_views(self.stack@);
                self.stack.push(&node.floating_nodes[j]);
                assert(scene_views(self.stack@) =~= so_far.push(node@.floating_nodes[j as int]));
                j += 1;
            }
            assert(node@.floating_nodes.take(j as int) =~= node@.floating_nodes);
            if node.is_window() {
                return Some(node);
            }
        }
    }

    /// Runs the scan to its end and gathers the windows that it hands out.
    pub fn collect(self) -> (windows: Vec<&'a SceneNode>)
        ensures
            scene_views(windows@) == self.remaining(),
    {
        let ghost all = self.remaining();
        let mut scan = self;
        let mut windows: Vec<&'a SceneNode> = Vec::new();
        loop
            invariant
                scene_views(windows@) + scan.remaining() == all,
            ensures
                scene_views(windows@) == all,
            decreases scan.remaining().len(),
        {
            match scan.next() {
                Some(window) => {
                    windows.push(window);
                },
                None => {
                    break ;
                },
            }
        }
        windows
    }
}

/// What the layout check asks of a node of the scene graph.
pub trait NodeExt {
    /// A scan of the windows of the subtree, the node among them if it is
    /// one.
    fn windows(&self) -> NodeIter<'_>;

    /// Whether the node is a window.
    fn is_window(&self) -> bool;

    /// Whether the node answers to the three criteria, of which an absent
    /// one asks nothing.
    fn matches(
        &self,
        name: &Option<String>,
        app_id: &Option<String>,
        class: &Option<String>,
    ) -> bool;
}

impl NodeExt for SceneNode {
    fn windows(&self) -> (r: NodeIter<'_>)
        ensures
            r.pending() == seq![self@],
            r.remaining() == windows_of(self@),
    {
        let mut stack: Vec<&SceneNode> = Vec::new();
        stack.push(self);
        proof {
            assert(scene_views(stack@) =~= seq![self@]);
            lemma_windows_pending_single(self@);
        }
        NodeIter { stack }
    }

    fn is_window(&self) -> (r: bool)
        ensures
            r == is_window(self@),
    {
        (self.node_type == NodeKind::Con || self.node_type == NodeKind::FloatingCon)
            && self.pid.is_some()
    }

    fn matches(
        &self,
        name: &Option<String>,
        app_id: &Option<String>,
        class: &Option<String>,
    ) -> (r: bool)
        ensures
            r == window_matches(
                Criteria { name: text_of(*name), app_id: text_of(*app_id), class: text_of(*class) },
                self@,
            ),
    {
        let class_met = match &self.window_properties {
            Some(props) => same_text(&props.class, class),
            None => false,
        };
        (name.is_none() || same_text(&self.name, name)) && (app_id.is_none() || same_text(
            &self.app_id,
            app_id,
        ) || class.is_some() && class_met) && (class.is_none() || class_met)
    }
}

} // verus!
