use sway_layout::chat::{chat_layout_correct, clean_up_5, find_all, CleanUpError, Step};
use sway_layout::layout::WorkspaceIdent;
use sway_layout::resolve::{
    find_focused_node, find_focused_workspace, find_workspace, focus_child_of, is_sought,
    resolve_workspace, LayoutError,
};
use sway_layout::scene::{NodeKind, SceneLayout, SceneNode, WindowProperties};
use sway_layout::util::{same_text, NodeExt};

fn plain(id: i64, node_type: NodeKind, layout: SceneLayout, nodes: Vec<SceneNode>) -> SceneNode {
    SceneNode {
        id,
        name: None,
        node_type,
        layout,
        focused: false,
        focus: vec![],
        nodes,
        floating_nodes: vec![],
        app_id: None,
        pid: None,
        num: None,
        window_properties: None,
    }
}

fn view(id: i64) -> SceneNode {
    let mut node = plain(id, NodeKind::Con, SceneLayout::NoLayout, vec![]);
    node.pid = Some(id as i32);
    node
}

fn floating(id: i64) -> SceneNode {
    let mut node = view(id);
    node.node_type = NodeKind::FloatingCon;
    node
}

fn group(id: i64, layout: SceneLayout, nodes: Vec<SceneNode>) -> SceneNode {
    plain(id, NodeKind::Con, layout, nodes)
}

fn numbered(id: i64, num: i32, name: &str, nodes: Vec<SceneNode>) -> SceneNode {
    let mut node = plain(id, NodeKind::Workspace, SceneLayout::SplitH, nodes);
    node.num = Some(num);
    node.name = Some(name.to_owned());
    node
}

fn under_root(workspaces: Vec<SceneNode>) -> SceneNode {
    let output = plain(2, NodeKind::Output, SceneLayout::Output, workspaces);
    plain(1, NodeKind::Root, SceneLayout::SplitH, vec![output])
}

fn ids(nodes: &[&SceneNode]) -> Vec<i64> {
    nodes.iter().map(|n| n.id).collect()
}

fn some(text: &str) -> Option<String> {
    Some(text.to_owned())
}

#[test]
fn a_window_is_a_leaf_container_with_a_process() {
    assert!(view(1).is_window());
    assert!(floating(2).is_window());
    let mut no_process = view(3);
    no_process.pid = None;
    assert!(!no_process.is_window());
    for kind in [
        NodeKind::Root,
        NodeKind::Output,
        NodeKind::Workspace,
        NodeKind::Dockarea,
        NodeKind::Unknown,
    ] {
        let mut other = view(4);
        other.node_type = kind;
        assert!(!other.is_window());
    }
}

#[test]
fn absent_criteria_match_any_window() {
    let mut node = view(1);
    assert!(node.matches(&None, &None, &None));
    node.name = some("title");
    node.app_id = some("app");
    node.window_properties = Some(WindowProperties { class: some("Class") });
    assert!(node.matches(&None, &None, &None));
}

#[test]
fn each_criterion_is_compared_with_its_own_field() {
    let mut node = view(1);
    node.name = some("title");
    node.app_id = some("app");
    node.window_properties = Some(WindowProperties { class: some("Class") });
    assert!(node.matches(&some("title"), &None, &None));
    assert!(!node.matches(&some("other"), &None, &None));
    assert!(node.matches(&None, &some("app"), &None));
    assert!(!node.matches(&None, &some("other"), &None));
    assert!(node.matches(&None, &None, &some("Class")));
    assert!(!node.matches(&None, &None, &some("Other")));
    assert!(node.matches(&some("title"), &some("app"), &some("Class")));
    assert!(!node.matches(&some("title"), &some("app"), &some("Other")));
    assert!(!node.matches(&some("other"), &some("app"), &some("Class")));
}

#[test]
fn a_matching_class_stands_in_for_the_app_identifier() {
    let mut node = view(1);
    node.window_properties = Some(WindowProperties { class: some("Class") });
    assert!(node.matches(&None, &some("app"), &some("Class")));
    assert!(!node.matches(&None, &some("app"), &None));
    assert!(!node.matches(&None, &some("app"), &some("Other")));
    node.app_id = some("elsewhere");
    assert!(node.matches(&None, &some("app"), &some("Class")));
}

#[test]
fn a_class_criterion_fails_without_legacy_properties() {
    let mut node = view(1);
    node.app_id = some("app");
    assert!(!node.matches(&None, &None, &some("Class")));
    assert!(!node.matches(&None, &some("app"), &some("Class")));
    node.window_properties = Some(WindowProperties { class: None });
    assert!(!node.matches(&None, &None, &some("Class")));
}

#[test]
fn a_name_criterion_fails_on_a_nameless_node() {
    let node = view(1);
    assert!(!node.matches(&some("title"), &None, &None));
}

#[test]
fn optional_texts_compare_by_content() {
    assert!(same_text(&None, &None));
    assert!(same_text(&some("a"), &some("a")));
    assert!(!same_text(&some("a"), &some("b")));
    assert!(!same_text(&some("a"), &None));
    assert!(!same_text(&None, &some("a")));
}

#[test]
fn the_scan_visits_the_last_child_first_and_floating_children_too() {
    let mut first = group(10, SceneLayout::SplitV, vec![view(11), view(12)]);
    first.floating_nodes = vec![floating(13)];
    let mut tree = numbered(3, 1, "1", vec![first, view(20)]);
    tree.floating_nodes = vec![floating(30), floating(31)];
    let found: Vec<&SceneNode> = tree.windows().collect();
    assert_eq!(ids(&found), vec![31, 30, 20, 13, 12, 11]);
}

#[test]
fn the_scan_hands_out_the_root_when_it_is_a_window() {
    let lone = view(7);
    let mut scan = lone.windows();
    assert_eq!(scan.next().map(|n| n.id), Some(7));
    assert!(scan.next().is_none());
    assert!(scan.next().is_none());
}

#[test]
fn the_scan_of_a_tree_without_windows_is_empty() {
    let tree = under_root(vec![numbered(3, 1, "1", vec![group(4, SceneLayout::SplitH, vec![])])]);
    assert!(tree.windows().next().is_none());
    assert!(tree.windows().collect().is_empty());
}

#[test]
fn a_workspace_is_sought_by_name_or_by_number() {
    let ws = numbered(3, 4, "mail", vec![]);
    assert!(is_sought(&ws, None));
    assert!(is_sought(&ws, Some(&WorkspaceIdent::Number(4))));
    assert!(!is_sought(&ws, Some(&WorkspaceIdent::Number(5))));
    assert!(is_sought(&ws, Some(&WorkspaceIdent::Name("mail".to_owned()))));
    assert!(!is_sought(&ws, Some(&WorkspaceIdent::Name("4".to_owned()))));
    let mut con = view(5);
    con.num = Some(4);
    con.name = some("mail");
    assert!(!is_sought(&con, None));
    assert!(!is_sought(&con, Some(&WorkspaceIdent::Number(4))));
    assert!(!is_sought(&con, Some(&WorkspaceIdent::Name("mail".to_owned()))));
}

#[test]
fn the_first_workspace_in_document_order_is_found() {
    let mut output = plain(
        2,
        NodeKind::Output,
        SceneLayout::Output,
        vec![numbered(10, 1, "a", vec![]), numbered(11, 2, "b", vec![])],
    );
    output.floating_nodes = vec![numbered(12, 3, "a", vec![])];
    let second = plain(5, NodeKind::Output, SceneLayout::Output, vec![numbered(13, 3, "c", vec![])]);
    let tree = plain(1, NodeKind::Root, SceneLayout::SplitH, vec![output, second]);
    assert_eq!(find_workspace(&tree, None).map(|n| n.id), Some(10));
    let by_number = WorkspaceIdent::Number(3);
    assert_eq!(find_workspace(&tree, Some(&by_number)).map(|n| n.id), Some(12));
    let by_name = WorkspaceIdent::Name("c".to_owned());
    assert_eq!(find_workspace(&tree, Some(&by_name)).map(|n| n.id), Some(13));
    let missing = WorkspaceIdent::Number(9);
    assert!(find_workspace(&tree, Some(&missing)).is_none());
}

#[test]
fn the_focus_chain_leads_to_the_focused_workspace() {
    let mut output = plain(
        2,
        NodeKind::Output,
        SceneLayout::Output,
        vec![numbered(10, 1, "a", vec![]), numbered(11, 2, "b", vec![view(20)])],
    );
    output.focus = vec![11, 10];
    let mut tree = plain(1, NodeKind::Root, SceneLayout::SplitH, vec![output]);
    tree.focus = vec![2];
    assert_eq!(focus_child_of(&tree).map(|n| n.id), Some(2));
    assert_eq!(find_focused_workspace(&tree).map(|n| n.id), Some(11));
    assert_eq!(resolve_workspace(&tree, None).map(|w| w.map(|n| n.id)), Ok(Some(11)));
}

#[test]
fn a_broken_focus_chain_falls_back_on_the_first_workspace() {
    let mut output = plain(
        2,
        NodeKind::Output,
        SceneLayout::Output,
        vec![numbered(10, 1, "a", vec![]), numbered(11, 2, "b", vec![])],
    );
    output.focus = vec![99];
    let mut tree = plain(1, NodeKind::Root, SceneLayout::SplitH, vec![output]);
    tree.focus = vec![2];
    assert!(find_focused_workspace(&tree).is_none());
    assert_eq!(resolve_workspace(&tree, None).map(|w| w.map(|n| n.id)), Ok(Some(10)));
    let unfocused = under_root(vec![numbered(10, 1, "a", vec![])]);
    assert!(focus_child_of(&unfocused).is_none());
    assert_eq!(resolve_workspace(&unfocused, None).map(|w| w.map(|n| n.id)), Ok(Some(10)));
}

#[test]
fn the_focus_chain_reaches_floating_children_after_regular_ones() {
    let mut holder = plain(2, NodeKind::Output, SceneLayout::Output, vec![numbered(10, 1, "a", vec![])]);
    holder.floating_nodes = vec![numbered(11, 2, "b", vec![])];
    holder.focus = vec![11];
    assert_eq!(focus_child_of(&holder).map(|n| n.id), Some(11));
    assert_eq!(find_focused_workspace(&holder).map(|n| n.id), Some(11));
}

#[test]
fn a_named_workspace_that_is_absent_resolves_to_nothing() {
    let tree = under_root(vec![numbered(10, 1, "a", vec![])]);
    let missing = WorkspaceIdent::Name("z".to_owned());
    assert_eq!(resolve_workspace(&tree, Some(&missing)).map(|w| w.map(|n| n.id)), Ok(None));
    let present = WorkspaceIdent::Number(1);
    assert_eq!(resolve_workspace(&tree, Some(&present)).map(|w| w.map(|n| n.id)), Ok(Some(10)));
}

#[test]
fn a_scene_without_workspaces_resolves_to_an_error() {
    let tree = plain(1, NodeKind::Root, SceneLayout::SplitH, vec![view(5)]);
    assert_eq!(
        resolve_workspace(&tree, None).map(|w| w.map(|n| n.id)),
        Err(LayoutError::NoWorkspace)
    );
}

#[test]
fn the_focused_node_is_the_first_on_the_chain_that_has_the_focus() {
    let mut leaf = view(20);
    leaf.focused = true;
    let mut ws = numbered(10, 1, "a", vec![view(19), leaf]);
    ws.focus = vec![20, 19];
    let mut output = plain(2, NodeKind::Output, SceneLayout::Output, vec![ws]);
    output.focus = vec![10];
    let mut tree = plain(1, NodeKind::Root, SceneLayout::SplitH, vec![output]);
    tree.focus = vec![2];
    assert_eq!(find_focused_node(&tree).map(|n| n.id), Some(20));
    assert!(find_focused_node(&view(3)).is_none());
}

#[test]
fn the_chat_layout_is_two_vertical_columns_side_by_side() {
    let good = numbered(
        10,
        5,
        "5",
        vec![
            group(11, SceneLayout::SplitV, vec![view(1)]),
            group(12, SceneLayout::SplitV, vec![view(2), view(3)]),
        ],
    );
    assert!(chat_layout_correct(&good));
    let mut tabbed = numbered(
        10,
        5,
        "5",
        vec![
            group(11, SceneLayout::SplitV, vec![view(1), view(4)]),
            group(12, SceneLayout::SplitV, vec![view(2), view(3)]),
        ],
    );
    assert!(chat_layout_correct(&tabbed));
    tabbed.layout = SceneLayout::Tabbed;
    assert!(!chat_layout_correct(&tabbed));
    let no_pair = numbered(
        10,
        5,
        "5",
        vec![
            group(11, SceneLayout::SplitV, vec![view(1)]),
            group(12, SceneLayout::SplitV, vec![view(2), view(3), view(4)]),
        ],
    );
    assert!(!chat_layout_correct(&no_pair));
    let wrong_column = numbered(
        10,
        5,
        "5",
        vec![
            group(11, SceneLayout::SplitH, vec![view(1), view(4)]),
            group(12, SceneLayout::SplitV, vec![view(2), view(3)]),
        ],
    );
    assert!(!chat_layout_correct(&wrong_column));
    let three = numbered(
        10,
        5,
        "5",
        vec![
            group(11, SceneLayout::SplitV, vec![view(1), view(4)]),
            group(12, SceneLayout::SplitV, vec![]),
            group(13, SceneLayout::SplitV, vec![]),
        ],
    );
    assert!(!chat_layout_correct(&three));
}

#[test]
fn nodes_with_a_process_are_gathered_children_first() {
    let mut inner = group(11, SceneLayout::SplitV, vec![view(1), view(2)]);
    inner.pid = Some(50);
    inner.floating_nodes = vec![floating(9)];
    let tree = numbered(10, 5, "5", vec![inner, view(3), group(12, SceneLayout::SplitH, vec![])]);
    assert_eq!(ids(&find_all(&tree)), vec![1, 2, 11, 3]);
}

#[test]
fn cleaning_up_stashes_every_window_and_rebuilds_the_columns() {
    let mut active = view(3);
    active.focused = true;
    let mut chat = numbered(10, 5, "5", vec![view(1), view(2), active, view(4), view(6)]);
    chat.focus = vec![3];
    let mut output = plain(2, NodeKind::Output, SceneLayout::Output, vec![numbered(9, 1, "1", vec![]), chat]);
    output.focus = vec![10];
    let mut tree = plain(1, NodeKind::Root, SceneLayout::SplitH, vec![output]);
    tree.focus = vec![2];
    assert_eq!(
        clean_up_5(&tree),
        Ok(vec![
            Step::Stash(1),
            Step::Stash(2),
            Step::Stash(3),
            Step::Stash(4),
            Step::Stash(6),
            Step::PlaceAndSplit(1),
            Step::Place(2),
            Step::PlaceLeftAndSplit(3),
            Step::Place(6),
            Step::Place(4),
            Step::Focus(3),
        ])
    );
}

#[test]
fn cleaning_up_without_a_focused_node_ends_with_the_last_window() {
    let chat = numbered(10, 5, "5", vec![view(1), view(2), view(3), view(4)]);
    let tree = under_root(vec![chat]);
    assert_eq!(
        clean_up_5(&tree),
        Ok(vec![
            Step::Stash(1),
            Step::Stash(2),
            Step::Stash(3),
            Step::Stash(4),
            Step::PlaceAndSplit(1),
            Step::Place(2),
            Step::PlaceLeftAndSplit(3),
            Step::Place(4),
        ])
    );
}

#[test]
fn cleaning_up_a_workspace_that_is_in_order_does_nothing() {
    let chat = numbered(
        10,
        5,
        "5",
        vec![
            group(11, SceneLayout::SplitV, vec![view(1)]),
            group(12, SceneLayout::SplitV, vec![view(2), view(3)]),
        ],
    );
    assert_eq!(clean_up_5(&under_root(vec![chat])), Ok(vec![]));
}

#[test]
fn cleaning_up_reports_what_stands_in_its_way() {
    let elsewhere = under_root(vec![numbered(10, 4, "4", vec![view(1)])]);
    assert_eq!(clean_up_5(&elsewhere), Err(CleanUpError::NoChatWorkspace));
    let empty = under_root(vec![numbered(10, 5, "5", vec![])]);
    assert_eq!(clean_up_5(&empty), Err(CleanUpError::EmptyChatWorkspace));
    let few = under_root(vec![numbered(10, 5, "5", vec![view(1), view(2), view(3)])]);
    assert_eq!(clean_up_5(&few), Err(CleanUpError::TooFewWindows));
}
