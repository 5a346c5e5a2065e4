use bspwm_ipc::common::{Layer, NodeState, Rectangle};
use bspwm_ipc::event::{BspwmEvent, MonitorRemoveEvent, NodeFocusEvent, ReportEvent};
use bspwm_ipc::common::NodeCoordinates;
use bspwm_ipc::reply::{BspwmTree, Client, Constraints, Node, Ratio, SplitType};

fn rect(x: i16, y: i16, width: u16, height: u16) -> Rectangle {
    Rectangle { x, y, width, height }
}

fn leaf(id: u32) -> Node {
    Node {
        client: None,
        constraints: Constraints { min_width: 32, min_height: 32 },
        first_child: None,
        hidden: false,
        id,
        locked: false,
        marked: false,
        presel: None,
        private: false,
        rectangle: rect(0, 0, 800, 600),
        second_child: None,
        split_ratio: Ratio { thousandths: 500 },
        split_type: SplitType::Vertical,
        sticky: false,
        vacant: false,
    }
}

fn inner(id: u32, first: Node, second: Node) -> Node {
    let mut n = leaf(id);
    n.first_child = Some(Box::new(first));
    n.second_child = Some(Box::new(second));
    n
}

fn client(state: NodeState) -> Client {
    Client {
        border_width: 2,
        class_name: "Navigator".to_string(),
        floating_rectangle: rect(10, 20, 300, 200),
        instance_name: "navigator".to_string(),
        last_layer: Layer::Normal,
        last_state: NodeState::Tiled,
        layer: Layer::Normal,
        shown: true,
        state,
        tiled_rectangle: rect(0, 0, 800, 600),
        urgent: false,
    }
}

/// A single leaf traverses to exactly one element equal to the root.
#[test]
fn traverse_single_leaf() {
    let root = leaf(7);
    let nodes = root.traverse();
    assert_eq!(nodes.len(), 1);
    assert_eq!(nodes[0].id, 7);
    assert!(nodes[0].first_child.is_none());
    assert!(nodes[0].second_child.is_none());
}

/// A full tree of three inner nodes and four leaves traverses to all
/// seven nodes, each exactly once.
#[test]
fn traverse_balanced_tree_visits_every_node_once() {
    let root = inner(
        1,
        inner(2, leaf(4), leaf(5)),
        inner(3, leaf(6), leaf(7)),
    );
    let nodes = root.traverse();
    assert_eq!(nodes.len(), 7);
    let mut ids: Vec<u32> = nodes.iter().map(|n| n.id).collect();
    ids.sort();
    assert_eq!(ids, vec![1, 2, 3, 4, 5, 6, 7]);
}

/// The traversal is depth first from the root: each child's subtree
/// follows as one contiguous block.
#[test]
fn traverse_is_depth_first_pre_order() {
    let root = inner(1, inner(2, leaf(4), leaf(5)), leaf(3));
    let ids: Vec<u32> = root.traverse().iter().map(|n| n.id).collect();
    assert_eq!(ids, vec![1, 2, 4, 5, 3]);
}

/// The effective geometry is the floating rectangle exactly when the
/// window floats, and the tiled rectangle in every other state.
#[test]
fn effective_geometry_follows_state() {
    let floating = client(NodeState::Floating);
    assert_eq!(*floating.get_geometry(), rect(10, 20, 300, 200));
    for state in [NodeState::Tiled, NodeState::PseudoTiled, NodeState::Fullscreen] {
        let c = client(state);
        assert_eq!(*c.get_geometry(), rect(0, 0, 800, 600));
    }
}

/// The four dump queries use the manager's fixed command keywords.
#[test]
fn query_keywords_are_fixed() {
    assert_eq!(BspwmTree::Bspwm.as_str(), "wm -d");
    assert_eq!(BspwmTree::Monitor.as_str(), "query -T -m");
    assert_eq!(BspwmTree::Desktop.as_str(), "query -T -d");
    assert_eq!(BspwmTree::Node.as_str(), "query -T -n");
}

#[test]
fn query_command_appends_decimal_id() {
    assert_eq!(BspwmTree::Node.command_with_id(5), "query -T -n 5");
    assert_eq!(BspwmTree::Monitor.command_with_id(0), "query -T -m 0");
    assert_eq!(
        BspwmTree::Desktop.command_with_id(4294967295),
        "query -T -d 4294967295"
    );
}

/// Event payloads carry the manager's wire names.
#[test]
fn event_names_match_wire_tokens() {
    let report = BspwmEvent::Report(ReportEvent { report: "WmDP-1".to_string() });
    assert_eq!(report.as_str(), "report");
    let removed = BspwmEvent::MonitorRemove(MonitorRemoveEvent { monitor_id: 2 });
    assert_eq!(removed.as_str(), "monitor_remove");
    let focus = BspwmEvent::NodeFocus(NodeFocusEvent {
        coordinates: NodeCoordinates { monitor_id: 1, desktop_id: 2, node_id: 3 },
    });
    assert_eq!(focus.as_str(), "node_focus");
}
