use bspwm_ipc::codec::{encode_command, interpret_reply};
use bspwm_ipc::common::Layout;
use bspwm_ipc::json::{
    parse_desktop, parse_monitor, parse_node, parse_state, ratio_millis_from_text,
};
use bspwm_ipc::reply::BspwmTree;
use bspwm_ipc::MessageError;

fn node_json(id: u32, first: &str, second: &str) -> String {
    format!(
        r#"{{"client":null,"constraints":{{"minWidth":32,"minHeight":32}},"firstChild":{},"hidden":false,"id":{},"locked":false,"marked":false,"presel":null,"private":false,"rectangle":{{"x":0,"y":0,"width":800,"height":600}},"secondChild":{},"splitRatio":0.52,"splitType":"vertical","sticky":false,"vacant":false}}"#,
        first, id, second
    )
}

fn desktop_json(id: u32, focused_node_id: u32, root: &str) -> String {
    format!(
        r#"{{"borderWidth":1,"focusedNodeId":{},"id":{},"layout":"tiled","name":"one","padding":{{"top":0,"right":0,"bottom":0,"left":0}},"root":{},"userLayout":"monocle","windowGap":6}}"#,
        focused_node_id, id, root
    )
}

fn monitor_json(id: u32, desktops: &str) -> String {
    format!(
        r#"{{"borderWidth":1,"desktops":[{}],"focusedDesktopId":1,"id":{},"name":"DP-1","padding":{{"top":0,"right":0,"bottom":0,"left":0}},"randrId":68,"rectangle":{{"x":0,"y":0,"width":1920,"height":1080}},"stickyCount":0,"windowGap":6,"wired":true}}"#,
        desktops, id
    )
}

fn state_json(monitors: &str) -> String {
    format!(
        r#"{{"clientsCount":0,"focusHistory":[{{"monitorId":1,"desktopId":1,"nodeId":0}}],"focusedMonitorId":1,"monitors":[{}],"primaryMonitorId":1,"stackingList":[]}}"#,
        monitors
    )
}

/// The end-to-end query for node 5 against a fake peer holding a one-leaf
/// tree: the command encodes, the JSON reply decodes to that leaf.
#[test]
fn query_node_five_round_trip() {
    let command = BspwmTree::Node.command_with_id(5);
    assert_eq!(command, "query -T -n 5");
    let payload = encode_command(&command).unwrap();
    assert_eq!(&payload[..], b"query\0-T\0-n\x005\0");
    // The fake peer answers with the node document.
    let reply = node_json(5, "null", "null").into_bytes();
    let response = interpret_reply(&reply).unwrap();
    let node = parse_node(&response).unwrap();
    assert_eq!(node.id, 5);
    assert!(node.first_child.is_none());
    assert!(node.second_child.is_none());
    assert_eq!(node.split_ratio.thousandths, 520);
}

/// A desktop whose root is null decodes to an absent tree with the given
/// focused-node id: the full exchange for `query -T -d 1` against a fake
/// peer holding one monitor with one empty desktop.
#[test]
fn empty_desktop_decodes_with_absent_root() {
    let command = BspwmTree::Desktop.command_with_id(1);
    assert_eq!(command, "query -T -d 1");
    encode_command(&command).unwrap();
    // The fake peer answers with the desktop document of that state.
    let reply = desktop_json(1, 0, "null").into_bytes();
    let response = interpret_reply(&reply).unwrap();
    let desktop = parse_desktop(&response).unwrap();
    assert!(desktop.root.is_none());
    assert_eq!(desktop.focused_node_id, 0);
    assert_eq!(desktop.id, 1);
    assert_eq!(desktop.layout, Layout::Tiled);
    assert_eq!(desktop.user_layout, Layout::Monocle);
}

/// The manager-state document with one monitor and one empty desktop
/// decodes whole.
#[test]
fn state_document_decodes() {
    let doc = state_json(&monitor_json(1, &desktop_json(1, 0, "null")));
    let state = parse_state(&doc).unwrap();
    assert_eq!(state.monitors.len(), 1);
    assert_eq!(state.monitors[0].id, 1);
    assert_eq!(state.monitors[0].desktops.len(), 1);
    assert_eq!(state.monitors[0].desktops[0].id, 1);
    assert_eq!(state.focus_history.len(), 1);
    assert_eq!(state.focus_history[0].monitor_id, 1);
    assert_eq!(state.focused_monitor_id, 1);
    assert_eq!(state.primary_monitor_id, 1);
    assert!(state.stacking_list.is_empty());
}

#[test]
fn monitor_document_decodes() {
    let monitor = parse_monitor(&monitor_json(2, &desktop_json(1, 0, "null"))).unwrap();
    assert_eq!(monitor.id, 2);
    assert_eq!(monitor.name, "DP-1");
    assert_eq!(monitor.rectangle.width, 1920);
    assert!(monitor.wired);
}

/// A two-level tree decodes with both children in place.
#[test]
fn nested_tree_decodes() {
    let doc = node_json(
        1,
        &node_json(2, "null", "null"),
        &node_json(3, "null", "null"),
    );
    let node = parse_node(&doc).unwrap();
    assert_eq!(node.id, 1);
    assert_eq!(node.first_child.as_ref().unwrap().id, 2);
    assert_eq!(node.second_child.as_ref().unwrap().id, 3);
}

/// A node carrying exactly one child is malformed and refused.
#[test]
fn one_child_node_is_rejected() {
    let only_first = node_json(1, &node_json(2, "null", "null"), "null");
    assert_eq!(parse_node(&only_first).unwrap_err(), MessageError::JsonCouldntParse);
    let only_second = node_json(1, "null", &node_json(2, "null", "null"));
    assert_eq!(parse_node(&only_second).unwrap_err(), MessageError::JsonCouldntParse);
}

/// An unknown enum token must fail the decode, never fall back silently.
#[test]
fn unknown_enum_token_is_rejected() {
    let doc = desktop_json(1, 0, "null").replace("\"tiled\"", "\"stacked\"");
    assert_eq!(parse_desktop(&doc).unwrap_err(), MessageError::JsonCouldntParse);
    let node_doc = node_json(4, "null", "null").replace("\"vertical\"", "\"diagonal\"");
    assert_eq!(parse_node(&node_doc).unwrap_err(), MessageError::JsonCouldntParse);
}

/// A missing required field fails the decode.
#[test]
fn missing_field_is_rejected() {
    assert_eq!(parse_desktop("{}").unwrap_err(), MessageError::JsonCouldntParse);
    assert_eq!(parse_node("{\"id\":1}").unwrap_err(), MessageError::JsonCouldntParse);
}

/// Plain syntax errors surface as the decode error, not as a panic.
#[test]
fn invalid_json_is_rejected() {
    assert_eq!(parse_state("not json").unwrap_err(), MessageError::JsonCouldntParse);
    assert_eq!(parse_node("").unwrap_err(), MessageError::JsonCouldntParse);
}

/// Split ratios arrive as decimal number text and are held in
/// thousandths, the fraction truncated after three digits.
#[test]
fn ratio_text_parses_to_thousandths() {
    assert_eq!(ratio_millis_from_text("0.52"), Some(520));
    assert_eq!(ratio_millis_from_text("0.5"), Some(500));
    assert_eq!(ratio_millis_from_text("1"), Some(1000));
    assert_eq!(ratio_millis_from_text("1.0"), Some(1000));
    assert_eq!(ratio_millis_from_text("0.123456"), Some(123));
    assert_eq!(ratio_millis_from_text("0"), Some(0));
    assert_eq!(ratio_millis_from_text("10.25"), Some(10250));
    assert_eq!(ratio_millis_from_text(""), None);
    assert_eq!(ratio_millis_from_text("."), None);
    assert_eq!(ratio_millis_from_text("0."), None);
    assert_eq!(ratio_millis_from_text(".5"), None);
    assert_eq!(ratio_millis_from_text("a.5"), None);
    assert_eq!(ratio_millis_from_text("0.5x"), None);
    assert_eq!(ratio_millis_from_text("-0.5"), None);
    assert_eq!(ratio_millis_from_text("1234567"), None);
}

/// The constraint keys are accepted in either spelling, snake or camel.
#[test]
fn constraint_keys_accept_both_spellings() {
    let doc = node_json(7, "null", "null")
        .replace("\"minWidth\":32,\"minHeight\":32", "\"min_width\":48,\"min_height\":24");
    let node = parse_node(&doc).unwrap();
    assert_eq!(node.constraints.min_width, 48);
    assert_eq!(node.constraints.min_height, 24);
    let camel = parse_node(&node_json(7, "null", "null")).unwrap();
    assert_eq!(camel.constraints.min_width, 32);
}

/// A ratio decodes from the node document through the number's text.
#[test]
fn ratio_decodes_from_document() {
    let doc = node_json(9, "null", "null").replace("0.52", "0.3333333333333333");
    let node = parse_node(&doc).unwrap();
    assert_eq!(node.split_ratio.thousandths, 333);
    let whole = node_json(9, "null", "null").replace("0.52", "1.0");
    assert_eq!(parse_node(&whole).unwrap().split_ratio.thousandths, 1000);
}

/// A leaf may host a client; the client's fields carry over.
#[test]
fn client_decodes_on_leaf() {
    let client = r#"{"borderWidth":2,"className":"Navigator","floatingRectangle":{"x":10,"y":20,"width":300,"height":200},"instanceName":"navigator","lastLayer":"normal","lastState":"tiled","layer":"above","shown":true,"state":"floating","tiledRectangle":{"x":0,"y":0,"width":800,"height":600},"urgent":false}"#;
    let doc = node_json(6, "null", "null").replace("\"client\":null", &format!("\"client\":{}", client));
    let node = parse_node(&doc).unwrap();
    let c = node.client.unwrap();
    assert_eq!(c.class_name, "Navigator");
    assert_eq!(c.state, bspwm_ipc::common::NodeState::Floating);
    assert_eq!(c.layer, bspwm_ipc::common::Layer::Above);
    assert_eq!(*c.get_geometry(), c.floating_rectangle);
}

/// An inner node carrying a client is malformed and refused.
#[test]
fn client_on_inner_node_is_rejected() {
    let client = r#"{"borderWidth":2,"className":"Navigator","floatingRectangle":{"x":10,"y":20,"width":300,"height":200},"instanceName":"navigator","lastLayer":"normal","lastState":"tiled","layer":"normal","shown":true,"state":"tiled","tiledRectangle":{"x":0,"y":0,"width":800,"height":600},"urgent":false}"#;
    let doc = node_json(
        1,
        &node_json(2, "null", "null"),
        &node_json(3, "null", "null"),
    )
    .replacen("\"client\":null", &format!("\"client\":{}", client), 1);
    assert_eq!(parse_node(&doc).unwrap_err(), MessageError::JsonCouldntParse);
}

/// A preselection decodes with its direction token and ratio.
#[test]
fn presel_decodes() {
    let doc = node_json(8, "null", "null").replace(
        "\"presel\":null",
        "\"presel\":{\"splitDir\":\"east\",\"splitRatio\":0.5}",
    );
    let node = parse_node(&doc).unwrap();
    let presel = node.presel.unwrap();
    assert_eq!(presel.split_dir, bspwm_ipc::reply::Direction::East);
    assert_eq!(presel.split_ratio.thousandths, 500);
}
