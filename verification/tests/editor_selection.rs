use animation_graph_editor::editor_selection::{autoselect_context, last_selected_node, InspectorSelection};
use animation_graph_editor::pins::NodeId;

#[test]
fn context_is_kept_or_the_first_available() {
    assert_eq!(autoselect_context(Some(3u32), &vec![1, 2]), Some(3));
    assert_eq!(autoselect_context(None, &vec![1u32, 2]), Some(1));
    assert_eq!(autoselect_context(None::<u32>, &vec![]), None);
}

#[test]
fn last_selected_graph_node_skips_input_and_output() {
    assert_eq!(last_selected_node(&vec![5, 7, 1, 0]), Some(7));
    assert_eq!(last_selected_node(&vec![0, 1]), None);
    assert_eq!(last_selected_node(&vec![]), None);
    assert_eq!(last_selected_node(&vec![2]), Some(2));
}

fn node_of(s: &InspectorSelection<u128>) -> Option<(u128, u128, String)> {
    match s {
        InspectorSelection::Node { graph, node, name_buf, .. } => Some((*graph, node.0, name_buf.clone())),
        _ => None,
    }
}

#[test]
fn inspector_follows_the_selected_node() {
    let mut sel: InspectorSelection<u128> = InspectorSelection::Nothing;
    sel.inspect_graph_node(1, NodeId(9), "blend".to_string(), false);
    assert!(matches!(sel, InspectorSelection::Nothing));
    sel.inspect_graph_node(1, NodeId(9), "blend".to_string(), true);
    assert_eq!(node_of(&sel), Some((1, 9, "blend".to_string())));

    // a rename in progress survives while the same node stays selected
    sel = InspectorSelection::Node { graph: 1, node: NodeId(9), name_buf: "blend2".to_string(), selected_pin_id: None };
    sel.inspect_graph_node(1, NodeId(9), "blend".to_string(), false);
    assert_eq!(node_of(&sel), Some((1, 9, "blend2".to_string())));
    sel.inspect_graph_node(1, NodeId(4), "clip".to_string(), false);
    assert_eq!(node_of(&sel), Some((1, 4, "clip".to_string())));

    let mut sel: InspectorSelection<u128> = InspectorSelection::Graph;
    sel.inspect_fsm_state(2, "idle".to_string(), true);
    assert!(matches!(&sel, InspectorSelection::FsmState { fsm: 2, state } if state == "idle"));
    sel.inspect_fsm_transition(2, "go".to_string(), false);
    assert!(matches!(&sel, InspectorSelection::FsmState { .. }));
    sel.inspect_fsm_transition(2, "go".to_string(), true);
    assert!(matches!(&sel, InspectorSelection::FsmTransition { fsm: 2, transition } if transition == "go"));
}

fn pin_of(s: &InspectorSelection<u128>) -> Option<String> {
    match s {
        InspectorSelection::Node { selected_pin_id, .. } => selected_pin_id.clone(),
        _ => None,
    }
}

#[test]
fn debug_pin_stays_when_the_node_changes() {
    let mut sel: InspectorSelection<u128> = InspectorSelection::Nothing;
    sel.pick_debug_pin("out".to_string());
    assert!(matches!(sel, InspectorSelection::Nothing));
    sel.inspect_graph_node(1, NodeId(9), "blend".to_string(), true);
    assert_eq!(pin_of(&sel), None);
    sel.pick_debug_pin("pose".to_string());
    assert_eq!(pin_of(&sel), Some("pose".to_string()));
    sel.inspect_graph_node(1, NodeId(9), "blend".to_string(), false);
    assert_eq!(pin_of(&sel), Some("pose".to_string()));
    sel.pick_debug_pin(String::new());
    assert_eq!(pin_of(&sel), None);
    sel.pick_debug_pin("pose".to_string());
    // following another node keeps the pin picked
    sel.inspect_graph_node(1, NodeId(4), "clip".to_string(), false);
    assert_eq!(node_of(&sel), Some((1, 4, "clip".to_string())));
    assert_eq!(pin_of(&sel), Some("pose".to_string()));
    // a node that replaces another kind of selection starts with none
    let mut other: InspectorSelection<u128> = InspectorSelection::Graph;
    other.inspect_graph_node(1, NodeId(4), "clip".to_string(), true);
    assert_eq!(pin_of(&other), None);
}
