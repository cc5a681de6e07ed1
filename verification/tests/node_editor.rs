use animation_graph_editor::node_editor::{
    same_link_pins, AttributeFlags, ClickEffect, ClickInteractionType, ElementStateChange,
    FrameInput, GraphChange, InteractionState, LinkInfo, Modifier, ModifierKeys, NodeInfo,
    NodesContext, PinInfo, PinShape, PinType, IO,
};

fn keys(shift: bool) -> ModifierKeys {
    ModifierKeys { alt: false, ctrl: false, shift, command: false }
}

fn input(primary: bool) -> FrameInput {
    FrameInput {
        hovering: true,
        primary_down: primary,
        alt_button_down: false,
        modifiers: keys(false),
        delete_pressed: false,
    }
}

fn sample_context() -> NodesContext<()> {
    let mut ctx = NodesContext::<()>::new();
    ctx.nodes = vec![NodeInfo { id: 4, draggable: true }, NodeInfo { id: 5, draggable: false }];
    ctx.pins = vec![
        PinInfo { id: 10, kind: PinType::Output, flags: 0, parent_node_idx: 4 },
        PinInfo { id: 11, kind: PinType::Input, flags: 0, parent_node_idx: 5 },
        PinInfo { id: 12, kind: PinType::Input, flags: 0, parent_node_idx: 4 },
    ];
    ctx.links = vec![LinkInfo { id: 0, start_pin_index: 10, end_pin_index: 11 }];
    ctx
}

#[test]
fn modifier_activity() {
    assert!(Modifier::Shift.is_active(&keys(true)));
    assert!(!Modifier::Shift.is_active(&keys(false)));
    assert!(!Modifier::NoModifier.is_active(&keys(true)));
}

#[test]
fn click_drag_release_sequence() {
    let io = IO::default();
    let s0 = InteractionState::new();
    let s1 = s0.update(&input(true), &io);
    assert!(s1.left_mouse_clicked && !s1.left_mouse_dragging && !s1.left_mouse_released);
    let s2 = s1.update(&input(true), &io);
    assert!(!s2.left_mouse_clicked && s2.left_mouse_dragging && !s2.left_mouse_released);
    let s3 = s2.update(&input(false), &io);
    assert!(!s3.left_mouse_clicked && !s3.left_mouse_dragging && s3.left_mouse_released);
    let s4 = s3.update(&input(false), &io);
    assert!(!s4.left_mouse_released);
    assert!(s4.mouse_in_canvas);
}

#[test]
fn emulated_three_button_mouse_pans() {
    let io = IO { emulate_three_button_mouse: Modifier::Shift, link_detatch_with_modifier_click: Modifier::Crtl };
    let mut i = input(false);
    i.modifiers = keys(true);
    let s1 = InteractionState::new().update(&i, &io);
    assert!(s1.alt_mouse_clicked);
    let s2 = s1.update(&i, &io);
    assert!(s2.alt_mouse_dragging && !s2.alt_mouse_clicked);
}

#[test]
fn element_state_change_reset() {
    let mut c = ElementStateChange { link_started: true, link_dropped: true, link_created: true };
    c.reset();
    assert_eq!(c, ElementStateChange::new());
}

#[test]
fn flags_and_shapes() {
    assert_eq!(AttributeFlags::NoFlags.bits(), 0);
    assert_eq!(AttributeFlags::EnableLinkDetachWithDragClick.bits(), 1);
    assert_eq!(AttributeFlags::EnableLinkCreationOnSnap.bits(), 2);
    assert_eq!(PinShape::default(), PinShape::CircleFilled);
}

#[test]
fn links_with_the_same_pins_either_way() {
    let a = LinkInfo { id: 0, start_pin_index: 1, end_pin_index: 2 };
    let b = LinkInfo { id: 1, start_pin_index: 2, end_pin_index: 1 };
    let c = LinkInfo { id: 2, start_pin_index: 1, end_pin_index: 3 };
    assert!(same_link_pins(&a, &b));
    assert!(!same_link_pins(&a, &c));
}

#[test]
fn canvas_click_starts_box_selection_or_panning() {
    let mut ctx = sample_context();
    ctx.state.interaction_state.mouse_in_canvas = true;
    ctx.begin_canvas_interaction();
    assert_eq!(ctx.state.click_interaction_type, ClickInteractionType::BoxSelection);

    let mut ctx = sample_context();
    ctx.state.interaction_state.mouse_in_canvas = true;
    ctx.state.interaction_state.alt_mouse_clicked = true;
    ctx.begin_canvas_interaction();
    assert_eq!(ctx.state.click_interaction_type, ClickInteractionType::Panning);

    let mut ctx = sample_context();
    ctx.state.interaction_state.mouse_in_canvas = true;
    ctx.frame_state.hovered_node_index = Some(4);
    ctx.begin_canvas_interaction();
    assert_eq!(ctx.state.click_interaction_type, ClickInteractionType::Idle);
}

#[test]
fn node_selection_selects_alone_and_raises() {
    let mut ctx = sample_context();
    ctx.state.node_depth_order = vec![4, 5];
    ctx.state.selected_link_indices = vec![0];
    ctx.begin_node_selection(4);
    assert_eq!(ctx.state.click_interaction_type, ClickInteractionType::Node);
    assert_eq!(ctx.state.selected_node_indices, vec![4]);
    assert!(ctx.state.selected_link_indices.is_empty());
    assert_eq!(ctx.state.node_depth_order, vec![5, 4]);
}

#[test]
fn delete_reports_selected_elements() {
    let mut ctx = sample_context();
    ctx.state.selected_node_indices = vec![4];
    ctx.state.selected_link_indices = vec![0];
    ctx.state.interaction_state.delete_pressed = true;
    ctx.apply_delete();
    assert_eq!(ctx.frame_state.graph_changes.len(), 2);
    assert!(matches!(ctx.frame_state.graph_changes[0], GraphChange::NodeRemoved(4)));
    assert!(matches!(ctx.frame_state.graph_changes[1], GraphChange::LinkRemoved(0)));
    assert!(ctx.state.selected_node_indices.is_empty());
    assert!(ctx.state.selected_link_indices.is_empty());
}

#[test]
fn delete_without_key_changes_nothing() {
    let mut ctx = sample_context();
    ctx.state.selected_node_indices = vec![4];
    ctx.apply_delete();
    assert!(ctx.frame_state.graph_changes.is_empty());
    assert_eq!(ctx.state.selected_node_indices, vec![4]);
}

#[test]
fn created_link_is_reported_output_first() {
    let mut ctx = sample_context();
    ctx.frame_state.element_state_change.link_created = true;
    ctx.state.link_creation.start_pin_idx = 11;
    ctx.state.link_creation.end_pin_index = Some(10);
    assert_eq!(ctx.link_created(), Some((10, 11, false)));
    assert_eq!(ctx.link_created_node(), Some((10, 4, 11, 5, false)));
    ctx.frame_state.element_state_change.link_created = false;
    assert_eq!(ctx.link_created(), None);
}

#[test]
fn snapping_needs_other_node_and_other_kind() {
    let ctx = sample_context();
    let start = PinInfo { id: 10, kind: PinType::Output, flags: 0, parent_node_idx: 4 };
    assert!(ctx.should_link_snap_to_pin(&start, 11, None));
    // same node
    assert!(!ctx.should_link_snap_to_pin(&start, 12, None));
    // a duplicate link only allows snapping back onto the snapped link
    assert!(!ctx.should_link_snap_to_pin(&start, 11, Some(0)));
}

#[test]
fn duplicate_and_touching_links() {
    let ctx = sample_context();
    assert_eq!(ctx.find_duplicate_link(11, 10), Some(0));
    assert_eq!(ctx.find_duplicate_link(10, 12), None);
    assert_eq!(ctx.find_link_touching(11), Some(0));
    assert_eq!(ctx.find_link_touching(12), None);
    assert_eq!(ctx.find_pin(12).map(|p| p.parent_node_idx), Some(4));
    assert_eq!(ctx.find_node(5), Some(NodeInfo { id: 5, draggable: false }));
}

#[test]
fn link_detach_reports_removal() {
    let mut ctx = sample_context();
    ctx.begin_link_detach(0, 10);
    assert_eq!(ctx.state.link_creation.start_pin_idx, 11);
    assert_eq!(ctx.frame_state.deleted_link_idx, Some(0));
    assert!(matches!(ctx.frame_state.graph_changes[0], GraphChange::LinkRemoved(0)));
}

#[test]
fn depth_order_update_appends_new_nodes_below() {
    let mut ctx = sample_context();
    ctx.state.node_depth_order = vec![4, 9];
    ctx.update_depth_order(&vec![4, 5, 6]);
    // new nodes first, then the known ones that are still there
    assert_eq!(ctx.state.node_depth_order, vec![5, 6, 4]);
}

#[test]
fn panning_step_pans() {
    let mut ctx = sample_context();
    ctx.state.click_interaction_type = ClickInteractionType::Panning;
    ctx.state.interaction_state.alt_mouse_dragging = true;
    assert_eq!(ctx.panning_update(), ClickEffect::Pan);
    ctx.state.interaction_state.alt_mouse_dragging = false;
    ctx.state.interaction_state.alt_mouse_clicked = false;
    let _ = ctx.panning_update();
    assert_eq!(ctx.state.click_interaction_type, ClickInteractionType::Idle);
}

#[test]
fn queries_read_the_frame_and_the_selection() {
    let mut ctx = sample_context();
    assert_eq!(ctx.node_hovered(), None);
    ctx.frame_state.hovered_node_index = Some(5);
    ctx.frame_state.hovered_link_idx = Some(0);
    ctx.frame_state.hovered_pin_index = Some(11);
    ctx.frame_state.active_pin = Some(10);
    ctx.frame_state.deleted_link_idx = Some(0);
    assert_eq!(ctx.node_hovered(), Some(5));
    assert_eq!(ctx.link_hovered(), Some(0));
    assert_eq!(ctx.pin_hovered(), Some(11));
    assert_eq!(ctx.active_attribute(), Some(10));
    assert_eq!(ctx.link_destroyed(), Some(0));
    assert!(ctx.get_changes().is_empty());

    ctx.state.selected_node_indices = vec![5, 4];
    ctx.state.selected_link_indices = vec![0];
    assert_eq!(ctx.get_selected_nodes(), vec![5, 4]);
    assert_eq!(ctx.get_selected_links(), vec![0]);
    // the count reads the list of selected links
    assert_eq!(ctx.num_selected_nodes(), 1);
    ctx.clear_node_selection();
    assert!(ctx.get_selected_nodes().is_empty());
    assert_eq!(ctx.get_selected_links(), vec![0]);
    ctx.clear_link_selection();
    assert!(ctx.get_selected_links().is_empty());
}

#[test]
fn set_node_draggable_changes_only_that_node() {
    let mut ctx = sample_context();
    ctx.set_node_draggable(5, true);
    assert_eq!(ctx.nodes, vec![NodeInfo { id: 4, draggable: true }, NodeInfo { id: 5, draggable: true }]);
    ctx.set_node_draggable(4, false);
    assert_eq!(ctx.nodes, vec![NodeInfo { id: 4, draggable: false }, NodeInfo { id: 5, draggable: true }]);
}

#[test]
fn frame_start_sets_tables_and_depth_order() {
    let mut ctx = sample_context();
    ctx.state.node_depth_order = vec![5, 4];
    ctx.frame_state.hovered_node_index = Some(4);
    let nodes = vec![NodeInfo { id: 4, draggable: true }, NodeInfo { id: 7, draggable: true }, NodeInfo { id: 6, draggable: false }];
    let links = vec![LinkInfo { id: 3, start_pin_index: 10, end_pin_index: 12 }];
    ctx.begin_frame(nodes.clone(), vec![], links.clone());
    assert_eq!(ctx.nodes, nodes);
    assert_eq!(ctx.links, links);
    assert!(ctx.pins.is_empty());
    assert_eq!(ctx.frame_state.hovered_node_index, None);
    // new nodes first, in the order given, then the known ones
    assert_eq!(ctx.state.node_depth_order, vec![7, 6, 4]);
}

#[test]
fn depth_order_lists_each_node_once() {
    let mut ctx = sample_context();
    ctx.state.node_depth_order = vec![5, 4, 5];
    ctx.update_depth_order(&vec![4, 7, 7, 5, 4]);
    assert_eq!(ctx.state.node_depth_order, vec![7, 5, 4]);
    let nodes = vec![NodeInfo { id: 8, draggable: true }, NodeInfo { id: 8, draggable: false }];
    ctx.begin_frame(nodes, vec![], vec![]);
    assert_eq!(ctx.state.node_depth_order, vec![8]);
}

fn frame_input(delete: bool, hovering: bool) -> FrameInput {
    FrameInput { hovering, primary_down: false, alt_button_down: false, modifiers: keys(false), delete_pressed: delete }
}

#[test]
fn frame_reports_deletion_then_resolves_hover_by_precedence() {
    let mut ctx = sample_context();
    let (nodes, pins, links) = (ctx.nodes.clone(), ctx.pins.clone(), ctx.links.clone());
    ctx.state.selected_node_indices = vec![4];
    ctx.begin_frame(nodes.clone(), pins.clone(), links.clone());
    let effect = ctx.frame_interaction(&frame_input(true, true), &vec![10], Some(9), &vec![true], &vec![], &vec![]);
    assert_eq!(effect, ClickEffect::Nothing);
    assert_eq!(ctx.frame_state.graph_changes.len(), 1);
    assert!(matches!(ctx.frame_state.graph_changes[0], GraphChange::NodeRemoved(4)));
    assert!(ctx.state.selected_node_indices.is_empty());
    // a pin is hovered: no node, and the link touching that pin
    assert_eq!(ctx.frame_state.hovered_pin_index, Some(10));
    assert_eq!(ctx.frame_state.hovered_node_index, None);
    assert_eq!(ctx.frame_state.hovered_link_idx, Some(0));

    // no pin and no node under the pointer: the nearest link
    ctx.begin_frame(nodes.clone(), pins.clone(), links.clone());
    ctx.frame_interaction(&frame_input(false, true), &vec![], Some(9), &vec![true], &vec![], &vec![]);
    assert!(ctx.frame_state.graph_changes.is_empty());
    assert_eq!(ctx.frame_state.hovered_pin_index, None);
    assert_eq!(ctx.frame_state.hovered_link_idx, Some(9));

    // a node under the pointer: no link
    ctx.begin_frame(nodes.clone(), pins.clone(), links.clone());
    ctx.frame_state.node_indices_overlapping_with_mouse = vec![5];
    ctx.frame_interaction(&frame_input(false, true), &vec![], Some(9), &vec![true], &vec![], &vec![]);
    assert_eq!(ctx.frame_state.hovered_node_index, Some(5));
    assert_eq!(ctx.frame_state.hovered_link_idx, None);

    // pointer outside the canvas: nothing hovered
    ctx.begin_frame(nodes, pins, links);
    ctx.frame_interaction(&frame_input(false, false), &vec![10], Some(9), &vec![true], &vec![], &vec![]);
    assert_eq!(ctx.frame_state.hovered_pin_index, None);
    assert_eq!(ctx.frame_state.hovered_link_idx, None);
}

#[test]
fn frame_click_on_a_hovered_pin_starts_a_link() {
    let mut ctx = sample_context();
    let (nodes, pins, links) = (ctx.nodes.clone(), ctx.pins.clone(), ctx.links.clone());
    ctx.begin_frame(nodes, pins, links);
    let input = FrameInput { hovering: true, primary_down: true, alt_button_down: false, modifiers: keys(false), delete_pressed: false };
    ctx.frame_interaction(&input, &vec![12], None, &vec![true], &vec![], &vec![]);
    assert_eq!(ctx.frame_state.hovered_pin_index, Some(12));
    assert_eq!(ctx.state.click_interaction_type, ClickInteractionType::LinkCreation);
    assert_eq!(ctx.state.link_creation.start_pin_idx, 12);
    assert!(ctx.frame_state.graph_changes.is_empty());
}
