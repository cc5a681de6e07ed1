use animation_graph_editor::fsm_indices::{make_fsm_indices, StateMachineModel, TransitionModel};
use animation_graph_editor::graph_indices::{
    make_graph_indices, GraphIoModel, GraphModel, NodeIoModel, NodeModel,
};
use animation_graph_editor::graph_update::{
    convert_fsm_change, convert_graph_change, fsm_indices_or_generate, graph_indices_or_generate,
    graph_input_pin_string, FsmAction, FsmChange, GraphAction,
};
use animation_graph_editor::node_editor::GraphChange;
use animation_graph_editor::pins::{GraphInputPin, NodeId, SourcePin, TargetPin};

fn s(x: &str) -> String {
    x.to_string()
}

fn graph() -> GraphModel {
    let n = NodeId(7);
    GraphModel {
        nodes: vec![NodeModel {
            id: n,
            io: Some(NodeIoModel {
                input_data: vec![s("a")],
                output_data: vec![s("b")],
                input_times: vec![],
                has_output_time: true,
            }),
        }],
        io: GraphIoModel {
            input_data: vec![GraphInputPin::Passthrough(s("x"))],
            input_times: vec![],
            output_data: vec![s("out")],
            has_output_time: false,
        },
        edges: vec![(
            TargetPin::NodeData(n, s("a")),
            SourcePin::InputData(GraphInputPin::Passthrough(s("x"))),
        )],
    }
}

#[test]
fn created_link_converts_to_its_pins() {
    let gi = make_graph_indices(&graph()).unwrap();
    match convert_graph_change(GraphChange::<()>::LinkCreated(1, 0), &gi, "g") {
        GraphAction::CreateLink(c) => {
            assert_eq!(c.graph, "g");
            assert_eq!(c.source, SourcePin::NodeData(NodeId(7), s("b")));
            assert_eq!(c.target, TargetPin::NodeData(NodeId(7), s("a")));
        }
        _ => panic!("a link creation"),
    }
}

#[test]
fn edge_ids_convert_back_to_the_edge() {
    let gi = make_graph_indices(&graph()).unwrap();
    let source = SourcePin::InputData(GraphInputPin::Passthrough(s("x")));
    let target = TargetPin::NodeData(NodeId(7), s("a"));
    let (e, sp, tp) = gi.edge_ids(source.clone(), target.clone()).unwrap();
    match convert_graph_change(GraphChange::<()>::LinkCreated(sp, tp), &gi, 0u8) {
        GraphAction::CreateLink(c) => {
            assert_eq!(c.source, source);
            assert_eq!(c.target, target);
        }
        _ => panic!("a link creation"),
    }
    match convert_graph_change(GraphChange::<()>::LinkRemoved(e), &gi, 0u8) {
        GraphAction::RemoveLink(c) => assert_eq!(c.target, target),
        _ => panic!("a link removal"),
    }
}

#[test]
fn moving_and_removing_nodes() {
    let gi = make_graph_indices(&graph()).unwrap();
    assert!(matches!(convert_graph_change(GraphChange::NodeMoved(0, (1, 2)), &gi, ()), GraphAction::MoveInput(m) if m.new_pos == (1, 2)));
    assert!(matches!(convert_graph_change(GraphChange::NodeMoved(1, (3, 4)), &gi, ()), GraphAction::MoveOutput(m) if m.new_pos == (3, 4)));
    assert!(matches!(convert_graph_change(GraphChange::NodeMoved(4, (5, 6)), &gi, ()), GraphAction::MoveNode(m) if m.node == NodeId(7)));
    assert!(matches!(convert_graph_change(GraphChange::<()>::NodeRemoved(4), &gi, ()), GraphAction::RemoveNode(m) if m.node == NodeId(7)));
    assert!(matches!(convert_graph_change(GraphChange::<()>::NodeRemoved(1), &gi, ()), GraphAction::Noop));
}

#[test]
fn fsm_changes_convert_to_names() {
    let fsm = StateMachineModel {
        states: vec![s("idle"), s("run")],
        transitions: vec![TransitionModel { id: s("go"), source: s("idle"), target: s("run") }],
    };
    let fi = make_fsm_indices(&fsm).ok().unwrap();
    match convert_fsm_change(FsmChange::StateMoved(5, 9), &fi, "f") {
        Some(FsmAction::MoveState(m)) => {
            assert_eq!(m.state_id, "run");
            assert_eq!(m.new_pos, 9);
            assert_eq!(m.fsm, "f");
        }
        _ => panic!("a state move"),
    }
    let (t, _, _) = fi.transition_ids(s("idle"), s("go"), s("run")).unwrap();
    match convert_fsm_change(FsmChange::<()>::TransitionRemoved(t), &fi, "f") {
        Some(FsmAction::RemoveTransition(m)) => assert_eq!(m.transition_id, "go"),
        _ => panic!("a transition removal"),
    }
    assert!(matches!(convert_fsm_change(FsmChange::<()>::StateRemoved(4), &fi, "f"), Some(FsmAction::RemoveState(m)) if m.state_id == "idle"));
    assert!(convert_fsm_change(FsmChange::<()>::TransitionCreated(4, 5), &fi, "f").is_none());
}

#[test]
fn input_pin_labels() {
    assert_eq!(graph_input_pin_string(&GraphInputPin::Passthrough(s("speed"))), "speed");
    assert_eq!(graph_input_pin_string(&GraphInputPin::FromFsmSource(s("pose"))), "src: pose");
    assert_eq!(graph_input_pin_string(&GraphInputPin::FromFsmTarget(s("pose"))), "tgt: pose");
    assert_eq!(graph_input_pin_string(&GraphInputPin::FsmBuiltin(s("time"))), "fsm: time");
}

#[test]
fn missing_tables_are_queued_for_generation() {
    let mut actions: Vec<GraphAction<u32, (i32, i32)>> = Vec::new();
    assert!(graph_indices_or_generate(7u32, None, &mut actions).is_none());
    assert_eq!(actions.len(), 1);
    assert!(matches!(&actions[0], GraphAction::GenerateIndices(g) if g.graph == 7));
    let gi = make_graph_indices(&GraphModel {
        nodes: vec![],
        io: GraphIoModel { input_data: vec![], input_times: vec![], output_data: vec![], has_output_time: false },
        edges: vec![],
    })
    .unwrap();
    assert!(graph_indices_or_generate(7u32, Some(&gi), &mut actions).is_some());
    assert_eq!(actions.len(), 1);
    let mut fsm_actions: Vec<FsmAction<u32, (i32, i32)>> = Vec::new();
    assert!(fsm_indices_or_generate(3u32, None, &mut fsm_actions).is_none());
    assert!(matches!(&fsm_actions[0], FsmAction::GenerateIndices(g) if g.fsm == 3));
}
