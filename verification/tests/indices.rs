use animation_graph_editor::fsm_indices::{
    make_fsm_indices, FsmIndices, StateIndices, StateMachineModel, TransitionIndices,
    TransitionModel,
};
use animation_graph_editor::graph_indices::{
    make_graph_indices, EdgeIndices, GraphIndices, GraphIoModel, GraphModel, NodeIndices,
    NodeIoModel, NodeModel, PinIndices,
};
use animation_graph_editor::pins::{GraphInputPin, NodeId, Pin, SourcePin, TargetPin};

fn s(x: &str) -> String {
    x.to_string()
}

pub fn sample_graph() -> GraphModel {
    let n = NodeId(7);
    GraphModel {
        nodes: vec![NodeModel {
            id: n,
            io: Some(NodeIoModel {
                input_data: vec![s("a")],
                output_data: vec![s("b")],
                input_times: vec![],
                has_output_time: true,
            }),
        }],
        io: GraphIoModel {
            input_data: vec![GraphInputPin::Passthrough(s("x"))],
            input_times: vec![],
            output_data: vec![s("out")],
            has_output_time: false,
        },
        edges: vec![
            (
                TargetPin::NodeData(n, s("a")),
                SourcePin::InputData(GraphInputPin::Passthrough(s("x"))),
            ),
            (TargetPin::OutputData(s("out")), SourcePin::NodeData(n, s("b"))),
        ],
    }
}

#[test]
fn state_indices_start_at_four_and_count_up() {
    let mut si = StateIndices::default();
    assert_eq!(si.add_mapping(s("idle")), 4);
    assert_eq!(si.add_mapping(s("run")), 5);
    assert_eq!(si.get_id("idle"), Some(4));
    assert_eq!(si.get_id("run"), Some(5));
    assert_eq!(si.get_id("jump"), None);
    assert_eq!(si.name(5), Some(&s("run")));
    assert_eq!(si.name(3), None);
    assert_eq!(si.name(6), None);
}

#[test]
fn state_registered_twice_keeps_both_ids() {
    let mut si = StateIndices::default();
    let first = si.add_mapping(s("idle"));
    let second = si.add_mapping(s("idle"));
    assert_eq!((first, second), (4, 5));
    // the name goes to its newest id, and the older id still names it
    assert_eq!(si.get_id("idle"), Some(5));
    assert_eq!(si.name(4), Some(&s("idle")));
    assert_eq!(si.name(5), Some(&s("idle")));
}

#[test]
fn transition_indices_from_zero() {
    let mut ti = TransitionIndices::default();
    ti.add_mapping(4, s("go"), 5);
    ti.add_mapping(5, s("back"), 4);
    assert_eq!(ti.id(4, s("go"), 5), Some(0));
    assert_eq!(ti.id(5, s("back"), 4), Some(1));
    assert_eq!(ti.id(5, s("go"), 4), None);
    assert_eq!(ti.edge(1), Some(&(5, s("back"), 4)));
    assert_eq!(ti.edge(2), None);
}

#[test]
fn node_pin_and_edge_indices() {
    let mut ni = NodeIndices::default();
    ni.add_mapping(NodeId(10));
    ni.add_mapping(NodeId(11));
    assert_eq!(ni.id(NodeId(11)), Some(5));
    assert_eq!(ni.name(4), Some(NodeId(10)));
    assert_eq!(ni.name(0), None);

    let mut pi = PinIndices::default();
    pi.add_mapping(Pin::Target(TargetPin::OutputTime));
    pi.add_mapping(Pin::Source(SourcePin::NodeTime(NodeId(10))));
    assert_eq!(pi.id(&Pin::Target(TargetPin::OutputTime)), Some(0));
    assert_eq!(pi.id(&Pin::Source(SourcePin::NodeTime(NodeId(10)))), Some(1));
    assert_eq!(pi.id(&Pin::Source(SourcePin::NodeTime(NodeId(11)))), None);
    assert_eq!(pi.pin(1), Some(&Pin::Source(SourcePin::NodeTime(NodeId(10)))));

    let mut ei = EdgeIndices::default();
    ei.add_mapping(1, 0);
    assert_eq!(ei.id(1, 0), Some(0));
    assert_eq!(ei.id(0, 1), None);
    assert_eq!(ei.edge(0), Some(&(1, 0)));
}

#[test]
fn graph_indices_of_sample_graph() {
    let gi = make_graph_indices(&sample_graph()).expect("all pins are known");
    let n = NodeId(7);
    assert_eq!(gi.node_indices.id(n), Some(4));
    assert_eq!(gi.pin_indices.id(&Pin::Target(TargetPin::NodeData(n, s("a")))), Some(0));
    assert_eq!(gi.pin_indices.id(&Pin::Source(SourcePin::NodeData(n, s("b")))), Some(1));
    assert_eq!(gi.pin_indices.id(&Pin::Source(SourcePin::NodeTime(n))), Some(2));
    assert_eq!(
        gi.pin_indices
            .id(&Pin::Source(SourcePin::InputData(GraphInputPin::Passthrough(s("x"))))),
        Some(3)
    );
    assert_eq!(gi.pin_indices.id(&Pin::Target(TargetPin::OutputData(s("out")))), Some(4));
    assert_eq!(gi.edge_indices.edge(0), Some(&(3, 0)));
    assert_eq!(gi.edge_indices.edge(1), Some(&(1, 4)));
    assert_eq!(
        gi.edge_ids(
            SourcePin::InputData(GraphInputPin::Passthrough(s("x"))),
            TargetPin::NodeData(n, s("a"))
        ),
        Some((0, 3, 0))
    );
    assert_eq!(
        gi.edge_ids(SourcePin::NodeData(n, s("b")), TargetPin::NodeData(n, s("a"))),
        None
    );
}

#[test]
fn built_edges_resolve_to_their_pins() {
    let gi = make_graph_indices(&sample_graph()).unwrap();
    let (e, src, tgt) = gi
        .edge_ids(SourcePin::NodeData(NodeId(7), s("b")), TargetPin::OutputData(s("out")))
        .unwrap();
    assert_eq!(gi.edge_indices.edge(e), Some(&(src, tgt)));
    assert_eq!(gi.pin_indices.pin(src), Some(&Pin::Source(SourcePin::NodeData(NodeId(7), s("b")))));
    assert_eq!(gi.pin_indices.pin(tgt), Some(&Pin::Target(TargetPin::OutputData(s("out")))));
}

#[test]
fn graph_indices_missing_spec_gives_none() {
    let mut g = sample_graph();
    g.nodes[0].io = None;
    assert!(make_graph_indices(&g).is_none());
}

#[test]
fn graph_indices_unknown_edge_pin_gives_none() {
    let mut g = sample_graph();
    g.edges.push((TargetPin::OutputTime, SourcePin::NodeTime(NodeId(7))));
    assert!(make_graph_indices(&g).is_none());
}

#[test]
fn empty_graph_indices() {
    let g = GraphModel {
        nodes: vec![],
        io: GraphIoModel {
            input_data: vec![],
            input_times: vec![],
            output_data: vec![],
            has_output_time: true,
        },
        edges: vec![],
    };
    let gi = make_graph_indices(&g).unwrap();
    assert_eq!(gi.pin_indices.id(&Pin::Target(TargetPin::OutputTime)), Some(0));
    assert_eq!(gi.edge_indices.edge(0), None);
    let fresh = GraphIndices::default();
    assert_eq!(fresh.pin_indices.pin(0), None);
}

fn sample_fsm() -> StateMachineModel {
    StateMachineModel {
        states: vec![s("idle"), s("run")],
        transitions: vec![
            TransitionModel { id: s("start"), source: s("idle"), target: s("run") },
            TransitionModel { id: s("stop"), source: s("run"), target: s("idle") },
        ],
    }
}

#[test]
fn fsm_indices_of_sample_fsm() {
    let fi = make_fsm_indices(&sample_fsm()).ok().expect("all states are known");
    assert_eq!(fi.state_indices.get_id("idle"), Some(4));
    assert_eq!(fi.state_indices.get_id("run"), Some(5));
    assert_eq!(fi.transition_indices.id(4, s("start"), 5), Some(0));
    assert_eq!(fi.transition_indices.id(5, s("stop"), 4), Some(1));
    assert_eq!(fi.transition_ids(s("run"), s("stop"), s("idle")), Some((1, 5, 4)));
    assert_eq!(fi.transition_ids(s("run"), s("start"), s("idle")), None);
    assert_eq!(fi.transition_ids(s("fly"), s("stop"), s("idle")), None);
}

#[test]
fn fsm_transition_ids_resolve() {
    let fi = make_fsm_indices(&sample_fsm()).ok().unwrap();
    let (t, a, b) = fi.transition_ids(s("idle"), s("start"), s("run")).unwrap();
    assert_eq!(fi.transition_indices.edge(t), Some(&(a, s("start"), b)));
    assert_eq!(fi.state_indices.name(a), Some(&s("idle")));
    assert_eq!(fi.state_indices.name(b), Some(&s("run")));
}

#[test]
fn fsm_indices_unknown_states_listed() {
    let mut fsm = sample_fsm();
    fsm.transitions.push(TransitionModel { id: s("fly"), source: s("idle"), target: s("air") });
    fsm.transitions.push(TransitionModel { id: s("land"), source: s("air"), target: s("idle") });
    match make_fsm_indices(&fsm) {
        Err(bad) => assert_eq!(bad, vec![s("fly"), s("land")]),
        Ok(_) => panic!("unknown states must be reported"),
    }
    let empty = FsmIndices::default();
    assert_eq!(empty.state_indices.get_id("idle"), None);
}
