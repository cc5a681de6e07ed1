use animation_graph_editor::graph_indices::{
    make_graph_indices, GraphIndices, GraphIoModel, GraphModel, NodeIoModel, NodeModel,
};
use animation_graph_editor::graph_repr::{NodeArgs, NodeConstructor, PinSpec};
use animation_graph_editor::style::PinStyleArgs;
use animation_graph_editor::graph_repr::{
    GraphInput, GraphReprModel, GraphReprSpec, NodeInput, NodeOutput, NodeReprModel,
};
use animation_graph_editor::node_editor::{PinShape, PinType};
use animation_graph_editor::pins::{GraphInputPin, NodeId, SourcePin, TargetPin};
use animation_graph_editor::style::{param_spec_to_colors, time_colors, DataSpec, Rgba};

fn s(x: &str) -> String {
    x.to_string()
}

fn index_model() -> GraphModel {
    let n = NodeId(7);
    GraphModel {
        nodes: vec![NodeModel {
            id: n,
            io: Some(NodeIoModel {
                input_data: vec![s("a")],
                output_data: vec![s("b")],
                input_times: vec![],
                has_output_time: true,
            }),
        }],
        io: GraphIoModel {
            input_data: vec![GraphInputPin::FromFsmSource(s("x"))],
            input_times: vec![],
            output_data: vec![s("out")],
            has_output_time: false,
        },
        edges: vec![
            (
                TargetPin::NodeData(n, s("a")),
                SourcePin::InputData(GraphInputPin::FromFsmSource(s("x"))),
            ),
            (TargetPin::OutputData(s("out")), SourcePin::NodeData(n, s("b"))),
        ],
    }
}

fn repr_model() -> GraphReprModel<(i32, i32), u8> {
    let n = NodeId(7);
    GraphReprModel {
        nodes: vec![NodeReprModel {
            id: n,
            name: s("blend"),
            subtitle: s("Blend"),
            origin: (10, 20),
            debug: 3,
            inputs: vec![NodeInput::Data(s("a"), DataSpec::Pose)],
            outputs: vec![NodeOutput::Data(s("b"), DataSpec::F32), NodeOutput::Time],
        }],
        inputs: vec![GraphInput::Data(GraphInputPin::FromFsmSource(s("x")), DataSpec::Pose)],
        outputs: vec![NodeOutput::Data(s("out"), DataSpec::F32)],
        input_position: (-100, 0),
        output_position: (100, 0),
        edges: vec![
            (
                TargetPin::NodeData(n, s("a")),
                SourcePin::InputData(GraphInputPin::FromFsmSource(s("x"))),
            ),
            (TargetPin::OutputData(s("out")), SourcePin::NodeData(n, s("b"))),
        ],
    }
}

fn indices() -> GraphIndices {
    make_graph_indices(&index_model()).expect("every pin is declared")
}

#[test]
fn graph_nodes_come_first_then_inputs_and_outputs() {
    let spec = GraphReprSpec::from_graph(&repr_model(), &indices()).expect("all known");
    assert_eq!(spec.nodes.len(), 3);

    let node = &spec.nodes[0];
    assert_eq!(node.id, 4);
    assert_eq!(node.name, "blend");
    assert_eq!(node.subtitle, "Blend");
    assert_eq!(node.origin, (10, 20));
    assert_eq!(node.debug, Some(3));
    assert_eq!(node.args.titlebar, None);
    let ids: Vec<usize> = node.attributes.iter().map(|p| p.id).collect();
    assert_eq!(ids, vec![0, 1, 2]);
    let kinds: Vec<PinType> = node.attributes.iter().map(|p| p.kind).collect();
    assert_eq!(kinds, vec![PinType::Input, PinType::Output, PinType::Output]);
    let names: Vec<&str> = node.attributes.iter().map(|p| p.name.as_str()).collect();
    assert_eq!(names, vec!["a", "b", "time"]);
    assert_eq!(node.attributes[0].style_args, param_spec_to_colors(DataSpec::Pose).0);
    assert_eq!(node.attributes[2].style_args.shape, Some(PinShape::TriangleFilled));
    assert_eq!(node.attributes[2].flags, 0);

    let input = &spec.nodes[1];
    assert_eq!(input.id, 0);
    assert_eq!(input.name, "Inputs");
    assert_eq!(input.origin, (-100, 0));
    assert_eq!(input.debug, None);
    assert_eq!(input.args.titlebar, Some(Rgba::opaque(67, 46, 35)));
    assert_eq!(input.args.titlebar_hovered, Some(Rgba::opaque(120, 102, 93)));
    assert_eq!(input.attributes.len(), 1);
    assert_eq!(input.attributes[0].id, 3);
    assert_eq!(input.attributes[0].kind, PinType::Output);
    assert_eq!(input.attributes[0].name, "src: x");

    let output = &spec.nodes[2];
    assert_eq!(output.id, 1);
    assert_eq!(output.name, "Outputs");
    assert_eq!(output.origin, (100, 0));
    assert_eq!(output.attributes.len(), 1);
    assert_eq!(output.attributes[0].id, 4);
    assert_eq!(output.attributes[0].kind, PinType::Input);
    assert_eq!(output.attributes[0].name, "out");
}

#[test]
fn links_take_their_ids_and_the_target_pin_colors() {
    let spec = GraphReprSpec::from_graph(&repr_model(), &indices()).unwrap();
    assert_eq!(spec.edges.len(), 2);
    assert_eq!(spec.edges[0].id, 0);
    assert_eq!(spec.edges[0].start_pin_index, 3);
    assert_eq!(spec.edges[0].end_pin_index, 0);
    assert_eq!(spec.edges[0].style, param_spec_to_colors(DataSpec::Pose).1);
    assert_eq!(spec.edges[0].style.thickness, Some(6));
    assert_eq!(spec.edges[1].id, 1);
    assert_eq!(spec.edges[1].start_pin_index, 1);
    assert_eq!(spec.edges[1].end_pin_index, 4);
    assert_eq!(spec.edges[1].style, param_spec_to_colors(DataSpec::F32).1);
    assert_eq!(spec.edges[1].style.thickness, None);
}

#[test]
fn time_links_use_the_time_colors() {
    let n = NodeId(7);
    let model = GraphModel {
        nodes: vec![NodeModel {
            id: n,
            io: Some(NodeIoModel {
                input_data: vec![],
                output_data: vec![],
                input_times: vec![s("t")],
                has_output_time: false,
            }),
        }],
        io: GraphIoModel {
            input_data: vec![],
            input_times: vec![GraphInputPin::Passthrough(s("clock"))],
            output_data: vec![],
            has_output_time: false,
        },
        edges: vec![(
            TargetPin::NodeTime(n, s("t")),
            SourcePin::InputTime(GraphInputPin::Passthrough(s("clock"))),
        )],
    };
    let gi = make_graph_indices(&model).unwrap();
    let repr: GraphReprModel<(i32, i32), u8> = GraphReprModel {
        nodes: vec![NodeReprModel {
            id: n,
            name: s("n"),
            subtitle: s(""),
            origin: (0, 0),
            debug: 0,
            inputs: vec![NodeInput::Time(s("t"))],
            outputs: vec![],
        }],
        inputs: vec![GraphInput::Time(GraphInputPin::Passthrough(s("clock")))],
        outputs: vec![],
        input_position: (0, 0),
        output_position: (0, 0),
        edges: vec![(
            TargetPin::NodeTime(n, s("t")),
            SourcePin::InputTime(GraphInputPin::Passthrough(s("clock"))),
        )],
    };
    let spec = GraphReprSpec::from_graph(&repr, &gi).unwrap();
    assert_eq!(spec.edges.len(), 1);
    assert_eq!(spec.edges[0].style, time_colors().1);
    assert_eq!(spec.nodes[1].attributes[0].name, "clock");
    assert_eq!(spec.nodes[1].attributes[0].style_args, time_colors().0);
}

#[test]
fn unknown_node_gives_none() {
    let mut repr = repr_model();
    repr.nodes[0].id = NodeId(8);
    repr.edges.clear();
    assert!(GraphReprSpec::from_graph(&repr, &indices()).is_none());
}

#[test]
fn unknown_pin_gives_none() {
    let mut repr = repr_model();
    repr.nodes[0].inputs.push(NodeInput::Data(s("extra"), DataSpec::Bool));
    assert!(GraphReprSpec::from_graph(&repr, &indices()).is_none());
}

#[test]
fn unknown_graph_output_gives_none() {
    let mut repr = repr_model();
    repr.outputs.push(NodeOutput::Time);
    assert!(GraphReprSpec::from_graph(&repr, &indices()).is_none());
}

#[test]
fn node_constructor_keeps_pins_in_order() {
    let args = NodeArgs { titlebar: None, titlebar_hovered: None, titlebar_selected: None };
    let pin = |id: usize, kind: PinType, name: &str| PinSpec {
        id,
        kind,
        name: name.to_string(),
        style_args: PinStyleArgs { background: None, hovered: None, shape: Some(PinShape::Circle) },
        flags: 0,
    };
    let n: NodeConstructor<(i32, i32)> = NodeConstructor::new(8, args);
    assert_eq!(n.id(), 8);
    assert!(n.attributes.is_empty());
    let n = n.with_attribute(pin(1, PinType::Input, "in")).with_attribute(pin(2, PinType::Output, "out")).with_origin((3, 4));
    assert_eq!(n.id(), 8);
    assert_eq!(n.attributes.len(), 2);
    assert_eq!(n.attributes[0].name, "in");
    assert_eq!(n.attributes[1].id, 2);
    assert_eq!(n.pos, Some((3, 4)));
    assert_eq!(n.args, args);
}
