//! What the node editor is given to show a graph: a node for each graph
//! node with its pins (inputs first, then outputs, each in the order the
//! node's specification sorts them), the input and output nodes of the
//! graph as editor nodes 0 and 1, and a link for each edge, all under the
//! ids of the graph's index tables.
use vstd::prelude::*;
use crate::graph_indices::{
    graph_node_keys, graph_pin_keys, graph_specs_available, io_pin_keys, law_edge_ids_resolve, node_pin_keys,
    nodes_pin_keys, GraphIndices, GraphModel, NodeModel,
};
use crate::registry::last_position;
use crate::registry::law_key_id_resolves_to_key;
use crate::graph_update::{graph_input_pin_string, input_pin_label};
use crate::node_editor::PinType;
use crate::pins::{
    GraphInputPin, GraphInputPinView, NodeId, Pin, PinView, SourcePin, SourcePinView, TargetPin,
    TargetPinView,
};
use crate::registry::RegistryKey;
use crate::style::{
    data_link_style, data_pin_style, param_spec_to_colors, rgb, time_colors, time_link_style,
    time_pin_style, DataSpec, LinkStyleArgs, PinStyleArgs, Rgba,
};

verus! {

/// An input of a node, as its specification sorts them.
#[derive(Debug, Clone)]
pub enum NodeInput {
    Time(String),
    Data(String, DataSpec),
}

/// An output of a node, as its specification sorts them.
#[derive(Debug, Clone)]
pub enum NodeOutput {
    Time,
    Data(String, DataSpec),
}

/// An input of the graph as a whole.
#[derive(Debug, Clone)]
pub enum GraphInput {
    Time(GraphInputPin),
    Data(GraphInputPin, DataSpec),
}

/// A node of a graph as the editor shows it: its position `origin` and
/// its run-time state `debug` are the caller's.
pub struct NodeReprModel<P, D> {
    pub id: NodeId,
    pub name: String,
    pub subtitle: String,
    pub origin: P,
    pub debug: D,
    pub inputs: Vec<NodeInput>,
    pub outputs: Vec<NodeOutput>,
}

/// A graph as the editor shows it.
pub struct GraphReprModel<P, D> {
    pub nodes: Vec<NodeReprModel<P, D>>,
    pub inputs: Vec<GraphInput>,
    pub outputs: Vec<NodeOutput>,
    pub input_position: P,
    pub output_position: P,
    /// Each edge as (target, source).
    pub edges: Vec<(TargetPin, SourcePin)>,
}

/// A pin of an editor node.
#[derive(Debug, Clone)]
pub struct PinSpec {
    pub id: usize,
    pub kind: PinType,
    pub name: String,
    pub style_args: PinStyleArgs,
    pub flags: usize,
}

/// The title bar colors of an editor node; `None` leaves them to the style.
#[derive(Debug, Clone, Copy, PartialEq, Eq, Structural)]
pub struct NodeArgs {
    pub titlebar: Option<Rgba>,
    pub titlebar_hovered: Option<Rgba>,
    pub titlebar_selected: Option<Rgba>,
}

/// A node of the editor.
pub struct NodeSpec<P, D> {
    pub id: usize,
    pub name: String,
    pub subtitle: String,
    pub origin: P,
    pub attributes: Vec<PinSpec>,
    pub args: NodeArgs,
    /// The run-time state shown, for graph nodes.
    pub debug: Option<D>,
}

/// A node being put together for the editor: its id, its pins in the
/// order added, where it first appears, and its title bar colors. (Its
/// title is drawn by the caller.)
pub struct NodeConstructor<P> {
    pub id: usize,
    pub attributes: Vec<PinSpec>,
    pub pos: Option<P>,
    pub args: NodeArgs,
}

impl<P> NodeConstructor<P> {
    /// A node with id `id` and colors `args`, with no pins and no place yet.
    pub fn new(id: usize, args: NodeArgs) -> (r: Self)
        ensures
            r.id == id,
            r.args == args,
            r.attributes@.len() == 0,
            r.pos is None,
    {
        NodeConstructor { id, attributes: Vec::new(), pos: None, args }
    }

    /// The node with the pin `pin_spec` added after its other pins.
    pub fn with_attribute(self, pin_spec: PinSpec) -> (r: Self)
        ensures
            r.id == self.id,
            r.args == self.args,
            r.pos == self.pos,
            r.attributes@ == self.attributes@.push(pin_spec),
    {
        let mut s = self;
        s.attributes.push(pin_spec);
        s
    }

    /// The node placed at `origin` when it is first created.
    pub fn with_origin(self, origin: P) -> (r: Self)
        ensures
            r.id == self.id,
            r.args == self.args,
            r.attributes@ == self.attributes@,
            r.pos == Some(origin),
    {
        let mut s = self;
        s.pos = Some(origin);
        s
    }

    pub fn id(&self) -> (r: usize)
        ensures
            r == self.id,
    {
        self.id
    }
}

/// A link of the editor.
#[derive(Debug, Clone, Copy)]
pub struct LinkSpec {
    pub id: usize,
    pub start_pin_index: usize,
    pub end_pin_index: usize,
    pub style: LinkStyleArgs,
}

/// What the editor is given for a graph.
pub struct GraphReprSpec<P, D> {
    pub nodes: Vec<NodeSpec<P, D>>,
    pub edges: Vec<LinkSpec>,
}

// ------------------------------------------------------------- specs

pub open spec fn input_key(node: u128, i: NodeInput) -> PinView {
    match i {
        NodeInput::Time(n) => PinView::Target(TargetPinView::NodeTime(node, n@)),
        NodeInput::Data(n, _) => PinView::Target(TargetPinView::NodeData(node, n@)),
    }
}

pub open spec fn input_name(i: NodeInput) -> Seq<char> {
    match i {
        NodeInput::Time(n) => n@,
        NodeInput::Data(n, _) => n@,
    }
}

pub open spec fn input_style(i: NodeInput) -> PinStyleArgs {
    match i {
        NodeInput::Time(_) => time_pin_style(),
        NodeInput::Data(_, s) => data_pin_style(s),
    }
}

pub open spec fn output_key(node: u128, o: NodeOutput) -> PinView {
    match o {
        NodeOutput::Time => PinView::Source(SourcePinView::NodeTime(node)),
        NodeOutput::Data(n, _) => PinView::Source(SourcePinView::NodeData(node, n@)),
    }
}

pub open spec fn output_name(o: NodeOutput) -> Seq<char> {
    match o {
        NodeOutput::Time => "time"@,
        NodeOutput::Data(n, _) => n@,
    }
}

pub open spec fn output_style(o: NodeOutput) -> PinStyleArgs {
    match o {
        NodeOutput::Time => time_pin_style(),
        NodeOutput::Data(_, s) => data_pin_style(s),
    }
}

pub open spec fn graph_input_key(i: GraphInput) -> PinView {
    match i {
        GraphInput::Time(p) => PinView::Source(SourcePinView::InputTime(p@)),
        GraphInput::Data(p, _) => PinView::Source(SourcePinView::InputData(p@)),
    }
}

pub open spec fn graph_input_name(i: GraphInput) -> Seq<char> {
    match i {
        GraphInput::Time(p) => input_pin_label(p@),
        GraphInput::Data(p, _) => input_pin_label(p@),
    }
}

pub open spec fn graph_input_style(i: GraphInput) -> PinStyleArgs {
    match i {
        GraphInput::Time(_) => time_pin_style(),
        GraphInput::Data(_, s) => data_pin_style(s),
    }
}

pub open spec fn graph_output_key(o: NodeOutput) -> PinView {
    match o {
        NodeOutput::Time => PinView::Target(TargetPinView::OutputTime),
        NodeOutput::Data(n, _) => PinView::Target(TargetPinView::OutputData(n@)),
    }
}

/// `p` is the pin with id `id`, of kind `kind`, named `name`, drawn with
/// `style`, without flags.
pub open spec fn pin_spec_is(p: PinSpec, id: nat, kind: PinType, name: Seq<char>, style: PinStyleArgs) -> bool {
    &&& p.id == id
    &&& p.kind == kind
    &&& p.name@ == name
    &&& p.style_args == style
    &&& p.flags == 0
}

/// Every pin of the node `node` with these inputs and outputs is known.
pub open spec fn node_pins_known(node: u128, inputs: Seq<NodeInput>, outputs: Seq<NodeOutput>, pins: Map<PinView, nat>) -> bool {
    &&& forall|k: int| 0 <= k < inputs.len() ==> pins.contains_key(input_key(node, #[trigger] inputs[k]))
    &&& forall|k: int| 0 <= k < outputs.len() ==> pins.contains_key(output_key(node, #[trigger] outputs[k]))
}

/// The pins of the editor node for the node `node`: its inputs, then its
/// outputs, under their ids.
pub open spec fn node_attributes_are(attrs: Seq<PinSpec>, node: u128, inputs: Seq<NodeInput>, outputs: Seq<NodeOutput>, pins: Map<PinView, nat>) -> bool {
    &&& attrs.len() == inputs.len() + outputs.len()
    &&& forall|k: int| 0 <= k < inputs.len() ==> pin_spec_is(#[trigger] attrs[k], pins[input_key(node, inputs[k])], PinType::Input, input_name(inputs[k]), input_style(inputs[k]))
    &&& forall|k: int| 0 <= k < outputs.len() ==> pin_spec_is(#[trigger] attrs[inputs.len() + k], pins[output_key(node, outputs[k])], PinType::Output, output_name(outputs[k]), output_style(outputs[k]))
}

/// The node and its pins are all known to the index tables.
pub open spec fn node_known<P, D>(n: NodeReprModel<P, D>, gi: GraphIndices) -> bool {
    &&& gi.node_indices.id_map().contains_key(n.id@)
    &&& node_pins_known(n.id@, n.inputs@, n.outputs@, gi.pin_indices.id_map())
}

/// `s` is the editor node for the graph node `n`.
pub open spec fn node_spec_is<P, D>(s: NodeSpec<P, D>, n: NodeReprModel<P, D>, gi: GraphIndices) -> bool {
    &&& s.id == gi.node_indices.id_map()[n.id@]
    &&& s.name@ == n.name@
    &&& s.subtitle@ == n.subtitle@
    &&& s.origin == n.origin
    &&& s.debug == Some(n.debug)
    &&& s.args == no_node_args()
    &&& node_attributes_are(s.attributes@, n.id@, n.inputs@, n.outputs@, gi.pin_indices.id_map())
}

/// No title bar colors of its own.
pub open spec fn no_node_args() -> NodeArgs {
    NodeArgs { titlebar: None, titlebar_hovered: None, titlebar_selected: None }
}

/// The brown title bar of the graph's input and output nodes.
pub open spec fn io_node_args() -> NodeArgs {
    NodeArgs {
        titlebar: Some(rgb(67, 46, 35)),
        titlebar_hovered: Some(rgb(120, 102, 93)),
        titlebar_selected: Some(rgb(120, 102, 93)),
    }
}

/// The graph's inputs and outputs are all known to the index tables.
pub open spec fn io_known<P, D>(g: GraphReprModel<P, D>, gi: GraphIndices) -> bool {
    &&& forall|k: int| 0 <= k < g.inputs@.len() ==> gi.pin_indices.id_map().contains_key(graph_input_key(#[trigger] g.inputs@[k]))
    &&& forall|k: int| 0 <= k < g.outputs@.len() ==> gi.pin_indices.id_map().contains_key(graph_output_key(#[trigger] g.outputs@[k]))
}

/// `s` is editor node 0, the graph's inputs, each an output pin.
pub open spec fn input_node_is<P, D>(s: NodeSpec<P, D>, g: GraphReprModel<P, D>, gi: GraphIndices) -> bool {
    &&& s.id == 0
    &&& s.name@ == "Inputs"@
    &&& s.subtitle@ == Seq::<char>::empty()
    &&& s.origin == g.input_position
    &&& s.debug is None
    &&& s.args == io_node_args()
    &&& s.attributes@.len() == g.inputs@.len()
    &&& forall|k: int| 0 <= k < g.inputs@.len() ==> pin_spec_is(#[trigger] s.attributes@[k], gi.pin_indices.id_map()[graph_input_key(g.inputs@[k])], PinType::Output, graph_input_name(g.inputs@[k]), graph_input_style(g.inputs@[k]))
}

/// `s` is editor node 1, the graph's outputs, each an input pin.
pub open spec fn output_node_is<P, D>(s: NodeSpec<P, D>, g: GraphReprModel<P, D>, gi: GraphIndices) -> bool {
    &&& s.id == 1
    &&& s.name@ == "Outputs"@
    &&& s.subtitle@ == Seq::<char>::empty()
    &&& s.origin == g.output_position
    &&& s.debug is None
    &&& s.args == io_node_args()
    &&& s.attributes@.len() == g.outputs@.len()
    &&& forall|k: int| 0 <= k < g.outputs@.len() ==> pin_spec_is(#[trigger] s.attributes@[k], gi.pin_indices.id_map()[graph_output_key(g.outputs@[k])], PinType::Input, output_name(g.outputs@[k]), output_style(g.outputs@[k]))
}

// ------------------------------------------------------------- pins

fn input_pin_spec(node: NodeId, input: &NodeInput, gi: &GraphIndices) -> (r: Option<PinSpec>)
    requires
        gi.wf(),
    ensures
        r is Some <==> gi.pin_indices.id_map().contains_key(input_key(node@, *input)),
        r matches Some(p) ==> pin_spec_is(p, gi.pin_indices.id_map()[input_key(node@, *input)], PinType::Input, input_name(*input), input_style(*input)),
{
    let (pin, name, style) = match input {
        NodeInput::Time(n) => (Pin::Target(TargetPin::NodeTime(node, n.duplicate())), n.duplicate(), time_colors().0),
        NodeInput::Data(n, s) => (Pin::Target(TargetPin::NodeData(node, n.duplicate())), n.duplicate(), param_spec_to_colors(*s).0),
    };
    match gi.pin_indices.id(&pin) {
        Some(id) => Some(PinSpec { id, kind: PinType::Input, name, style_args: style, flags: 0 }),
        None => None,
    }
}

fn output_pin_spec(node: NodeId, output: &NodeOutput, gi: &GraphIndices) -> (r: Option<PinSpec>)
    requires
        gi.wf(),
    ensures
        r is Some <==> gi.pin_indices.id_map().contains_key(output_key(node@, *output)),
        r matches Some(p) ==> pin_spec_is(p, gi.pin_indices.id_map()[output_key(node@, *output)], PinType::Output, output_name(*output), output_style(*output)),
{
    let (pin, name, style) = match output {
        NodeOutput::Time => (Pin::Source(SourcePin::NodeTime(node)), "time".to_owned(), time_colors().0),
        NodeOutput::Data(n, s) => (Pin::Source(SourcePin::NodeData(node, n.duplicate())), n.duplicate(), param_spec_to_colors(*s).0),
    };
    match gi.pin_indices.id(&pin) {
        Some(id) => Some(PinSpec { id, kind: PinType::Output, name, style_args: style, flags: 0 }),
        None => None,
    }
}

/// The editor node for one graph node, when it and its pins are known.
fn node_spec<P: Copy, D: Copy>(n: &NodeReprModel<P, D>, gi: &GraphIndices) -> (r: Option<NodeSpec<P, D>>)
    requires
        gi.wf(),
    ensures
        r is Some <==> node_known(*n, *gi),
        r matches Some(s) ==> node_spec_is(s, *n, *gi),
{
    let id = match gi.node_indices.id(n.id) {
        Some(id) => id,
        None => return None,
    };
    let mut attributes: Vec<PinSpec> = Vec::new();
    let mut i: usize = 0;
    while i < n.inputs.len()
        invariant
            gi.wf(),
            i <= n.inputs.len(),
            attributes@.len() == i,
            forall|k: int| 0 <= k < i ==> gi.pin_indices.id_map().contains_key(input_key(n.id@, #[trigger] n.inputs@[k])),
            forall|k: int| 0 <= k < i ==> pin_spec_is(#[trigger] attributes@[k], gi.pin_indices.id_map()[input_key(n.id@, n.inputs@[k])], PinType::Input, input_name(n.inputs@[k]), input_style(n.inputs@[k])),
        decreases n.inputs.len() - i,
    {
        match input_pin_spec(n.id, &n.inputs[i], gi) {
            Some(p) => attributes.push(p),
            None => return None,
        }
        i = i + 1;
    }
    let mut j: usize = 0;
    while j < n.outputs.len()
        invariant
            gi.wf(),
            j <= n.outputs.len(),
            attributes@.len() == n.inputs@.len() + j,
            forall|k: int| 0 <= k < n.inputs@.len() ==> gi.pin_indices.id_map().contains_key(input_key(n.id@, #[trigger] n.inputs@[k])),
            forall|k: int| 0 <= k < n.inputs@.len() ==> pin_spec_is(#[trigger] attributes@[k], gi.pin_indices.id_map()[input_key(n.id@, n.inputs@[k])], PinType::Input, input_name(n.inputs@[k]), input_style(n.inputs@[k])),
            forall|k: int| 0 <= k < j ==> gi.pin_indices.id_map().contains_key(output_key(n.id@, #[trigger] n.outputs@[k])),
            forall|k: int| 0 <= k < j ==> pin_spec_is(#[trigger] attributes@[n.inputs@.len() + k], gi.pin_indices.id_map()[output_key(n.id@, n.outputs@[k])], PinType::Output, output_name(n.outputs@[k]), output_style(n.outputs@[k])),
        decreases n.outputs.len() - j,
    {
        match output_pin_spec(n.id, &n.outputs[j], gi) {
            Some(p) => attributes.push(p),
            None => return None,
        }
        j = j + 1;
    }
    Some(NodeSpec {
        id,
        name: n.name.clone(),
        subtitle: n.subtitle.clone(),
        origin: n.origin,
        attributes,
        args: NodeArgs { titlebar: None, titlebar_hovered: None, titlebar_selected: None },
        debug: Some(n.debug),
    })
}


fn graph_input_pin_spec(input: &GraphInput, gi: &GraphIndices) -> (r: Option<PinSpec>)
    requires
        gi.wf(),
    ensures
        r is Some <==> gi.pin_indices.id_map().contains_key(graph_input_key(*input)),
        r matches Some(p) ==> pin_spec_is(p, gi.pin_indices.id_map()[graph_input_key(*input)], PinType::Output, graph_input_name(*input), graph_input_style(*input)),
{
    let (pin, name, style) = match input {
        GraphInput::Time(p) => (Pin::Source(SourcePin::InputTime(p.duplicate())), graph_input_pin_string(p), time_colors().0),
        GraphInput::Data(p, s) => (Pin::Source(SourcePin::InputData(p.duplicate())), graph_input_pin_string(p), param_spec_to_colors(*s).0),
    };
    match gi.pin_indices.id(&pin) {
        Some(id) => Some(PinSpec { id, kind: PinType::Output, name, style_args: style, flags: 0 }),
        None => None,
    }
}

fn graph_output_pin_spec(output: &NodeOutput, gi: &GraphIndices) -> (r: Option<PinSpec>)
    requires
        gi.wf(),
    ensures
        r is Some <==> gi.pin_indices.id_map().contains_key(graph_output_key(*output)),
        r matches Some(p) ==> pin_spec_is(p, gi.pin_indices.id_map()[graph_output_key(*output)], PinType::Input, output_name(*output), output_style(*output)),
{
    let (pin, name, style) = match output {
        NodeOutput::Time => (Pin::Target(TargetPin::OutputTime), "time".to_owned(), time_colors().0),
        NodeOutput::Data(n, s) => (Pin::Target(TargetPin::OutputData(n.duplicate())), n.duplicate(), param_spec_to_colors(*s).0),
    };
    match gi.pin_indices.id(&pin) {
        Some(id) => Some(PinSpec { id, kind: PinType::Input, name, style_args: style, flags: 0 }),
        None => None,
    }
}

fn io_titlebar() -> (a: NodeArgs)
    ensures
        a == io_node_args(),
{
    NodeArgs {
        titlebar: Some(Rgba::opaque(67, 46, 35)),
        titlebar_hovered: Some(Rgba::opaque(120, 102, 93)),
        titlebar_selected: Some(Rgba::opaque(120, 102, 93)),
    }
}

/// Editor node 0: the graph's inputs.
fn input_node<P: Copy, D: Copy>(g: &GraphReprModel<P, D>, gi: &GraphIndices) -> (r: Option<NodeSpec<P, D>>)
    requires
        gi.wf(),
    ensures
        r is Some <==> forall|k: int| 0 <= k < g.inputs@.len() ==> gi.pin_indices.id_map().contains_key(graph_input_key(#[trigger] g.inputs@[k])),
        r matches Some(s) ==> input_node_is(s, *g, *gi),
{
    let mut attributes: Vec<PinSpec> = Vec::new();
    let mut i: usize = 0;
    while i < g.inputs.len()
        invariant
            gi.wf(),
            i <= g.inputs.len(),
            attributes@.len() == i,
            forall|k: int| 0 <= k < i ==> gi.pin_indices.id_map().contains_key(graph_input_key(#[trigger] g.inputs@[k])),
            forall|k: int| 0 <= k < i ==> pin_spec_is(#[trigger] attributes@[k], gi.pin_indices.id_map()[graph_input_key(g.inputs@[k])], PinType::Output, graph_input_name(g.inputs@[k]), graph_input_style(g.inputs@[k])),
        decreases g.inputs.len() - i,
    {
        match graph_input_pin_spec(&g.inputs[i], gi) {
            Some(p) => attributes.push(p),
            None => return None,
        }
        i = i + 1;
    }
    let s = NodeSpec {
        id: 0,
        name: "Inputs".to_owned(),
        subtitle: String::new(),
        origin: g.input_position,
        attributes,
        args: io_titlebar(),
        debug: None,
    };
    proof {
        reveal_strlit("Inputs");
    }
    Some(s)
}

/// Editor node 1: the graph's outputs.
fn output_node<P: Copy, D: Copy>(g: &GraphReprModel<P, D>, gi: &GraphIndices) -> (r: Option<NodeSpec<P, D>>)
    requires
        gi.wf(),
    ensures
        r is Some <==> forall|k: int| 0 <= k < g.outputs@.len() ==> gi.pin_indices.id_map().contains_key(graph_output_key(#[trigger] g.outputs@[k])),
        r matches Some(s) ==> output_node_is(s, *g, *gi),
{
    let mut attributes: Vec<PinSpec> = Vec::new();
    let mut i: usize = 0;
    while i < g.outputs.len()
        invariant
            gi.wf(),
            i <= g.outputs.len(),
            attributes@.len() == i,
            forall|k: int| 0 <= k < i ==> gi.pin_indices.id_map().contains_key(graph_output_key(#[trigger] g.outputs@[k])),
            forall|k: int| 0 <= k < i ==> pin_spec_is(#[trigger] attributes@[k], gi.pin_indices.id_map()[graph_output_key(g.outputs@[k])], PinType::Input, output_name(g.outputs@[k]), output_style(g.outputs@[k])),
        decreases g.outputs.len() - i,
    {
        match graph_output_pin_spec(&g.outputs[i], gi) {
            Some(p) => attributes.push(p),
            None => return None,
        }
        i = i + 1;
    }
    let s = NodeSpec {
        id: 1,
        name: "Outputs".to_owned(),
        subtitle: String::new(),
        origin: g.output_position,
        attributes,
        args: io_titlebar(),
        debug: None,
    };
    proof {
        reveal_strlit("Outputs");
    }
    Some(s)
}


// ------------------------------------------------------------- edges

/// The data type of the first data input named `name`.
pub open spec fn input_data_spec(inputs: Seq<NodeInput>, name: Seq<char>) -> Option<DataSpec>
    decreases inputs.len(),
{
    if inputs.len() == 0 {
        None
    } else {
        match inputs[0] {
            NodeInput::Data(n, s) => if n@ == name {
                Some(s)
            } else {
                input_data_spec(inputs.drop_first(), name)
            },
            NodeInput::Time(_) => input_data_spec(inputs.drop_first(), name),
        }
    }
}

/// The data type of the first data output named `name`.
pub open spec fn output_data_spec(outputs: Seq<NodeOutput>, name: Seq<char>) -> Option<DataSpec>
    decreases outputs.len(),
{
    if outputs.len() == 0 {
        None
    } else {
        match outputs[0] {
            NodeOutput::Data(n, s) => if n@ == name {
                Some(s)
            } else {
                output_data_spec(outputs.drop_first(), name)
            },
            NodeOutput::Time => output_data_spec(outputs.drop_first(), name),
        }
    }
}

/// The data type of the data input `name` of the first node with id `node`.
pub open spec fn node_data_spec<P, D>(nodes: Seq<NodeReprModel<P, D>>, node: u128, name: Seq<char>) -> Option<DataSpec>
    decreases nodes.len(),
{
    if nodes.len() == 0 {
        None
    } else if nodes[0].id@ == node {
        input_data_spec(nodes[0].inputs@, name)
    } else {
        node_data_spec(nodes.drop_first(), node, name)
    }
}

/// How a link into `target` is drawn: as a time link, or in the colors of
/// the data that the target pin takes.
pub open spec fn edge_style<P, D>(g: GraphReprModel<P, D>, target: TargetPinView) -> Option<LinkStyleArgs> {
    match target {
        TargetPinView::NodeTime(_, _) => Some(time_link_style()),
        TargetPinView::OutputTime => Some(time_link_style()),
        TargetPinView::NodeData(node, name) => match node_data_spec(g.nodes@, node, name) {
            Some(s) => Some(data_link_style(s)),
            None => None,
        },
        TargetPinView::OutputData(name) => match output_data_spec(g.outputs@, name) {
            Some(s) => Some(data_link_style(s)),
            None => None,
        },
    }
}

/// Every edge of the graph has ids in the index tables, and its target pin
/// is declared with a type.
pub open spec fn edges_resolvable<P, D>(g: GraphReprModel<P, D>, gi: GraphIndices) -> bool {
    forall|k: int| 0 <= k < g.edges@.len() ==> {
        &&& (#[trigger] gi.spec_edge_ids(g.edges@[k].1@, g.edges@[k].0@)) is Some
        &&& edge_style(g, g.edges@[k].0@) is Some
    }
}

/// `l` is the editor link for the edge `e`.
pub open spec fn link_spec_is<P, D>(l: LinkSpec, e: (TargetPin, SourcePin), g: GraphReprModel<P, D>, gi: GraphIndices) -> bool {
    let ids = gi.spec_edge_ids(e.1@, e.0@)->0;
    &&& l.id == ids.0
    &&& l.start_pin_index == ids.1
    &&& l.end_pin_index == ids.2
    &&& l.style == edge_style(g, e.0@)->0
}

fn find_input_data_spec(inputs: &Vec<NodeInput>, name: &String) -> (r: Option<DataSpec>)
    ensures
        r == input_data_spec(inputs@, name@),
{
    let mut i: usize = 0;
    assert(inputs@.subrange(0, inputs@.len() as int) =~= inputs@);
    while i < inputs.len()
        invariant
            i <= inputs.len(),
            input_data_spec(inputs@, name@) == input_data_spec(inputs@.subrange(i as int, inputs@.len() as int), name@),
        decreases inputs.len() - i,
    {
        let ghost rest = inputs@.subrange(i as int, inputs@.len() as int);
        assert(rest.drop_first() =~= inputs@.subrange(i + 1, inputs@.len() as int));
        assert(rest[0] == inputs@[i as int]);
        if let NodeInput::Data(n, s) = &inputs[i] {
            if n.same_key(name) {
                return Some(*s);
            }
        }
        i = i + 1;
    }
    None
}

fn find_output_data_spec(outputs: &Vec<NodeOutput>, name: &String) -> (r: Option<DataSpec>)
    ensures
        r == output_data_spec(outputs@, name@),
{
    let mut i: usize = 0;
    assert(outputs@.subrange(0, outputs@.len() as int) =~= outputs@);
    while i < outputs.len()
        invariant
            i <= outputs.len(),
            output_data_spec(outputs@, name@) == output_data_spec(outputs@.subrange(i as int, outputs@.len() as int), name@),
        decreases outputs.len() - i,
    {
        let ghost rest = outputs@.subrange(i as int, outputs@.len() as int);
        assert(rest.drop_first() =~= outputs@.subrange(i + 1, outputs@.len() as int));
        assert(rest[0] == outputs@[i as int]);
        if let NodeOutput::Data(n, s) = &outputs[i] {
            if n.same_key(name) {
                return Some(*s);
            }
        }
        i = i + 1;
    }
    None
}

fn find_node_data_spec<P, D>(nodes: &Vec<NodeReprModel<P, D>>, node: NodeId, name: &String) -> (r: Option<DataSpec>)
    ensures
        r == node_data_spec(nodes@, node@, name@),
{
    let mut i: usize = 0;
    assert(nodes@.subrange(0, nodes@.len() as int) =~= nodes@);
    while i < nodes.len()
        invariant
            i <= nodes.len(),
            node_data_spec(nodes@, node@, name@) == node_data_spec(nodes@.subrange(i as int, nodes@.len() as int), node@, name@),
        decreases nodes.len() - i,
    {
        let ghost rest = nodes@.subrange(i as int, nodes@.len() as int);
        assert(rest.drop_first() =~= nodes@.subrange(i + 1, nodes@.len() as int));
        assert(rest[0] == nodes@[i as int]);
        if nodes[i].id.0 == node.0 {
            return find_input_data_spec(&nodes[i].inputs, name);
        }
        i = i + 1;
    }
    None
}

fn link_style<P, D>(g: &GraphReprModel<P, D>, target: &TargetPin) -> (r: Option<LinkStyleArgs>)
    ensures
        r == edge_style(*g, target@),
{
    match target {
        TargetPin::NodeTime(_, _) => Some(time_colors().1),
        TargetPin::OutputTime => Some(time_colors().1),
        TargetPin::NodeData(node, name) => match find_node_data_spec(&g.nodes, *node, name) {
            Some(s) => Some(param_spec_to_colors(s).1),
            None => None,
        },
        TargetPin::OutputData(name) => match find_output_data_spec(&g.outputs, name) {
            Some(s) => Some(param_spec_to_colors(s).1),
            None => None,
        },
    }
}

/// The editor links for the graph's edges, in the order the graph holds
/// them.
fn edge_links<P, D>(g: &GraphReprModel<P, D>, gi: &GraphIndices) -> (r: Vec<LinkSpec>)
    requires
        gi.wf(),
        edges_resolvable(*g, *gi),
    ensures
        r@.len() == g.edges@.len(),
        forall|k: int| 0 <= k < g.edges@.len() ==> link_spec_is(#[trigger] r@[k], g.edges@[k], *g, *gi),
{
    let mut links: Vec<LinkSpec> = Vec::new();
    let mut i: usize = 0;
    while i < g.edges.len()
        invariant
            gi.wf(),
            edges_resolvable(*g, *gi),
            i <= g.edges.len(),
            links@.len() == i,
            forall|k: int| 0 <= k < i ==> link_spec_is(#[trigger] links@[k], g.edges@[k], *g, *gi),
        decreases g.edges.len() - i,
    {
        let (target, source) = &g.edges[i];
        assert(gi.spec_edge_ids(g.edges@[i as int].1@, g.edges@[i as int].0@) is Some);
        let ids = gi.edge_ids(source.duplicate(), target.duplicate());
        let (id, start, end) = match ids {
            Some(t) => t,
            None => {
                return links;
            },
        };
        let style = match link_style(g, target) {
            Some(st) => st,
            None => {
                return links;
            },
        };
        links.push(LinkSpec { id, start_pin_index: start, end_pin_index: end, style });
        i = i + 1;
    }
    links
}


// ------------------------------------------------------------- the graph

/// Every node and pin of the graph is known to the index tables.
pub open spec fn graph_known<P, D>(g: GraphReprModel<P, D>, gi: GraphIndices) -> bool {
    &&& forall|k: int| 0 <= k < g.nodes@.len() ==> node_known(#[trigger] g.nodes@[k], gi)
    &&& io_known(g, gi)
}

/// `r` shows the graph `g`: an editor node for each graph node in order,
/// then the input node and the output node, and a link for each edge in
/// order.
pub open spec fn repr_of<P, D>(r: GraphReprSpec<P, D>, g: GraphReprModel<P, D>, gi: GraphIndices) -> bool {
    let n = g.nodes@.len();
    &&& r.nodes@.len() == n + 2
    &&& forall|k: int| 0 <= k < n ==> node_spec_is(#[trigger] r.nodes@[k], g.nodes@[k], gi)
    &&& input_node_is(r.nodes@[n as int], g, gi)
    &&& output_node_is(r.nodes@[n + 1int], g, gi)
    &&& r.edges@.len() == g.edges@.len()
    &&& forall|k: int| 0 <= k < g.edges@.len() ==> link_spec_is(#[trigger] r.edges@[k], g.edges@[k], g, gi)
}

/// The editor's model `rg` of a graph describes the graph `g` that index
/// tables are built from: the same nodes in the same order, each of which
/// has its pin specification, and every pin the editor shows, of a node or
/// of the graph, is one that the node or the graph declares.
pub open spec fn describes<P, D>(rg: GraphReprModel<P, D>, g: GraphModel) -> bool {
    &&& rg.nodes@.len() == g.nodes@.len()
    &&& forall|k: int| 0 <= k < g.nodes@.len() ==> {
        &&& (#[trigger] rg.nodes@[k]).id@ == g.nodes@[k].id@
        &&& g.nodes@[k].io matches Some(io) && {
            &&& forall|j: int| 0 <= j < rg.nodes@[k].inputs@.len() ==> node_pin_keys(g.nodes@[k].id@, io).contains(
                input_key(g.nodes@[k].id@, #[trigger] rg.nodes@[k].inputs@[j]),
            )
            &&& forall|j: int| 0 <= j < rg.nodes@[k].outputs@.len() ==> node_pin_keys(g.nodes@[k].id@, io).contains(
                output_key(g.nodes@[k].id@, #[trigger] rg.nodes@[k].outputs@[j]),
            )
        }
    }
    &&& forall|j: int| 0 <= j < rg.inputs@.len() ==> io_pin_keys(g.io).contains(graph_input_key(#[trigger] rg.inputs@[j]))
    &&& forall|j: int| 0 <= j < rg.outputs@.len() ==> io_pin_keys(g.io).contains(graph_output_key(#[trigger] rg.outputs@[j]))
}

proof fn lemma_contained_has_last_position<V>(s: Seq<V>, k: V)
    requires
        s.contains(k),
    ensures
        last_position(s, k) is Some,
    decreases s.len(),
{
    if s.last() != k {
        let j = choose|j: int| 0 <= j < s.len() && s[j] == k;
        assert(s.drop_last()[j] == k);
        lemma_contained_has_last_position(s.drop_last(), k);
    }
}

proof fn lemma_node_pins_registered(nodes: Seq<NodeModel>, k: int, x: PinView)
    requires
        0 <= k < nodes.len(),
        nodes[k].io matches Some(io) && node_pin_keys(nodes[k].id@, io).contains(x),
    ensures
        nodes_pin_keys(nodes).contains(x),
    decreases nodes.len(),
{
    let pre = nodes_pin_keys(nodes.drop_last());
    if k == nodes.len() - 1 {
        let own = node_pin_keys(nodes[k].id@, nodes[k].io->0);
        let j = choose|j: int| 0 <= j < own.len() && own[j] == x;
        assert(nodes_pin_keys(nodes)[pre.len() + j] == x);
    } else {
        assert(nodes.drop_last()[k] == nodes[k]);
        lemma_node_pins_registered(nodes.drop_last(), k, x);
        let j = choose|j: int| 0 <= j < pre.len() && pre[j] == x;
        assert(nodes_pin_keys(nodes)[j] == x);
    }
}

/// Index tables built from a graph (what [`crate::graph_indices::make_graph_indices`]
/// gives: its node ids and its pins, in order) know every node and pin of
/// an editor model that describes the same graph, so the editor's view of
/// it can be built from them; and every node of that graph has its pin
/// specification, as building the tables needs.
pub proof fn law_tables_know_their_graph<P, D>(g: GraphModel, rg: GraphReprModel<P, D>, gi: GraphIndices)
    requires
        describes(rg, g),
        gi.wf(),
        gi.node_indices.node_keys() == graph_node_keys(g),
        gi.pin_indices.pin_keys() == graph_pin_keys(g),
    ensures
        graph_specs_available(g),
        graph_known(rg, gi),
{
    let gp = graph_pin_keys(g);
    let np = nodes_pin_keys(g.nodes@);
    let iop = io_pin_keys(g.io);
    assert forall|i: int| 0 <= i < g.nodes@.len() implies (#[trigger] g.nodes@[i]).io is Some by {
        assert(rg.nodes@[i].id@ == g.nodes@[i].id@);
    }
    assert forall|x: PinView| np.contains(x) implies gp.contains(x) by {
        let j = choose|j: int| 0 <= j < np.len() && np[j] == x;
        assert(gp[j] == x);
    }
    assert forall|x: PinView| iop.contains(x) implies gp.contains(x) by {
        let j = choose|j: int| 0 <= j < iop.len() && iop[j] == x;
        assert(gp[np.len() + j] == x);
    }
    assert forall|k: int| 0 <= k < rg.nodes@.len() implies node_known(#[trigger] rg.nodes@[k], gi) by {
        let n = rg.nodes@[k];
        let id = g.nodes@[k].id@;
        assert(n.id@ == id);
        assert(graph_node_keys(g)[k] == id);
        lemma_contained_has_last_position(graph_node_keys(g), id);
        assert forall|j: int| 0 <= j < n.inputs@.len() implies gi.pin_indices.id_map().contains_key(input_key(n.id@, #[trigger] n.inputs@[j])) by {
            let x = input_key(id, n.inputs@[j]);
            lemma_node_pins_registered(g.nodes@, k, x);
            lemma_contained_has_last_position(gp, x);
        }
        assert forall|j: int| 0 <= j < n.outputs@.len() implies gi.pin_indices.id_map().contains_key(output_key(n.id@, #[trigger] n.outputs@[j])) by {
            let x = output_key(id, n.outputs@[j]);
            lemma_node_pins_registered(g.nodes@, k, x);
            lemma_contained_has_last_position(gp, x);
        }
    }
    assert forall|j: int| 0 <= j < rg.inputs@.len() implies gi.pin_indices.id_map().contains_key(graph_input_key(#[trigger] rg.inputs@[j])) by {
        lemma_contained_has_last_position(gp, graph_input_key(rg.inputs@[j]));
    }
    assert forall|j: int| 0 <= j < rg.outputs@.len() implies gi.pin_indices.id_map().contains_key(graph_output_key(#[trigger] rg.outputs@[j])) by {
        lemma_contained_has_last_position(gp, graph_output_key(rg.outputs@[j]));
    }
}

impl<P: Copy, D: Copy> GraphReprSpec<P, D> {
    /// What the editor is given to show `graph`: `None` when a node or pin
    /// of the graph is missing from the index tables.
    pub fn from_graph(graph: &GraphReprModel<P, D>, indices: &GraphIndices) -> (r: Option<Self>)
        requires
            indices.wf(),
            graph_known(*graph, *indices) ==> edges_resolvable(*graph, *indices),
        ensures
            r is Some <==> graph_known(*graph, *indices),
            r matches Some(spec) ==> repr_of(spec, *graph, *indices),
    {
        let mut nodes: Vec<NodeSpec<P, D>> = Vec::new();
        let mut i: usize = 0;
        while i < graph.nodes.len()
            invariant
                indices.wf(),
                i <= graph.nodes.len(),
                nodes@.len() == i,
                forall|k: int| 0 <= k < i ==> node_known(#[trigger] graph.nodes@[k], *indices),
                forall|k: int| 0 <= k < i ==> node_spec_is(#[trigger] nodes@[k], graph.nodes@[k], *indices),
            decreases graph.nodes.len() - i,
        {
            match node_spec(&graph.nodes[i], indices) {
                Some(s) => nodes.push(s),
                None => return None,
            }
            i = i + 1;
        }
        let input = match input_node(graph, indices) {
            Some(s) => s,
            None => return None,
        };
        nodes.push(input);
        let output = match output_node(graph, indices) {
            Some(s) => s,
            None => return None,
        };
        nodes.push(output);
        let edges = edge_links(graph, indices);
        Some(GraphReprSpec { nodes, edges })
    }
}


// ------------------------------------------------------------- laws

/// What the editor is shown of a graph resolves back through the index
/// tables: each graph node's editor id names that node, and the id of each
/// pin shown, on a graph node or on the input or output node, names the
/// pin it shows.
pub proof fn law_shown_pins_resolve<P, D>(r: GraphReprSpec<P, D>, g: GraphReprModel<P, D>, gi: GraphIndices, k: int, j: int)
    requires
        gi.wf(),
        graph_known(g, gi),
        repr_of(r, g, gi),
        0 <= k < r.nodes@.len(),
        0 <= j < r.nodes@[k].attributes@.len(),
    ensures
        k < g.nodes@.len() ==> gi.node_indices.node_map()[r.nodes@[k].id as nat] == g.nodes@[k].id@,
        ({
            let n = g.nodes@.len();
            let id = r.nodes@[k].attributes@[j].id as nat;
            let shown = if k < n {
                let node = g.nodes@[k];
                if j < node.inputs@.len() {
                    input_key(node.id@, node.inputs@[j])
                } else {
                    output_key(node.id@, node.outputs@[j - node.inputs@.len()])
                }
            } else if k == n {
                graph_input_key(g.inputs@[j])
            } else {
                graph_output_key(g.outputs@[j])
            };
            gi.pin_indices.pin_map()[id] == shown
        }),
{
    let n = g.nodes@.len();
    if k < n {
        let node = g.nodes@[k];
        assert(node_known(node, gi));
        assert(node_spec_is(r.nodes@[k], node, gi));
        law_key_id_resolves_to_key(gi.node_indices.node_keys(), 4, node.id@);
        if j < node.inputs@.len() {
            assert(gi.pin_indices.id_map().contains_key(input_key(node.id@, node.inputs@[j])));
            law_key_id_resolves_to_key(gi.pin_indices.pin_keys(), 0, input_key(node.id@, node.inputs@[j]));
        } else {
            let o = j - node.inputs@.len();
            assert(gi.pin_indices.id_map().contains_key(output_key(node.id@, node.outputs@[o])));
            assert(pin_spec_is(r.nodes@[k].attributes@[node.inputs@.len() + o], gi.pin_indices.id_map()[output_key(node.id@, node.outputs@[o])], PinType::Output, output_name(node.outputs@[o]), output_style(node.outputs@[o])));
            law_key_id_resolves_to_key(gi.pin_indices.pin_keys(), 0, output_key(node.id@, node.outputs@[o]));
        }
    } else if k == n {
        assert(gi.pin_indices.id_map().contains_key(graph_input_key(g.inputs@[j])));
        law_key_id_resolves_to_key(gi.pin_indices.pin_keys(), 0, graph_input_key(g.inputs@[j]));
    } else {
        assert(gi.pin_indices.id_map().contains_key(graph_output_key(g.outputs@[j])));
        law_key_id_resolves_to_key(gi.pin_indices.pin_keys(), 0, graph_output_key(g.outputs@[j]));
    }
}

/// Each link the editor is shown resolves back through the index tables:
/// its start id names the edge's source pin, its end id the edge's target
/// pin, and its own id the pair of them.
pub proof fn law_shown_links_resolve<P, D>(r: GraphReprSpec<P, D>, g: GraphReprModel<P, D>, gi: GraphIndices, k: int)
    requires
        gi.wf(),
        edges_resolvable(g, gi),
        repr_of(r, g, gi),
        0 <= k < r.edges@.len(),
    ensures
        ({
            let l = r.edges@[k];
            let (target, source) = g.edges@[k];
            &&& gi.pin_indices.pin_map()[l.start_pin_index as nat] == PinView::Source(source@)
            &&& gi.pin_indices.pin_map()[l.end_pin_index as nat] == PinView::Target(target@)
            &&& gi.edge_indices.edge_map()[l.id as nat] == (l.start_pin_index, l.end_pin_index)
        }),
{
    let (target, source) = g.edges@[k];
    assert(gi.spec_edge_ids(g.edges@[k].1@, g.edges@[k].0@) is Some);
    assert(link_spec_is(r.edges@[k], g.edges@[k], g, gi));
    law_edge_ids_resolve(&gi, source@, target@);
}

} // verus!
