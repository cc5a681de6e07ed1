//! The index tables that tie an animation graph to the node editor: each
//! graph node, each pin and each edge gets an integer id that the editor
//! works with. Ids 0 to 3 of the node table are kept for the graph's input
//! and output nodes.
use vstd::prelude::*;

use crate::pins::{GraphInputPin, NodeId, Pin, PinView, SourcePin, SourcePinView, TargetPin, TargetPinView};
use crate::registry::{
    id_to_key_of, key_to_id_of, law_key_id_resolves_to_key, law_registered_key_has_id, opt_nat,
    Registry, RegistryKey,
};

verus! {

/// Ids of graph nodes, from 4 up.
pub struct NodeIndices {
    nodes: Registry<NodeId>,
}

impl NodeIndices {
    /// The node ids registered so far, oldest first.
    pub closed spec fn node_keys(&self) -> Seq<u128> {
        self.nodes.key_views()
    }

    pub closed spec fn wf(&self) -> bool {
        self.nodes.wf() && self.nodes.first_id() == 4
    }

    pub open spec fn next_id(&self) -> nat {
        4 + self.node_keys().len()
    }

    /// Node to editor id.
    pub open spec fn id_map(&self) -> Map<u128, nat> {
        key_to_id_of(self.node_keys(), 4)
    }

    /// Editor id to node.
    pub open spec fn node_map(&self) -> Map<nat, u128> {
        id_to_key_of(self.node_keys(), 4)
    }

    pub fn new() -> (r: Self)
        ensures
            r.wf(),
            r.node_keys() == Seq::<u128>::empty(),
    {
        NodeIndices { nodes: Registry::new(4) }
    }

    pub fn add_mapping(&mut self, name: NodeId)
        requires
            old(self).wf(),
            old(self).next_id() < usize::MAX,
        ensures
            final(self).wf(),
            final(self).node_keys() == old(self).node_keys().push(name@),
            final(self).id_map() == old(self).id_map().insert(name@, old(self).next_id()),
            final(self).node_map() == old(self).node_map().insert(old(self).next_id(), name@),
    {
        self.nodes.add(name);
    }

    pub fn id(&self, name: NodeId) -> (r: Option<usize>)
        requires
            self.wf(),
        ensures
            opt_nat(r) == self.id_map().get(name@),
    {
        self.nodes.lookup(&name)
    }

    pub fn name(&self, id: usize) -> (r: Option<NodeId>)
        requires
            self.wf(),
        ensures
            match r {
                Some(n) => self.node_map().contains_key(id as nat) && n@ == self.node_map()[id as nat],
                None => !self.node_map().contains_key(id as nat),
            },
    {
        match self.nodes.key(id) {
            Some(n) => Some(*n),
            None => None,
        }
    }
}

impl Default for NodeIndices {
    fn default() -> (r: Self)
        ensures
            r.wf(),
            r.node_keys() == Seq::<u128>::empty(),
    {
        NodeIndices::new()
    }
}

/// Ids of pins, from 0 up.
pub struct PinIndices {
    pins: Registry<Pin>,
}

impl PinIndices {
    /// The pins registered so far, oldest first.
    pub closed spec fn pin_keys(&self) -> Seq<PinView> {
        self.pins.key_views()
    }

    pub closed spec fn wf(&self) -> bool {
        self.pins.wf() && self.pins.first_id() == 0
    }

    pub open spec fn next_id(&self) -> nat {
        self.pin_keys().len()
    }

    /// Pin to editor id.
    pub open spec fn id_map(&self) -> Map<PinView, nat> {
        key_to_id_of(self.pin_keys(), 0)
    }

    /// Editor id to pin.
    pub open spec fn pin_map(&self) -> Map<nat, PinView> {
        id_to_key_of(self.pin_keys(), 0)
    }

    pub fn new() -> (r: Self)
        ensures
            r.wf(),
            r.pin_keys() == Seq::<PinView>::empty(),
    {
        PinIndices { pins: Registry::new(0) }
    }

    pub fn add_mapping(&mut self, pin: Pin)
        requires
            old(self).wf(),
            old(self).next_id() < usize::MAX,
        ensures
            final(self).wf(),
            final(self).pin_keys() == old(self).pin_keys().push(pin@),
            final(self).id_map() == old(self).id_map().insert(pin@, old(self).next_id()),
            final(self).pin_map() == old(self).pin_map().insert(old(self).next_id(), pin@),
    {
        self.pins.add(pin);
    }

    pub fn id(&self, pin: &Pin) -> (r: Option<usize>)
        requires
            self.wf(),
        ensures
            opt_nat(r) == self.id_map().get(pin@),
    {
        self.pins.lookup(pin)
    }

    pub fn pin(&self, id: usize) -> (r: Option<&Pin>)
        requires
            self.wf(),
        ensures
            match r {
                Some(p) => self.pin_map().contains_key(id as nat) && p@ == self.pin_map()[id as nat],
                None => !self.pin_map().contains_key(id as nat),
            },
    {
        self.pins.key(id)
    }
}

impl Default for PinIndices {
    fn default() -> (r: Self)
        ensures
            r.wf(),
            r.pin_keys() == Seq::<PinView>::empty(),
    {
        PinIndices::new()
    }
}

/// Ids of edges, from 0 up, each edge given by its source and target pin ids.
pub struct EdgeIndices {
    edges: Registry<(usize, usize)>,
}

impl EdgeIndices {
    /// The edges registered so far, oldest first.
    pub closed spec fn edge_keys(&self) -> Seq<(usize, usize)> {
        self.edges.key_views()
    }

    pub closed spec fn wf(&self) -> bool {
        self.edges.wf() && self.edges.first_id() == 0
    }

    pub open spec fn next_id(&self) -> nat {
        self.edge_keys().len()
    }

    /// Pin id pair to edge id.
    pub open spec fn id_map(&self) -> Map<(usize, usize), nat> {
        key_to_id_of(self.edge_keys(), 0)
    }

    /// Edge id to pin id pair.
    pub open spec fn edge_map(&self) -> Map<nat, (usize, usize)> {
        id_to_key_of(self.edge_keys(), 0)
    }

    pub fn new() -> (r: Self)
        ensures
            r.wf(),
            r.edge_keys() == Seq::<(usize, usize)>::empty(),
    {
        EdgeIndices { edges: Registry::new(0) }
    }

    pub fn add_mapping(&mut self, start_id: usize, end_id: usize)
        requires
            old(self).wf(),
            old(self).next_id() < usize::MAX,
        ensures
            final(self).wf(),
            final(self).edge_keys() == old(self).edge_keys().push((start_id, end_id)),
            final(self).id_map() == old(self).id_map().insert((start_id, end_id), old(self).next_id()),
            final(self).edge_map() == old(self).edge_map().insert(old(self).next_id(), (start_id, end_id)),
    {
        self.edges.add((start_id, end_id));
    }

    pub fn id(&self, start_id: usize, end_id: usize) -> (r: Option<usize>)
        requires
            self.wf(),
        ensures
            opt_nat(r) == self.id_map().get((start_id, end_id)),
    {
        self.edges.lookup(&(start_id, end_id))
    }

    pub fn edge(&self, id: usize) -> (r: Option<&(usize, usize)>)
        requires
            self.wf(),
        ensures
            match r {
                Some(e) => self.edge_map().contains_key(id as nat) && *e == self.edge_map()[id as nat],
                None => !self.edge_map().contains_key(id as nat),
            },
    {
        self.edges.key(id)
    }
}

impl Default for EdgeIndices {
    fn default() -> (r: Self)
        ensures
            r.wf(),
            r.edge_keys() == Seq::<(usize, usize)>::empty(),
    {
        EdgeIndices::new()
    }
}

/// The three index tables of one graph.
pub struct GraphIndices {
    pub node_indices: NodeIndices,
    pub pin_indices: PinIndices,
    pub edge_indices: EdgeIndices,
}

impl GraphIndices {
    pub open spec fn wf(&self) -> bool {
        self.node_indices.wf() && self.pin_indices.wf() && self.edge_indices.wf()
    }

    /// What [`GraphIndices::edge_ids`] returns: the edge id, source pin id and
    /// target pin id of the edge from `source` to `target`, when all three
    /// are registered.
    pub open spec fn spec_edge_ids(&self, source: SourcePinView, target: TargetPinView) -> Option<
        (usize, usize, usize),
    > {
        let pins = self.pin_indices.id_map();
        let s = PinView::Source(source);
        let t = PinView::Target(target);
        if pins.contains_key(s) && pins.contains_key(t) {
            let key = (pins[s] as usize, pins[t] as usize);
            if self.edge_indices.id_map().contains_key(key) {
                Some((self.edge_indices.id_map()[key] as usize, key.0, key.1))
            } else {
                None
            }
        } else {
            None
        }
    }

    pub fn new() -> (r: Self)
        ensures
            r.wf(),
            r.node_indices.node_keys() == Seq::<u128>::empty(),
            r.pin_indices.pin_keys() == Seq::<PinView>::empty(),
            r.edge_indices.edge_keys() == Seq::<(usize, usize)>::empty(),
    {
        GraphIndices {
            node_indices: NodeIndices::new(),
            pin_indices: PinIndices::new(),
            edge_indices: EdgeIndices::new(),
        }
    }

    /// The edge id, source pin id and target pin id of an edge.
    pub fn edge_ids(&self, source_pin: SourcePin, target_pin: TargetPin) -> (r: Option<
        (usize, usize, usize),
    >)
        requires
            self.wf(),
        ensures
            r == self.spec_edge_ids(source_pin@, target_pin@),
    {
        let source_id = match self.pin_indices.id(&Pin::Source(source_pin)) {
            Some(i) => i,
            None => return None,
        };
        let target_id = match self.pin_indices.id(&Pin::Target(target_pin)) {
            Some(i) => i,
            None => return None,
        };
        let edge_id = match self.edge_indices.id(source_id, target_id) {
            Some(i) => i,
            None => return None,
        };
        Some((edge_id, source_id, target_id))
    }
}

impl Default for GraphIndices {
    fn default() -> (r: Self)
        ensures
            r.wf(),
            r.node_indices.node_keys() == Seq::<u128>::empty(),
            r.pin_indices.pin_keys() == Seq::<PinView>::empty(),
            r.edge_indices.edge_keys() == Seq::<(usize, usize)>::empty(),
    {
        GraphIndices::new()
    }
}

/// The pins that one graph node declares.
pub struct NodeIoModel {
    pub input_data: Vec<String>,
    pub output_data: Vec<String>,
    pub input_times: Vec<String>,
    pub has_output_time: bool,
}

/// A graph node: its id and, when its pin specification could be computed,
/// the pins it declares.
pub struct NodeModel {
    pub id: NodeId,
    pub io: Option<NodeIoModel>,
}

/// The pins of a graph as a whole.
pub struct GraphIoModel {
    pub input_data: Vec<GraphInputPin>,
    pub input_times: Vec<GraphInputPin>,
    pub output_data: Vec<String>,
    pub has_output_time: bool,
}

/// What the index tables are built from: the nodes in the order the graph
/// yields them, the graph's own pins, and the edges as (target, source) pairs.
pub struct GraphModel {
    pub nodes: Vec<NodeModel>,
    pub io: GraphIoModel,
    pub edges: Vec<(TargetPin, SourcePin)>,
}

/// The pins registered for one node, in registration order.
pub open spec fn node_pin_keys(id: u128, io: NodeIoModel) -> Seq<PinView> {
    io.input_data@.map_values(|s: String| PinView::Target(TargetPinView::NodeData(id, s@)))
        + io.output_data@.map_values(|s: String| PinView::Source(SourcePinView::NodeData(id, s@)))
        + io.input_times@.map_values(|s: String| PinView::Target(TargetPinView::NodeTime(id, s@)))
        + (if io.has_output_time {
        seq![PinView::Source(SourcePinView::NodeTime(id))]
    } else {
        Seq::<PinView>::empty()
    })
}

/// The pins registered for a sequence of nodes.
pub open spec fn nodes_pin_keys(nodes: Seq<NodeModel>) -> Seq<PinView>
    decreases nodes.len(),
{
    if nodes.len() == 0 {
        Seq::<PinView>::empty()
    } else {
        nodes_pin_keys(nodes.drop_last()) + match nodes.last().io {
            Some(io) => node_pin_keys(nodes.last().id@, io),
            None => Seq::<PinView>::empty(),
        }
    }
}

/// The pins registered for the graph's own inputs and outputs.
pub open spec fn io_pin_keys(io: GraphIoModel) -> Seq<PinView> {
    io.input_data@.map_values(|p: GraphInputPin| PinView::Source(SourcePinView::InputData(p@)))
        + io.input_times@.map_values(
        |p: GraphInputPin| PinView::Source(SourcePinView::InputTime(p@)),
    ) + io.output_data@.map_values(|s: String| PinView::Target(TargetPinView::OutputData(s@)))
        + (if io.has_output_time {
        seq![PinView::Target(TargetPinView::OutputTime)]
    } else {
        Seq::<PinView>::empty()
    })
}

/// All pins of a graph, in registration order.
pub open spec fn graph_pin_keys(g: GraphModel) -> Seq<PinView> {
    nodes_pin_keys(g.nodes@) + io_pin_keys(g.io)
}

/// All node ids of a graph, in registration order.
pub open spec fn graph_node_keys(g: GraphModel) -> Seq<u128> {
    g.nodes@.map_values(|n: NodeModel| n.id@)
}

/// Every node's pin specification could be computed.
pub open spec fn graph_specs_available(g: GraphModel) -> bool {
    forall|i: int| 0 <= i < g.nodes@.len() ==> (#[trigger] g.nodes@[i]).io is Some
}

/// Both pins of an edge are among `pins`.
pub open spec fn edge_pins_known(pins: Map<PinView, nat>, e: (TargetPin, SourcePin)) -> bool {
    pins.contains_key(PinView::Source(e.1@)) && pins.contains_key(PinView::Target(e.0@))
}

/// The (source id, target id) pair an edge is registered under.
pub open spec fn edge_key(pins: Map<PinView, nat>, e: (TargetPin, SourcePin)) -> (usize, usize) {
    (pins[PinView::Source(e.1@)] as usize, pins[PinView::Target(e.0@)] as usize)
}

/// Every edge joins two registered pins.
pub open spec fn graph_edges_known(g: GraphModel) -> bool {
    forall|i: int|
        0 <= i < g.edges@.len() ==> edge_pins_known(
            key_to_id_of(graph_pin_keys(g), 0),
            #[trigger] g.edges@[i],
        )
}

/// All edges of a graph, in registration order.
pub open spec fn graph_edge_keys(g: GraphModel) -> Seq<(usize, usize)> {
    g.edges@.map_values(
        |e: (TargetPin, SourcePin)| edge_key(key_to_id_of(graph_pin_keys(g), 0), e),
    )
}

/// The tables fit in `usize`.
pub open spec fn graph_fits(g: GraphModel) -> bool {
    &&& g.nodes@.len() + 4 < usize::MAX
    &&& graph_pin_keys(g).len() < usize::MAX
    &&& g.edges@.len() < usize::MAX
}

proof fn lemma_nodes_pin_keys_step(nodes: Seq<NodeModel>, i: int)
    requires
        0 <= i < nodes.len(),
    ensures
        nodes_pin_keys(nodes.take(i + 1)) == nodes_pin_keys(nodes.take(i)) + match nodes[i].io {
            Some(io) => node_pin_keys(nodes[i].id@, io),
            None => Seq::<PinView>::empty(),
        },
{
    assert(nodes.take(i + 1).drop_last() =~= nodes.take(i));
}

proof fn lemma_nodes_pin_keys_monotone(nodes: Seq<NodeModel>, i: int)
    requires
        0 <= i <= nodes.len(),
    ensures
        nodes_pin_keys(nodes.take(i)).len() <= nodes_pin_keys(nodes).len(),
    decreases nodes.len() - i,
{
    if i < nodes.len() {
        lemma_nodes_pin_keys_step(nodes, i);
        lemma_nodes_pin_keys_monotone(nodes, i + 1);
    } else {
        assert(nodes.take(i) =~= nodes);
    }
}

impl PinIndices {
    /// Registers each of `names`, turned into a pin by `kind`.
    #[verifier::loop_isolation(false)]
    fn add_named(&mut self, id: NodeId, names: &Vec<String>, kind: u8)
        requires
            old(self).wf(),
            kind < 3,
            old(self).next_id() + names@.len() < usize::MAX,
        ensures
            final(self).wf(),
            final(self).pin_keys() == old(self).pin_keys() + names@.map_values(
                |s: String|
                    if kind == 0 {
                        PinView::Target(TargetPinView::NodeData(id@, s@))
                    } else if kind == 1 {
                        PinView::Source(SourcePinView::NodeData(id@, s@))
                    } else {
                        PinView::Target(TargetPinView::NodeTime(id@, s@))
                    },
            ),
    {
        let ghost f = |s: String|
            if kind == 0 {
                PinView::Target(TargetPinView::NodeData(id@, s@))
            } else if kind == 1 {
                PinView::Source(SourcePinView::NodeData(id@, s@))
            } else {
                PinView::Target(TargetPinView::NodeTime(id@, s@))
            };
        let ghost start = self.pin_keys();
        let mut j: usize = 0;
        while j < names.len()
            invariant
                self.wf(),
                j <= names@.len(),
                kind < 3,
                start.len() + names@.len() < usize::MAX,
                self.pin_keys() == start + names@.take(j as int).map_values(f),
            decreases names@.len() - j,
        {
            let name = names[j].duplicate();
            let pin = if kind == 0 {
                Pin::Target(TargetPin::NodeData(id, name))
            } else if kind == 1 {
                Pin::Source(SourcePin::NodeData(id, name))
            } else {
                Pin::Target(TargetPin::NodeTime(id, name))
            };
            self.add_mapping(pin);
            proof {
                assert(names@.take(j as int + 1).map_values(f) =~= names@.take(j as int).map_values(
                    f,
                ).push(f(names@[j as int])));
                assert(start + names@.take(j as int + 1).map_values(f) =~= (start + names@.take(
                    j as int,
                ).map_values(f)).push(f(names@[j as int])));
            }
            j = j + 1;
        }
        proof {
            assert(names@.take(names@.len() as int) =~= names@);
        }
    }

    /// Registers each of the graph's input pins, as data or time sources.
    #[verifier::loop_isolation(false)]
    fn add_graph_inputs(&mut self, pins: &Vec<GraphInputPin>, time: bool)
        requires
            old(self).wf(),
            old(self).next_id() + pins@.len() < usize::MAX,
        ensures
            final(self).wf(),
            final(self).pin_keys() == old(self).pin_keys() + pins@.map_values(
                |p: GraphInputPin|
                    if time {
                        PinView::Source(SourcePinView::InputTime(p@))
                    } else {
                        PinView::Source(SourcePinView::InputData(p@))
                    },
            ),
    {
        let ghost f = |p: GraphInputPin|
            if time {
                PinView::Source(SourcePinView::InputTime(p@))
            } else {
                PinView::Source(SourcePinView::InputData(p@))
            };
        let ghost start = self.pin_keys();
        let mut j: usize = 0;
        while j < pins.len()
            invariant
                self.wf(),
                j <= pins@.len(),
                start.len() + pins@.len() < usize::MAX,
                self.pin_keys() == start + pins@.take(j as int).map_values(f),
            decreases pins@.len() - j,
        {
            let p = pins[j].duplicate();
            let pin = if time {
                Pin::Source(SourcePin::InputTime(p))
            } else {
                Pin::Source(SourcePin::InputData(p))
            };
            self.add_mapping(pin);
            proof {
                assert(pins@.take(j as int + 1).map_values(f) =~= pins@.take(j as int).map_values(
                    f,
                ).push(f(pins@[j as int])));
                assert(start + pins@.take(j as int + 1).map_values(f) =~= (start + pins@.take(
                    j as int,
                ).map_values(f)).push(f(pins@[j as int])));
            }
            j = j + 1;
        }
        proof {
            assert(pins@.take(pins@.len() as int) =~= pins@);
        }
    }

    /// Registers the graph's output data pins.
    #[verifier::loop_isolation(false)]
    fn add_graph_outputs(&mut self, names: &Vec<String>)
        requires
            old(self).wf(),
            old(self).next_id() + names@.len() < usize::MAX,
        ensures
            final(self).wf(),
            final(self).pin_keys() == old(self).pin_keys() + names@.map_values(
                |s: String| PinView::Target(TargetPinView::OutputData(s@)),
            ),
    {
        let ghost f = |s: String| PinView::Target(TargetPinView::OutputData(s@));
        let ghost start = self.pin_keys();
        let mut j: usize = 0;
        while j < names.len()
            invariant
                self.wf(),
                j <= names@.len(),
                start.len() + names@.len() < usize::MAX,
                self.pin_keys() == start + names@.take(j as int).map_values(f),
            decreases names@.len() - j,
        {
            self.add_mapping(Pin::Target(TargetPin::OutputData(names[j].duplicate())));
            proof {
                assert(names@.take(j as int + 1).map_values(f) =~= names@.take(j as int).map_values(
                    f,
                ).push(f(names@[j as int])));
                assert(start + names@.take(j as int + 1).map_values(f) =~= (start + names@.take(
                    j as int,
                ).map_values(f)).push(f(names@[j as int])));
            }
            j = j + 1;
        }
        proof {
            assert(names@.take(names@.len() as int) =~= names@);
        }
    }
}

/// Builds the index tables of a graph: node ids in the order the nodes come,
/// then the pins of each node (data inputs, data outputs, time inputs, time
/// output), then the graph's own pins (data inputs, time inputs, data
/// outputs, time output), then the edges. Gives `None` when a node's pin
/// specification is missing or an edge names a pin that was not registered.
pub fn make_graph_indices(graph: &GraphModel) -> (r: Option<GraphIndices>)
    requires
        graph_fits(*graph),
    ensures
        r is Some <==> graph_specs_available(*graph) && graph_edges_known(*graph),
        r matches Some(gi) ==> {
            &&& gi.wf()
            &&& gi.node_indices.node_keys() == graph_node_keys(*graph)
            &&& gi.pin_indices.pin_keys() == graph_pin_keys(*graph)
            &&& gi.edge_indices.edge_keys() == graph_edge_keys(*graph)
        },
{
    let mut gi = GraphIndices::new();
    let ghost nodes = graph.nodes@;
    let mut i: usize = 0;
    while i < graph.nodes.len()
        invariant
            gi.wf(),
            graph_fits(*graph),
            nodes == graph.nodes@,
            i <= nodes.len(),
            gi.node_indices.node_keys() == graph_node_keys(*graph).take(i as int),
            gi.pin_indices.pin_keys() == nodes_pin_keys(nodes.take(i as int)),
            gi.edge_indices.edge_keys() == Seq::<(usize, usize)>::empty(),
            forall|k: int| 0 <= k < i ==> (#[trigger] nodes[k]).io is Some,
        decreases nodes.len() - i,
    {
        let node = &graph.nodes[i];
        gi.node_indices.add_mapping(node.id);
        proof {
            assert(graph_node_keys(*graph).take(i as int + 1) =~= graph_node_keys(*graph).take(
                i as int,
            ).push(node.id@));
        }
        let io = match &node.io {
            Some(io) => io,
            None => {
                return None;
            },
        };
        proof {
            lemma_nodes_pin_keys_step(nodes, i as int);
            lemma_nodes_pin_keys_monotone(nodes, i as int + 1);
            lemma_nodes_pin_keys_monotone(nodes, nodes.len() as int);
            assert(nodes.take(nodes.len() as int) =~= nodes);
        }
        let ghost before = gi.pin_indices.pin_keys();
        gi.pin_indices.add_named(node.id, &io.input_data, 0);
        gi.pin_indices.add_named(node.id, &io.output_data, 1);
        gi.pin_indices.add_named(node.id, &io.input_times, 2);
        if io.has_output_time {
            gi.pin_indices.add_mapping(Pin::Source(SourcePin::NodeTime(node.id)));
        }
        proof {
            let id = node.id@;
            assert(io.input_data@.map_values(
                |s: String|
                    if 0u8 == 0 {
                        PinView::Target(TargetPinView::NodeData(id, s@))
                    } else if 0u8 == 1 {
                        PinView::Source(SourcePinView::NodeData(id, s@))
                    } else {
                        PinView::Target(TargetPinView::NodeTime(id, s@))
                    },
            ) =~= io.input_data@.map_values(
                |s: String| PinView::Target(TargetPinView::NodeData(id, s@)),
            ));
            assert(io.output_data@.map_values(
                |s: String|
                    if 1u8 == 0 {
                        PinView::Target(TargetPinView::NodeData(id, s@))
                    } else if 1u8 == 1 {
                        PinView::Source(SourcePinView::NodeData(id, s@))
                    } else {
                        PinView::Target(TargetPinView::NodeTime(id, s@))
                    },
            ) =~= io.output_data@.map_values(
                |s: String| PinView::Source(SourcePinView::NodeData(id, s@)),
            ));
            assert(io.input_times@.map_values(
                |s: String|
                    if 2u8 == 0 {
                        PinView::Target(TargetPinView::NodeData(id, s@))
                    } else if 2u8 == 1 {
                        PinView::Source(SourcePinView::NodeData(id, s@))
                    } else {
                        PinView::Target(TargetPinView::NodeTime(id, s@))
                    },
            ) =~= io.input_times@.map_values(
                |s: String| PinView::Target(TargetPinView::NodeTime(id, s@)),
            ));
            assert(gi.pin_indices.pin_keys() =~= before + node_pin_keys(id, *io));
        }
        i = i + 1;
    }
    proof {
        assert(nodes.take(nodes.len() as int) =~= nodes);
        assert(graph_node_keys(*graph).take(nodes.len() as int) =~= graph_node_keys(*graph));
    }
    let ghost before_io = gi.pin_indices.pin_keys();
    gi.pin_indices.add_graph_inputs(&graph.io.input_data, false);
    gi.pin_indices.add_graph_inputs(&graph.io.input_times, true);
    gi.pin_indices.add_graph_outputs(&graph.io.output_data);
    if graph.io.has_output_time {
        gi.pin_indices.add_mapping(Pin::Target(TargetPin::OutputTime));
    }
    proof {
        assert(graph.io.input_data@.map_values(
            |p: GraphInputPin|
                if false {
                    PinView::Source(SourcePinView::InputTime(p@))
                } else {
                    PinView::Source(SourcePinView::InputData(p@))
                },
        ) =~= graph.io.input_data@.map_values(
            |p: GraphInputPin| PinView::Source(SourcePinView::InputData(p@)),
        ));
        assert(graph.io.input_times@.map_values(
            |p: GraphInputPin|
                if true {
                    PinView::Source(SourcePinView::InputTime(p@))
                } else {
                    PinView::Source(SourcePinView::InputData(p@))
                },
        ) =~= graph.io.input_times@.map_values(
            |p: GraphInputPin| PinView::Source(SourcePinView::InputTime(p@)),
        ));
        assert(gi.pin_indices.pin_keys() =~= graph_pin_keys(*graph));
    }
    let ghost pins = key_to_id_of(graph_pin_keys(*graph), 0);
    let ghost edges = graph.edges@;
    let mut e: usize = 0;
    while e < graph.edges.len()
        invariant
            gi.wf(),
            graph_fits(*graph),
            graph_specs_available(*graph),
            edges == graph.edges@,
            e <= edges.len(),
            pins == key_to_id_of(graph_pin_keys(*graph), 0),
            gi.node_indices.node_keys() == graph_node_keys(*graph),
            gi.pin_indices.pin_keys() == graph_pin_keys(*graph),
            gi.edge_indices.edge_keys() == graph_edge_keys(*graph).take(e as int),
            forall|k: int| 0 <= k < e ==> edge_pins_known(pins, #[trigger] edges[k]),
        decreases edges.len() - e,
    {
        let (target_pin, source_pin) = &graph.edges[e];
        let source_id = match gi.pin_indices.id(&Pin::Source(source_pin.duplicate())) {
            Some(id) => id,
            None => {
                return None;
            },
        };
        let target_id = match gi.pin_indices.id(&Pin::Target(target_pin.duplicate())) {
            Some(id) => id,
            None => {
                return None;
            },
        };
        gi.edge_indices.add_mapping(source_id, target_id);
        proof {
            assert(graph_edge_keys(*graph).take(e as int + 1) =~= graph_edge_keys(*graph).take(
                e as int,
            ).push((source_id, target_id)));
        }
        e = e + 1;
    }
    proof {
        assert(graph_edge_keys(*graph).take(edges.len() as int) =~= graph_edge_keys(*graph));
    }
    Some(gi)
}

/// The ids that [`GraphIndices::edge_ids`] finds resolve back: the source
/// id to the source pin, the target id to the target pin, and the edge id
/// to the pair of pin ids.
pub proof fn law_edge_ids_resolve(gi: &GraphIndices, source: SourcePinView, target: TargetPinView)
    requires
        gi.wf(),
        gi.spec_edge_ids(source, target) is Some,
    ensures
        ({
            let (e, s, t) = gi.spec_edge_ids(source, target)->0;
            &&& gi.pin_indices.pin_map().contains_key(s as nat)
            &&& gi.pin_indices.pin_map()[s as nat] == PinView::Source(source)
            &&& gi.pin_indices.pin_map().contains_key(t as nat)
            &&& gi.pin_indices.pin_map()[t as nat] == PinView::Target(target)
            &&& gi.edge_indices.edge_map().contains_key(e as nat)
            &&& gi.edge_indices.edge_map()[e as nat] == (s, t)
        }),
{
    let pins = gi.pin_indices.pin_keys();
    law_key_id_resolves_to_key(pins, 0, PinView::Source(source));
    law_key_id_resolves_to_key(pins, 0, PinView::Target(target));
    let key = (
        key_to_id_of(pins, 0)[PinView::Source(source)] as usize,
        key_to_id_of(pins, 0)[PinView::Target(target)] as usize,
    );
    law_key_id_resolves_to_key(gi.edge_indices.edge_keys(), 0, key);
}

/// Every edge of a graph is found again in the tables built from it, and
/// its ids resolve back to its pins.
pub proof fn law_built_edges_resolve(graph: GraphModel, gi: &GraphIndices, k: int)
    requires
        gi.wf(),
        graph_edges_known(graph),
        gi.pin_indices.pin_keys() == graph_pin_keys(graph),
        gi.edge_indices.edge_keys() == graph_edge_keys(graph),
        0 <= k < graph.edges@.len(),
    ensures
        ({
            let (target, source) = graph.edges@[k];
            &&& gi.spec_edge_ids(source@, target@) matches Some((e, s, t))
            &&& gi.pin_indices.pin_map()[s as nat] == PinView::Source(source@)
            &&& gi.pin_indices.pin_map()[t as nat] == PinView::Target(target@)
            &&& gi.edge_indices.edge_map()[e as nat] == (s, t)
        }),
{
    let (target, source) = graph.edges@[k];
    assert(edge_pins_known(key_to_id_of(graph_pin_keys(graph), 0), graph.edges@[k]));
    law_registered_key_has_id(gi.edge_indices.edge_keys(), 0, k);
    assert(gi.spec_edge_ids(source@, target@) is Some);
    law_edge_ids_resolve(gi, source@, target@);
}

/// Every node of a graph gets an id in the tables built from it, and that
/// id resolves back to the node.
pub proof fn law_built_nodes_resolve(graph: GraphModel, gi: &GraphIndices, k: int)
    requires
        gi.wf(),
        gi.node_indices.node_keys() == graph_node_keys(graph),
        0 <= k < graph.nodes@.len(),
    ensures
        ({
            let n = graph.nodes@[k].id@;
            &&& gi.node_indices.id_map().contains_key(n)
            &&& gi.node_indices.node_map().contains_key(gi.node_indices.id_map()[n])
            &&& gi.node_indices.node_map()[gi.node_indices.id_map()[n]] == n
            &&& gi.node_indices.id_map()[n] >= 4
        }),
{
    law_registered_key_has_id(gi.node_indices.node_keys(), 4, k);
    law_key_id_resolves_to_key(gi.node_indices.node_keys(), 4, graph.nodes@[k].id@);
}

} // verus!
