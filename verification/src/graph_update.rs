//! Turning what the editors report (in their integer ids) into actions on
//! graphs and state machines (in the graphs' own identifiers).
use vstd::prelude::*;
use vstd::string::StringExecFns;

use crate::fsm_indices::{law_transition_ids_resolve, FsmIndices};
use crate::graph_indices::{law_edge_ids_resolve, GraphIndices};
use crate::node_editor::GraphChange;
use crate::pins::{
    GraphInputPin, GraphInputPinView, NodeId, Pin, PinView, SourcePin, SourcePinView, TargetPin,
    TargetPinView,
};
use crate::registry::RegistryKey;

verus! {

/// Link a source pin to a target pin of graph `graph`.
pub struct CreateLink<H> {
    pub graph: H,
    pub source: SourcePin,
    pub target: TargetPin,
}

/// Remove the link into a target pin of graph `graph`.
pub struct RemoveLink<H> {
    pub graph: H,
    pub target: TargetPin,
}

/// Move a node of graph `graph`.
pub struct MoveNode<H, P> {
    pub graph: H,
    pub node: NodeId,
    pub new_pos: P,
}

/// Move the input node of graph `graph`.
pub struct MoveInput<H, P> {
    pub graph: H,
    pub new_pos: P,
}

/// Move the output node of graph `graph`.
pub struct MoveOutput<H, P> {
    pub graph: H,
    pub new_pos: P,
}

/// Remove a node of graph `graph`.
pub struct RemoveNode<H> {
    pub graph: H,
    pub node: NodeId,
}

/// Build the index tables of the graph `graph`.
pub struct GenerateIndices<H> {
    pub graph: H,
}

/// Build the index tables of the state machine `fsm`.
pub struct GenerateFsmIndices<H> {
    pub fsm: H,
}

/// An edit of an animation graph.
pub enum GraphAction<H, P> {
    CreateLink(CreateLink<H>),
    RemoveLink(RemoveLink<H>),
    MoveNode(MoveNode<H, P>),
    MoveInput(MoveInput<H, P>),
    MoveOutput(MoveOutput<H, P>),
    RemoveNode(RemoveNode<H>),
    Noop,
    GenerateIndices(GenerateIndices<H>),
}

/// What a graph change needs from the index tables to be converted: the
/// pins and edges it names are registered, with the right direction.
pub open spec fn graph_change_resolvable<P>(change: GraphChange<P>, gi: &GraphIndices) -> bool {
    let pins = gi.pin_indices.pin_map();
    let nodes = gi.node_indices.node_map();
    match change {
        GraphChange::LinkCreated(s, t) => {
            &&& pins.contains_key(s as nat)
            &&& pins[s as nat] is Source
            &&& pins.contains_key(t as nat)
            &&& pins[t as nat] is Target
        },
        GraphChange::LinkRemoved(e) => {
            let edges = gi.edge_indices.edge_map();
            &&& edges.contains_key(e as nat)
            &&& pins.contains_key(edges[e as nat].1 as nat)
            &&& pins[edges[e as nat].1 as nat] is Target
        },
        GraphChange::NodeMoved(n, _) => n > 1 ==> nodes.contains_key(n as nat),
        GraphChange::NodeRemoved(n) => n > 1 ==> nodes.contains_key(n as nat),
    }
}

/// Converts a change made in the graph editor into an edit of the graph.
/// Editor nodes 0 and 1 are the graph's input and output nodes: moving
/// them moves those, and removing them does nothing.
pub fn convert_graph_change<H, P>(
    graph_change: GraphChange<P>,
    graph_indices: &GraphIndices,
    graph_handle: H,
) -> (r: GraphAction<H, P>)
    requires
        graph_indices.wf(),
        graph_change_resolvable(graph_change, graph_indices),
    ensures
        ({
            let pins = graph_indices.pin_indices.pin_map();
            let nodes = graph_indices.node_indices.node_map();
            match graph_change {
                GraphChange::LinkCreated(s, t) => r matches GraphAction::CreateLink(c) && c.graph
                    == graph_handle && PinView::Source(c.source@) == pins[s as nat]
                    && PinView::Target(c.target@) == pins[t as nat],
                GraphChange::LinkRemoved(e) => {
                    let edge = graph_indices.edge_indices.edge_map()[e as nat];
                    r matches GraphAction::RemoveLink(c) && c.graph == graph_handle
                        && PinView::Target(c.target@) == pins[edge.1 as nat]
                },
                GraphChange::NodeMoved(n, pos) => if n == 0 {
                    r matches GraphAction::MoveInput(m) && m.graph == graph_handle && m.new_pos
                        == pos
                } else if n == 1 {
                    r matches GraphAction::MoveOutput(m) && m.graph == graph_handle && m.new_pos
                        == pos
                } else {
                    r matches GraphAction::MoveNode(m) && m.graph == graph_handle && m.node@
                        == nodes[n as nat] && m.new_pos == pos
                },
                GraphChange::NodeRemoved(n) => if n <= 1 {
                    r is Noop
                } else {
                    r matches GraphAction::RemoveNode(m) && m.graph == graph_handle && m.node@
                        == nodes[n as nat]
                },
            }
        }),
{
    match graph_change {
        GraphChange::LinkCreated(source_id, target_id) => {
            let source = match graph_indices.pin_indices.pin(source_id).unwrap() {
                Pin::Source(s) => s.duplicate(),
                Pin::Target(_) => {
                    proof {
                        assert(false);
                    }
                    return GraphAction::Noop;
                },
            };
            let target = match graph_indices.pin_indices.pin(target_id).unwrap() {
                Pin::Target(t) => t.duplicate(),
                Pin::Source(_) => {
                    proof {
                        assert(false);
                    }
                    return GraphAction::Noop;
                },
            };
            GraphAction::CreateLink(CreateLink { graph: graph_handle, source, target })
        },
        GraphChange::LinkRemoved(edge_id) => {
            let (_, target_id) = *graph_indices.edge_indices.edge(edge_id).unwrap();
            let target = match graph_indices.pin_indices.pin(target_id).unwrap() {
                Pin::Target(t) => t.duplicate(),
                Pin::Source(_) => {
                    proof {
                        assert(false);
                    }
                    return GraphAction::Noop;
                },
            };
            GraphAction::RemoveLink(RemoveLink { graph: graph_handle, target })
        },
        GraphChange::NodeMoved(node_id, new_pos) => {
            if node_id == 0 {
                GraphAction::MoveInput(MoveInput { graph: graph_handle, new_pos })
            } else if node_id == 1 {
                GraphAction::MoveOutput(MoveOutput { graph: graph_handle, new_pos })
            } else {
                let node = graph_indices.node_indices.name(node_id).unwrap();
                GraphAction::MoveNode(MoveNode { graph: graph_handle, node, new_pos })
            }
        },
        GraphChange::NodeRemoved(node_id) => {
            if node_id <= 1 {
                GraphAction::Noop
            } else {
                let node = graph_indices.node_indices.name(node_id).unwrap();
                GraphAction::RemoveNode(RemoveNode { graph: graph_handle, node })
            }
        },
    }
}

/// A change made in the state machine editor during one frame.
#[derive(Debug, Clone)]
pub enum FsmChange<P> {
    /// A state and its new position.
    StateMoved(usize, P),
    TransitionRemoved(usize),
    StateRemoved(usize),
    TransitionCreated(usize, usize),
}

/// Move a state of state machine `fsm`.
pub struct MoveState<H, P> {
    pub fsm: H,
    pub state_id: String,
    pub new_pos: P,
}

/// Remove a transition of state machine `fsm`.
pub struct RemoveTransition<H> {
    pub fsm: H,
    pub transition_id: String,
}

/// Remove a state of state machine `fsm`.
pub struct RemoveState<H> {
    pub fsm: H,
    pub state_id: String,
}

/// An edit of a state machine.
pub enum FsmAction<H, P> {
    MoveState(MoveState<H, P>),
    RemoveTransition(RemoveTransition<H>),
    RemoveState(RemoveState<H>),
    GenerateIndices(GenerateFsmIndices<H>),
}

/// The graph editor's first step for the graph `graph`: with its index
/// tables at hand it goes on with them; without them it queues their
/// generation and shows nothing this frame.
pub fn graph_indices_or_generate<'a, H, P>(
    graph: H,
    indices: Option<&'a GraphIndices>,
    actions: &mut Vec<GraphAction<H, P>>,
) -> (r: Option<&'a GraphIndices>)
    ensures
        r == indices,
        indices is Some ==> final(actions)@ == old(actions)@,
        indices is None ==> {
            &&& final(actions)@.len() == old(actions)@.len() + 1
            &&& final(actions)@.take(old(actions)@.len() as int) == old(actions)@
            &&& final(actions)@.last() matches GraphAction::GenerateIndices(g) && g.graph == graph
        },
{
    if indices.is_none() {
        actions.push(GraphAction::GenerateIndices(GenerateIndices { graph }));
        proof {
            assert(actions@.take(old(actions)@.len() as int) =~= old(actions)@);
        }
    }
    indices
}

/// The state machine editor's first step for `fsm`, as
/// [`graph_indices_or_generate`] is the graph editor's.
pub fn fsm_indices_or_generate<'a, H, P>(
    fsm: H,
    indices: Option<&'a FsmIndices>,
    actions: &mut Vec<FsmAction<H, P>>,
) -> (r: Option<&'a FsmIndices>)
    ensures
        r == indices,
        indices is Some ==> final(actions)@ == old(actions)@,
        indices is None ==> {
            &&& final(actions)@.len() == old(actions)@.len() + 1
            &&& final(actions)@.take(old(actions)@.len() as int) == old(actions)@
            &&& final(actions)@.last() matches FsmAction::GenerateIndices(g) && g.fsm == fsm
        },
{
    if indices.is_none() {
        actions.push(FsmAction::GenerateIndices(GenerateFsmIndices { fsm }));
        proof {
            assert(actions@.take(old(actions)@.len() as int) =~= old(actions)@);
        }
    }
    indices
}

/// What a state machine change needs from the index tables: the state or
/// transition it names is registered.
pub open spec fn fsm_change_resolvable<P>(change: FsmChange<P>, fi: &FsmIndices) -> bool {
    match change {
        FsmChange::StateMoved(s, _) => fi.state_indices.name_map().contains_key(s as nat),
        FsmChange::TransitionRemoved(t) => fi.transition_indices.edge_map().contains_key(t as nat),
        FsmChange::StateRemoved(s) => fi.state_indices.name_map().contains_key(s as nat),
        FsmChange::TransitionCreated(_, _) => true,
    }
}

/// Converts a change made in the state machine editor into an edit of the
/// state machine; a created transition gives no edit.
pub fn convert_fsm_change<H, P>(fsm_change: FsmChange<P>, fsm_indices: &FsmIndices, fsm: H) -> (r:
    Option<FsmAction<H, P>>)
    requires
        fsm_indices.wf(),
        fsm_change_resolvable(fsm_change, fsm_indices),
    ensures
        match fsm_change {
            FsmChange::StateMoved(s, pos) => r matches Some(FsmAction::MoveState(m)) && m.fsm == fsm
                && m.state_id@ == fsm_indices.state_indices.name_map()[s as nat] && m.new_pos == pos,
            FsmChange::TransitionRemoved(t) => r matches Some(FsmAction::RemoveTransition(m))
                && m.fsm == fsm && m.transition_id@
                == fsm_indices.transition_indices.edge_map()[t as nat].1,
            FsmChange::StateRemoved(s) => r matches Some(FsmAction::RemoveState(m)) && m.fsm == fsm
                && m.state_id@ == fsm_indices.state_indices.name_map()[s as nat],
            FsmChange::TransitionCreated(_, _) => r is None,
        },
{
    match fsm_change {
        FsmChange::StateMoved(state_id, new_pos) => {
            let name = fsm_indices.state_indices.name(state_id).unwrap().duplicate();
            Some(FsmAction::MoveState(MoveState { fsm, state_id: name, new_pos }))
        },
        FsmChange::TransitionRemoved(transition_id) => {
            let edge = fsm_indices.transition_indices.edge(transition_id).unwrap();
            Some(
                FsmAction::RemoveTransition(
                    RemoveTransition { fsm, transition_id: edge.1.duplicate() },
                ),
            )
        },
        FsmChange::StateRemoved(state_id) => {
            let name = fsm_indices.state_indices.name(state_id).unwrap().duplicate();
            Some(FsmAction::RemoveState(RemoveState { fsm, state_id: name }))
        },
        FsmChange::TransitionCreated(_, _) => None,
    }
}

/// The label of an input pin of a graph's input node.
pub open spec fn input_pin_label(p: GraphInputPinView) -> Seq<char> {
    match p {
        GraphInputPinView::Passthrough(s) => s,
        GraphInputPinView::FromFsmSource(s) => "src: "@ + s,
        GraphInputPinView::FromFsmTarget(s) => "tgt: "@ + s,
        GraphInputPinView::FsmBuiltin(s) => "fsm: "@ + s,
    }
}

/// The label shown for an input pin of a graph's input node.
pub fn graph_input_pin_string(input: &GraphInputPin) -> (r: String)
    ensures
        r@ == input_pin_label(input@),
{
    match input {
        GraphInputPin::Passthrough(pin_id) => pin_id.duplicate(),
        GraphInputPin::FromFsmSource(pin_id) => {
            let mut r = "src: ".to_owned();
            r.append(pin_id.as_str());
            r
        },
        GraphInputPin::FromFsmTarget(pin_id) => {
            let mut r = "tgt: ".to_owned();
            r.append(pin_id.as_str());
            r
        },
        GraphInputPin::FsmBuiltin(pin) => {
            let mut r = "fsm: ".to_owned();
            r.append(pin.as_str());
            r
        },
    }
}

/// The editor ids of an edge convert back into the edge: a link created
/// between its pin ids becomes the creation of a link from its source to its
/// target, and removing its edge id becomes the removal of the link into its
/// target.
pub proof fn law_edge_changes_convert_back<H, P>(
    gi: &GraphIndices,
    source: SourcePinView,
    target: TargetPinView,
    created: GraphAction<H, P>,
    removed: GraphAction<H, P>,
)
    requires
        gi.wf(),
        gi.spec_edge_ids(source, target) is Some,
        created matches GraphAction::CreateLink(c) && ({
            let (e, s, t) = gi.spec_edge_ids(source, target)->0;
            PinView::Source(c.source@) == gi.pin_indices.pin_map()[s as nat] && PinView::Target(
                c.target@,
            ) == gi.pin_indices.pin_map()[t as nat]
        }),
        removed matches GraphAction::RemoveLink(c) && ({
            let (e, s, t) = gi.spec_edge_ids(source, target)->0;
            PinView::Target(c.target@) == gi.pin_indices.pin_map()[gi.edge_indices.edge_map()[
            e as nat].1 as nat]
        }),
    ensures
        ({
            let (e, s, t) = gi.spec_edge_ids(source, target)->0;
            &&& graph_change_resolvable(GraphChange::<P>::LinkCreated(s, t), gi)
            &&& graph_change_resolvable(GraphChange::<P>::LinkRemoved(e), gi)
        }),
        created matches GraphAction::CreateLink(c) && c.source@ == source && c.target@ == target,
        removed matches GraphAction::RemoveLink(c) && c.target@ == target,
{
    law_edge_ids_resolve(gi, source, target);
}

/// The editor ids of a transition convert back into the transition: removing
/// its id becomes the removal of the transition of that name.
pub proof fn law_transition_removal_converts_back<H, P>(
    fi: &FsmIndices,
    source: Seq<char>,
    transition: Seq<char>,
    target: Seq<char>,
    removed: Option<FsmAction<H, P>>,
)
    requires
        fi.wf(),
        fi.spec_transition_ids(source, transition, target) is Some,
        ({
            let (e, s, t) = fi.spec_transition_ids(source, transition, target)->0;
            removed matches Some(FsmAction::RemoveTransition(m)) && m.transition_id@
                == fi.transition_indices.edge_map()[e as nat].1
        }),
    ensures
        ({
            let (e, s, t) = fi.spec_transition_ids(source, transition, target)->0;
            fsm_change_resolvable(FsmChange::<P>::TransitionRemoved(e), fi)
        }),
        removed matches Some(FsmAction::RemoveTransition(m)) && m.transition_id@ == transition,
{
    law_transition_ids_resolve(fi, source, transition, target);
}

} // verus!
