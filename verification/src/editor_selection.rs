//! What the graph and state machine editors select after each frame: the
//! running context they show, the node they debug, and what the inspector
//! shows of a fresh selection.
use vstd::prelude::*;
use crate::pins::NodeId;
use crate::registry::RegistryKey;

verus! {

/// The context an editor shows: the one chosen for its asset, or else the
/// first of those available.
pub open spec fn spec_autoselect_context<C>(active: Option<C>, available: Seq<C>) -> Option<C> {
    match active {
        Some(c) => Some(c),
        None => if available.len() > 0 {
            Some(available[0])
        } else {
            None
        },
    }
}

/// The context to show: the one chosen, or else the first available.
pub fn autoselect_context<C: Copy>(active: Option<C>, available: &Vec<C>) -> (r: Option<C>)
    ensures
        r == spec_autoselect_context(active, available@),
{
    match active {
        Some(c) => Some(c),
        None => if available.len() > 0 {
            Some(available[0])
        } else {
            None
        },
    }
}

/// The position in `selected` of the last editor id above 1: ids 0 and 1
/// are the input and output nodes, not nodes of the graph.
pub open spec fn last_above_one(selected: Seq<usize>) -> Option<int>
    decreases selected.len(),
{
    if selected.len() == 0 {
        None
    } else if selected.last() > 1 {
        Some(selected.len() - 1)
    } else {
        last_above_one(selected.drop_last())
    }
}

/// The most recently selected node of the graph or state machine itself,
/// among the editor ids `selected` in selection order.
pub fn last_selected_node(selected: &Vec<usize>) -> (r: Option<usize>)
    ensures
        r == match last_above_one(selected@) {
            Some(k) => Some(selected@[k]),
            None => None,
        },
{
    let mut i: usize = selected.len();
    proof {
        assert(selected@.take(i as int) =~= selected@);
    }
    while i > 0
        invariant
            i <= selected@.len(),
            last_above_one(selected@) == last_above_one(selected@.take(i as int)),
        decreases i,
    {
        proof {
            assert(selected@.take(i as int).drop_last() =~= selected@.take(i - 1));
        }
        if selected[i - 1] > 1 {
            return Some(selected[i - 1]);
        }
        i = i - 1;
    }
    None
}

/// What the inspector shows.
#[derive(Debug)]
pub enum InspectorSelection<H> {
    FsmTransition { fsm: H, transition: String },
    FsmState { fsm: H, state: String },
    /// A node of a graph, the text of its rename box, and the output pin
    /// whose cached value the debugger shows, if one is picked.
    Node { graph: H, node: NodeId, name_buf: String, selected_pin_id: Option<String> },
    Graph,
    Fsm,
    Nothing,
}

impl<H: RegistryKey> InspectorSelection<H> {
    /// Follows the latest selected node `node` of `graph` (called `name`)
    /// in the graph editor: a node being inspected follows the selection,
    /// its rename text starting over as `name` when the node changes;
    /// anything else gives way to the node only when it was selected just
    /// now. The pin picked for the debugger stays when the inspected node
    /// changes; a node that takes the place of anything else starts with
    /// none.
    pub fn inspect_graph_node(&mut self, graph: H, node: NodeId, name: String, just_selected: bool)
        ensures
            match *old(self) {
                InspectorSelection::Node { graph: og, node: on, name_buf: ob, selected_pin_id: op } => {
                    &&& *final(self) is Node
                    &&& final(self)->Node_graph@ == graph@
                    &&& final(self)->Node_node == node
                    &&& final(self)->Node_name_buf@ == if on == node && og@ == graph@ {
                        ob@
                    } else {
                        name@
                    }
                    &&& final(self)->Node_selected_pin_id == op
                },
                _ => if just_selected {
                    &&& *final(self) is Node
                    &&& final(self)->Node_graph@ == graph@
                    &&& final(self)->Node_node == node
                    &&& final(self)->Node_name_buf@ == name@
                    &&& final(self)->Node_selected_pin_id is None
                } else {
                    *final(self) == *old(self)
                },
            },
    {
        let is_node = match self {
            InspectorSelection::Node { .. } => true,
            _ => false,
        };
        if is_node {
            let keep = match self {
                InspectorSelection::Node { graph: g, node: n, .. } => n.0 == node.0 && g.same_key(&graph),
                _ => false,
            };
            if !keep {
                if let InspectorSelection::Node { graph: g, node: n, name_buf: b, .. } = self {
                    *g = graph;
                    *n = node;
                    *b = name;
                }
            }
        } else if just_selected {
            *self = InspectorSelection::Node { graph, node, name_buf: name, selected_pin_id: None };
        }
    }

    /// Records the pin picked in the debugger for the inspected node: none
    /// for an empty pick. Anything but a node is left as it is.
    pub fn pick_debug_pin(&mut self, picked: String)
        ensures
            match *old(self) {
                InspectorSelection::Node { graph, node, name_buf, .. } => {
                    &&& *final(self) is Node
                    &&& final(self)->Node_graph == graph
                    &&& final(self)->Node_node == node
                    &&& final(self)->Node_name_buf == name_buf
                    &&& final(self)->Node_selected_pin_id == if picked@.len() == 0 {
                        None
                    } else {
                        Some(picked)
                    }
                },
                _ => *final(self) == *old(self),
            },
    {
        if let InspectorSelection::Node { selected_pin_id, .. } = self {
            *selected_pin_id = if picked.as_str().is_empty() {
                None
            } else {
                Some(picked)
            };
        }
    }

    /// Shows the state `state` of `fsm` when it was selected just now.
    pub fn inspect_fsm_state(&mut self, fsm: H, state: String, just_selected: bool)
        ensures
            just_selected ==> *final(self) == (InspectorSelection::FsmState { fsm, state }),
            !just_selected ==> *final(self) == *old(self),
    {
        if just_selected {
            *self = InspectorSelection::FsmState { fsm, state };
        }
    }

    /// Shows the transition `transition` of `fsm` when it was selected just
    /// now.
    pub fn inspect_fsm_transition(&mut self, fsm: H, transition: String, just_selected: bool)
        ensures
            just_selected ==> *final(self) == (InspectorSelection::FsmTransition { fsm, transition }),
            !just_selected ==> *final(self) == *old(self),
    {
        if just_selected {
            *self = InspectorSelection::FsmTransition { fsm, transition };
        }
    }
}

} // verus!
