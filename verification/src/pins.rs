//! The identifiers of an animation graph that the editor indexes: nodes,
//! the graph's input pins, and the source and target pins that edges join.
use vstd::prelude::*;

use crate::registry::RegistryKey;

verus! {

/// A node of an animation graph, identified by the 128 bits of its uuid.
#[derive(Clone, Copy, Debug, PartialEq, Eq, Hash)]
pub struct NodeId(pub u128);

impl View for NodeId {
    type V = u128;

    open spec fn view(&self) -> u128 {
        self.0
    }
}

impl RegistryKey for NodeId {
    fn same_key(&self, other: &Self) -> (b: bool) {
        self.0 == other.0
    }

    fn duplicate(&self) -> (r: Self) {
        NodeId(self.0)
    }
}

/// An input pin of a graph as a whole.
#[derive(Clone, Debug, PartialEq, Eq, Hash)]
pub enum GraphInputPin {
    /// An input passed straight through from the graph's caller.
    Passthrough(String),
    /// An input taken from the source state of a state machine transition.
    FromFsmSource(String),
    /// An input taken from the target state of a state machine transition.
    FromFsmTarget(String),
    /// A built-in state machine input, by the name of the built-in.
    FsmBuiltin(String),
}

/// The mathematical value of a [`GraphInputPin`].
pub enum GraphInputPinView {
    Passthrough(Seq<char>),
    FromFsmSource(Seq<char>),
    FromFsmTarget(Seq<char>),
    FsmBuiltin(Seq<char>),
}

impl View for GraphInputPin {
    type V = GraphInputPinView;

    open spec fn view(&self) -> GraphInputPinView {
        match self {
            GraphInputPin::Passthrough(s) => GraphInputPinView::Passthrough(s@),
            GraphInputPin::FromFsmSource(s) => GraphInputPinView::FromFsmSource(s@),
            GraphInputPin::FromFsmTarget(s) => GraphInputPinView::FromFsmTarget(s@),
            GraphInputPin::FsmBuiltin(s) => GraphInputPinView::FsmBuiltin(s@),
        }
    }
}

impl RegistryKey for GraphInputPin {
    fn same_key(&self, other: &Self) -> (b: bool) {
        match (self, other) {
            (GraphInputPin::Passthrough(a), GraphInputPin::Passthrough(b)) => a.same_key(b),
            (GraphInputPin::FromFsmSource(a), GraphInputPin::FromFsmSource(b)) => a.same_key(b),
            (GraphInputPin::FromFsmTarget(a), GraphInputPin::FromFsmTarget(b)) => a.same_key(b),
            (GraphInputPin::FsmBuiltin(a), GraphInputPin::FsmBuiltin(b)) => a.same_key(b),
            _ => false,
        }
    }

    fn duplicate(&self) -> (r: Self) {
        match self {
            GraphInputPin::Passthrough(s) => GraphInputPin::Passthrough(s.duplicate()),
            GraphInputPin::FromFsmSource(s) => GraphInputPin::FromFsmSource(s.duplicate()),
            GraphInputPin::FromFsmTarget(s) => GraphInputPin::FromFsmTarget(s.duplicate()),
            GraphInputPin::FsmBuiltin(s) => GraphInputPin::FsmBuiltin(s.duplicate()),
        }
    }
}

/// A pin that data or time flows out of.
#[derive(Clone, Debug, PartialEq, Eq, Hash)]
pub enum SourcePin {
    NodeData(NodeId, String),
    NodeTime(NodeId),
    InputData(GraphInputPin),
    InputTime(GraphInputPin),
}

pub enum SourcePinView {
    NodeData(u128, Seq<char>),
    NodeTime(u128),
    InputData(GraphInputPinView),
    InputTime(GraphInputPinView),
}

impl View for SourcePin {
    type V = SourcePinView;

    open spec fn view(&self) -> SourcePinView {
        match self {
            SourcePin::NodeData(n, p) => SourcePinView::NodeData(n@, p@),
            SourcePin::NodeTime(n) => SourcePinView::NodeTime(n@),
            SourcePin::InputData(p) => SourcePinView::InputData(p@),
            SourcePin::InputTime(p) => SourcePinView::InputTime(p@),
        }
    }
}

impl RegistryKey for SourcePin {
    fn same_key(&self, other: &Self) -> (b: bool) {
        match (self, other) {
            (SourcePin::NodeData(n1, p1), SourcePin::NodeData(n2, p2)) => n1.same_key(n2)
                && p1.same_key(p2),
            (SourcePin::NodeTime(n1), SourcePin::NodeTime(n2)) => n1.same_key(n2),
            (SourcePin::InputData(p1), SourcePin::InputData(p2)) => p1.same_key(p2),
            (SourcePin::InputTime(p1), SourcePin::InputTime(p2)) => p1.same_key(p2),
            _ => false,
        }
    }

    fn duplicate(&self) -> (r: Self) {
        match self {
            SourcePin::NodeData(n, p) => SourcePin::NodeData(n.duplicate(), p.duplicate()),
            SourcePin::NodeTime(n) => SourcePin::NodeTime(n.duplicate()),
            SourcePin::InputData(p) => SourcePin::InputData(p.duplicate()),
            SourcePin::InputTime(p) => SourcePin::InputTime(p.duplicate()),
        }
    }
}

/// A pin that data or time flows into.
#[derive(Clone, Debug, PartialEq, Eq, Hash)]
pub enum TargetPin {
    NodeData(NodeId, String),
    NodeTime(NodeId, String),
    OutputData(String),
    OutputTime,
}

pub enum TargetPinView {
    NodeData(u128, Seq<char>),
    NodeTime(u128, Seq<char>),
    OutputData(Seq<char>),
    OutputTime,
}

impl View for TargetPin {
    type V = TargetPinView;

    open spec fn view(&self) -> TargetPinView {
        match self {
            TargetPin::NodeData(n, p) => TargetPinView::NodeData(n@, p@),
            TargetPin::NodeTime(n, p) => TargetPinView::NodeTime(n@, p@),
            TargetPin::OutputData(p) => TargetPinView::OutputData(p@),
            TargetPin::OutputTime => TargetPinView::OutputTime,
        }
    }
}

impl RegistryKey for TargetPin {
    fn same_key(&self, other: &Self) -> (b: bool) {
        match (self, other) {
            (TargetPin::NodeData(n1, p1), TargetPin::NodeData(n2, p2)) => n1.same_key(n2)
                && p1.same_key(p2),
            (TargetPin::NodeTime(n1, p1), TargetPin::NodeTime(n2, p2)) => n1.same_key(n2)
                && p1.same_key(p2),
            (TargetPin::OutputData(p1), TargetPin::OutputData(p2)) => p1.same_key(p2),
            (TargetPin::OutputTime, TargetPin::OutputTime) => true,
            _ => false,
        }
    }

    fn duplicate(&self) -> (r: Self) {
        match self {
            TargetPin::NodeData(n, p) => TargetPin::NodeData(n.duplicate(), p.duplicate()),
            TargetPin::NodeTime(n, p) => TargetPin::NodeTime(n.duplicate(), p.duplicate()),
            TargetPin::OutputData(p) => TargetPin::OutputData(p.duplicate()),
            TargetPin::OutputTime => TargetPin::OutputTime,
        }
    }
}

/// Either end of an edge.
#[derive(Clone, Debug, PartialEq, Eq, Hash)]
pub enum Pin {
    Source(SourcePin),
    Target(TargetPin),
}

pub enum PinView {
    Source(SourcePinView),
    Target(TargetPinView),
}

impl View for Pin {
    type V = PinView;

    open spec fn view(&self) -> PinView {
        match self {
            Pin::Source(p) => PinView::Source(p@),
            Pin::Target(p) => PinView::Target(p@),
        }
    }
}

impl RegistryKey for Pin {
    fn same_key(&self, other: &Self) -> (b: bool) {
        match (self, other) {
            (Pin::Source(a), Pin::Source(b)) => a.same_key(b),
            (Pin::Target(a), Pin::Target(b)) => a.same_key(b),
            _ => false,
        }
    }

    fn duplicate(&self) -> (r: Self) {
        match self {
            Pin::Source(p) => Pin::Source(p.duplicate()),
            Pin::Target(p) => Pin::Target(p.duplicate()),
        }
    }
}

} // verus!
