//! What the state machine editor is given to show a state machine: an
//! editor state for each state and an editor transition for each
//! transition, under the ids of the state machine's index tables, with the
//! running state and transition marked active.
use vstd::prelude::*;
use crate::fsm_indices::{law_transition_ids_resolve, FsmIndices, TransitionModel};
use crate::registry::law_key_id_resolves_to_key;
use crate::registry::RegistryKey;
use crate::style::{rgb, rgba, LinkStyleArgs, Rgba};
use vstd::std_specs::cmp::PartialEqSpec;

verus! {

/// A state of a state machine as the editor shows it: its position
/// `origin` is the caller's.
pub struct StateReprModel<P> {
    pub id: String,
    pub origin: P,
    pub has_global_transition: bool,
}

/// A state machine as the editor shows it.
pub struct FsmReprModel<P> {
    pub states: Vec<StateReprModel<P>>,
    pub start_state: String,
    pub transitions: Vec<TransitionModel>,
}

/// Where a running state machine is: its current state and, while that
/// state is a transition under way, the transition's name.
pub struct FsmDebugState {
    pub state: String,
    pub transition: Option<String>,
}

/// A state of the editor.
pub struct StateSpec<P> {
    pub id: usize,
    pub name: String,
    pub subtitle: String,
    pub origin: P,
    pub active: bool,
    pub is_start_state: bool,
    pub has_global_transition: bool,
}

/// A transition of the editor.
#[derive(Debug, Clone, Copy)]
pub struct TransitionSpec {
    pub id: usize,
    pub start_pin_index: usize,
    pub end_pin_index: usize,
    pub style: LinkStyleArgs,
    pub active: bool,
}

/// What the editor is given for a state machine.
pub struct FsmReprSpec<P> {
    pub states: Vec<StateSpec<P>>,
    pub transitions: Vec<TransitionSpec>,
}

// ------------------------------------------------------------- specs

/// How every transition is drawn.
pub open spec fn transition_style() -> LinkStyleArgs {
    LinkStyleArgs {
        base: Some(rgba(150, 150, 150, 127)),
        hovered: Some(rgb(200, 200, 200)),
        selected: Some(rgb(200, 200, 200)),
        thickness: Some(5u8),
    }
}

/// The state named `state` is the one running.
pub open spec fn state_active(debug: Option<FsmDebugState>, state: Seq<char>) -> bool {
    debug matches Some(d) && d.state@ == state
}

/// The transition named `transition` is under way.
pub open spec fn transition_active(debug: Option<FsmDebugState>, transition: Seq<char>) -> bool {
    debug matches Some(d) && d.transition matches Some(t) && t@ == transition
}

/// Every state and every transition of the state machine has ids in the
/// index tables.
pub open spec fn fsm_resolvable<P>(fsm: FsmReprModel<P>, fi: FsmIndices) -> bool {
    &&& forall|k: int| 0 <= k < fsm.states@.len() ==> fi.state_indices.id_map().contains_key(
        (#[trigger] fsm.states@[k]).id@,
    )
    &&& forall|k: int| 0 <= k < fsm.transitions@.len() ==> {
        let t = #[trigger] fsm.transitions@[k];
        fi.spec_transition_ids(t.source@, t.id@, t.target@) is Some
    }
}

/// `s` is the editor state for the state `st`.
pub open spec fn state_spec_is<P>(s: StateSpec<P>, st: StateReprModel<P>, fsm: FsmReprModel<P>, fi: FsmIndices, debug: Option<FsmDebugState>) -> bool {
    &&& s.id == fi.state_indices.id_map()[st.id@]
    &&& s.name@ == st.id@
    &&& s.subtitle@ == Seq::<char>::empty()
    &&& s.origin == st.origin
    &&& s.active == state_active(debug, st.id@)
    &&& s.is_start_state == (st.id@ == fsm.start_state@)
    &&& s.has_global_transition == st.has_global_transition
}

/// `s` is the editor transition for the transition `t`.
pub open spec fn transition_spec_is(s: TransitionSpec, t: TransitionModel, fi: FsmIndices, debug: Option<FsmDebugState>) -> bool {
    let ids = fi.spec_transition_ids(t.source@, t.id@, t.target@)->0;
    &&& s.id == ids.0
    &&& s.start_pin_index == ids.1
    &&& s.end_pin_index == ids.2
    &&& s.style == transition_style()
    &&& s.active == transition_active(debug, t.id@)
}

/// `r` shows the state machine `fsm`: an editor state for each state in
/// order and an editor transition for each transition in order.
pub open spec fn fsm_repr_of<P>(r: FsmReprSpec<P>, fsm: FsmReprModel<P>, fi: FsmIndices, debug: Option<FsmDebugState>) -> bool {
    &&& r.states@.len() == fsm.states@.len()
    &&& forall|k: int| 0 <= k < fsm.states@.len() ==> state_spec_is(#[trigger] r.states@[k], fsm.states@[k], fsm, fi, debug)
    &&& r.transitions@.len() == fsm.transitions@.len()
    &&& forall|k: int| 0 <= k < fsm.transitions@.len() ==> transition_spec_is(#[trigger] r.transitions@[k], fsm.transitions@[k], fi, debug)
}

// ------------------------------------------------------------- code

fn is_active_state(debug: &Option<FsmDebugState>, state: &String) -> (b: bool)
    ensures
        b == state_active(*debug, state@),
{
    match debug {
        Some(d) => d.state.same_key(state),
        None => false,
    }
}

fn is_active_transition(debug: &Option<FsmDebugState>, transition: &String) -> (b: bool)
    ensures
        b == transition_active(*debug, transition@),
{
    match debug {
        Some(d) => match &d.transition {
            Some(t) => t.same_key(transition),
            None => false,
        },
        None => false,
    }
}

fn fsm_transition_style() -> (s: LinkStyleArgs)
    ensures
        s == transition_style(),
{
    LinkStyleArgs {
        base: Some(Rgba::new(150, 150, 150, 127)),
        hovered: Some(Rgba::opaque(200, 200, 200)),
        selected: Some(Rgba::opaque(200, 200, 200)),
        thickness: Some(5u8),
    }
}

impl<P: Copy> FsmReprSpec<P> {
    /// What the editor is given to show `fsm`, with the state and the
    /// transition that `fsm_state` names marked active.
    pub fn from_fsm(fsm: &FsmReprModel<P>, indices: &FsmIndices, fsm_state: &Option<FsmDebugState>) -> (r: Self)
        requires
            indices.wf(),
            fsm_resolvable(*fsm, *indices),
        ensures
            fsm_repr_of(r, *fsm, *indices, *fsm_state),
    {
        let mut states: Vec<StateSpec<P>> = Vec::new();
        let mut i: usize = 0;
        while i < fsm.states.len()
            invariant
                indices.wf(),
                fsm_resolvable(*fsm, *indices),
                i <= fsm.states.len(),
                states@.len() == i,
                forall|k: int| 0 <= k < i ==> state_spec_is(#[trigger] states@[k], fsm.states@[k], *fsm, *indices, *fsm_state),
            decreases fsm.states.len() - i,
        {
            let state = &fsm.states[i];
            assert(indices.state_indices.id_map().contains_key(fsm.states@[i as int].id@));
            let id = indices.state_indices.get_id(state.id.as_str()).unwrap();
            states.push(StateSpec {
                id,
                name: state.id.duplicate(),
                subtitle: String::new(),
                origin: state.origin,
                active: is_active_state(fsm_state, &state.id),
                is_start_state: state.id.same_key(&fsm.start_state),
                has_global_transition: state.has_global_transition,
            });
            i = i + 1;
        }
        let mut transitions: Vec<TransitionSpec> = Vec::new();
        let mut j: usize = 0;
        while j < fsm.transitions.len()
            invariant
                indices.wf(),
                fsm_resolvable(*fsm, *indices),
                j <= fsm.transitions.len(),
                transitions@.len() == j,
                forall|k: int| 0 <= k < j ==> transition_spec_is(#[trigger] transitions@[k], fsm.transitions@[k], *indices, *fsm_state),
            decreases fsm.transitions.len() - j,
        {
            let t = &fsm.transitions[j];
            assert(indices.spec_transition_ids(fsm.transitions@[j as int].source@, fsm.transitions@[j as int].id@, fsm.transitions@[j as int].target@) is Some);
            let (id, start, end) = indices.transition_ids(t.source.duplicate(), t.id.duplicate(), t.target.duplicate()).unwrap();
            transitions.push(TransitionSpec {
                id,
                start_pin_index: start,
                end_pin_index: end,
                style: fsm_transition_style(),
                active: is_active_transition(fsm_state, &t.id),
            });
            j = j + 1;
        }
        FsmReprSpec { states, transitions }
    }
}


/// What the editor is shown of a state machine resolves back through the
/// index tables: each state's id names the state, and each transition's
/// start and end ids name its states while its own id names the transition
/// between them.
pub proof fn law_shown_fsm_resolves<P>(fsm: FsmReprModel<P>, fi: FsmIndices, debug: Option<FsmDebugState>, r: FsmReprSpec<P>, k: int, m: int)
    requires
        fi.wf(),
        fsm_resolvable(fsm, fi),
        fsm_repr_of(r, fsm, fi, debug),
    ensures
        0 <= k < r.states@.len() ==> fi.state_indices.name_map()[r.states@[k].id as nat] == fsm.states@[k].id@,
        0 <= m < r.transitions@.len() ==> {
            let s = r.transitions@[m];
            let t = fsm.transitions@[m];
            &&& fi.state_indices.name_map()[s.start_pin_index as nat] == t.source@
            &&& fi.state_indices.name_map()[s.end_pin_index as nat] == t.target@
            &&& fi.transition_indices.edge_map()[s.id as nat] == (s.start_pin_index, t.id@, s.end_pin_index)
        },
{
    if 0 <= k < r.states@.len() {
        assert(state_spec_is(r.states@[k], fsm.states@[k], fsm, fi, debug));
        assert(fi.state_indices.id_map().contains_key(fsm.states@[k].id@));
        law_key_id_resolves_to_key(fi.state_indices.state_keys(), 4, fsm.states@[k].id@);
    }
    if 0 <= m < r.transitions@.len() {
        let t = fsm.transitions@[m];
        assert(transition_spec_is(r.transitions@[m], t, fi, debug));
        assert(fi.spec_transition_ids(t.source@, t.id@, t.target@) is Some);
        law_transition_ids_resolve(&fi, t.source@, t.id@, t.target@);
    }
}

// ------------------------------------------------------------- drawn transitions

/// How the editor lays out a transition among those that join the same
/// pair of states.
#[derive(Debug, Clone, Copy)]
pub struct TransitionState {
    pub links_for_node_pair: u32,
    pub index_in_node_pair: u32,
    pub offset_inverted: bool,
}

/// A transition as the editor draws it.
#[derive(Debug, Clone, Copy)]
pub struct Transition {
    pub spec: TransitionSpec,
    pub state: TransitionState,
}

/// The two transitions join the same two states, in either direction.
pub open spec fn joins_same_states(a: TransitionSpec, b: TransitionSpec) -> bool {
    ||| a.start_pin_index == b.start_pin_index && a.end_pin_index == b.end_pin_index
    ||| a.start_pin_index == b.end_pin_index && a.end_pin_index == b.start_pin_index
}

impl PartialEq for Transition {
    fn eq(&self, rhs: &Self) -> (r: bool) {
        let mut lhs_start = self.spec.start_pin_index;
        let mut lhs_end = self.spec.end_pin_index;
        let mut rhs_start = rhs.spec.start_pin_index;
        let mut rhs_end = rhs.spec.end_pin_index;
        if lhs_start > lhs_end {
            std::mem::swap(&mut lhs_start, &mut lhs_end);
        }
        if rhs_start > rhs_end {
            std::mem::swap(&mut rhs_start, &mut rhs_end);
        }
        lhs_start == rhs_start && lhs_end == rhs_end
    }
}

impl vstd::std_specs::cmp::PartialEqSpecImpl for Transition {
    open spec fn obeys_eq_spec() -> bool {
        true
    }

    open spec fn eq_spec(&self, other: &Self) -> bool {
        joins_same_states(self.spec, other.spec)
    }
}

/// Transitions are equal when they join the same two states, whichever way
/// they point: a transition equals itself and its reverse, and the equality
/// is symmetric and transitive.
pub proof fn law_transition_equality(a: Transition, b: Transition, c: Transition)
    ensures
        a.eq_spec(&a),
        a.spec.start_pin_index == b.spec.end_pin_index && a.spec.end_pin_index == b.spec.start_pin_index ==> a.eq_spec(&b),
        a.eq_spec(&b) ==> b.eq_spec(&a),
        a.eq_spec(&b) && b.eq_spec(&c) ==> a.eq_spec(&c),
{
}

} // verus!
