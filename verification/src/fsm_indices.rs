//! The index tables that tie a state machine to the state machine editor:
//! each state and each transition gets an integer id. Ids 0 to 3 of the
//! state table are kept free.
use vstd::prelude::*;

use crate::registry::{
    id_to_key_of, key_to_id_of, law_key_id_resolves_to_key, law_registered_key_has_id, opt_nat,
    Registry, RegistryKey,
};

verus! {

/// Ids of states, by state name, from 4 up.
pub struct StateIndices {
    states: Registry<String>,
}

impl StateIndices {
    /// The state names registered so far, oldest first.
    pub closed spec fn state_keys(&self) -> Seq<Seq<char>> {
        self.states.key_views()
    }

    pub closed spec fn wf(&self) -> bool {
        self.states.wf() && self.states.first_id() == 4
    }

    pub open spec fn next_id(&self) -> nat {
        4 + self.state_keys().len()
    }

    /// State name to editor id.
    pub open spec fn id_map(&self) -> Map<Seq<char>, nat> {
        key_to_id_of(self.state_keys(), 4)
    }

    /// Editor id to state name.
    pub open spec fn name_map(&self) -> Map<nat, Seq<char>> {
        id_to_key_of(self.state_keys(), 4)
    }

    pub fn new() -> (r: Self)
        ensures
            r.wf(),
            r.state_keys() == Seq::<Seq<char>>::empty(),
    {
        StateIndices { states: Registry::new(4) }
    }

    /// Registers a state and returns its new id.
    pub fn add_mapping(&mut self, name: String) -> (id: usize)
        requires
            old(self).wf(),
            old(self).next_id() < usize::MAX,
        ensures
            final(self).wf(),
            id == old(self).next_id(),
            final(self).state_keys() == old(self).state_keys().push(name@),
            final(self).id_map() == old(self).id_map().insert(name@, id as nat),
            final(self).name_map() == old(self).name_map().insert(id as nat, name@),
    {
        self.states.add(name)
    }

    pub fn get_id(&self, name: &str) -> (r: Option<usize>)
        requires
            self.wf(),
        ensures
            opt_nat(r) == self.id_map().get(name@),
    {
        let key = name.to_owned();
        self.states.lookup(&key)
    }

    pub fn name(&self, id: usize) -> (r: Option<&String>)
        requires
            self.wf(),
        ensures
            match r {
                Some(n) => self.name_map().contains_key(id as nat) && n@ == self.name_map()[id as nat],
                None => !self.name_map().contains_key(id as nat),
            },
    {
        self.states.key(id)
    }
}

impl Default for StateIndices {
    fn default() -> (r: Self)
        ensures
            r.wf(),
            r.state_keys() == Seq::<Seq<char>>::empty(),
    {
        StateIndices::new()
    }
}

/// Ids of transitions, each given by its source state id, its own name and
/// its target state id, from 0 up.
pub struct TransitionIndices {
    transitions: Registry<(usize, String, usize)>,
}

impl TransitionIndices {
    /// The transitions registered so far, oldest first.
    pub closed spec fn transition_keys(&self) -> Seq<(usize, Seq<char>, usize)> {
        self.transitions.key_views()
    }

    pub closed spec fn wf(&self) -> bool {
        self.transitions.wf() && self.transitions.first_id() == 0
    }

    pub open spec fn next_id(&self) -> nat {
        self.transition_keys().len()
    }

    /// Transition to editor id.
    pub open spec fn id_map(&self) -> Map<(usize, Seq<char>, usize), nat> {
        key_to_id_of(self.transition_keys(), 0)
    }

    /// Editor id to transition.
    pub open spec fn edge_map(&self) -> Map<nat, (usize, Seq<char>, usize)> {
        id_to_key_of(self.transition_keys(), 0)
    }

    pub fn new() -> (r: Self)
        ensures
            r.wf(),
            r.transition_keys() == Seq::<(usize, Seq<char>, usize)>::empty(),
    {
        TransitionIndices { transitions: Registry::new(0) }
    }

    pub fn add_mapping(&mut self, start_id: usize, transition_id: String, end_id: usize)
        requires
            old(self).wf(),
            old(self).next_id() < usize::MAX,
        ensures
            final(self).wf(),
            final(self).transition_keys() == old(self).transition_keys().push(
                (start_id, transition_id@, end_id),
            ),
            final(self).id_map() == old(self).id_map().insert(
                (start_id, transition_id@, end_id),
                old(self).next_id(),
            ),
            final(self).edge_map() == old(self).edge_map().insert(
                old(self).next_id(),
                (start_id, transition_id@, end_id),
            ),
    {
        self.transitions.add((start_id, transition_id, end_id));
    }

    pub fn id(&self, start_id: usize, transition_id: String, end_id: usize) -> (r: Option<usize>)
        requires
            self.wf(),
        ensures
            opt_nat(r) == self.id_map().get((start_id, transition_id@, end_id)),
    {
        self.transitions.lookup(&(start_id, transition_id, end_id))
    }

    pub fn edge(&self, id: usize) -> (r: Option<&(usize, String, usize)>)
        requires
            self.wf(),
        ensures
            match r {
                Some(e) => self.edge_map().contains_key(id as nat) && e@ == self.edge_map()[id as nat],
                None => !self.edge_map().contains_key(id as nat),
            },
    {
        self.transitions.key(id)
    }
}

impl Default for TransitionIndices {
    fn default() -> (r: Self)
        ensures
            r.wf(),
            r.transition_keys() == Seq::<(usize, Seq<char>, usize)>::empty(),
    {
        TransitionIndices::new()
    }
}

/// The two index tables of one state machine.
pub struct FsmIndices {
    pub state_indices: StateIndices,
    pub transition_indices: TransitionIndices,
}

impl FsmIndices {
    pub open spec fn wf(&self) -> bool {
        self.state_indices.wf() && self.transition_indices.wf()
    }

    /// What [`FsmIndices::transition_ids`] returns: the transition id, source
    /// state id and target state id, when all three are registered.
    pub open spec fn spec_transition_ids(
        &self,
        source: Seq<char>,
        transition: Seq<char>,
        target: Seq<char>,
    ) -> Option<(usize, usize, usize)> {
        let states = self.state_indices.id_map();
        if states.contains_key(source) && states.contains_key(target) {
            let key = (states[source] as usize, transition, states[target] as usize);
            if self.transition_indices.id_map().contains_key(key) {
                Some((self.transition_indices.id_map()[key] as usize, key.0, key.2))
            } else {
                None
            }
        } else {
            None
        }
    }

    pub fn new() -> (r: Self)
        ensures
            r.wf(),
            r.state_indices.state_keys() == Seq::<Seq<char>>::empty(),
            r.transition_indices.transition_keys() == Seq::<(usize, Seq<char>, usize)>::empty(),
    {
        FsmIndices { state_indices: StateIndices::new(), transition_indices: TransitionIndices::new() }
    }

    /// The transition id, source state id and target state id of a transition.
    pub fn transition_ids(&self, source_state: String, transition: String, target_state: String) -> (r:
        Option<(usize, usize, usize)>)
        requires
            self.wf(),
        ensures
            r == self.spec_transition_ids(source_state@, transition@, target_state@),
    {
        let source_id = match self.state_indices.get_id(source_state.as_str()) {
            Some(i) => i,
            None => return None,
        };
        let target_id = match self.state_indices.get_id(target_state.as_str()) {
            Some(i) => i,
            None => return None,
        };
        let transition_id = match self.transition_indices.id(source_id, transition, target_id) {
            Some(i) => i,
            None => return None,
        };
        Some((transition_id, source_id, target_id))
    }
}

impl Default for FsmIndices {
    fn default() -> (r: Self)
        ensures
            r.wf(),
            r.state_indices.state_keys() == Seq::<Seq<char>>::empty(),
            r.transition_indices.transition_keys() == Seq::<(usize, Seq<char>, usize)>::empty(),
    {
        FsmIndices::new()
    }
}

/// A transition of a state machine: its name and the names of the states it
/// joins.
pub struct TransitionModel {
    pub id: String,
    pub source: String,
    pub target: String,
}

/// What the index tables of a state machine are built from: its state names
/// and its transitions, each in the order the state machine yields them.
pub struct StateMachineModel {
    pub states: Vec<String>,
    pub transitions: Vec<TransitionModel>,
}

/// The state names of a state machine, in registration order.
pub open spec fn fsm_state_keys(fsm: StateMachineModel) -> Seq<Seq<char>> {
    fsm.states@.map_values(|s: String| s@)
}

/// Both states of a transition are among `states`.
pub open spec fn transition_known(states: Map<Seq<char>, nat>, t: TransitionModel) -> bool {
    states.contains_key(t.source@) && states.contains_key(t.target@)
}

/// The key a known transition is registered under.
pub open spec fn transition_key(states: Map<Seq<char>, nat>, t: TransitionModel) -> (
    usize,
    Seq<char>,
    usize,
) {
    (states[t.source@] as usize, t.id@, states[t.target@] as usize)
}

/// The keys of the known transitions among `ts`, in order.
pub open spec fn known_transition_keys(states: Map<Seq<char>, nat>, ts: Seq<TransitionModel>) -> Seq<
    (usize, Seq<char>, usize),
>
    decreases ts.len(),
{
    if ts.len() == 0 {
        Seq::empty()
    } else if transition_known(states, ts.last()) {
        known_transition_keys(states, ts.drop_last()).push(transition_key(states, ts.last()))
    } else {
        known_transition_keys(states, ts.drop_last())
    }
}

/// The names of the transitions among `ts` that name an unknown state, in order.
pub open spec fn unknown_transitions(states: Map<Seq<char>, nat>, ts: Seq<TransitionModel>) -> Seq<
    Seq<char>,
>
    decreases ts.len(),
{
    if ts.len() == 0 {
        Seq::empty()
    } else if transition_known(states, ts.last()) {
        unknown_transitions(states, ts.drop_last())
    } else {
        unknown_transitions(states, ts.drop_last()).push(ts.last().id@)
    }
}

/// The index tables fit in `usize`.
pub open spec fn fsm_fits(fsm: StateMachineModel) -> bool {
    fsm.states@.len() + 4 < usize::MAX && fsm.transitions@.len() < usize::MAX
}

/// Builds the index tables of a state machine: its states in order, then
/// each transition whose states are both known. When some transition names
/// an unknown state, gives the names of all such transitions, in order,
/// instead.
pub fn make_fsm_indices(fsm: &StateMachineModel) -> (r: Result<FsmIndices, Vec<String>>)
    requires
        fsm_fits(*fsm),
    ensures
        ({
            let states = key_to_id_of(fsm_state_keys(*fsm), 4);
            let bad = unknown_transitions(states, fsm.transitions@);
            match r {
                Ok(fi) => {
                    &&& bad.len() == 0
                    &&& fi.wf()
                    &&& fi.state_indices.state_keys() == fsm_state_keys(*fsm)
                    &&& fi.transition_indices.transition_keys() == known_transition_keys(
                        states,
                        fsm.transitions@,
                    )
                },
                Err(names) => bad.len() > 0 && names@.map_values(|s: String| s@) == bad,
            }
        }),
{
    let mut fi = FsmIndices::new();
    let mut i: usize = 0;
    while i < fsm.states.len()
        invariant
            fi.wf(),
            fsm_fits(*fsm),
            i <= fsm.states@.len(),
            fi.state_indices.state_keys() == fsm_state_keys(*fsm).take(i as int),
            fi.transition_indices.transition_keys() == Seq::<(usize, Seq<char>, usize)>::empty(),
        decreases fsm.states@.len() - i,
    {
        fi.state_indices.add_mapping(fsm.states[i].duplicate());
        proof {
            assert(fsm_state_keys(*fsm).take(i as int + 1) =~= fsm_state_keys(*fsm).take(
                i as int,
            ).push(fsm.states@[i as int]@));
        }
        i = i + 1;
    }
    proof {
        assert(fsm_state_keys(*fsm).take(fsm.states@.len() as int) =~= fsm_state_keys(*fsm));
    }
    let ghost states = key_to_id_of(fsm_state_keys(*fsm), 4);
    let ghost ts = fsm.transitions@;
    let mut remove_edges: Vec<String> = Vec::new();
    let mut t: usize = 0;
    while t < fsm.transitions.len()
        invariant
            fi.wf(),
            fsm_fits(*fsm),
            ts == fsm.transitions@,
            t <= ts.len(),
            states == key_to_id_of(fsm_state_keys(*fsm), 4),
            fi.state_indices.state_keys() == fsm_state_keys(*fsm),
            fi.transition_indices.transition_keys() == known_transition_keys(
                states,
                ts.take(t as int),
            ),
            remove_edges@.map_values(|s: String| s@) == unknown_transitions(
                states,
                ts.take(t as int),
            ),
        decreases ts.len() - t,
    {
        let tr = &fsm.transitions[t];
        proof {
            assert(ts.take(t as int + 1).drop_last() =~= ts.take(t as int));
            assert(ts.take(t as int + 1).last() == ts[t as int]);
            lemma_known_transition_keys_len(states, ts.take(t as int));
        }
        let source_id = fi.state_indices.get_id(tr.source.as_str());
        let target_id = fi.state_indices.get_id(tr.target.as_str());
        match (source_id, target_id) {
            (Some(s), Some(g)) => {
                fi.transition_indices.add_mapping(s, tr.id.duplicate(), g);
            },
            _ => {
                let ghost before = remove_edges@;
                remove_edges.push(tr.id.duplicate());
                proof {
                    assert(remove_edges@.map_values(|s: String| s@) =~= before.map_values(
                        |s: String| s@,
                    ).push(tr.id@));
                }
            },
        }
        t = t + 1;
    }
    proof {
        assert(ts.take(ts.len() as int) =~= ts);
    }
    if remove_edges.len() == 0 {
        Ok(fi)
    } else {
        Err(remove_edges)
    }
}

proof fn lemma_known_transition_keys_len(states: Map<Seq<char>, nat>, ts: Seq<TransitionModel>)
    ensures
        known_transition_keys(states, ts).len() <= ts.len(),
    decreases ts.len(),
{
    if ts.len() > 0 {
        lemma_known_transition_keys_len(states, ts.drop_last());
    }
}

/// The ids that [`FsmIndices::transition_ids`] finds resolve back: the
/// state ids to the two states and the transition id to the transition.
pub proof fn law_transition_ids_resolve(
    fi: &FsmIndices,
    source: Seq<char>,
    transition: Seq<char>,
    target: Seq<char>,
)
    requires
        fi.wf(),
        fi.spec_transition_ids(source, transition, target) is Some,
    ensures
        ({
            let (e, s, t) = fi.spec_transition_ids(source, transition, target)->0;
            &&& fi.state_indices.name_map().contains_key(s as nat)
            &&& fi.state_indices.name_map()[s as nat] == source
            &&& fi.state_indices.name_map().contains_key(t as nat)
            &&& fi.state_indices.name_map()[t as nat] == target
            &&& fi.transition_indices.edge_map().contains_key(e as nat)
            &&& fi.transition_indices.edge_map()[e as nat] == (s, transition, t)
        }),
{
    let states = fi.state_indices.state_keys();
    law_key_id_resolves_to_key(states, 4, source);
    law_key_id_resolves_to_key(states, 4, target);
    let key = (
        key_to_id_of(states, 4)[source] as usize,
        transition,
        key_to_id_of(states, 4)[target] as usize,
    );
    law_key_id_resolves_to_key(fi.transition_indices.transition_keys(), 0, key);
}

/// Every state of a state machine gets an id, from 4 up, in the tables built
/// from it, and that id resolves back to the state.
pub proof fn law_built_states_resolve(fsm: StateMachineModel, fi: &FsmIndices, k: int)
    requires
        fi.wf(),
        fi.state_indices.state_keys() == fsm_state_keys(fsm),
        0 <= k < fsm.states@.len(),
    ensures
        ({
            let n = fsm.states@[k]@;
            &&& fi.state_indices.id_map().contains_key(n)
            &&& fi.state_indices.id_map()[n] >= 4
            &&& fi.state_indices.name_map().contains_key(fi.state_indices.id_map()[n])
            &&& fi.state_indices.name_map()[fi.state_indices.id_map()[n]] == n
        }),
{
    law_registered_key_has_id(fi.state_indices.state_keys(), 4, k);
    law_key_id_resolves_to_key(fi.state_indices.state_keys(), 4, fsm.states@[k]@);
}

} // verus!
