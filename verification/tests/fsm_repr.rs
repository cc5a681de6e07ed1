use animation_graph_editor::fsm_indices::{make_fsm_indices, FsmIndices, StateMachineModel, TransitionModel};
use animation_graph_editor::fsm_repr::{
    FsmDebugState, FsmReprModel, FsmReprSpec, StateReprModel, Transition, TransitionSpec, TransitionState,
};
use animation_graph_editor::style::{time_colors, Rgba};

fn s(x: &str) -> String {
    x.to_string()
}

fn transitions() -> Vec<TransitionModel> {
    vec![
        TransitionModel { id: s("start"), source: s("idle"), target: s("run") },
        TransitionModel { id: s("stop"), source: s("run"), target: s("idle") },
    ]
}

fn indices() -> FsmIndices {
    let model = StateMachineModel { states: vec![s("idle"), s("run")], transitions: transitions() };
    make_fsm_indices(&model).ok().expect("all states are known")
}

fn fsm() -> FsmReprModel<(i32, i32)> {
    FsmReprModel {
        states: vec![
            StateReprModel { id: s("idle"), origin: (0, 0), has_global_transition: false },
            StateReprModel { id: s("run"), origin: (50, 10), has_global_transition: true },
        ],
        start_state: s("idle"),
        transitions: transitions(),
    }
}

#[test]
fn states_take_their_ids_and_flags() {
    let spec = FsmReprSpec::from_fsm(&fsm(), &indices(), &None);
    assert_eq!(spec.states.len(), 2);
    assert_eq!(spec.states[0].id, 4);
    assert_eq!(spec.states[0].name, "idle");
    assert_eq!(spec.states[0].subtitle, "");
    assert!(spec.states[0].is_start_state);
    assert!(!spec.states[0].has_global_transition);
    assert!(!spec.states[0].active);
    assert_eq!(spec.states[1].id, 5);
    assert_eq!(spec.states[1].origin, (50, 10));
    assert!(!spec.states[1].is_start_state);
    assert!(spec.states[1].has_global_transition);
}

#[test]
fn transitions_take_their_ids_and_style() {
    let spec = FsmReprSpec::from_fsm(&fsm(), &indices(), &None);
    assert_eq!(spec.transitions.len(), 2);
    assert_eq!(
        (spec.transitions[0].id, spec.transitions[0].start_pin_index, spec.transitions[0].end_pin_index),
        (0, 4, 5)
    );
    assert_eq!(
        (spec.transitions[1].id, spec.transitions[1].start_pin_index, spec.transitions[1].end_pin_index),
        (1, 5, 4)
    );
    let style = spec.transitions[0].style;
    assert_eq!(style.base, Some(Rgba::new(150, 150, 150, 127)));
    assert_eq!(style.hovered, Some(Rgba::opaque(200, 200, 200)));
    assert_eq!(style.selected, Some(Rgba::opaque(200, 200, 200)));
    assert_eq!(style.thickness, Some(5));
    assert_ne!(style, time_colors().1);
    assert!(!spec.transitions[0].active);
}

#[test]
fn running_state_and_transition_are_active() {
    let debug = Some(FsmDebugState { state: s("run"), transition: Some(s("stop")) });
    let spec = FsmReprSpec::from_fsm(&fsm(), &indices(), &debug);
    assert!(!spec.states[0].active);
    assert!(spec.states[1].active);
    assert!(!spec.transitions[0].active);
    assert!(spec.transitions[1].active);

    let settled = Some(FsmDebugState { state: s("idle"), transition: None });
    let spec = FsmReprSpec::from_fsm(&fsm(), &indices(), &settled);
    assert!(spec.states[0].active);
    assert!(!spec.transitions[0].active);
    assert!(!spec.transitions[1].active);
}

fn drawn(id: usize, start: usize, end: usize) -> Transition {
    Transition {
        spec: TransitionSpec { id, start_pin_index: start, end_pin_index: end, style: time_colors().1, active: false },
        state: TransitionState { links_for_node_pair: 1, index_in_node_pair: 0, offset_inverted: false },
    }
}

#[test]
fn transitions_between_the_same_states_are_equal() {
    assert!(drawn(0, 4, 5) == drawn(7, 4, 5));
    assert!(drawn(0, 4, 5) == drawn(1, 5, 4));
    assert!(drawn(0, 5, 4) == drawn(1, 4, 5));
    assert!(drawn(0, 4, 5) != drawn(0, 4, 6));
    assert!(drawn(0, 4, 4) == drawn(3, 4, 4));
    assert!(drawn(0, 4, 5) != drawn(0, 5, 5));
}
