//! Verified core logic of an animation graph editor: the index tables that
//! connect graphs and state machines to the node editor, the node editor's
//! interaction rules, label trees, and the small bookkeeping structures of
//! the editor's user interface.
use vstd::prelude::*;

pub mod actions;
pub mod bone_inspector;
pub mod dock_tabs;
pub mod editor_selection;
pub mod entity_tree;
pub mod fsm_indices;
pub mod fsm_repr;
pub mod graph_indices;
pub mod graph_repr;
pub mod graph_update;
pub mod insertion;
pub mod key_map;
pub mod node_editor;
pub mod node_types;
pub mod ordered_map;
pub mod pins;
pub mod ragdoll;
pub mod ragdoll_panel;
pub mod ragdoll_tree;
pub mod registry;
pub mod saving;
pub mod skeleton_tree;
pub mod style;
pub mod sub_scenes;
pub mod text_order;
pub mod track_windows;
pub mod tree;

verus! {

} // verus!
