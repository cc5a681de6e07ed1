# animation_graph_editor

The core of an editor for animation graphs, state machines and ragdolls,
written in Verus: what the editor decides and computes, each function with
a contract that Verus proves.

- `src/` — the verified library.
  - `registry`, `graph_indices`, `fsm_indices`: the index tables that give
    nodes, pins, edges, states and transitions the integer ids the node
    editors work with, and the laws that those ids resolve back.
  - `graph_repr`, `fsm_repr`: what the editors are given to draw a graph or a
    state machine.
  - `graph_update`: editor changes turned back into graph and state machine
    edits.
  - `node_editor`: the node editor's interaction rules (selection, dragging,
    link creation and detaching, deletion).
  - `style`: palettes and the colors of pins and links by data type.
  - `node_types`, `text_order`: the node types offered for creation, their
    short names, search and order.
  - `ragdoll`, `ragdoll_tree`, `skeleton_tree`, `entity_tree`, `tree`: ragdoll
    symmetry, the skeleton's reverse symmetry index, and the trees the
    editor lists elements in.
  - `ragdoll_panel`, `bone_inspector`: what the ragdoll inspector panel and
    the skeleton collider inspector queue and which edit buffers they use.
  - `saving`, `actions`, `editor_selection`, `track_windows`, `dock_tabs`,
    `sub_scenes`, `ordered_map`, `key_map`, `insertion`, `pins`: the editor's
    bookkeeping.
- `tests/` — tests on concrete values.
- `app/` — a small command-line front end.

Floating-point values (positions, offsets, times) and the drawing itself
stay outside the library: its types carry them as type parameters.
