//! The tree in which the editor lists a scene's entities, from one entity
//! down through its children, each with the path of names that leads to
//! it.
use vstd::prelude::*;
use vstd::string::StringExecFns;
use crate::key_map::KeyMap;
use crate::tree::{branch_view, lemma_node_view, Tree, TreeInternal, TreeView};

verus! {

/// An entity of a scene: its name, if it has one, and its children in
/// order.
pub struct EntityModel {
    pub name: Option<String>,
    pub children: Vec<u64>,
}

/// The entities of a scene, by id.
pub struct SceneModel {
    pub entities: KeyMap<u64, EntityModel>,
}

/// An entry of an entity tree: the entity and the names from the root down
/// to it.
pub type EntityEntry = (u64, Vec<String>);

/// The name of `e`: empty where it has none or is not in the scene.
pub open spec fn entity_name(w: Map<u64, EntityModel>, e: u64) -> Seq<char> {
    if w.contains_key(e) && w[e].name is Some {
        w[e].name->0@
    } else {
        Seq::empty()
    }
}

/// The children of `e`: none where it is not in the scene.
pub open spec fn entity_children(w: Map<u64, EntityModel>, e: u64) -> Seq<u64> {
    if w.contains_key(e) {
        w[e].children@
    } else {
        Seq::empty()
    }
}

/// No chain of children below `e` is longer than `depth`, so no entity is
/// its own ancestor.
pub open spec fn entities_within(w: Map<u64, EntityModel>, e: u64, depth: nat) -> bool
    decreases depth,
{
    &&& depth > 0
    &&& forall|j: int| 0 <= j < entity_children(w, e).len() ==> entities_within(w, #[trigger] entity_children(w, e)[j], (depth - 1) as nat)
}

/// The names of a path, by their text.
pub open spec fn name_texts(names: Seq<String>) -> Seq<Seq<char>> {
    names.map_values(|s: String| s@)
}

/// `l` is the label of `e`: its name, then in brackets a text that `f`
/// gives for `e`.
pub open spec fn entity_label<F: Fn(u64) -> String>(l: Seq<char>, w: Map<u64, EntityModel>, e: u64, f: F) -> bool {
    exists|s: String| #[trigger] call_ensures(f, (e,), s) && l == entity_name(w, e) + " ("@ + s@ + ")"@
}

/// `t` is the tree of the entities from `e` down, `parents` being the
/// names of the entities above `e`: a leaf for an entity without children,
/// else a node with the trees of its children in order, each entry holding
/// its entity and the names down to it.
pub open spec fn entity_tree_is<F: Fn(u64) -> String>(
    t: TreeView<EntityEntry, EntityEntry>,
    w: Map<u64, EntityModel>,
    e: u64,
    parents: Seq<Seq<char>>,
    depth: nat,
    f: F,
) -> bool
    decreases depth,
{
    let path = parents.push(entity_name(w, e));
    let kids = entity_children(w, e);
    if kids.len() == 0 || depth == 0 {
        &&& t is Leaf
        &&& entity_label(t->Leaf_0, w, e, f)
        &&& t->Leaf_1.0 == e
        &&& name_texts(t->Leaf_1.1@) == path
    } else {
        &&& t is Node
        &&& entity_label(t->Node_0, w, e, f)
        &&& t->Node_1.0 == e
        &&& name_texts(t->Node_1.1@) == path
        &&& t->Node_2.len() == kids.len()
        &&& forall|j: int| 0 <= j < kids.len() ==> entity_tree_is(#[trigger] t->Node_2[j], w, kids[j], path, (depth - 1) as nat, f)
    }
}

fn copy_names(names: &Vec<String>) -> (r: Vec<String>)
    ensures
        name_texts(r@) == name_texts(names@),
{
    let mut r: Vec<String> = Vec::new();
    let mut i: usize = 0;
    while i < names.len()
        invariant
            i <= names@.len(),
            r@.len() == i,
            forall|k: int| 0 <= k < i ==> (#[trigger] r@[k])@ == names@[k]@,
        decreases names@.len() - i,
    {
        r.push(names[i].clone());
        i = i + 1;
    }
    proof {
        assert(name_texts(r@) =~= name_texts(names@));
    }
    r
}

fn entity_subtree<F: Fn(u64) -> String>(
    scene: &SceneModel,
    entity: u64,
    path_to_parent: &Vec<String>,
    entity_text: &F,
    Ghost(depth): Ghost<nat>,
) -> (t: TreeInternal<EntityEntry, EntityEntry>)
    requires
        scene.entities.wf(),
        entities_within(scene.entities.view_map(), entity, depth),
        forall|e: u64| call_requires(*entity_text, (e,)),
    ensures
        entity_tree_is(t.tv(), scene.entities.view_map(), entity, name_texts(path_to_parent@), depth, *entity_text),
    decreases depth,
{
    let ghost w = scene.entities.view_map();
    let model = scene.entities.get(&entity);
    let name = match model {
        Some(m) => match &m.name {
            Some(n) => n.clone(),
            None => String::new(),
        },
        None => String::new(),
    };
    let text = entity_text(entity);
    let mut label = name.clone();
    label.append(" (");
    label.append(text.as_str());
    label.append(")");
    let mut path_to_entity = copy_names(path_to_parent);
    path_to_entity.push(name);
    proof {
        assert(name_texts(path_to_entity@) =~= name_texts(path_to_parent@).push(entity_name(w, entity)));
        assert(entity_label(label@, w, entity, *entity_text));
    }
    let no_children = match model {
        Some(m) => m.children.len() == 0,
        None => true,
    };
    if no_children {
        return TreeInternal::Leaf(label, (entity, path_to_entity));
    }
    let m = model.unwrap();
    let mut kids: Vec<TreeInternal<EntityEntry, EntityEntry>> = Vec::new();
    let mut j: usize = 0;
    while j < m.children.len()
        invariant
            scene.entities.wf(),
            w == scene.entities.view_map(),
            w.contains_key(entity),
            *m == w[entity],
            entities_within(w, entity, depth),
            forall|e: u64| call_requires(*entity_text, (e,)),
            name_texts(path_to_entity@) == name_texts(path_to_parent@).push(entity_name(w, entity)),
            j <= m.children@.len(),
            kids@.len() == j,
            forall|i: int| 0 <= i < j ==> entity_tree_is((#[trigger] kids@[i]).tv(), w, m.children@[i], name_texts(path_to_entity@), (depth - 1) as nat, *entity_text),
        decreases m.children@.len() - j,
    {
        assert(entity_children(w, entity)[j as int] == m.children@[j as int]);
        let kid = entity_subtree(scene, m.children[j], &path_to_entity, entity_text, Ghost((depth - 1) as nat));
        kids.push(kid);
        j = j + 1;
    }
    proof {
        lemma_node_view(label, (entity, path_to_entity), kids);
        assert forall|i: int| 0 <= i < kids@.len() implies #[trigger] branch_view(kids@)[i] == kids@[i].tv() by {}
    }
    TreeInternal::Node(label, (entity, path_to_entity), kids)
}

impl Tree<EntityEntry, EntityEntry> {
    /// The tree of the entities from `entity` down, as its one top-level
    /// entry. An entity is labelled by its name (empty where it has none)
    /// and, in brackets, the text `entity_text` gives for it.
    pub fn entity_tree<F: Fn(u64) -> String>(scene: &SceneModel, entity: u64, entity_text: &F) -> (r: Self)
        requires
            scene.entities.wf(),
            exists|depth: nat| entities_within(scene.entities.view_map(), entity, depth),
            forall|e: u64| call_requires(*entity_text, (e,)),
        ensures
            r.entries().len() == 1,
            entity_tree_is(
                r.entries()[0],
                scene.entities.view_map(),
                entity,
                Seq::empty(),
                choose|depth: nat| entities_within(scene.entities.view_map(), entity, depth),
                *entity_text,
            ),
    {
        let ghost depth = choose|depth: nat| entities_within(scene.entities.view_map(), entity, depth);
        let root_path: Vec<String> = Vec::new();
        proof {
            assert(name_texts(root_path@) =~= Seq::<Seq<char>>::empty());
        }
        let root = entity_subtree(scene, entity, &root_path, entity_text, Ghost(depth));
        let mut entries: Vec<TreeInternal<EntityEntry, EntityEntry>> = Vec::new();
        entries.push(root);
        let r = Tree(entries);
        assert(r.entries()[0] == root.tv());
        r
    }
}

} // verus!
