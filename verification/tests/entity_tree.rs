use animation_graph_editor::entity_tree::{EntityModel, SceneModel};
use animation_graph_editor::key_map::KeyMap;
use animation_graph_editor::tree::{Tree, TreeInternal};

fn entity(name: Option<&str>, children: Vec<u64>) -> EntityModel {
    EntityModel { name: name.map(|n| n.to_string()), children }
}

fn text(e: u64) -> String {
    format!("{}v1", e)
}

#[test]
fn entities_nest_with_their_name_paths() {
    let mut entities = KeyMap::new();
    entities.insert(1, entity(Some("scene"), vec![2, 3]));
    entities.insert(2, entity(Some("armature"), vec![4]));
    entities.insert(3, entity(None, vec![]));
    entities.insert(4, entity(Some("hips"), vec![]));
    let tree = Tree::entity_tree(&SceneModel { entities }, 1, &text);
    assert_eq!(tree.0.len(), 1);
    match &tree.0[0] {
        TreeInternal::Node(label, (e, path), kids) => {
            assert_eq!(label, "scene (1v1)");
            assert_eq!(*e, 1);
            assert_eq!(path, &vec!["scene".to_string()]);
            assert_eq!(kids.len(), 2);
            match &kids[0] {
                TreeInternal::Node(l, (e, p), k) => {
                    assert_eq!(l, "armature (2v1)");
                    assert_eq!(*e, 2);
                    assert_eq!(p, &vec!["scene".to_string(), "armature".to_string()]);
                    match &k[0] {
                        TreeInternal::Leaf(l, (e, p)) => {
                            assert_eq!(l, "hips (4v1)");
                            assert_eq!(*e, 4);
                            assert_eq!(p.len(), 3);
                        }
                        _ => panic!("an entity without children is a leaf"),
                    }
                }
                _ => panic!("an entity with children is a node"),
            }
            match &kids[1] {
                TreeInternal::Leaf(l, (e, p)) => {
                    assert_eq!(l, " (3v1)");
                    assert_eq!(*e, 3);
                    assert_eq!(p, &vec!["scene".to_string(), String::new()]);
                }
                _ => panic!("an entity without children is a leaf"),
            }
        }
        _ => panic!("the root has children"),
    }
}

#[test]
fn unknown_entity_is_an_unnamed_leaf() {
    let tree = Tree::entity_tree(&SceneModel { entities: KeyMap::new() }, 9, &text);
    match &tree.0[0] {
        TreeInternal::Leaf(l, (e, p)) => {
            assert_eq!(l, " (9v1)");
            assert_eq!(*e, 9);
            assert_eq!(p, &vec![String::new()]);
        }
        _ => panic!("an entity without children is a leaf"),
    }
}
