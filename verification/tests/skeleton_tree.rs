use animation_graph_editor::key_map::KeyMap;
use animation_graph_editor::skeleton_tree::{BoneModel, ReverseSkeletonIndex, SkeletonModel};
use animation_graph_editor::tree::{BoneId, SkeletonNode, Tree, TreeInternal};

fn s(x: &str) -> String {
    x.to_string()
}

fn bone(path: &[&str], children: Vec<u128>) -> BoneModel {
    BoneModel { path: path.iter().map(|p| s(p)).collect(), children: children.into_iter().map(BoneId).collect() }
}

#[test]
fn bones_nest_under_their_parents() {
    let mut bones = KeyMap::new();
    bones.insert(0, bone(&[], vec![1, 3]));
    bones.insert(1, bone(&["hips"], vec![2]));
    bones.insert(2, bone(&["hips", "spine"], vec![]));
    bones.insert(3, bone(&["prop"], vec![]));
    let tree = Tree::skeleton_tree(&SkeletonModel { root: BoneId(0), bones });
    assert_eq!(tree.0.len(), 1);
    match &tree.0[0] {
        TreeInternal::Node(label, data, kids) => {
            assert_eq!(label, "ROOT");
            assert_eq!(*data, SkeletonNode { bone_id: BoneId(0) });
            assert_eq!(kids.len(), 2);
            match &kids[0] {
                TreeInternal::Node(l, d, k) => {
                    assert_eq!(l, "hips");
                    assert_eq!(d.bone_id, BoneId(1));
                    assert_eq!(k.len(), 1);
                    match &k[0] {
                        TreeInternal::Leaf(l, d) => {
                            assert_eq!(l, "spine");
                            assert_eq!(d.bone_id, BoneId(2));
                        }
                        _ => panic!("a bone without children is a leaf"),
                    }
                }
                _ => panic!("a bone with children is a node"),
            }
            match &kids[1] {
                TreeInternal::Leaf(l, d) => {
                    assert_eq!(l, "prop");
                    assert_eq!(d.bone_id, BoneId(3));
                }
                _ => panic!("a bone without children is a leaf"),
            }
        }
        _ => panic!("a root with children is a node"),
    }
}

#[test]
fn lone_root_is_a_leaf() {
    let mut bones = KeyMap::new();
    bones.insert(9, bone(&["root"], vec![]));
    let tree = Tree::skeleton_tree(&SkeletonModel { root: BoneId(9), bones });
    match &tree.0[0] {
        TreeInternal::Leaf(l, d) => {
            assert_eq!(l, "root");
            assert_eq!(d.bone_id, BoneId(9));
        }
        _ => panic!("a root without children is a leaf"),
    }
}

#[test]
fn reverse_index_lists_bones_flipped_onto_a_bone() {
    let mut bones = KeyMap::new();
    bones.insert(0, bone(&[], vec![1, 2, 3]));
    bones.insert(1, bone(&["arm.L"], vec![]));
    bones.insert(2, bone(&["arm.R"], vec![]));
    bones.insert(3, bone(&["spine"], vec![]));
    let skeleton = SkeletonModel { root: BoneId(0), bones };
    let flip = |p: &Vec<String>| -> Vec<String> {
        p.iter()
            .map(|n| if n.ends_with(".L") { n.replace(".L", ".R") } else { n.replace(".R", ".L") })
            .collect()
    };
    let index = ReverseSkeletonIndex::new(&skeleton, &flip);
    assert_eq!(index.mapping_to_bone(BoneId(2)), vec![BoneId(1)]);
    assert_eq!(index.mapping_to_bone(BoneId(1)), vec![BoneId(2)]);
    assert_eq!(index.mapping_to_bone(BoneId(3)), vec![BoneId(3)]);
    assert_eq!(index.mapping_to_bone(BoneId(0)), vec![BoneId(0)]);
    assert_eq!(index.mapping_to_bone(BoneId(9)), Vec::<BoneId>::new());
}
