use animation_graph_editor::key_map::KeyMap;
use animation_graph_editor::ragdoll::{Body, Collider, Joint, Ragdoll, SymmetrySuffixes};
use animation_graph_editor::ragdoll_tree::{RagdollNode, RagdollResponse, RagdollTreeAction, SelectedItem};
use animation_graph_editor::tree::{Tree, TreeInternal};

fn s(x: &str) -> String {
    x.to_string()
}

fn body(id: u128, label: &str, colliders: Vec<u128>) -> Body<()> {
    Body { id, label: s(label), use_symmetry: false, created_from: None, colliders, props: () }
}

fn sample() -> Ragdoll<(), (), ()> {
    let mut bodies = KeyMap::new();
    bodies.insert(1, body(1, "arm", vec![10, 11]));
    bodies.insert(2, body(2, "", vec![]));
    let mut colliders = KeyMap::new();
    colliders.insert(10, Collider { id: 10, label: s("capsule"), created_from: None, props: () });
    colliders.insert(11, Collider { id: 11, label: s(""), created_from: None, props: () });
    let mut joints = KeyMap::new();
    joints.insert(20, Joint { id: 20, label: s("elbow"), use_symmetry: false, created_from: None, body1: 1, body2: 2, props: () });
    Ragdoll { bodies, colliders, joints, suffixes: SymmetrySuffixes { original: s("_L"), mirror: s("_R") } }
}

fn unnamed(n: RagdollNode) -> String {
    format!("{:?}", n)
}

fn label_of(t: &TreeInternal<RagdollNode, RagdollNode>) -> &str {
    match t {
        TreeInternal::Leaf(l, _) => l,
        TreeInternal::Node(l, _, _) => l,
    }
}

#[test]
fn bodies_hold_their_colliders_and_joints_follow() {
    let tree = Tree::ragdoll_tree(&sample(), &unnamed);
    assert_eq!(tree.0.len(), 3);
    match &tree.0[0] {
        TreeInternal::Node(label, data, kids) => {
            assert_eq!(label, "arm");
            assert_eq!(*data, RagdollNode::Body(1));
            assert_eq!(kids.len(), 2);
            match &kids[0] {
                TreeInternal::Leaf(l, d) => {
                    assert_eq!(l, "capsule");
                    assert_eq!(*d, RagdollNode::Collider(10));
                }
                _ => panic!("a collider is a leaf"),
            }
            assert_eq!(label_of(&kids[1]), "Collider(11)");
        }
        _ => panic!("a body with colliders is a node"),
    }
    match &tree.0[1] {
        TreeInternal::Leaf(l, d) => {
            assert_eq!(l, "Body(2)");
            assert_eq!(*d, RagdollNode::Body(2));
        }
        _ => panic!("a body without colliders is a leaf"),
    }
    match &tree.0[2] {
        TreeInternal::Leaf(l, d) => {
            assert_eq!(l, "elbow");
            assert_eq!(*d, RagdollNode::Joint(20));
        }
        _ => panic!("a joint is a leaf"),
    }
}

#[test]
fn empty_ragdoll_gives_empty_tree() {
    let empty: Ragdoll<(), (), ()> = Ragdoll {
        bodies: KeyMap::new(),
        colliders: KeyMap::new(),
        joints: KeyMap::new(),
        suffixes: SymmetrySuffixes { original: s("_L"), mirror: s("_R") },
    };
    assert!(Tree::ragdoll_tree(&empty, &unnamed).0.is_empty());
}

#[test]
fn responses_combine_first_pick_and_all_requests() {
    let a = RagdollResponse {
        hovered: None,
        clicked: Some(RagdollNode::Body(1)),
        actions: vec![RagdollTreeAction::CreateBody],
    };
    let b = RagdollResponse {
        hovered: Some(RagdollNode::Joint(2)),
        clicked: Some(RagdollNode::Body(3)),
        actions: vec![RagdollTreeAction::DeleteJoint(2), RagdollTreeAction::CreateJoint],
    };
    let c = a.combine(&b);
    assert_eq!(c.hovered, Some(RagdollNode::Joint(2)));
    assert_eq!(c.clicked, Some(RagdollNode::Body(1)));
    assert_eq!(
        c.actions,
        vec![RagdollTreeAction::CreateBody, RagdollTreeAction::DeleteJoint(2), RagdollTreeAction::CreateJoint]
    );
}

#[test]
fn selected_item_kinds() {
    assert_eq!(SelectedItem::Body(4).body(), Some(4));
    assert_eq!(SelectedItem::Body(4).joint(), None);
    assert_eq!(SelectedItem::Collider(5).collider(), Some(5));
    assert_eq!(SelectedItem::Joint(6).joint(), Some(6));
    assert_eq!(SelectedItem::Bone(7).bone(), Some(7));
    assert_eq!(SelectedItem::Bone(7).body(), None);
}
