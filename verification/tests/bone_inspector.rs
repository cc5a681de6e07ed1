use animation_graph_editor::bone_inspector::{
    apply_collider, collider_choices, delete_collider, BoneColliderRequest, ColliderBuffers, SelectableCollider,
};
use animation_graph_editor::key_map::KeyMap;

#[test]
fn choices_list_existing_colliders_then_new() {
    assert_eq!(
        collider_choices(&vec![4, 2]),
        vec![SelectableCollider::Existing(4), SelectableCollider::Existing(2), SelectableCollider::New]
    );
    assert_eq!(collider_choices(&vec![]), vec![SelectableCollider::New]);
}

#[test]
fn buffers_start_from_the_bone_colliders() {
    let mut b: ColliderBuffers<String> = ColliderBuffers { new: None, existing: KeyMap::new() };
    let cfgs = vec![(4u128, "box".to_string()), (2u128, "ball".to_string())];
    assert!(!b.ensure_buffer(SelectableCollider::Nothing, &cfgs, "fresh".to_string()));
    assert!(b.ensure_buffer(SelectableCollider::Existing(2), &cfgs, "fresh".to_string()));
    assert_eq!(b.existing.get(&2), Some(&"ball".to_string()));
    assert!(!b.ensure_buffer(SelectableCollider::Existing(9), &cfgs, "fresh".to_string()));
    assert!(b.ensure_buffer(SelectableCollider::New, &cfgs, "fresh".to_string()));
    assert_eq!(b.new, Some("fresh".to_string()));
    assert!(b.ensure_buffer(SelectableCollider::New, &cfgs, "other".to_string()));
    assert_eq!(b.new, Some("fresh".to_string()));
}

#[test]
fn apply_and_delete_queue_and_clear() {
    let mut b: ColliderBuffers<String> = ColliderBuffers { new: Some("x".to_string()), existing: KeyMap::new() };
    let mut q = Vec::new();
    apply_collider(&mut b, &"edited".to_string(), &mut q);
    assert!(b.new.is_none());
    assert!(matches!(&q[0], BoneColliderRequest::CreateOrEdit(c) if c == "edited"));
    b.new = Some("y".to_string());
    delete_collider(&mut b, 3, 8, &mut q);
    assert!(b.new.is_none());
    assert_eq!(q.len(), 2);
    assert!(matches!(&q[1], BoneColliderRequest::Delete { bone: 3, collider: 8 }));
}
