use animation_graph_editor::key_map::KeyMap;
use animation_graph_editor::ragdoll_panel::{
    ensure_edit_buffer, panel_requests, OpenAssets, PanelButton, PanelRequest, PanelSection,
};
use animation_graph_editor::ragdoll_tree::SelectedItem;

fn all_open() -> OpenAssets {
    OpenAssets { ragdoll: true, bone_map: true, scene: true, bone_in_skeleton: true }
}

#[test]
fn applying_a_body_edit_queues_offsets_and_symmetry() {
    let r = panel_requests(Some(SelectedItem::Body(3)), all_open(), PanelSection::Item, PanelButton::Apply);
    assert_eq!(
        r,
        vec![
            PanelRequest::EditBody(3),
            PanelRequest::RecomputeMappingOffsets,
            PanelRequest::RecomputeSymmetry,
            PanelRequest::ResetBuffers
        ]
    );
    let r = panel_requests(Some(SelectedItem::Body(3)), all_open(), PanelSection::BodyMapping, PanelButton::Apply);
    assert_eq!(r[0], PanelRequest::EditBodyMapping(3));
    assert_eq!(r.len(), 4);
}

#[test]
fn applying_a_collider_or_joint_edit_skips_offsets() {
    let r = panel_requests(Some(SelectedItem::Collider(7)), all_open(), PanelSection::Item, PanelButton::Apply);
    assert_eq!(r, vec![PanelRequest::EditCollider(7), PanelRequest::RecomputeSymmetry, PanelRequest::ResetBuffers]);
    let r = panel_requests(Some(SelectedItem::Joint(8)), all_open(), PanelSection::Item, PanelButton::Apply);
    assert_eq!(r, vec![PanelRequest::EditJoint(8), PanelRequest::RecomputeSymmetry, PanelRequest::ResetBuffers]);
}

#[test]
fn reset_and_hidden_sections() {
    let r = panel_requests(Some(SelectedItem::Joint(8)), all_open(), PanelSection::Item, PanelButton::Reset);
    assert_eq!(r, vec![PanelRequest::ResetBuffers]);
    let mut open = all_open();
    open.bone_in_skeleton = false;
    assert!(panel_requests(Some(SelectedItem::Bone(2)), open, PanelSection::Item, PanelButton::Apply).is_empty());
    assert!(panel_requests(None, all_open(), PanelSection::Item, PanelButton::Apply).is_empty());
    assert!(panel_requests(Some(SelectedItem::Joint(8)), all_open(), PanelSection::BodyMapping, PanelButton::Apply).is_empty());
    open = all_open();
    open.scene = false;
    assert!(panel_requests(Some(SelectedItem::Body(3)), open, PanelSection::BodyMapping, PanelButton::Apply).is_empty());
    assert_eq!(
        panel_requests(Some(SelectedItem::Bone(2)), all_open(), PanelSection::Item, PanelButton::Apply)[0],
        PanelRequest::EditBoneMapping(2)
    );
}

#[test]
fn edit_buffer_is_kept_or_started() {
    let mut bufs: KeyMap<u128, String> = KeyMap::new();
    let item = "body".to_string();
    ensure_edit_buffer(&mut bufs, 1, Some(&item), "new".to_string());
    assert_eq!(bufs.get(&1), Some(&"body".to_string()));
    ensure_edit_buffer(&mut bufs, 1, Some(&"changed".to_string()), "new".to_string());
    assert_eq!(bufs.get(&1), Some(&"body".to_string()));
    ensure_edit_buffer(&mut bufs, 2, None, "new".to_string());
    assert_eq!(bufs.get(&2), Some(&"new".to_string()));
}
