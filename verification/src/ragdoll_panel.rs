//! The decisions of the ragdoll editor's inspector panel: which edit buffer
//! holds the selected item, and what is queued when a section's Apply or
//! Reset button is pressed. Drawing the widgets is the caller's.
use vstd::prelude::*;
use crate::key_map::KeyMap;
use crate::ragdoll_tree::SelectedItem;

verus! {

/// A part of the inspector panel: the selected item's own editor, or, for a
/// body, the editor of the bone it follows.
#[derive(Debug, Clone, Copy, PartialEq, Eq, Structural)]
pub enum PanelSection {
    Item,
    BodyMapping,
}

/// A button of a section.
#[derive(Debug, Clone, Copy, PartialEq, Eq, Structural)]
pub enum PanelButton {
    Apply,
    Reset,
}

/// Which assets the ragdoll editor has open, and whether the selected bone
/// (if a bone is selected) is a bone of the scene's skeleton.
#[derive(Debug, Clone, Copy, PartialEq, Eq, Structural)]
pub struct OpenAssets {
    pub ragdoll: bool,
    pub bone_map: bool,
    pub scene: bool,
    pub bone_in_skeleton: bool,
}

/// A request that the inspector panel queues. The edits carry the id of
/// the item whose edit buffer they submit.
#[derive(Debug, Clone, Copy, PartialEq, Eq, Structural)]
pub enum PanelRequest {
    EditBody(u128),
    EditBodyMapping(u128),
    EditCollider(u128),
    EditJoint(u128),
    EditBoneMapping(u128),
    RecomputeMappingOffsets,
    RecomputeSymmetry,
    ResetBuffers,
}

/// The edit that the section `section` submits for the selection `sel`,
/// and whether it also has the mapping offsets recomputed; `None` where the
/// panel does not show that section.
pub open spec fn section_edit(sel: Option<SelectedItem>, open: OpenAssets, section: PanelSection) -> Option<(PanelRequest, bool)> {
    match (sel, section) {
        (Some(SelectedItem::Body(id)), PanelSection::Item) => if open.ragdoll && open.bone_map {
            Some((PanelRequest::EditBody(id), true))
        } else {
            None
        },
        (Some(SelectedItem::Body(id)), PanelSection::BodyMapping) => if open.scene && open.bone_map {
            Some((PanelRequest::EditBodyMapping(id), true))
        } else {
            None
        },
        (Some(SelectedItem::Collider(id)), PanelSection::Item) => if open.ragdoll && open.bone_map {
            Some((PanelRequest::EditCollider(id), false))
        } else {
            None
        },
        (Some(SelectedItem::Joint(id)), PanelSection::Item) => if open.ragdoll && open.bone_map {
            Some((PanelRequest::EditJoint(id), false))
        } else {
            None
        },
        (Some(SelectedItem::Bone(id)), PanelSection::Item) => if open.scene && open.bone_map && open.ragdoll
            && open.bone_in_skeleton {
            Some((PanelRequest::EditBoneMapping(id), true))
        } else {
            None
        },
        _ => None,
    }
}

/// What pressing `button` in `section` queues: nothing where the section is
/// not shown; for Reset, that the buffers start over; for Apply, the edit,
/// then the recomputation of the mapping offsets where the edit calls for
/// it, then that of the symmetry, then that the buffers start over.
pub open spec fn panel_requests_for(
    sel: Option<SelectedItem>,
    open: OpenAssets,
    section: PanelSection,
    button: PanelButton,
) -> Seq<PanelRequest> {
    match section_edit(sel, open, section) {
        None => Seq::empty(),
        Some((edit, offsets)) => match button {
            PanelButton::Reset => seq![PanelRequest::ResetBuffers],
            PanelButton::Apply => seq![edit] + (if offsets {
                seq![PanelRequest::RecomputeMappingOffsets]
            } else {
                Seq::empty()
            }) + seq![PanelRequest::RecomputeSymmetry, PanelRequest::ResetBuffers],
        },
    }
}

/// Applying an edit of a body, of the bone a body follows, or of a bone's
/// mapping queues the recomputation of the mapping offsets right after the
/// edit; applying an edit of a collider or a joint does not. Every applied
/// edit is followed by the recomputation of the symmetry and then a reset
/// of the buffers. A selected bone of the skeleton, with the scene, the
/// bone map and the ragdoll open, has its mapping edit applied.
pub proof fn law_mapping_edits_recompute_offsets(sel: Option<SelectedItem>, open: OpenAssets, section: PanelSection)
    ensures
        ({
            let r = panel_requests_for(sel, open, section, PanelButton::Apply);
            &&& r.len() > 0 ==> ((r[0] is EditBody || r[0] is EditBodyMapping || r[0] is EditBoneMapping)
                <==> (r.len() == 4 && r[1] == PanelRequest::RecomputeMappingOffsets))
            &&& r.len() > 0 ==> ((r[0] is EditCollider || r[0] is EditJoint) <==> r.len() == 3)
            &&& r.len() > 0 ==> r[r.len() - 2] == PanelRequest::RecomputeSymmetry && r[r.len() - 1] == PanelRequest::ResetBuffers
            &&& (sel matches Some(SelectedItem::Bone(id)) && section == PanelSection::Item && open.scene && open.bone_map
                && open.ragdoll && open.bone_in_skeleton) ==> r.len() > 0 && r[0] == PanelRequest::EditBoneMapping(sel->0->Bone_0)
            &&& (sel matches Some(SelectedItem::Body(id)) && section == PanelSection::Item && open.ragdoll && open.bone_map)
                ==> r.len() > 0 && r[0] == PanelRequest::EditBody(sel->0->Body_0)
        }),
{
    let r = panel_requests_for(sel, open, section, PanelButton::Apply);
    if let Some((edit, offsets)) = section_edit(sel, open, section) {
        if offsets {
            assert(r =~= seq![edit, PanelRequest::RecomputeMappingOffsets, PanelRequest::RecomputeSymmetry, PanelRequest::ResetBuffers]);
        } else {
            assert(r =~= seq![edit, PanelRequest::RecomputeSymmetry, PanelRequest::ResetBuffers]);
        }
    } else {
        assert(r.len() == 0);
    }
}

/// The edit of a section, as [`section_edit`] says.
pub fn section_edit_of(sel: Option<SelectedItem>, open: OpenAssets, section: PanelSection) -> (r: Option<(PanelRequest, bool)>)
    ensures
        r == section_edit(sel, open, section),
{
    match (sel, section) {
        (Some(SelectedItem::Body(id)), PanelSection::Item) => if open.ragdoll && open.bone_map {
            Some((PanelRequest::EditBody(id), true))
        } else {
            None
        },
        (Some(SelectedItem::Body(id)), PanelSection::BodyMapping) => if open.scene && open.bone_map {
            Some((PanelRequest::EditBodyMapping(id), true))
        } else {
            None
        },
        (Some(SelectedItem::Collider(id)), PanelSection::Item) => if open.ragdoll && open.bone_map {
            Some((PanelRequest::EditCollider(id), false))
        } else {
            None
        },
        (Some(SelectedItem::Joint(id)), PanelSection::Item) => if open.ragdoll && open.bone_map {
            Some((PanelRequest::EditJoint(id), false))
        } else {
            None
        },
        (Some(SelectedItem::Bone(id)), PanelSection::Item) => if open.scene && open.bone_map && open.ragdoll
            && open.bone_in_skeleton {
            Some((PanelRequest::EditBoneMapping(id), true))
        } else {
            None
        },
        _ => None,
    }
}

/// The requests queued when `button` of `section` is pressed.
pub fn panel_requests(
    sel: Option<SelectedItem>,
    open: OpenAssets,
    section: PanelSection,
    button: PanelButton,
) -> (r: Vec<PanelRequest>)
    ensures
        r@ == panel_requests_for(sel, open, section, button),
{
    let mut r: Vec<PanelRequest> = Vec::new();
    match section_edit_of(sel, open, section) {
        None => {
            proof {
                assert(r@ =~= panel_requests_for(sel, open, section, button));
            }
        },
        Some((edit, offsets)) => match button {
            PanelButton::Reset => {
                r.push(PanelRequest::ResetBuffers);
                proof {
                    assert(r@ =~= panel_requests_for(sel, open, section, button));
                }
            },
            PanelButton::Apply => {
                r.push(edit);
                if offsets {
                    r.push(PanelRequest::RecomputeMappingOffsets);
                }
                r.push(PanelRequest::RecomputeSymmetry);
                r.push(PanelRequest::ResetBuffers);
                proof {
                    assert(r@ =~= panel_requests_for(sel, open, section, button));
                }
            },
        },
    }
    r
}

/// Makes sure the item `id` has an edit buffer: one kept from before stays
/// as it is; else the buffer starts as a copy of the item as it is
/// (`current`), or as `fresh` where the item is not found.
pub fn ensure_edit_buffer<T: Clone>(bufs: &mut KeyMap<u128, T>, id: u128, current: Option<&T>, fresh: T)
    requires
        old(bufs).wf(),
    ensures
        final(bufs).wf(),
        old(bufs).view_map().contains_key(id) ==> final(bufs).view_map() == old(bufs).view_map(),
        !old(bufs).view_map().contains_key(id) ==> {
            &&& final(bufs).view_map() == old(bufs).view_map().insert(id, final(bufs).view_map()[id])
            &&& match current {
                Some(c) => cloned(*c, final(bufs).view_map()[id]),
                None => final(bufs).view_map()[id] == fresh,
            }
        },
{
    if !bufs.contains(&id) {
        let v = match current {
            Some(c) => c.clone(),
            None => fresh,
        };
        bufs.insert(id, v);
    }
}

} // verus!
