//! How a preview scene drawn into the editor follows a change of what it
//! shows: left alone, updated in place, or spawned anew. Whether the parts
//! of two configurations are equal is the caller's to say: poses and
//! camera views are floating-point values.
use vstd::prelude::*;

verus! {

/// What to do with a preview scene whose configuration changed.
#[derive(Debug, Clone, Copy, PartialEq, Eq, Structural)]
pub enum SubSceneSyncAction {
    Nothing,
    Update,
    Respawn,
}

/// A pose preview: spawned anew for another scene, updated for another
/// pose or view of the same scene, left alone otherwise.
pub fn pose_sync_action(same_scene: bool, same_pose: bool, same_view: bool) -> (a: SubSceneSyncAction)
    ensures
        !same_scene ==> a == SubSceneSyncAction::Respawn,
        same_scene && same_pose && same_view ==> a == SubSceneSyncAction::Nothing,
        same_scene && !(same_pose && same_view) ==> a == SubSceneSyncAction::Update,
{
    if !same_scene {
        SubSceneSyncAction::Respawn
    } else if same_pose && same_view {
        SubSceneSyncAction::Nothing
    } else {
        SubSceneSyncAction::Update
    }
}

/// A scene preview: spawned anew for another scene, updated for another
/// view of the same scene, left alone otherwise.
pub fn scene_sync_action(same_scene: bool, same_view: bool) -> (a: SubSceneSyncAction)
    ensures
        !same_scene ==> a == SubSceneSyncAction::Respawn,
        same_scene && same_view ==> a == SubSceneSyncAction::Nothing,
        same_scene && !same_view ==> a == SubSceneSyncAction::Update,
{
    if !same_scene {
        SubSceneSyncAction::Respawn
    } else if same_view {
        SubSceneSyncAction::Nothing
    } else {
        SubSceneSyncAction::Update
    }
}

/// A skeleton preview: spawned anew for another scene, updated otherwise.
pub fn skeleton_sync_action(same_scene: bool) -> (a: SubSceneSyncAction)
    ensures
        a == if same_scene { SubSceneSyncAction::Update } else { SubSceneSyncAction::Respawn },
{
    if same_scene {
        SubSceneSyncAction::Update
    } else {
        SubSceneSyncAction::Respawn
    }
}

} // verus!
