use animation_graph_editor::dock_tabs::EguiWindow;
use animation_graph_editor::sub_scenes::{pose_sync_action, scene_sync_action, skeleton_sync_action, SubSceneSyncAction};

type Tab = EguiWindow<u32, u32>;

#[test]
fn tab_titles() {
    assert_eq!(Tab::GraphEditor.display_name(), "Graph Editor");
    assert_eq!(Tab::FsmSelector.display_name(), "Select FSM");
    assert_eq!(Tab::GraphSaver(1, String::new(), false).display_name(), "Save Graph");
    assert_eq!(Tab::FsmSaver(1, String::new(), false).display_name(), "Save State Machine");
    assert_eq!(Tab::EventSender.display_name(), "Send events");
}

#[test]
fn only_savers_close() {
    assert!(!Tab::Inspector.closeable());
    assert!(Tab::GraphSaver(1, "a.animgraph.ron".to_string(), false).closeable());
    assert!(!Tab::GraphSaver(1, String::new(), false).force_close());
    assert!(Tab::FsmSaver(2, String::new(), true).force_close());
    assert!(!Tab::Preview.force_close());
}

#[test]
fn previews_follow_their_configuration() {
    assert_eq!(pose_sync_action(true, true, true), SubSceneSyncAction::Nothing);
    assert_eq!(pose_sync_action(true, false, true), SubSceneSyncAction::Update);
    assert_eq!(pose_sync_action(true, true, false), SubSceneSyncAction::Update);
    assert_eq!(pose_sync_action(false, true, true), SubSceneSyncAction::Respawn);
    assert_eq!(scene_sync_action(true, true), SubSceneSyncAction::Nothing);
    assert_eq!(scene_sync_action(true, false), SubSceneSyncAction::Update);
    assert_eq!(scene_sync_action(false, true), SubSceneSyncAction::Respawn);
    assert_eq!(skeleton_sync_action(true), SubSceneSyncAction::Update);
    assert_eq!(skeleton_sync_action(false), SubSceneSyncAction::Respawn);
}
