use animation_graph_editor::pins::NodeId;
use animation_graph_editor::track_windows::{
    sorted_tracks, ClipPreviewAction, ClipPreviewWindow, EventTrackEditorAction, EventTrackEditorWindow, TargetTracks,
};

#[test]
fn track_editor_requests() {
    let mut w: EventTrackEditorWindow<(f32, f32, f32), u32> = EventTrackEditorWindow::new((0.0, 5.0, 0.0));
    assert!(w.selected_track.is_none() && w.selected_event.is_none() && w.target_tracks.is_none());
    w.handle_action(EventTrackEditorAction::SelectEvent { track_name: "steps".to_string(), event_id: 42 });
    assert_eq!(w.selected_track.as_deref(), Some("steps"));
    assert_eq!(w.selected_event, Some(42));
    w.handle_action(EventTrackEditorAction::SetScrollConfig((1.0, 2.0, 3.0)));
    assert_eq!(w.scroll_config, (1.0, 2.0, 3.0));
    assert_eq!(w.selected_event, Some(42));
    w.handle_action(EventTrackEditorAction::SetTrackSource(Some(TargetTracks::GraphNode { graph: 7, node: NodeId(3) })));
    assert!(matches!(w.target_tracks, Some(TargetTracks::GraphNode { graph: 7, node: NodeId(3) })));
    w.handle_action(EventTrackEditorAction::SetTrackSource(None));
    assert!(w.target_tracks.is_none());
    assert_eq!(w.selected_track.as_deref(), Some("steps"));
}

#[test]
fn clip_preview_requests() {
    let mut w: ClipPreviewWindow<u8, u32, u16, f32, f32> =
        ClipPreviewWindow { orbit_view: 1, target: None, base_scene: None, last_order: None, current_time: Some(0.5) };
    w.handle_action(ClipPreviewAction::TimingOrder(2.5));
    assert_eq!(w.last_order, Some(2.5));
    w.handle_action(ClipPreviewAction::SelectTarget(Some(TargetTracks::Clip(9))));
    assert!(matches!(w.target, Some(TargetTracks::Clip(9))));
    w.handle_action(ClipPreviewAction::SelectBaseScene(4));
    assert_eq!(w.base_scene, Some(4));
    assert_eq!(w.last_order, Some(2.5));
    assert_eq!((w.orbit_view, w.current_time), (1, Some(0.5)));
}

#[test]
fn tracks_come_in_name_order() {
    let tracks = vec![("steps".to_string(), 1u8), ("hits".to_string(), 2), ("audio".to_string(), 3)];
    assert_eq!(sorted_tracks(tracks), vec![3, 2, 1]);
    assert!(sorted_tracks(Vec::<(String, u8)>::new()).is_empty());
}
