use animation_graph_editor::saving::{
    handle_name, handle_path, handle_request_save_multiple, handle_save_action,
    handle_save_multiple, AssetType, DirtyAssets, SaveAction, SaveMultiple, SaveOutcome,
    SaveWindow, SaveWindowAssetMeta, UntypedAssetId,
};

fn id(t: AssetType, index: u128) -> UntypedAssetId {
    UntypedAssetId { asset_type: t, index }
}

fn meta(i: UntypedAssetId, save: bool, rename: bool, vp: &str, cur: Option<&str>) -> SaveWindowAssetMeta {
    SaveWindowAssetMeta {
        id: i,
        should_save: save,
        should_rename: rename,
        virtual_path: vp.to_string(),
        current_path: cur.map(|s| s.to_string()),
    }
}

#[test]
fn dirty_assets_keep_one_entry_per_asset() {
    let mut d: DirtyAssets<&str> = DirtyAssets::new();
    let g = id(AssetType::AnimationGraph, 1);
    let f = id(AssetType::StateMachine, 1);
    d.add(g, "h1");
    d.add(f, "h2");
    d.add(g, "h3");
    assert_eq!(d.ids(), vec![g, f]);
    assert!(d.contains(g));
    assert_eq!(d.remove(g), Some("h3"));
    assert!(!d.contains(g));
    assert_eq!(d.remove(g), None);
    assert_eq!(d.ids(), vec![f]);
}

#[test]
fn unsaved_asset_path_and_name() {
    assert_eq!(handle_path(None), "Unsaved Asset");
    assert_eq!(handle_path(Some("graphs/a.animgraph.ron".to_string())), "graphs/a.animgraph.ron");
    assert_eq!(handle_name(None), "Unsaved Asset");
    assert_eq!(handle_name(Some("fsm/b.fsm.ron".to_string())), "fsm/b.fsm.ron");
}

#[test]
fn type_headings() {
    assert_eq!(AssetType::AnimationGraph.display_name(), "Animation Graph");
    assert_eq!(AssetType::StateMachine.display_name(), "State Machine");
    assert_eq!(AssetType::GraphClip.display_name(), "Animation Clip");
    assert_eq!(AssetType::Ragdoll.display_name(), "Ragdoll");
    assert_eq!(AssetType::RagdollBoneMap.display_name(), "Ragdoll Bone Map");
    assert_eq!(AssetType::Other(9).display_name(), "Unknown type (?)");
}

#[test]
fn save_window_groups_by_type_then_index() {
    let w = SaveWindow::new(vec![
        meta(id(AssetType::StateMachine, 1), false, false, "", None),
        meta(id(AssetType::AnimationGraph, 5), false, false, "", None),
        meta(id(AssetType::Other(3), 0), false, false, "", None),
        meta(id(AssetType::AnimationGraph, 2), false, false, "", None),
    ]);
    let order: Vec<UntypedAssetId> = w.assets.iter().map(|m| m.id).collect();
    assert_eq!(
        order,
        vec![
            id(AssetType::AnimationGraph, 2),
            id(AssetType::AnimationGraph, 5),
            id(AssetType::StateMachine, 1),
            id(AssetType::Other(3), 0),
        ]
    );
}

#[test]
fn save_window_is_stable() {
    let a = id(AssetType::GraphClip, 4);
    let w = SaveWindow::new(vec![
        meta(a, false, false, "first", None),
        meta(a, false, false, "second", None),
    ]);
    assert_eq!(w.assets[0].virtual_path, "first");
    assert_eq!(w.assets[1].virtual_path, "second");
}

#[test]
fn save_button_request() {
    let w = SaveWindow::new(vec![
        meta(id(AssetType::AnimationGraph, 1), true, false, "ignored.ron", Some("graphs/a.ron")),
        meta(id(AssetType::AnimationGraph, 2), true, true, "graphs/renamed.ron", Some("graphs/b.ron")),
        meta(id(AssetType::AnimationGraph, 3), false, true, "graphs/skip.ron", None),
        meta(id(AssetType::StateMachine, 1), true, false, "", None),
    ]);
    let m = w.save_request();
    assert_eq!(
        m.assets,
        vec![
            (id(AssetType::AnimationGraph, 1), "graphs/a.ron".to_string()),
            (id(AssetType::AnimationGraph, 2), "graphs/renamed.ron".to_string()),
            (id(AssetType::StateMachine, 1), "".to_string()),
        ]
    );
}

#[test]
fn offers_for_stored_and_new_assets() {
    let stored = SaveWindowAssetMeta::for_asset(id(AssetType::Ragdoll, 1), Some("r.ron".to_string()));
    assert!(!stored.should_save && !stored.should_rename);
    assert_eq!(stored.virtual_path, "r.ron");
    let fresh = SaveWindowAssetMeta::for_asset(id(AssetType::Ragdoll, 2), None);
    assert!(!fresh.should_save && fresh.should_rename);
    assert_eq!(fresh.virtual_path, "");
    assert_eq!(fresh.target_path(), "");
}

#[test]
fn save_multiple_writes_known_types_and_keeps_others_unsaved() {
    let mut d: DirtyAssets<u32> = DirtyAssets::new();
    let g = id(AssetType::AnimationGraph, 1);
    let o = id(AssetType::Other(7), 1);
    let c = id(AssetType::GraphClip, 2);
    d.add(g, 1);
    d.add(o, 2);
    d.add(c, 3);
    let jobs = handle_save_multiple(
        &mut d,
        SaveMultiple { assets: vec![(o, "o.ron".to_string()), (g, "g.ron".to_string())] },
    );
    assert_eq!(jobs.len(), 1);
    assert_eq!(jobs[0].id, g);
    assert_eq!(jobs[0].virtual_path, "g.ron");
    // the asset of a type nothing writes is still unsaved
    assert_eq!(d.ids(), vec![o, c]);
}

#[test]
fn save_action_dispatch() {
    let mut d: DirtyAssets<u32> = DirtyAssets::new();
    d.add(id(AssetType::Ragdoll, 1), 0);
    assert!(matches!(handle_save_action(&mut d, SaveAction::RequestMultiple), SaveOutcome::OpenSaveWindow));
    assert_eq!(d.ids().len(), 1);
    let out = handle_save_action(
        &mut d,
        SaveAction::Multiple(SaveMultiple { assets: vec![(id(AssetType::Ragdoll, 1), "r.ron".to_string())] }),
    );
    match out {
        SaveOutcome::Write(jobs) => assert_eq!(jobs.len(), 1),
        _ => panic!("a save request writes"),
    }
    assert!(d.ids().is_empty());
}

#[test]
fn request_save_needs_active_view() {
    let unsaved = vec![(id(AssetType::StateMachine, 1), None), (id(AssetType::AnimationGraph, 9), Some("g.ron".to_string()))];
    assert!(handle_request_save_multiple(None, unsaved.clone()).is_none());
    let w = handle_request_save_multiple(Some(0), unsaved).unwrap();
    assert_eq!(w.assets.len(), 2);
    assert_eq!(w.assets[0].id, id(AssetType::AnimationGraph, 9));
    assert_eq!(w.assets[0].current_path, Some("g.ron".to_string()));
    assert!(w.assets[1].should_rename);
}
