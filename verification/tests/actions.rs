use animation_graph_editor::actions::{
    view_button, view_selection_bar, EditorAction, GlobalState, PushQueue, TypeTargetedWindowAction, ViewAction, ViewList,
    ViewState, WindowId,
};

fn views(names: &[&str], active: Option<usize>) -> ViewList<u8> {
    ViewList {
        views: names.iter().map(|n| ViewState { name: n.to_string(), dock_state: 0 }).collect(),
        active_view: active,
    }
}

fn names(v: &ViewList<u8>) -> Vec<String> {
    v.views.iter().map(|s| s.name.clone()).collect()
}

#[test]
fn closing_an_earlier_view_keeps_the_selected_one() {
    let mut v = views(&["a", "b", "c"], Some(2));
    v.handle_view_action(ViewAction::Close(0), 9);
    assert_eq!(names(&v), vec!["b", "c"]);
    assert_eq!(v.active_view, Some(1));
    assert_eq!(v.views[v.active_view.unwrap()].name, "c");
}

#[test]
fn closing_a_later_view_keeps_the_index() {
    let mut v = views(&["a", "b", "c"], Some(0));
    v.handle_view_action(ViewAction::Close(2), 9);
    assert_eq!(v.active_view, Some(0));
}

#[test]
fn closing_the_selected_view_selects_none() {
    let mut v = views(&["a", "b"], Some(1));
    v.handle_view_action(ViewAction::Close(1), 9);
    assert_eq!(v.active_view, None);
    assert_eq!(names(&v), vec!["a"]);
}

#[test]
fn select_and_new_views() {
    let mut v = views(&["a"], None);
    v.handle_view_action(ViewAction::Select(0), 9);
    assert_eq!(v.active_view, Some(0));
    v.handle_view_action(ViewAction::New("new".to_string()), 7);
    assert_eq!(names(&v), vec!["a", "new"]);
    assert_eq!(v.views[1].dock_state, 7);
    assert_eq!(v.active_view, Some(0));
}

#[test]
fn queue_push_and_drain() {
    let mut q: PushQueue<i32> = PushQueue::default();
    q.push(1);
    q.push(2);
    assert_eq!(q.drain_all(), vec![1, 2]);
    assert!(q.0.is_empty());
}

#[test]
fn window_request_is_queued() {
    let mut q: PushQueue<EditorAction<&str>> = PushQueue::default();
    q.push(EditorAction::View(ViewAction::Select(0)));
    q.window(WindowId(3), "refresh");
    assert_eq!(q.0.len(), 2);
    match &q.0[1] {
        EditorAction::Window(w) => {
            assert_eq!(w.target, WindowId(3));
            assert_eq!(w.action, "refresh");
        }
        _ => panic!("a window request"),
    }
}

#[test]
fn type_targeted_request_reaches_found_window() {
    let a = TypeTargetedWindowAction { target_window_type: 42, action: 5u8 };
    let r = a.resolve(Some(WindowId(8))).unwrap();
    assert_eq!((r.target, r.action), (WindowId(8), 5));
    let b = TypeTargetedWindowAction { target_window_type: 42, action: 5u8 };
    assert!(b.resolve(None).is_none());
    let _ = GlobalState::default();
}

#[test]
fn view_bar_takes_the_first_click() {
    assert!(matches!(view_button(3, true, true), Some(ViewAction::Select(3))));
    assert!(matches!(view_button(3, false, true), Some(ViewAction::Close(3))));
    assert!(view_button(3, false, false).is_none());
    let clicks = vec![(false, false), (false, true), (true, false)];
    assert!(matches!(view_selection_bar(&clicks, false), Some(ViewAction::Close(1))));
    match view_selection_bar(&clicks, true) {
        Some(ViewAction::New(name)) => assert_eq!(name, "new"),
        other => panic!("expected a new view, got {:?}", other),
    }
    assert!(view_selection_bar(&vec![(false, false)], false).is_none());
}
