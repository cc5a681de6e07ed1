use animation_graph_editor::tree::{
    select_from_results, BoneId, SkeletonResponse, Tree, TreeInternal, TreeResponse, TreeResult,
};

fn p(parts: &[&str]) -> Vec<String> {
    parts.iter().map(|s| s.to_string()).collect()
}

fn label<I, L>(e: &TreeInternal<I, L>) -> &str {
    match e {
        TreeInternal::Leaf(l, _) => l,
        TreeInternal::Node(l, _, _) => l,
    }
}

#[test]
fn insert_shares_inner_nodes() {
    let mut t: Tree<(), i32> = Tree::default();
    t.insert(p(&["a", "b"]), 1);
    t.insert(p(&["a", "c"]), 2);
    t.insert(p(&["d"]), 3);
    assert_eq!(t.0.len(), 2);
    match &t.0[0] {
        TreeInternal::Node(l, (), children) => {
            assert_eq!(l, "a");
            assert_eq!(children.len(), 2);
            assert!(matches!(&children[0], TreeInternal::Leaf(l, 1) if l == "b"));
            assert!(matches!(&children[1], TreeInternal::Leaf(l, 2) if l == "c"));
        }
        _ => panic!("expected an inner node"),
    }
    assert!(matches!(&t.0[1], TreeInternal::Leaf(l, 3) if l == "d"));
}

#[test]
fn insert_empty_path_adds_nothing() {
    let mut t: Tree<(), i32> = Tree::new();
    t.insert(vec![], 1);
    assert!(t.0.is_empty());
}

#[test]
fn leaf_with_same_label_is_not_reused_as_node() {
    let mut t: Tree<(), i32> = Tree::new();
    t.insert(p(&["a"]), 1);
    t.insert(p(&["a", "b"]), 2);
    assert_eq!(t.0.len(), 2);
    assert!(matches!(&t.0[0], TreeInternal::Leaf(_, 1)));
    assert!(matches!(&t.0[1], TreeInternal::Node(_, (), c) if c.len() == 1));
}

#[test]
fn inserted_leaf_is_found_and_others_kept() {
    let t = Tree::from_paths(vec![(p(&["x", "y", "z"]), 7), (p(&["x", "w"]), 8)]);
    assert_eq!(t.0.len(), 1);
    let TreeInternal::Node(_, (), level1) = &t.0[0] else { panic!() };
    assert_eq!(level1.iter().map(label).collect::<Vec<_>>(), vec!["y", "w"]);
    let TreeInternal::Node(_, (), level2) = &level1[0] else { panic!() };
    assert!(matches!(&level2[0], TreeInternal::Leaf(l, 7) if l == "z"));
}

#[test]
fn or_picks_first_non_empty() {
    let a: TreeResult<i32, i32, ()> = TreeResult::Leaf(1, ());
    let b: TreeResult<i32, i32, ()> = TreeResult::Node(2, ());
    assert!(matches!(a.or(b), TreeResult::Leaf(1, ())));
    let e: TreeResult<i32, i32, ()> = TreeResult::Empty;
    assert!(matches!(e.or(TreeResult::Node(2, ())), TreeResult::Node(2, ())));
    let e2: TreeResult<i32, i32, ()> = TreeResult::default();
    assert!(matches!(TreeResult::<i32, i32, ()>::Node(3, ()).or(e2), TreeResult::Node(3, ())));
}

#[test]
fn skeleton_responses_combine_first_some() {
    let a = SkeletonResponse { hovered: None, clicked: Some(BoneId(1)) };
    let b = SkeletonResponse { hovered: Some(BoneId(2)), clicked: Some(BoneId(3)) };
    assert_eq!(a.combine(&b), SkeletonResponse { hovered: Some(BoneId(2)), clicked: Some(BoneId(1)) });
    let r: TreeResult<i32, i32, SkeletonResponse> = TreeResult::Leaf(5, a).or(TreeResult::Node(6, b));
    match r {
        TreeResult::Leaf(5, resp) => assert_eq!(resp.hovered, Some(BoneId(2))),
        _ => panic!("the first pick stays"),
    }
}

#[test]
fn results_combined_left_to_right() {
    let rs: Vec<TreeResult<i32, i32, ()>> =
        vec![TreeResult::Empty, TreeResult::Node(4, ()), TreeResult::Leaf(5, ())];
    assert!(matches!(select_from_results(rs), TreeResult::Node(4, ())));
    assert!(matches!(select_from_results::<i32, i32, ()>(vec![]), TreeResult::Empty));
}
