use animation_graph_editor::ordered_map::OrderedMap;

fn entries(v: &[(&str, i32)]) -> Vec<(String, i32)> {
    v.iter().map(|(k, x)| (k.to_string(), *x)).collect()
}

#[test]
fn listing_restores_list_with_distinct_keys() {
    let v = entries(&[("c", 3), ("a", 1), ("b", 2)]);
    let m = OrderedMap::from_vec(&v);
    assert_eq!(m.to_vec(), v);
}

#[test]
fn last_occurrence_wins() {
    let v = entries(&[("a", 1), ("b", 2), ("a", 3)]);
    let m = OrderedMap::from_vec(&v);
    assert_eq!(m.rank(&"a".to_string()), 2);
    assert_eq!(m.rank(&"b".to_string()), 1);
    assert_eq!(m.to_vec(), entries(&[("b", 2), ("a", 3)]));
}

#[test]
fn missing_rank_counts_as_zero() {
    let mut m: OrderedMap<String, i32> = OrderedMap::default();
    m.values = entries(&[("late", 1), ("early", 2)]);
    m.order = vec![("late".to_string(), 5), ("early".to_string(), -1)];
    assert_eq!(m.rank(&"nothing".to_string()), 0);
    assert_eq!(m.to_vec(), entries(&[("early", 2), ("late", 1)]));
    m.order = vec![("late".to_string(), 5)];
    // "early" has no rank, so it counts as 0 and comes first
    assert_eq!(m.to_vec(), entries(&[("early", 2), ("late", 1)]));
}

#[test]
fn equal_ranks_all_listed() {
    let mut m: OrderedMap<String, i32> = OrderedMap::default();
    m.values = entries(&[("x", 1), ("y", 2)]);
    let out = m.to_vec();
    assert_eq!(out.len(), 2);
    assert!(out.contains(&("x".to_string(), 1)));
    assert!(out.contains(&("y".to_string(), 2)));
}

#[test]
fn empty_round_trip() {
    let m: OrderedMap<String, i32> = OrderedMap::from_vec(&[]);
    assert!(m.to_vec().is_empty());
}
