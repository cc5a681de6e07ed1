use animation_graph_editor::node_types::{
    longest_short_name, matches_type_search, node_type_info, search_node_types, selected_type_label,
    text_contains, type_choice_label, type_choices, unique_short_names, TypeInfo,
};
use animation_graph_editor::text_order::{sort_by_text, text_le_exec};

fn s(x: &str) -> String {
    x.to_string()
}

fn paths(xs: &[&str]) -> Vec<String> {
    xs.iter().map(|x| s(x)).collect()
}

#[test]
fn strings_are_ordered_character_by_character() {
    assert!(text_le_exec(&s("a"), &s("b")));
    assert!(!text_le_exec(&s("b"), &s("a")));
    assert!(text_le_exec(&s("a"), &s("ab")));
    assert!(!text_le_exec(&s("ab"), &s("a")));
    assert!(text_le_exec(&s(""), &s("")));
    assert!(text_le_exec(&s("Z"), &s("a")));
    assert!(text_le_exec(&s("same"), &s("same")));
}

#[test]
fn substring_search() {
    assert!(text_contains("bevy::node::f32::Add", "f32"));
    assert!(text_contains("abc", ""));
    assert!(text_contains("abc", "abc"));
    assert!(!text_contains("abc", "abcd"));
    assert!(!text_contains("abc", "ac"));
}

#[test]
fn short_name_is_the_last_segment() {
    assert_eq!(node_type_info(1u8, s("bevy_animation_graph::node::f32::Add")).short, "Add");
    assert_eq!(node_type_info(1u8, s("Plain")).short, "Plain");
    assert_eq!(node_type_info(1u8, s("trailing::")).short, "");
    // segments are cut at each `::` found from the left
    assert_eq!(node_type_info(1u8, s("a:::b")).short, ":b");
    let t = node_type_info(7u8, s("x::Y"));
    assert_eq!((t.id, t.path.as_str()), (7, "x::Y"));
}

#[test]
fn search_is_case_insensitive_only_for_lowercase_text() {
    let p = s("nodes::f32::Add");
    assert!(matches_type_search(&p, &s("")));
    assert!(matches_type_search(&p, &s("add")));
    assert!(matches_type_search(&p, &s("Add")));
    assert!(!matches_type_search(&p, &s("ADD")));
    assert!(matches_type_search(&p, &s("f32::a")));
    assert!(!matches_type_search(&p, &s("vec3")));
}

fn info(id: u128, path: &str) -> TypeInfo<u128> {
    node_type_info(id, s(path))
}

#[test]
fn search_filters_and_orders_by_path() {
    let types = vec![info(1, "n::vec3::Add"), info(2, "n::f32::Sub"), info(3, "n::f32::Add"), info(4, "n::Clip")];
    let found = search_node_types(types, &s("add"));
    let found: Vec<&str> = found.iter().map(|t| t.path.as_str()).collect();
    assert_eq!(found, vec!["n::f32::Add", "n::vec3::Add"]);

    let types = vec![info(1, "b"), info(2, "a"), info(3, "c")];
    let all: Vec<u128> = search_node_types(types, &s("")).iter().map(|t| t.id).collect();
    assert_eq!(all, vec![2, 1, 3]);

    let sorted: Vec<u128> = sort_by_text(vec![info(1, "z"), info(2, "y::z"), info(3, "x")]).iter().map(|t| t.id).collect();
    assert_eq!(sorted, vec![3, 2, 1]);
}

#[test]
fn short_names_are_the_shortest_unique_endings() {
    let names = unique_short_names(&paths(&["a::x::Add", "b::y::Add", "a::Sub"]));
    assert_eq!(names, vec![s("x::Add"), s("y::Add"), s("Sub")]);

    // a path that is the ending of another gets no unique name
    let names = unique_short_names(&paths(&["a::b::C", "b::C"]));
    assert_eq!(names, vec![s("a::b::C"), s("")]);

    let names = unique_short_names(&paths(&["p::A", "p::A"]));
    assert_eq!(names, vec![s(""), s("")]);

    assert_eq!(unique_short_names(&paths(&["Only"])), vec![s("Only")]);
    assert!(unique_short_names(&Vec::new()).is_empty());
}

#[test]
fn type_choices_are_named_and_ordered() {
    let choices = type_choices(vec![(1u128, s("n::vec3::Add")), (2, s("n::f32::Add")), (3, s("n::Clip"))]);
    let listed: Vec<(u128, &str, &str)> = choices.iter().map(|t| (t.id, t.short.as_str(), t.path.as_str())).collect();
    assert_eq!(
        listed,
        vec![(3, "Clip", "n::Clip"), (2, "f32::Add", "n::f32::Add"), (1, "vec3::Add", "n::vec3::Add")]
    );
    assert_eq!(selected_type_label(&choices, &2), "f32::Add");
    assert_eq!(selected_type_label(&choices, &9), "(?)");
    assert_eq!(longest_short_name(&choices), 9);
    assert_eq!(longest_short_name(&Vec::<TypeInfo<u128>>::new()), 0);
    assert_eq!(type_choice_label(&s("Clip"), &s("n::Clip"), 9), "Clip       n::Clip");
    assert_eq!(type_choice_label(&s("vec3::Add"), &s("n::vec3::Add"), 9), "vec3::Add  n::vec3::Add");
}
