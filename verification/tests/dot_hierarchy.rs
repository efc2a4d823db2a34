use mantra::dot_hierarchy::{dot_hierarchy, get_dot_parent};

fn ids(v: &[&str]) -> Vec<String> {
    v.iter().map(|s| s.to_string()).collect()
}

#[test]
fn dot_edges_by_index() {
    let reqs = ids(&["a", "a.b", "a.b.c", "plain", "a.d.e"]);
    assert_eq!(dot_hierarchy(&reqs), Ok(vec![(0, 1), (1, 2), (0, 4)]));
}

#[test]
fn dotted_requirement_without_parent_is_an_error() {
    let reqs = ids(&["a", "a.b", "x.y", "a.b.c", "z.w.v"]);
    assert_eq!(dot_hierarchy(&reqs), Err(vec![2, 4]));
}

#[test]
fn dot_parent_is_the_longest_existing_prefix() {
    let reqs = ids(&["a", "a.b"]);
    let parent: String = get_dot_parent(&reqs, "a.b.c.d").unwrap().into_iter().collect();
    assert_eq!(parent, "a.b");
    let parent: String = get_dot_parent(&reqs, "a.x").unwrap().into_iter().collect();
    assert_eq!(parent, "a");
    assert!(get_dot_parent(&reqs, "b.c").is_none());
    assert!(get_dot_parent(&reqs, "plain").is_none());
}
