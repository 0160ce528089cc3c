use sce_core::graph::{export_dot, link, loaded_graph, GraphError};

#[test]
fn duplicate_link_is_noop_and_dot_is_deterministic() {
    let empty = loaded_graph(None);
    let first = link(&empty, "stem-a", "mix-a").expect("first link");
    let second = link(&first, "stem-a", "mix-a").expect("duplicate link");

    assert_eq!(format!("{:?}", first), format!("{:?}", second));
    let dot = export_dot(&second);
    assert_eq!(dot, "digraph StemGraph {\n  \"mix-a\";\n  \"stem-a\";\n  \"stem-a\" -> \"mix-a\";\n}\n");
}

#[test]
fn self_link_is_rejected() {
    let empty = loaded_graph(None);
    let err = link(&empty, "stem-a", "stem-a").expect_err("self link");
    assert!(err.message().contains("self-link rejected"));
}

#[test]
fn cycle_rejection_includes_cycle_path() {
    let g = loaded_graph(None);
    let g = link(&g, "a", "b").expect("a->b");
    let g = link(&g, "b", "c").expect("b->c");
    let err = link(&g, "c", "a").expect_err("cycle");

    assert!(err.message().contains("cycle rejected: c -> a -> b -> c"));
}

#[test]
fn blank_names_are_rejected() {
    let g = loaded_graph(None);
    assert!(matches!(link(&g, "  ", "b"), Err(GraphError::EmptyFrom)));
    assert!(matches!(link(&g, "a", ""), Err(GraphError::EmptyTo)));
    assert_eq!(link(&g, " ", "b").expect_err("blank").message(), "graph from must be non-empty");
}

#[test]
fn dot_escapes_quotes_and_backslashes() {
    let g = loaded_graph(None);
    let g = link(&g, "a\"b", "c\\d").expect("link");
    let dot = export_dot(&g);
    assert_eq!(dot, "digraph StemGraph {\n  \"a\\\"b\";\n  \"c\\\\d\";\n  \"a\\\"b\" -> \"c\\\\d\";\n}\n");
}

#[test]
fn edges_and_nodes_are_kept_sorted() {
    let g = loaded_graph(None);
    let g = link(&g, "z", "y").expect("z->y");
    let g = link(&g, "a", "y").expect("a->y");
    assert_eq!(g.nodes, vec!["a".to_string(), "y".to_string(), "z".to_string()]);
    assert_eq!(g.edges[0].from, "a");
    assert_eq!(g.edges[1].from, "z");
    assert_eq!(g.schema_version, "1.0");
}

#[test]
fn cycle_report_takes_the_shortest_way_back() {
    let g = loaded_graph(None);
    let g = link(&g, "a", "b").expect("a->b");
    let g = link(&g, "b", "c").expect("b->c");
    let g = link(&g, "a", "c").expect("a->c");
    let err = link(&g, "c", "a").expect_err("cycle");
    assert_eq!(err.message(), "cycle rejected: c -> a -> c");
}

#[test]
fn cycle_report_breaks_ties_in_name_order() {
    let g = loaded_graph(None);
    let g = link(&g, "s", "x").expect("s->x");
    let g = link(&g, "s", "b").expect("s->b");
    let g = link(&g, "x", "g").expect("x->g");
    let g = link(&g, "b", "g").expect("b->g");
    let err = link(&g, "g", "s").expect_err("cycle");
    assert_eq!(err.message(), "cycle rejected: g -> s -> b -> g");
}
