use ember::error::Error;
use ember::knowledge_graph::{
    find_path, neighbor_indices, traverse, Edge, RelationDirection, TraversalPlan,
};

fn ids(names: &[&str]) -> Vec<String> {
    names.iter().map(|n| n.to_string()).collect()
}

fn edge(source: &str, relation_type: &str, target: &str) -> Edge {
    Edge {
        source: source.to_string(),
        target: target.to_string(),
        relation_type: relation_type.to_string(),
        admitted: true,
    }
}

fn plan(max_depth: usize, direction: RelationDirection) -> TraversalPlan {
    TraversalPlan { max_depth, relationship_types: Vec::new(), direction, max_entities: 100 }
}

fn visited_names(es: &[(String, usize, Vec<usize>)]) -> Vec<(&str, usize)> {
    es.iter().map(|(id, d, _)| (id.as_str(), *d)).collect()
}

#[test]
fn graph_traversal_follows_a_chain() {
    let nodes = ids(&["a", "b", "c", "d"]);
    let edges = vec![
        edge("a", "connects_to", "b"),
        edge("b", "connects_to", "c"),
        edge("c", "connects_to", "d"),
    ];
    let t = traverse(&nodes, &edges, "a", &plan(3, RelationDirection::Outgoing)).unwrap();
    assert_eq!(t.visited.len(), 4);
    assert_eq!(visited_names(&t.visited), vec![("a", 0), ("b", 1), ("c", 2), ("d", 3)]);
    assert_eq!(t.visited[3].2, vec![0, 1, 2]);
    assert_eq!(t.relationships, vec![0, 1, 2]);
}

#[test]
fn graph_traversal_respects_depth_and_entity_limits() {
    let nodes = ids(&["a", "b", "c", "d"]);
    let edges = vec![
        edge("a", "connects_to", "b"),
        edge("b", "connects_to", "c"),
        edge("c", "connects_to", "d"),
    ];
    let t = traverse(&nodes, &edges, "a", &plan(1, RelationDirection::Outgoing)).unwrap();
    assert_eq!(visited_names(&t.visited), vec![("a", 0), ("b", 1)]);
    let mut p = plan(3, RelationDirection::Outgoing);
    p.max_entities = 2;
    let t = traverse(&nodes, &edges, "a", &p).unwrap();
    assert_eq!(visited_names(&t.visited), vec![("a", 0), ("b", 1)]);
}

#[test]
fn graph_traversal_directions() {
    let nodes = ids(&["a", "b", "c"]);
    let edges = vec![edge("b", "r", "a"), edge("a", "r", "c")];
    let out = traverse(&nodes, &edges, "a", &plan(3, RelationDirection::Outgoing)).unwrap();
    assert_eq!(visited_names(&out.visited), vec![("a", 0), ("c", 1)]);
    let inc = traverse(&nodes, &edges, "a", &plan(3, RelationDirection::Incoming)).unwrap();
    assert_eq!(visited_names(&inc.visited), vec![("a", 0), ("b", 1)]);
    let both = traverse(&nodes, &edges, "a", &plan(3, RelationDirection::Both)).unwrap();
    assert_eq!(visited_names(&both.visited), vec![("a", 0), ("c", 1), ("b", 1)]);
    assert_eq!(neighbor_indices(&edges, "a", RelationDirection::Both), vec![1, 0]);
}

#[test]
fn graph_traversal_filters_types_and_admission() {
    let nodes = ids(&["a", "b", "c"]);
    let mut weak = edge("a", "likes", "c");
    weak.admitted = false;
    let edges = vec![edge("a", "knows", "b"), weak, edge("a", "likes", "b")];
    let mut p = plan(3, RelationDirection::Outgoing);
    p.relationship_types = vec!["likes".to_string()];
    let t = traverse(&nodes, &edges, "a", &p).unwrap();
    assert_eq!(visited_names(&t.visited), vec![("a", 0), ("b", 1)]);
    assert_eq!(t.visited[1].2, vec![2]);
}

#[test]
fn graph_traversal_skips_missing_entities_but_walks_through_them() {
    let nodes = ids(&["a", "c"]);
    let edges = vec![edge("a", "r", "ghost"), edge("ghost", "r", "c")];
    let t = traverse(&nodes, &edges, "a", &plan(3, RelationDirection::Outgoing)).unwrap();
    assert_eq!(visited_names(&t.visited), vec![("a", 0), ("c", 2)]);
}

#[test]
fn graph_traversal_unknown_start() {
    let nodes = ids(&["a"]);
    match traverse(&nodes, &Vec::new(), "zzz", &plan(3, RelationDirection::Both)) {
        Err(Error::NotFound(m)) => assert_eq!(m, "Start entity not found: zzz"),
        _ => panic!("expected not found"),
    }
}

#[test]
fn graph_find_path_between_entities() {
    let nodes = ids(&["a", "b", "c"]);
    let edges = vec![edge("a", "to", "b"), edge("b", "to", "c")];
    let path = find_path(&nodes, &edges, "a", "c", &plan(3, RelationDirection::Both)).unwrap();
    assert_eq!(path, Some(vec![0, 1]));
    assert_eq!(path.unwrap().len(), 2);
    let none = find_path(&nodes, &edges, "a", "c", &plan(1, RelationDirection::Both)).unwrap();
    assert_eq!(none, None);
}
