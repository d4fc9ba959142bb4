use ember::error::Error;
use ember::graph_store::GraphStore;

#[derive(Debug, Clone, PartialEq)]
struct Node {
    name: String,
    kind: String,
    props: Vec<(String, String)>,
}

fn node(name: &str, kind: &str) -> Node {
    Node { name: name.to_string(), kind: kind.to_string(), props: Vec::new() }
}

fn with_prop(mut n: Node, k: &str, v: &str) -> Node {
    n.props.push((k.to_string(), v.to_string()));
    n
}

fn add(g: &mut GraphStore<Node, String>, id: &str, n: Node) -> String {
    let name = n.name.clone();
    g.add_entity(id.to_string(), name, n).unwrap()
}

fn relate(g: &mut GraphStore<Node, String>, id: &str, source: &str, target: &str) -> Result<String, Error> {
    g.add_relationship(id.to_string(), source.to_string(), target.to_string(), format!("rel {id}"))
}

fn store() -> GraphStore<Node, String> {
    GraphStore::new(10000, 50000)
}

#[test]
fn test_add_entity() {
    let mut g = store();
    let id = add(&mut g, "e1", with_prop(node("Rust", "ProgrammingLanguage"), "paradigm", "systems"));
    assert_eq!(id, "e1");
    let got = g.get_entity("e1").unwrap();
    assert_eq!(got.name, "Rust");
    assert_eq!(got.kind, "ProgrammingLanguage");
    assert_eq!(g.entity_count(), 1);
}

#[test]
fn test_get_entity_by_name() {
    let mut g = store();
    add(&mut g, "t", node("Tokio", "Library"));
    let found = g.get_entity_by_name("tokio");
    assert_eq!(found.unwrap().name, "Tokio");
    assert!(g.get_entity_by_name("TOKIO").is_some());
    assert!(g.get_entity_by_name("async-std").is_none());
}

#[test]
fn test_remove_entity() {
    let mut g = store();
    add(&mut g, "x", node("ToRemove", "Type"));
    assert!(g.get_entity("x").is_some());
    let removed = g.remove_entity("x").unwrap();
    assert_eq!(removed.name, "ToRemove");
    assert!(g.get_entity("x").is_none());
    assert!(g.get_entity_by_name("toremove").is_none());
    assert_eq!(g.remove_entity("x").unwrap_err(), Error::NotFound("Entity not found: x".to_string()));
}

#[test]
fn test_merge_entities() {
    let mut g = store();
    add(&mut g, "id1", with_prop(node("Entity1", "Type"), "a", "1"));
    add(&mut g, "id2", with_prop(node("Entity2", "Type"), "b", "2"));
    g.merge_entities("id1", "id2", |mut kept: Node, removed: &Node| {
        for p in &removed.props {
            if !kept.props.iter().any(|(k, _)| *k == p.0) {
                kept.props.push(p.clone());
            }
        }
        kept
    })
    .unwrap();
    let merged = g.get_entity("id1").unwrap();
    assert!(merged.props.iter().any(|(k, _)| k == "a"));
    assert!(merged.props.iter().any(|(k, _)| k == "b"));
    assert!(g.get_entity("id2").is_none());
}

#[test]
fn merging_an_entity_into_itself_removes_it() {
    let mut g = store();
    add(&mut g, "a", node("A", "T"));
    let err = g.merge_entities("a", "a", |k: Node, _: &Node| k).unwrap_err();
    assert_eq!(err, Error::Internal("Failed to get merged entity".to_string()));
    assert!(g.get_entity("a").is_none());
}

#[test]
fn merging_a_missing_entity_is_not_found() {
    let mut g = store();
    add(&mut g, "a", node("A", "T"));
    let err = g.merge_entities("a", "b", |k: Node, _: &Node| k).unwrap_err();
    assert_eq!(err, Error::NotFound("Entity not found: b".to_string()));
    let err = g.merge_entities("c", "a", |k: Node, _: &Node| k).unwrap_err();
    assert_eq!(err, Error::NotFound("Entity not found: c".to_string()));
    assert!(g.get_entity("a").is_some());
}

#[test]
fn the_entity_limit_refuses_more() {
    let mut g: GraphStore<Node, String> = GraphStore::new(1, 5);
    add(&mut g, "a", node("A", "T"));
    let err = g.add_entity("b".to_string(), "B".to_string(), node("B", "T")).unwrap_err();
    assert_eq!(err, Error::ResourceExhausted("Maximum entities reached: 1".to_string()));
    assert!(g.get_entity("b").is_none());
}

#[test]
fn relationships_need_both_ends_and_room() {
    let mut g: GraphStore<Node, String> = GraphStore::new(10, 1);
    add(&mut g, "a", node("A", "T"));
    add(&mut g, "b", node("B", "T"));
    assert_eq!(
        relate(&mut g, "r1", "x", "b").unwrap_err(),
        Error::NotFound("Source entity not found: x".to_string())
    );
    assert_eq!(
        relate(&mut g, "r1", "a", "y").unwrap_err(),
        Error::NotFound("Target entity not found: y".to_string())
    );
    assert_eq!(relate(&mut g, "r1", "a", "b").unwrap(), "r1");
    assert_eq!(
        relate(&mut g, "r2", "b", "a").unwrap_err(),
        Error::ResourceExhausted("Maximum relationships reached: 1".to_string())
    );
    assert_eq!(g.relationship_count(), 1);
    assert_eq!(g.get_relationship("r1").unwrap(), "rel r1");
}

#[test]
fn removing_an_entity_drops_its_relationships() {
    let mut g = store();
    add(&mut g, "a", node("A", "T"));
    add(&mut g, "b", node("B", "T"));
    add(&mut g, "c", node("C", "T"));
    relate(&mut g, "ab", "a", "b").unwrap();
    relate(&mut g, "bc", "b", "c").unwrap();
    relate(&mut g, "ca", "c", "a").unwrap();
    g.remove_entity("a").unwrap();
    let ids: Vec<&str> = g.relationships().iter().map(|r| r.id.as_str()).collect();
    assert_eq!(ids, vec!["bc"]);
}

#[test]
fn a_missing_relationship_is_named_with_quotes() {
    let mut g = store();
    add(&mut g, "a", node("A", "T"));
    relate(&mut g, "r", "a", "a").unwrap();
    assert_eq!(g.remove_relationship("r").unwrap(), "rel r");
    assert_eq!(
        g.remove_relationship("r").unwrap_err(),
        Error::NotFound("Relationship not found: \"r\"".to_string())
    );
}

#[test]
fn updating_an_entity_keeps_the_name_index() {
    let mut g = store();
    add(&mut g, "a", node("Alpha", "T"));
    g.update_entity("a", |_name: String, mut n: Node| {
        n.name = "Beta".to_string();
        (n.name.clone(), n)
    })
    .unwrap();
    assert_eq!(g.get_entity("a").unwrap().name, "Beta");
    assert_eq!(g.get_entity_by_name("alpha").unwrap().name, "Beta");
    assert!(g.get_entity_by_name("beta").is_none());
    let err = g.update_entity("z", |n: String, d: Node| (n, d)).unwrap_err();
    assert_eq!(err, Error::NotFound("Entity not found: z".to_string()));
}

#[test]
fn keeping_relationships_by_flags() {
    let mut g = store();
    add(&mut g, "a", node("A", "T"));
    relate(&mut g, "r1", "a", "a").unwrap();
    relate(&mut g, "r2", "a", "a").unwrap();
    relate(&mut g, "r3", "a", "a").unwrap();
    g.keep_relationships(&vec![true, false, true]);
    let ids: Vec<&str> = g.relationships().iter().map(|r| r.id.as_str()).collect();
    assert_eq!(ids, vec!["r1", "r3"]);
}

#[test]
fn re_adding_an_id_replaces_the_entity() {
    let mut g = store();
    add(&mut g, "a", node("First", "T"));
    add(&mut g, "a", node("Second", "T"));
    assert_eq!(g.entity_count(), 1);
    assert_eq!(g.get_entity("a").unwrap().name, "Second");
    assert_eq!(g.get_entity_by_name("first").unwrap().name, "Second");
}
