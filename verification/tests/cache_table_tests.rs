use ember::cache::tool_response;
use ember::cache_table::{CacheTable, Lookup};

fn resp(text: &str) -> ember::cache::CachedResponse {
    tool_response("t", "q", text)
}

#[test]
fn insert_lookup_and_expiry() {
    let mut t = CacheTable::new();
    t.insert("a".to_string(), resp("A"), 10, Vec::new(), Some(100), 0);
    t.insert("b".to_string(), resp("B"), 20, vec!["x".to_string()], None, 0);
    assert_eq!(t.len(), 2);
    assert_eq!(t.total_size(), 30);
    match t.lookup("a", 50) {
        Lookup::Hit(r) => assert_eq!(r.content, "A"),
        other => panic!("unexpected {other:?}"),
    }
    assert_eq!(t.slots()[0].access_count, 2);
    assert_eq!(t.slots()[0].accessed_ms, 50);
    assert!(matches!(t.lookup("a", 101), Lookup::Expired));
    assert!(matches!(t.lookup("zzz", 101), Lookup::Absent));
    assert_eq!(t.len(), 1);
    assert_eq!(t.total_size(), 20);
    let c = t.counters();
    assert_eq!((c.hits, c.misses, c.expirations, c.evictions), (1, 1, 1, 0));
}

#[test]
fn replacing_swaps_the_size() {
    let mut t = CacheTable::new();
    t.insert("a".to_string(), resp("A"), 10, Vec::new(), None, 0);
    t.insert("a".to_string(), resp("A2"), 5, Vec::new(), None, 1);
    assert_eq!(t.len(), 1);
    assert_eq!(t.total_size(), 5);
}

#[test]
fn tags_room_and_eviction() {
    let mut t = CacheTable::new();
    t.insert("a".to_string(), resp("A"), 10, vec!["x".to_string()], None, 0);
    t.insert("b".to_string(), resp("B"), 10, Vec::new(), None, 0);
    t.insert("c".to_string(), resp("C"), 10, vec!["x".to_string()], Some(5), 0);
    assert!(t.needs_room(1, 3, 1000));
    assert!(t.needs_room(71, 10, 100));
    assert!(!t.needs_room(70, 10, 100));
    assert_eq!(t.remove_expired(6), 1);
    assert_eq!(t.invalidate_by_tag("x"), 1);
    assert_eq!(t.len(), 1);
    assert_eq!(t.slots()[0].key, "b");
    t.evict_at(0);
    assert_eq!(t.len(), 0);
    assert_eq!(t.total_size(), 0);
    assert_eq!(t.counters().evictions, 2);
    assert_eq!(t.counters().expirations, 1);
    assert!(!t.remove("b"));
}
