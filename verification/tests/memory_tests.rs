use ember::memory::{Memory, MemoryEntry, MemoryType, DEFAULT_IMPORTANCE, MAX_IMPORTANCE};

#[test]
fn test_memory_entry_creation() {
    let entry = MemoryEntry::fact("The user prefers dark mode")
        .with_importance(800)
        .with_metadata("source", "user_settings");

    assert_eq!(entry.entry_type, MemoryType::Fact);
    assert_eq!(entry.importance, 800);
    assert!(entry.metadata.iter().any(|(k, _)| k == "source"));
}

#[test]
fn test_memory_storage() {
    let mut memory = Memory::new();

    let entry1 = MemoryEntry::fact("Fact 1").with_importance(500);
    let entry2 = MemoryEntry::preference("Preference 1").with_importance(900);

    let id1 = memory.add(entry1);
    let id2 = memory.add(entry2);

    assert_eq!(memory.len(), 2);
    assert!(memory.get(&id1).is_some());
    assert!(memory.get(&id2).is_some());
}

#[test]
fn test_memory_search() {
    let mut memory = Memory::new();

    memory.add(MemoryEntry::fact("The user likes coffee"));
    memory.add(MemoryEntry::fact("The user dislikes tea"));
    memory.add(MemoryEntry::preference("Dark mode enabled"));

    let results = memory.search("user");
    assert_eq!(results.len(), 2);

    let results = memory.search("dark");
    assert_eq!(results.len(), 1);
}

#[test]
fn test_memory_by_type() {
    let mut memory = Memory::new();

    memory.add(MemoryEntry::fact("Fact 1"));
    memory.add(MemoryEntry::fact("Fact 2"));
    memory.add(MemoryEntry::preference("Pref 1"));

    let facts = memory.get_by_type(MemoryType::Fact);
    assert_eq!(facts.len(), 2);

    let prefs = memory.get_by_type(MemoryType::Preference);
    assert_eq!(prefs.len(), 1);
}

#[test]
fn test_memory_max_entries() {
    let mut memory = Memory::with_max_entries(2);

    memory.add(MemoryEntry::fact("Low importance").with_importance(100));
    memory.add(MemoryEntry::fact("High importance").with_importance(900));
    memory.add(MemoryEntry::fact("Medium importance").with_importance(500));

    assert_eq!(memory.len(), 2);

    let results = memory.search("Low importance");
    assert!(results.is_empty());
}

#[test]
fn test_most_important() {
    let mut memory = Memory::new();

    memory.add(MemoryEntry::fact("Low").with_importance(100));
    memory.add(MemoryEntry::fact("High").with_importance(900));
    memory.add(MemoryEntry::fact("Medium").with_importance(500));

    let top = memory.most_important(2);
    assert_eq!(top.len(), 2);
    assert!(top[0].content.contains("High"));
    assert!(top[1].content.contains("Medium"));
}

#[test]
fn memory_importance_is_capped() {
    let entry = MemoryEntry::summary("s").with_importance(1200);
    assert_eq!(entry.importance, MAX_IMPORTANCE);
    assert_eq!(MemoryEntry::summary("s").importance, DEFAULT_IMPORTANCE);
}

#[test]
fn memory_metadata_replaces_key() {
    let entry = MemoryEntry::fact("f")
        .with_metadata("a", "1")
        .with_metadata("b", "2")
        .with_metadata("a", "3");
    assert_eq!(
        entry.metadata,
        vec![("a".to_string(), "3".to_string()), ("b".to_string(), "2".to_string())]
    );
}

#[test]
fn memory_add_then_get_returns_entry() {
    let mut memory = Memory::new();
    let entry = MemoryEntry::new_at("remember me", MemoryType::Event, "id-1".to_string(), 10);
    let id = memory.add(entry);
    assert_eq!(id, "id-1");
    let got = memory.get("id-1").unwrap();
    assert_eq!(got.content, "remember me");
    assert_eq!(got.entry_type, MemoryType::Event);
    assert_eq!(got.created_at, 10);
}

#[test]
fn memory_add_same_id_replaces() {
    let mut memory = Memory::new();
    memory.add(MemoryEntry::new_at("first", MemoryType::Fact, "x".to_string(), 1));
    memory.add(MemoryEntry::new_at("other", MemoryType::Fact, "y".to_string(), 2));
    memory.add(MemoryEntry::new_at("second", MemoryType::Insight, "x".to_string(), 3));
    assert_eq!(memory.len(), 2);
    assert_eq!(memory.all()[0].content, "second");
    assert_eq!(memory.get_by_type(MemoryType::Fact).len(), 1);
}

#[test]
fn memory_remove_and_clear() {
    let mut memory = Memory::new();
    memory.add(MemoryEntry::new_at("a", MemoryType::Fact, "1".to_string(), 1));
    memory.add(MemoryEntry::new_at("b", MemoryType::Fact, "2".to_string(), 2));
    let removed = memory.remove("1").unwrap();
    assert_eq!(removed.content, "a");
    assert!(memory.remove("1").is_none());
    assert_eq!(memory.len(), 1);
    memory.clear();
    assert!(memory.is_empty());
}

#[test]
fn memory_most_recent_orders_by_access() {
    let mut memory = Memory::new();
    memory.add(MemoryEntry::new_at("old", MemoryType::Fact, "1".to_string(), 100));
    memory.add(MemoryEntry::new_at("new", MemoryType::Fact, "2".to_string(), 300));
    memory.add(MemoryEntry::new_at("mid", MemoryType::Fact, "3".to_string(), 200));
    let recent = memory.most_recent(5);
    let names: Vec<&str> = recent.iter().map(|e| e.content.as_str()).collect();
    assert_eq!(names, vec!["new", "mid", "old"]);
    let mut entry = MemoryEntry::new_at("t", MemoryType::Fact, "4".to_string(), 5);
    entry.touch_at(50);
    assert_eq!(entry.last_accessed, 50);
    assert_eq!(entry.created_at, 5);
}

#[test]
fn memory_eviction_removes_first_of_equal_least() {
    let mut memory = Memory::with_max_entries(1);
    memory.add(MemoryEntry::new_at("a", MemoryType::Fact, "1".to_string(), 1));
    memory.add(MemoryEntry::new_at("b", MemoryType::Fact, "2".to_string(), 2));
    assert_eq!(memory.len(), 1);
    assert_eq!(memory.all()[0].content, "b");
}
