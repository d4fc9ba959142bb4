use ember::memory_optimization::{
    LruCache, MemoryConfig, MemoryPressureDetector, PageRequest, PageResponse, PressureState,
    SortOrder,
};

fn config(max_items: usize, max_bytes: usize) -> MemoryConfig {
    MemoryConfig { max_cache_items: max_items, max_memory_bytes: max_bytes, ..Default::default() }
}

#[test]
fn test_lru_cache_basic() {
    let mut cache: LruCache<String> = LruCache::new(config(3, 1000));
    cache.insert("a".to_string(), "value_a".to_string(), 10);
    cache.insert("b".to_string(), "value_b".to_string(), 10);
    assert_eq!(cache.len(), 2);
    assert_eq!(cache.get("a"), Some(&"value_a".to_string()));
}

#[test]
fn test_lru_cache_eviction() {
    let mut cache: LruCache<String> = LruCache::new(config(2, 1000));
    cache.insert("a".to_string(), "value_a".to_string(), 10);
    cache.insert("b".to_string(), "value_b".to_string(), 10);
    cache.insert("c".to_string(), "value_c".to_string(), 10);
    assert_eq!(cache.len(), 2);
    assert!(cache.get("a").is_none());
    assert_eq!(cache.stats().evictions, 1);
}

#[test]
fn lru_get_refreshes_recency() {
    let mut cache: LruCache<u32> = LruCache::new(config(2, 1000));
    cache.insert("a".to_string(), 1, 10);
    cache.insert("b".to_string(), 2, 10);
    assert_eq!(cache.get("a"), Some(&1));
    cache.insert("c".to_string(), 3, 10);
    assert_eq!(cache.get("b"), None);
    assert_eq!(cache.get("a"), Some(&1));
    assert_eq!(cache.get("c"), Some(&3));
}

#[test]
fn lru_byte_limit_and_replacement() {
    let mut cache: LruCache<u32> = LruCache::new(config(10, 25));
    cache.insert("a".to_string(), 1, 10);
    cache.insert("b".to_string(), 2, 10);
    assert_eq!(cache.memory_usage(), 20);
    cache.insert("c".to_string(), 3, 10);
    assert_eq!(cache.len(), 2);
    assert_eq!(cache.memory_usage(), 20);
    assert_eq!(cache.get("a"), None);
    // Replacing a key frees its old size first.
    cache.insert("b".to_string(), 20, 15);
    assert_eq!(cache.memory_usage(), 25);
    assert_eq!(cache.get("b"), Some(&20));
    // An item larger than the limit still goes in, alone.
    cache.insert("big".to_string(), 9, 100);
    assert_eq!(cache.len(), 1);
    assert_eq!(cache.memory_usage(), 100);
    assert_eq!(cache.stats().peak_usage, 100);
}

#[test]
fn lru_remove_and_clear() {
    let mut cache: LruCache<u32> = LruCache::new(MemoryConfig::default());
    cache.insert("a".to_string(), 1, 10);
    cache.insert("b".to_string(), 2, 5);
    assert_eq!(cache.remove("a"), Some(1));
    assert_eq!(cache.remove("a"), None);
    assert_eq!(cache.memory_usage(), 5);
    assert_eq!(cache.stats().cached_items, 1);
    cache.cleanup_expired();
    assert_eq!(cache.len(), 1);
    cache.clear();
    assert!(cache.is_empty());
    assert_eq!(cache.memory_usage(), 0);
}

#[test]
fn lru_entries_expire() {
    let mut cfg = MemoryConfig::default();
    cfg.cache_ttl_ms = 0;
    let mut cache: LruCache<u32> = LruCache::new(cfg);
    cache.insert("a".to_string(), 1, 10);
    assert_eq!(cache.get("a"), None);
    assert_eq!(cache.stats().cache_misses, 1);
    cache.cleanup_expired();
    assert!(cache.is_empty());
}

#[test]
fn test_page_request() {
    let request = PageRequest::new(2, 10);
    assert_eq!(request.offset(), 20);
    let r = request.with_sort_order(SortOrder::Ascending);
    assert_eq!(r.sort_order, SortOrder::Ascending);
    assert_eq!(r.page, 2);
    let d = PageRequest::default();
    assert_eq!((d.page, d.page_size, d.sort_order), (0, 20, SortOrder::Descending));
}

#[test]
fn test_page_response() {
    let items = vec![1, 2, 3, 4, 5];
    let response = PageResponse::new(items, 25, 1, 5);
    assert_eq!(response.total_pages, 5);
    assert!(response.has_next);
    assert!(response.has_previous);
    let last = PageResponse::new(vec![1], 21, 4, 5);
    assert_eq!(last.total_pages, 5);
    assert!(!last.has_next);
    let empty: PageResponse<u8> = PageResponse::new(vec![], 0, 0, 5);
    assert_eq!(empty.total_pages, 0);
    assert!(!empty.has_previous);
}

#[test]
fn page_response_map() {
    let response = PageResponse::new(vec![1, 2, 3], 3, 0, 3);
    let mapped = response.map(|x: i32| x * 10);
    assert_eq!(mapped.items, vec![10, 20, 30]);
    assert_eq!(mapped.total_pages, 1);
    assert!(!mapped.has_next);
}

#[test]
fn test_memory_pressure_detector() {
    let mut cfg = MemoryConfig::default();
    cfg.max_memory_bytes = 100;
    cfg.low_memory_threshold_percent = 80;
    let mut detector = MemoryPressureDetector::new(cfg);
    detector.record_pressure(50);
    assert_eq!(detector.pressure_level(), 50);
    assert!(!detector.is_under_pressure());
    assert_eq!(detector.state(), PressureState::Normal);
    detector.record_pressure(90);
    assert!(detector.is_under_pressure());
    assert_eq!(detector.state(), PressureState::High);
    detector.record_pressure(250);
    assert_eq!(detector.pressure_level(), 100);
    assert_eq!(detector.state(), PressureState::Critical);
    detector.record_pressure(51);
    assert_eq!(detector.state(), PressureState::Moderate);
}

#[test]
fn test_cache_stats() {
    let mut cache: LruCache<String> = LruCache::new(MemoryConfig::default());
    cache.insert("a".to_string(), "value".to_string(), 10);
    let _ = cache.get("a");
    let _ = cache.get("b");
    let stats = cache.stats();
    assert_eq!(stats.cache_hits, 1);
    assert_eq!(stats.cache_misses, 1);
    let ratio = stats.cache_hits as f64 / (stats.cache_hits + stats.cache_misses) as f64;
    assert!((ratio - 0.5).abs() < 0.001);
}
