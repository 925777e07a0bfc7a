use zk_circuit_fuzzer::cache::{AnalysisCache, CacheConfig, EvictionPolicy};

#[test]
fn test_basic_insert_get() {
    let mut cache = AnalysisCache::with_defaults();
    cache.insert("key1", "value1");
    assert_eq!(cache.get(&"key1"), Some("value1"));
}

#[test]
fn test_ttl_expiration() {
    let mut cache = AnalysisCache::new(CacheConfig { default_ttl_seconds: 0, ..Default::default() });
    // inserted at time 0 with a time to live of 0, looked up 10 ms later
    cache.insert_with_ttl_at("key1", "value1", 0, 0);
    assert_eq!(cache.get_at(&"key1", 10_000_000), None);
}

#[test]
fn test_eviction_policy_lru() {
    let config = CacheConfig { max_entries: 3, eviction_policy: EvictionPolicy::LRU, ..Default::default() };
    let mut cache = AnalysisCache::new(config);

    cache.insert(1, "a");
    cache.insert(2, "b");
    cache.insert(3, "c");

    // Access key 1 to make it recently used
    cache.get(&1);

    // Insert 4th item, should evict key 2 (LRU)
    cache.insert(4, "d");

    assert!(cache.contains_key(&1));
    assert!(!cache.contains_key(&2));
    assert!(cache.contains_key(&3));
    assert!(cache.contains_key(&4));
}

#[test]
fn test_cache_stats() {
    let mut cache = AnalysisCache::with_defaults();
    cache.insert("key1", "value1");

    cache.get(&"key1"); // hit
    cache.get(&"key2"); // miss

    let stats = cache.stats_mut();
    assert_eq!(stats.hits, 1);
    assert_eq!(stats.misses, 1);
    let hit_rate = stats.hits as f64 / (stats.hits + stats.misses) as f64;
    assert!((hit_rate - 0.5).abs() < 0.01);
}

#[test]
fn fifo_evicts_the_first_inserted() {
    let config = CacheConfig { max_entries: 2, eviction_policy: EvictionPolicy::FIFO, ..Default::default() };
    let mut cache = AnalysisCache::new(config);
    cache.insert_with_ttl_at(1u64, 10u32, 1000, 0);
    cache.insert_with_ttl_at(2u64, 20u32, 1000, 1);
    cache.get_at(&1, 2);
    cache.insert_with_ttl_at(3u64, 30u32, 1000, 3);
    assert!(!cache.contains_key_at(&1, 4));
    assert!(cache.contains_key_at(&2, 4));
    assert!(cache.contains_key_at(&3, 4));
    assert_eq!(cache.stats().evictions, 1);
}

#[test]
fn lfu_evicts_the_least_used() {
    let config = CacheConfig { max_entries: 2, eviction_policy: EvictionPolicy::LFU, ..Default::default() };
    let mut cache = AnalysisCache::new(config);
    cache.insert_with_ttl_at(1u64, 10u32, 1000, 0);
    cache.insert_with_ttl_at(2u64, 20u32, 1000, 1);
    cache.get_at(&1, 2);
    cache.get_at(&1, 3);
    cache.get_at(&2, 4);
    cache.insert_with_ttl_at(3u64, 30u32, 1000, 5);
    assert!(cache.contains_key_at(&1, 6));
    assert!(!cache.contains_key_at(&2, 6));
    assert!(cache.contains_key_at(&3, 6));
}

#[test]
fn a_read_gives_back_what_was_written() {
    let mut cache = AnalysisCache::new(CacheConfig::default());
    cache.insert_with_ttl_at("k".to_string(), 7i64, 100, 50);
    assert_eq!(cache.get_at(&"k".to_string(), 150), Some(7));
    assert_eq!(cache.get_at(&"k".to_string(), 151), None);
    assert_eq!(cache.stats().expirations, 1);
    assert_eq!(cache.len(), 0);
}

#[test]
fn overwriting_a_key_keeps_one_entry() {
    let mut cache = AnalysisCache::with_defaults();
    cache.insert(5usize, "x");
    cache.insert(5usize, "y");
    assert_eq!(cache.len(), 1);
    assert_eq!(cache.get(&5usize), Some("y"));
}

#[test]
fn a_removed_key_is_gone() {
    let mut cache = AnalysisCache::with_defaults();
    cache.insert(1i32, "one");
    assert_eq!(cache.remove(&1i32), Some("one"));
    assert_eq!(cache.remove(&1i32), None);
    assert!(!cache.contains_key(&1i32));
    assert!(cache.is_empty());
}

#[test]
fn cleanup_removes_only_expired_entries() {
    let mut cache = AnalysisCache::with_defaults();
    cache.insert_with_ttl_at(1u32, "short", 5, 0);
    cache.insert_with_ttl_at(2u32, "long", 500, 0);
    assert_eq!(cache.cleanup_expired_at(10), 1);
    assert!(!cache.contains_key_at(&1u32, 10));
    assert!(cache.contains_key_at(&2u32, 10));
    cache.clear();
    assert_eq!(cache.len(), 0);
}

#[test]
fn cache_config_defaults() {
    let c = CacheConfig::default();
    assert_eq!(c.max_entries, 10_000);
    assert_eq!(c.default_ttl_seconds, 3600);
    assert_eq!(c.eviction_policy, EvictionPolicy::LRU);
    assert!(c.enable_stats);
}

#[test]
fn can_insert_tells_when_room_can_be_made() {
    let zero = AnalysisCache::<i32, &str>::new(CacheConfig { max_entries: 0, ..Default::default() });
    assert!(!zero.can_insert(&1));

    let lfu = CacheConfig { max_entries: 2, eviction_policy: EvictionPolicy::LFU, ..Default::default() };
    let mut c = AnalysisCache::new(lfu);
    assert!(c.can_insert(&1));
    c.insert(1, "a");
    c.insert(2, "b");
    // full, and no entry has been looked up: least-frequent eviction finds none
    assert!(c.can_insert(&1));
    assert!(!c.can_insert(&3));
    c.get(&2);
    assert!(c.can_insert(&3));
    c.insert(3, "c");
    assert_eq!(c.len(), 2);
    assert!(!c.contains_key(&2));

    let fifo = CacheConfig { max_entries: 2, eviction_policy: EvictionPolicy::FIFO, ..Default::default() };
    let mut f = AnalysisCache::new(fifo);
    f.insert(1, "a");
    assert_eq!(f.len(), 1);
    f.insert(2, "b");
    assert_eq!(f.len(), 2);
    assert!(f.can_insert(&3));
    f.insert(3, "c");
    assert_eq!(f.len(), 2);
    assert!(!f.contains_key(&1));
}

#[test]
fn insert_with_ttl_keeps_the_given_time_to_live() {
    let mut c = AnalysisCache::with_defaults();
    c.insert_with_ttl_at(7u64, "x", 1_000, 0);
    assert_eq!(c.get_at(&7, 1_000), Some("x"));
    assert_eq!(c.get_at(&7, 1_001), None);
    // the expired entry is gone, even for an earlier time
    assert!(!c.contains_key_at(&7, 0));
    assert_eq!(c.len(), 0);
}
