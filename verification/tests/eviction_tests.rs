//! Tests for the eviction policy: LRU order, forced removals, the
//! retention floor, deterministic tie-breaks, and the automatic cleanup
//! that a write over budget triggers.

use playground_storage::cache::CacheStore;
use playground_storage::eviction::plan_eviction;
use playground_storage::storage::{CachedParquet, EvictionConfig};

fn cfg(max: u64, target: u64, min_entries: u32, max_age_seconds: i64) -> EvictionConfig {
    EvictionConfig { max_cache_size: max, target_size: target, min_entries, max_age_seconds }
}

fn entry(url: &str, size: u64, fetched_at: u64, last_accessed: u64) -> CachedParquet {
    CachedParquet {
        url: String::from(url),
        size,
        etag: None,
        fetched_at,
        last_accessed,
        content_hash: String::new(),
    }
}

#[test]
fn lru_order_removes_least_recently_used_first() {
    let c = cfg(1000, 800, 0, 1_000_000);
    // A accessed first, then B, then C; none over-age at now=10.
    let entries = vec![
        entry("c", 40, 3, 9),
        entry("a", 40, 1, 5),
        entry("b", 40, 2, 7),
    ];
    // One entry's worth: only A goes.
    let plan = plan_eviction(&entries, &c, 10, 40);
    assert_eq!(plan.urls, vec![String::from("a")]);
    assert_eq!(plan.bytes_freed, 40);
    assert_eq!(plan.entries_removed, 1);
    // Two entries' worth: A then B, in that order.
    let plan2 = plan_eviction(&entries, &c, 10, 80);
    assert_eq!(plan2.urls, vec![String::from("a"), String::from("b")]);
    assert_eq!(plan2.bytes_freed, 80);
    // More than everything: A, B, C.
    let plan3 = plan_eviction(&entries, &c, 10, 1000);
    assert_eq!(
        plan3.urls,
        vec![String::from("a"), String::from("b"), String::from("c")]
    );
}

#[test]
fn forced_entries_leave_first_oldest_fetch_first() {
    // max_age 10 s; at now=20_000 ms anything fetched at or before
    // 10_000 ms is over-age.
    let c = cfg(1000, 800, 0, 10);
    let entries = vec![
        entry("fresh", 10, 15_000, 19_000),
        entry("old_b", 10, 9_000, 19_500),
        entry("old_a", 10, 8_000, 19_900),
    ];
    // Both over-age entries go before the fresh one, oldest fetch first,
    // even though they were accessed most recently.
    let plan = plan_eviction(&entries, &c, 20_000, 25);
    assert_eq!(
        plan.urls,
        vec![String::from("old_a"), String::from("old_b"), String::from("fresh")]
    );
}

#[test]
fn retention_floor_protects_normal_entries() {
    let c = cfg(1000, 800, 2, 1_000_000);
    let entries = vec![
        entry("a", 40, 1, 1),
        entry("b", 40, 2, 2),
        entry("c", 40, 3, 3),
    ];
    // Asking for everything still leaves min_entries normal entries.
    let plan = plan_eviction(&entries, &c, 10, 1000);
    assert_eq!(plan.urls, vec![String::from("a")]);
    assert_eq!(plan.bytes_freed, 40);
}

#[test]
fn forced_removal_overrides_retention_floor() {
    let c = cfg(1000, 800, 3, 10);
    let entries = vec![
        entry("old", 40, 1_000, 1_000),
        entry("fresh", 40, 50_000, 50_000),
    ];
    // Only two entries, floor of three: the over-age entry still goes.
    let plan = plan_eviction(&entries, &c, 60_000, 40);
    assert_eq!(plan.urls, vec![String::from("old")]);
}

#[test]
fn equal_timestamps_break_ties_by_url_order() {
    let c = cfg(1000, 800, 0, 1_000_000);
    let entries = vec![
        entry("https://example.org/b", 10, 1, 5),
        entry("https://example.org/a", 10, 1, 5),
    ];
    let plan = plan_eviction(&entries, &c, 10, 10);
    assert_eq!(plan.urls, vec![String::from("https://example.org/a")]);
}

#[test]
fn zero_target_removes_nothing() {
    let c = cfg(1000, 800, 0, 1_000_000);
    let entries = vec![entry("a", 40, 1, 1)];
    let plan = plan_eviction(&entries, &c, 10, 0);
    assert_eq!(plan.urls.len(), 0);
    assert_eq!(plan.bytes_freed, 0);
    assert_eq!(plan.entries_removed, 0);
}

#[test]
fn write_over_budget_evicts_down_to_the_low_water_mark() {
    // The concrete scenario: budget 100, low-water mark 80, floor 1.
    // Three 40-byte writes; the third pushes the aggregate to 120, the
    // automatic pass evicts exactly the least recently used entry, and
    // 2 entries totalling 80 bytes remain.
    let c = cfg(100, 80, 1, 1_000_000);
    let mut store = CacheStore::new();
    store
        .cache_payload(String::from("a"), vec![0u8; 40], None, 1, &c)
        .unwrap();
    store
        .cache_payload(String::from("b"), vec![0u8; 40], None, 2, &c)
        .unwrap();
    let meta = store
        .cache_payload(String::from("c"), vec![0u8; 40], None, 3, &c)
        .unwrap();
    assert_eq!(meta.size, 40);
    assert_eq!(store.entries.len(), 2);
    assert_eq!(store.total_bytes(), 80);
    let urls: Vec<&str> = store.entries.iter().map(|r| r.meta.url.as_str()).collect();
    assert!(!urls.contains(&"a"));
    assert!(urls.contains(&"b"));
    assert!(urls.contains(&"c"));
}

#[test]
fn run_cleanup_frees_requested_bytes_and_reaches_target() {
    let c = cfg(1000, 100, 0, 1_000_000);
    let mut store = CacheStore::new();
    store
        .cache_payload(String::from("a"), vec![0u8; 60], None, 1, &c)
        .unwrap();
    store
        .cache_payload(String::from("b"), vec![0u8; 60], None, 2, &c)
        .unwrap();
    store
        .cache_payload(String::from("c"), vec![0u8; 60], None, 3, &c)
        .unwrap();
    // Explicit cleanup asking for 10 bytes still reaches the low-water
    // mark of 100: two entries must go.
    let result = store.run_cleanup(10, 4, &c);
    assert_eq!(result.entries_removed, 2);
    assert_eq!(result.bytes_freed, 120);
    assert_eq!(store.total_bytes(), 60);
    assert!(store.total_bytes() <= c.target_size);
}

#[test]
fn cleanup_reports_partial_result_when_floor_blocks_it() {
    let c = cfg(1000, 0, 2, 1_000_000);
    let mut store = CacheStore::new();
    store
        .cache_payload(String::from("a"), vec![0u8; 30], None, 1, &c)
        .unwrap();
    store
        .cache_payload(String::from("b"), vec![0u8; 30], None, 2, &c)
        .unwrap();
    store
        .cache_payload(String::from("c"), vec![0u8; 30], None, 3, &c)
        .unwrap();
    let result = store.run_cleanup(90, 4, &c);
    assert_eq!(result.entries_removed, 1);
    assert_eq!(result.bytes_freed, 30);
    assert_eq!(store.entries.len(), 2);
}
