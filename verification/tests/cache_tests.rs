//! Tests for the cache store: writes, reads, validation, eviction of
//! single entries, clearing, statistics and hash integrity.

use playground_storage::cache::CacheStore;
use playground_storage::integrity::content_hash_of;
use playground_storage::storage::{CacheValidation, EvictionConfig, StorageError};

fn test_config() -> EvictionConfig {
    EvictionConfig {
        max_cache_size: 1000,
        target_size: 800,
        min_entries: 1,
        max_age_seconds: 3600,
    }
}

fn url(s: &str) -> String {
    String::from(s)
}

#[test]
fn content_hash_known_values() {
    assert_eq!(content_hash_of(&Vec::new()), "cbf29ce484222325");
    assert_eq!(content_hash_of(&vec![b'a']), "af63dc4c8601ec8c");
    assert_eq!(content_hash_of(&vec![b'a', b'b', b'c']), "e71fa2190541574b");
    assert_eq!(content_hash_of(&vec![1u8, 2, 3]), "d0aa6218672cf5ab");
}

#[test]
fn cache_and_read_back() {
    let cfg = test_config();
    let mut store = CacheStore::new();
    let meta = store
        .cache_payload(url("https://example.org/a"), vec![1, 2, 3], None, 50, &cfg)
        .unwrap();
    assert_eq!(meta.size, 3);
    assert_eq!(meta.fetched_at, 50);
    assert_eq!(meta.last_accessed, 50);
    assert_eq!(meta.content_hash, "d0aa6218672cf5ab");
    let (data, meta2) = store.get_payload(&url("https://example.org/a"), 60).unwrap();
    assert_eq!(data, vec![1, 2, 3]);
    assert_eq!(meta2.last_accessed, 60);
}

#[test]
fn read_updates_last_access_monotonically() {
    let cfg = test_config();
    let mut store = CacheStore::new();
    store
        .cache_payload(url("u"), vec![9], None, 100, &cfg)
        .unwrap();
    let (_, m1) = store.get_payload(&url("u"), 150).unwrap();
    assert_eq!(m1.last_accessed, 150);
    // A read with an earlier clock never moves the last access backwards.
    let (_, m2) = store.get_payload(&url("u"), 120).unwrap();
    assert_eq!(m2.last_accessed, 150);
}

#[test]
fn get_payload_missing_is_not_found() {
    let mut store = CacheStore::new();
    match store.get_payload(&url("nope"), 0) {
        Err(StorageError::NotFound { key }) => assert_eq!(key, "nope"),
        other => panic!("expected NotFound, got {:?}", other),
    }
}

#[test]
fn corrupted_payload_detected_on_read() {
    let cfg = test_config();
    let mut store = CacheStore::new();
    store
        .cache_payload(url("u"), vec![1, 2, 3], None, 10, &cfg)
        .unwrap();
    // The medium flips the stored bytes beneath the store; the recorded
    // hash no longer matches.
    store.entries[0].payload = Some(vec![9, 9, 9]);
    match store.get_payload(&url("u"), 20) {
        Err(StorageError::Corrupted { key, message }) => {
            assert_eq!(key, "u");
            assert_eq!(message, "content hash mismatch");
        },
        other => panic!("expected Corrupted, got {:?}", other),
    }
    // The entry is left in place for inspection until explicitly evicted.
    assert_eq!(store.entries.len(), 1);
}

#[test]
fn recorded_hash_matches_stored_bytes() {
    let cfg = test_config();
    let mut store = CacheStore::new();
    store
        .cache_payload(url("a"), vec![1, 2, 3], None, 10, &cfg)
        .unwrap();
    store
        .cache_payload(url("b"), vec![b'a', b'b', b'c'], None, 11, &cfg)
        .unwrap();
    for rec in &store.entries {
        let payload = rec.payload.as_ref().unwrap();
        assert_eq!(content_hash_of(payload), rec.meta.content_hash);
    }
}

#[test]
fn quota_rejects_oversized_payload() {
    let cfg = EvictionConfig {
        max_cache_size: 100,
        target_size: 80,
        min_entries: 1,
        max_age_seconds: 3600,
    };
    let mut store = CacheStore::new();
    let payload = vec![0u8; 101];
    match store.cache_payload(url("big"), payload, None, 0, &cfg) {
        Err(StorageError::QuotaExceeded { required, available }) => {
            assert_eq!(required, 101);
            assert_eq!(available, 100);
        },
        other => panic!("expected QuotaExceeded, got {:?}", other),
    }
    assert_eq!(store.entries.len(), 0);
}

#[test]
fn overwrite_replaces_in_place() {
    let cfg = test_config();
    let mut store = CacheStore::new();
    store
        .cache_payload(url("u"), vec![1, 2, 3], Some(url("v1")), 10, &cfg)
        .unwrap();
    let meta = store
        .cache_payload(url("u"), vec![4, 5], Some(url("v2")), 20, &cfg)
        .unwrap();
    assert_eq!(store.entries.len(), 1);
    assert_eq!(meta.size, 2);
    assert_eq!(meta.etag.as_deref(), Some("v2"));
    let (data, _) = store.get_payload(&url("u"), 30).unwrap();
    assert_eq!(data, vec![4, 5]);
}

#[test]
fn check_cache_state_machine() {
    let cfg = test_config();
    let mut store = CacheStore::new();
    // Unknown URL: missing.
    let (v, m) = store.check_cache(&url("u"), &None, 0, &cfg);
    assert_eq!(v, CacheValidation::Missing);
    assert!(m.is_none());
    store
        .cache_payload(url("u"), vec![1], Some(url("v1")), 1_000, &cfg)
        .unwrap();
    // Matching token while fresh: valid.
    let (v, m) = store.check_cache(&url("u"), &Some(url("v1")), 2_000, &cfg);
    assert_eq!(v, CacheValidation::Valid);
    assert_eq!(m.unwrap().etag.as_deref(), Some("v1"));
    // Differing token: stale.
    let (v, _) = store.check_cache(&url("u"), &Some(url("v2")), 2_000, &cfg);
    assert_eq!(v, CacheValidation::Stale);
    // No token while fresh: valid.
    let (v, _) = store.check_cache(&url("u"), &None, 2_000, &cfg);
    assert_eq!(v, CacheValidation::Valid);
    // Past the maximum age the matching token no longer helps.
    let over_age = 1_000 + 3600 * 1000;
    let (v, _) = store.check_cache(&url("u"), &Some(url("v1")), over_age, &cfg);
    assert_eq!(v, CacheValidation::Stale);
    // A pure check does not update the last-access time.
    let (_, m) = store.check_cache(&url("u"), &None, 2_000, &cfg);
    assert_eq!(m.unwrap().last_accessed, 1_000);
}

#[test]
fn registered_metadata_is_never_valid() {
    let cfg = test_config();
    let mut source = CacheStore::new();
    source
        .cache_payload(url("u"), vec![1, 2], Some(url("v1")), 10, &cfg)
        .unwrap();
    let rows = source.export_metadata();
    let mut store = CacheStore::new();
    let count = store.register_metadata(&rows);
    assert_eq!(count, 1);
    // Metadata without content: stale on check, not-found on read, even
    // with the matching token.
    let (v, m) = store.check_cache(&url("u"), &Some(url("v1")), 11, &cfg);
    assert_eq!(v, CacheValidation::Stale);
    assert_eq!(m.unwrap().size, 2);
    assert!(matches!(
        store.get_payload(&url("u"), 12),
        Err(StorageError::NotFound { .. })
    ));
}

#[test]
fn evict_frees_bytes_once() {
    let cfg = test_config();
    let mut store = CacheStore::new();
    store
        .cache_payload(url("u"), vec![0u8; 7], None, 0, &cfg)
        .unwrap();
    assert_eq!(store.evict(&url("u")).unwrap(), 7);
    match store.evict(&url("u")) {
        Err(StorageError::NotFound { key }) => assert_eq!(key, "u"),
        other => panic!("expected NotFound, got {:?}", other),
    }
}

#[test]
fn clear_twice_removes_nothing_the_second_time() {
    let cfg = test_config();
    let mut store = CacheStore::new();
    store
        .cache_payload(url("a"), vec![0u8; 3], None, 0, &cfg)
        .unwrap();
    store
        .cache_payload(url("b"), vec![0u8; 5], None, 1, &cfg)
        .unwrap();
    let (count, bytes) = store.clear_all();
    assert_eq!(count, 2);
    assert_eq!(bytes, 8);
    let (count2, bytes2) = store.clear_all();
    assert_eq!(count2, 0);
    assert_eq!(bytes2, 0);
}

#[test]
fn stats_reports_counts_and_extremes() {
    let cfg = test_config();
    let mut store = CacheStore::new();
    let empty = store.stats();
    assert_eq!(empty.file_count, 0);
    assert_eq!(empty.total_size, 0);
    assert_eq!(empty.oldest_entry, None);
    assert_eq!(empty.newest_entry, None);
    store
        .cache_payload(url("a"), vec![0u8; 3], None, 300, &cfg)
        .unwrap();
    store
        .cache_payload(url("b"), vec![0u8; 5], None, 100, &cfg)
        .unwrap();
    store
        .cache_payload(url("c"), vec![0u8; 2], None, 200, &cfg)
        .unwrap();
    let st = store.stats();
    assert_eq!(st.file_count, 3);
    assert_eq!(st.total_size, 10);
    assert_eq!(st.oldest_entry, Some(100));
    assert_eq!(st.newest_entry, Some(300));
}
