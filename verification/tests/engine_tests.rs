//! Tests for the storage engine: notebook and preference CRUD, quota
//! reporting, the command dispatcher, and backup round trips.

use playground_storage::editor::{Cell, CellType, ExecutionState, Notebook, NotebookMetadata};
use playground_storage::engine::StorageEngine;
use playground_storage::quota::warning_due;
use playground_storage::storage::{
    CacheValidation, EvictionConfig, StorageCommand, StorageError, StorageEvent, Theme,
    UserPreferences,
};

fn test_config() -> EvictionConfig {
    EvictionConfig {
        max_cache_size: 1000,
        target_size: 800,
        min_entries: 1,
        max_age_seconds: 3600,
    }
}

fn notebook(id: &str, title: &str, created_at: u64) -> Notebook {
    Notebook {
        id: String::from(id),
        version: 1,
        metadata: NotebookMetadata {
            title: Some(String::from(title)),
            author: None,
            tags: vec![String::from("demo")],
            created_at,
            modified_at: created_at,
            description: None,
        },
        cells: vec![Cell {
            id: String::from("cell-1"),
            cell_type: CellType::Sql,
            content: String::from("select 1"),
            output: None,
            state: ExecutionState::Idle,
            execution_count: None,
            created_at,
            modified_at: created_at,
            collapsed: false,
        }],
        loaded_data: Vec::new(),
        charts: Vec::new(),
    }
}

#[test]
fn notebook_crud() {
    let mut e = StorageEngine::new(test_config());
    let (id, updated) = e.save_notebook(notebook("n1", "First", 10), 20);
    assert_eq!(id, "n1");
    assert_eq!(updated, 20);
    let loaded = e.load_notebook(&String::from("n1")).unwrap();
    assert_eq!(loaded.metadata.title.as_deref(), Some("First"));
    assert_eq!(loaded.metadata.modified_at, 20);
    assert_eq!(loaded.cells.len(), 1);
    // Replace by ID.
    e.save_notebook(notebook("n1", "Renamed", 10), 30);
    assert_eq!(e.notebooks.len(), 1);
    let loaded = e.load_notebook(&String::from("n1")).unwrap();
    assert_eq!(loaded.metadata.title.as_deref(), Some("Renamed"));
    // Summaries.
    e.save_notebook(notebook("n2", "Second", 40), 40);
    let list = e.list_notebooks();
    assert_eq!(list.len(), 2);
    assert_eq!(list[0].id, "n1");
    assert_eq!(list[0].title, "Renamed");
    assert_eq!(list[0].cell_count, 1);
    assert_eq!(list[0].tags, vec![String::from("demo")]);
    assert_eq!(list[1].id, "n2");
    // Delete.
    e.delete_notebook(&String::from("n1")).unwrap();
    assert_eq!(e.notebooks.len(), 1);
    match e.load_notebook(&String::from("n1")) {
        Err(StorageError::NotFound { key }) => assert_eq!(key, "n1"),
        other => panic!("expected NotFound, got {:?}", other),
    }
    match e.delete_notebook(&String::from("n1")) {
        Err(StorageError::NotFound { key }) => assert_eq!(key, "n1"),
        other => panic!("expected NotFound, got {:?}", other),
    }
}

#[test]
fn config_replaced_wholesale() {
    let mut e = StorageEngine::new(test_config());
    let tighter = EvictionConfig {
        max_cache_size: 500,
        target_size: 400,
        min_entries: 2,
        max_age_seconds: 60,
    };
    e.replace_config(tighter);
    assert_eq!(e.config, tighter);
}

#[test]
fn preferences_default_update_clear() {
    let mut e = StorageEngine::new(test_config());
    let p = e.get_preferences();
    assert_eq!(p.theme, Theme::System);
    assert_eq!(p.editor.font_size, 14);
    assert_eq!(p.editor.tab_size, 2);
    assert!(p.editor.line_numbers);
    assert!(!p.editor.word_wrap);
    assert!(p.editor.autocomplete);
    assert_eq!(p.query.max_rows, 10000);
    assert_eq!(p.query.timeout_seconds, 30);
    assert!(!p.query.auto_run);
    let mut q = UserPreferences::default();
    q.theme = Theme::Dark;
    q.nostr.relays.push(String::from("wss://relay.example"));
    e.update_preferences(q);
    let p = e.get_preferences();
    assert_eq!(p.theme, Theme::Dark);
    assert_eq!(p.nostr.relays, vec![String::from("wss://relay.example")]);
    e.clear_preferences();
    assert_eq!(e.get_preferences().theme, Theme::System);
}

#[test]
fn quota_snapshot_and_warning() {
    let mut e = StorageEngine::new(test_config());
    e.dispatch(
        StorageCommand::CacheParquet {
            url: String::from("u"),
            data: vec![0u8; 100],
            etag: None,
        },
        5,
    );
    e.set_host_quota(Some(200));
    let q = e.quota_snapshot();
    assert_eq!(q.used, 100);
    assert_eq!(q.total, Some(200));
    assert_eq!(q.available, Some(100));
    assert_eq!(q.usage_percent, Some(50));
    assert!(!warning_due(&q));
    e.set_host_quota(Some(110));
    let q = e.quota_snapshot();
    assert_eq!(q.usage_percent, Some(90));
    assert!(warning_due(&q));
    e.set_host_quota(None);
    let q = e.quota_snapshot();
    assert_eq!(q.total, None);
    assert_eq!(q.available, None);
    assert_eq!(q.usage_percent, None);
}

#[test]
fn dispatch_cache_commands() {
    let mut e = StorageEngine::new(test_config());
    match e.dispatch(
        StorageCommand::CheckCache { url: String::from("u"), etag: None },
        0,
    ) {
        StorageEvent::CacheStatus { url, status, metadata } => {
            assert_eq!(url, "u");
            assert_eq!(status, CacheValidation::Missing);
            assert!(metadata.is_none());
        },
        other => panic!("expected CacheStatus, got {:?}", other),
    }
    match e.dispatch(
        StorageCommand::CacheParquet {
            url: String::from("u"),
            data: vec![1, 2, 3],
            etag: Some(String::from("v1")),
        },
        10,
    ) {
        StorageEvent::ParquetCached { url, size } => {
            assert_eq!(url, "u");
            assert_eq!(size, 3);
        },
        other => panic!("expected ParquetCached, got {:?}", other),
    }
    match e.dispatch(StorageCommand::GetCachedParquet { url: String::from("u") }, 20) {
        StorageEvent::CachedParquetLoaded { url, data, metadata } => {
            assert_eq!(url, "u");
            assert_eq!(data, vec![1, 2, 3]);
            assert_eq!(metadata.last_accessed, 20);
        },
        other => panic!("expected CachedParquetLoaded, got {:?}", other),
    }
    match e.dispatch(StorageCommand::GetCacheStats, 30) {
        StorageEvent::CacheStats(st) => {
            assert_eq!(st.file_count, 1);
            assert_eq!(st.total_size, 3);
        },
        other => panic!("expected CacheStats, got {:?}", other),
    }
    match e.dispatch(StorageCommand::EvictCache { url: String::from("u") }, 40) {
        StorageEvent::CacheEvicted { url, freed_bytes } => {
            assert_eq!(url, "u");
            assert_eq!(freed_bytes, 3);
        },
        other => panic!("expected CacheEvicted, got {:?}", other),
    }
    match e.dispatch(StorageCommand::EvictCache { url: String::from("u") }, 50) {
        StorageEvent::Error { operation, error } => {
            assert_eq!(operation, "evict_cache");
            assert!(matches!(error, StorageError::NotFound { .. }));
        },
        other => panic!("expected Error, got {:?}", other),
    }
}

#[test]
fn dispatch_oversized_write_reports_quota_error() {
    let mut e = StorageEngine::new(EvictionConfig {
        max_cache_size: 100,
        target_size: 80,
        min_entries: 1,
        max_age_seconds: 3600,
    });
    match e.dispatch(
        StorageCommand::CacheParquet {
            url: String::from("big"),
            data: vec![0u8; 101],
            etag: None,
        },
        0,
    ) {
        StorageEvent::Error { operation, error } => {
            assert_eq!(operation, "cache_parquet");
            match error {
                StorageError::QuotaExceeded { required, available } => {
                    assert_eq!(required, 101);
                    assert_eq!(available, 100);
                },
                other => panic!("expected QuotaExceeded, got {:?}", other),
            }
        },
        other => panic!("expected Error, got {:?}", other),
    }
    assert_eq!(e.cache.entries.len(), 0);
}

#[test]
fn dispatch_clear_cache_twice_is_idempotent() {
    let mut e = StorageEngine::new(test_config());
    e.dispatch(
        StorageCommand::CacheParquet { url: String::from("a"), data: vec![0u8; 4], etag: None },
        0,
    );
    e.dispatch(
        StorageCommand::CacheParquet { url: String::from("b"), data: vec![0u8; 6], etag: None },
        1,
    );
    match e.dispatch(StorageCommand::ClearCache, 2) {
        StorageEvent::CacheCleared { entries_removed, bytes_freed } => {
            assert_eq!(entries_removed, 2);
            assert_eq!(bytes_freed, 10);
        },
        other => panic!("expected CacheCleared, got {:?}", other),
    }
    match e.dispatch(StorageCommand::ClearCache, 3) {
        StorageEvent::CacheCleared { entries_removed, bytes_freed } => {
            assert_eq!(entries_removed, 0);
            assert_eq!(bytes_freed, 0);
        },
        other => panic!("expected CacheCleared, got {:?}", other),
    }
}

#[test]
fn dispatch_run_cleanup() {
    let mut e = StorageEngine::new(EvictionConfig {
        max_cache_size: 1000,
        target_size: 1000,
        min_entries: 0,
        max_age_seconds: 3600,
    });
    e.dispatch(
        StorageCommand::CacheParquet { url: String::from("a"), data: vec![0u8; 30], etag: None },
        1,
    );
    e.dispatch(
        StorageCommand::CacheParquet { url: String::from("b"), data: vec![0u8; 30], etag: None },
        2,
    );
    match e.dispatch(StorageCommand::RunCleanup { target_bytes: 30 }, 3) {
        StorageEvent::CleanupCompleted { entries_removed, bytes_freed } => {
            assert_eq!(entries_removed, 1);
            assert_eq!(bytes_freed, 30);
        },
        other => panic!("expected CleanupCompleted, got {:?}", other),
    }
    assert_eq!(e.cache.entries.len(), 1);
    assert_eq!(e.cache.entries[0].meta.url, "b");
}

#[test]
fn export_import_round_trip() {
    let cfg = test_config();
    let mut e = StorageEngine::new(cfg);
    e.save_notebook(notebook("n1", "First", 10), 10);
    e.save_notebook(notebook("n2", "Second", 20), 20);
    let mut prefs = UserPreferences::default();
    prefs.theme = Theme::Light;
    e.update_preferences(prefs);
    e.dispatch(
        StorageCommand::CacheParquet {
            url: String::from("https://example.org/data"),
            data: vec![1, 2, 3, 4],
            etag: Some(String::from("v1")),
        },
        30,
    );
    let data = e.export_all(99);
    assert_eq!(data.version, 1);
    assert_eq!(data.exported_at, 99);
    assert_eq!(data.notebooks.len(), 2);
    assert_eq!(data.cache_metadata.len(), 1);
    assert_eq!(data.cache_metadata[0].size, 4);

    let mut f = StorageEngine::new(cfg);
    let (nb_count, cm_count) = f.import_all(data).unwrap();
    assert_eq!(nb_count, 2);
    assert_eq!(cm_count, 1);
    // Notebooks come back field-for-field.
    assert_eq!(f.notebooks.len(), 2);
    let n1 = f.load_notebook(&String::from("n1")).unwrap();
    assert_eq!(n1.metadata.title.as_deref(), Some("First"));
    assert_eq!(n1.metadata.created_at, 10);
    assert_eq!(n1.cells.len(), 1);
    assert_eq!(n1.cells[0].content, "select 1");
    // Preferences come back field-for-field.
    assert_eq!(f.get_preferences().theme, Theme::Light);
    // Cache metadata is registered without bytes: present, equal, but the
    // content is never presented as valid.
    assert_eq!(f.cache.entries.len(), 1);
    let m = &f.cache.entries[0].meta;
    assert_eq!(m.url, "https://example.org/data");
    assert_eq!(m.size, 4);
    assert_eq!(m.etag.as_deref(), Some("v1"));
    let (v, _) = f.cache.check_cache(
        &String::from("https://example.org/data"),
        &Some(String::from("v1")),
        31,
        &cfg,
    );
    assert_eq!(v, CacheValidation::Stale);
    assert!(matches!(
        f.cache.get_payload(&String::from("https://example.org/data"), 32),
        Err(StorageError::NotFound { .. })
    ));
}

#[test]
fn dispatch_export_import_round_trip_on_empty_engine() {
    let mut e = StorageEngine::new(test_config());
    e.save_notebook(notebook("n1", "Only", 5), 5);
    let data = match e.dispatch(StorageCommand::ExportAll, 50) {
        StorageEvent::DataExported { data } => data,
        other => panic!("expected DataExported, got {:?}", other),
    };
    let mut f = StorageEngine::new(test_config());
    match f.dispatch(StorageCommand::ImportAll { data }, 60) {
        StorageEvent::DataImported { notebooks_count, cache_entries_count } => {
            assert_eq!(notebooks_count, 1);
            assert_eq!(cache_entries_count, 0);
        },
        other => panic!("expected DataImported, got {:?}", other),
    }
    assert_eq!(f.notebooks.len(), 1);
    assert_eq!(f.notebooks[0].id, "n1");
}

#[test]
fn dispatch_notebook_commands() {
    let mut e = StorageEngine::new(test_config());
    match e.dispatch(StorageCommand::SaveNotebook { notebook: notebook("n1", "T", 1) }, 2) {
        StorageEvent::NotebookSaved { id, updated_at } => {
            assert_eq!(id, "n1");
            assert_eq!(updated_at, 2);
        },
        other => panic!("expected NotebookSaved, got {:?}", other),
    }
    match e.dispatch(StorageCommand::LoadNotebook { id: String::from("n1") }, 3) {
        StorageEvent::NotebookLoaded { notebook } => {
            assert_eq!(notebook.id, "n1");
        },
        other => panic!("expected NotebookLoaded, got {:?}", other),
    }
    match e.dispatch(StorageCommand::ExportNotebook { id: String::from("n1") }, 4) {
        StorageEvent::NotebookExported { id, notebook } => {
            assert_eq!(id, "n1");
            assert_eq!(notebook.metadata.title.as_deref(), Some("T"));
        },
        other => panic!("expected NotebookExported, got {:?}", other),
    }
    let imported = notebook("n9", "Imported", 7);
    match e.dispatch(StorageCommand::ImportNotebook { notebook: imported }, 8) {
        StorageEvent::NotebookImported { notebook } => {
            assert_eq!(notebook.id, "n9");
            // Import keeps the notebook's own modification time.
            assert_eq!(notebook.metadata.modified_at, 7);
        },
        other => panic!("expected NotebookImported, got {:?}", other),
    }
    match e.dispatch(StorageCommand::ListNotebooks, 9) {
        StorageEvent::NotebookList { notebooks } => assert_eq!(notebooks.len(), 2),
        other => panic!("expected NotebookList, got {:?}", other),
    }
    match e.dispatch(StorageCommand::DeleteNotebook { id: String::from("zzz") }, 10) {
        StorageEvent::Error { operation, error } => {
            assert_eq!(operation, "delete_notebook");
            assert!(matches!(error, StorageError::NotFound { .. }));
        },
        other => panic!("expected Error, got {:?}", other),
    }
}

#[test]
fn dispatch_preference_and_quota_commands() {
    let mut e = StorageEngine::new(test_config());
    match e.dispatch(StorageCommand::GetPreferences, 1) {
        StorageEvent::PreferencesLoaded { preferences } => {
            assert_eq!(preferences.theme, Theme::System);
        },
        other => panic!("expected PreferencesLoaded, got {:?}", other),
    }
    let mut p = UserPreferences::default();
    p.theme = Theme::Dark;
    match e.dispatch(StorageCommand::UpdatePreferences { preferences: p }, 2) {
        StorageEvent::PreferencesUpdated { preferences } => {
            assert_eq!(preferences.theme, Theme::Dark);
        },
        other => panic!("expected PreferencesUpdated, got {:?}", other),
    }
    match e.dispatch(StorageCommand::ClearPreferences, 3) {
        StorageEvent::PreferencesCleared => {},
        other => panic!("expected PreferencesCleared, got {:?}", other),
    }
    e.set_host_quota(Some(1000));
    match e.dispatch(StorageCommand::GetQuota, 4) {
        StorageEvent::QuotaInfo(q) => {
            assert_eq!(q.total, Some(1000));
            assert_eq!(q.used, 0);
            assert_eq!(q.usage_percent, Some(0));
        },
        other => panic!("expected QuotaInfo, got {:?}", other),
    }
}
