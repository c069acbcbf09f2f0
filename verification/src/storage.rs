//! Storage engine types: cache metadata, validation results, statistics,
//! preference records, quota reports, the backup envelope, and the tagged
//! command/event protocol of the engine.

use vstd::prelude::*;
use crate::editor::{Notebook, notebooks_eq};
use crate::messages::Timestamp;
use crate::text::{opt_text_eq_spec, texts_eq};

verus! {

/// Cached Parquet file metadata (without the data bytes).
#[derive(Debug)]
pub struct CachedParquet {
    /// Source URL (primary key).
    pub url: String,
    /// File size in bytes.
    pub size: u64,
    /// HTTP ETag for cache validation.
    pub etag: Option<String>,
    /// Unix timestamp (ms) when fetched.
    pub fetched_at: Timestamp,
    /// Unix timestamp (ms) of last access.
    pub last_accessed: Timestamp,
    /// Content hash over the payload bytes.
    pub content_hash: String,
}

/// Field-for-field equivalence of cache metadata records.
pub open spec fn meta_eq(a: CachedParquet, b: CachedParquet) -> bool {
    &&& a.url@ == b.url@
    &&& a.size == b.size
    &&& opt_text_eq_spec(a.etag, b.etag)
    &&& a.fetched_at == b.fetched_at
    &&& a.last_accessed == b.last_accessed
    &&& a.content_hash@ == b.content_hash@
}

/// Field-for-field equivalence of cache metadata sequences, in order.
pub open spec fn metas_eq(a: Seq<CachedParquet>, b: Seq<CachedParquet>) -> bool {
    a.len() == b.len() && forall|i: int| 0 <= i < a.len() ==> meta_eq(#[trigger] a[i], b[i])
}

impl CachedParquet {
    /// Copies the record; the copy equals the original.
    pub fn duplicate(&self) -> (r: Self)
        ensures
            r == *self,
    {
        CachedParquet {
            url: self.url.clone(),
            size: self.size,
            etag: match &self.etag {
                Option::None => Option::None,
                Option::Some(t) => Option::Some(t.clone()),
            },
            fetched_at: self.fetched_at,
            last_accessed: self.last_accessed,
            content_hash: self.content_hash.clone(),
        }
    }
}

/// Cache validation result.
#[derive(Clone, Copy, Debug, PartialEq, Eq, Structural)]
pub enum CacheValidation {
    /// Cache is valid, use stored data.
    Valid,
    /// Cache is stale, revalidate with the server.
    Stale,
    /// No cache entry exists.
    Missing,
}

/// Cache statistics.
#[derive(Clone, Debug)]
pub struct CacheStats {
    /// Total number of cached files.
    pub file_count: u32,
    /// Total size in bytes.
    pub total_size: u64,
    /// Oldest entry timestamp.
    pub oldest_entry: Option<Timestamp>,
    /// Newest entry timestamp.
    pub newest_entry: Option<Timestamp>,
}

/// Notebook summary for list views (without full cell data).
#[derive(Clone, Debug)]
pub struct NotebookSummary {
    /// Unique notebook ID.
    pub id: String,
    /// Display title.
    pub title: String,
    /// Creation timestamp.
    pub created_at: Timestamp,
    /// Last modified timestamp.
    pub updated_at: Timestamp,
    /// Number of cells.
    pub cell_count: u32,
    /// Tags for organization.
    pub tags: Vec<String>,
    /// Published Nostr event ID (if published).
    pub nostr_event_id: Option<String>,
}

/// User preferences container.
#[derive(Clone, Debug)]
pub struct UserPreferences {
    /// UI theme.
    pub theme: Theme,
    /// Nostr configuration.
    pub nostr: NostrPreferences,
    /// Editor preferences.
    pub editor: EditorPreferences,
    /// Query preferences.
    pub query: QueryPreferences,
}

/// Field-for-field equivalence of preference records.
pub open spec fn prefs_eq(a: UserPreferences, b: UserPreferences) -> bool {
    &&& a.theme == b.theme
    &&& (match a.nostr.encrypted_nsec {
        Option::None => b.nostr.encrypted_nsec is None,
        Option::Some(ka) => b.nostr.encrypted_nsec matches Option::Some(kb)
            && ka.ciphertext@ == kb.ciphertext@
            && ka.salt@ == kb.salt@
            && ka.algorithm@ == kb.algorithm@,
    })
    &&& opt_text_eq_spec(a.nostr.npub, b.nostr.npub)
    &&& texts_eq(a.nostr.relays@, b.nostr.relays@)
    &&& a.nostr.auto_publish == b.nostr.auto_publish
    &&& a.editor == b.editor
    &&& a.query == b.query
}

/// Whether a preference record holds exactly the default values.
pub open spec fn is_default_prefs(r: UserPreferences) -> bool {
    &&& r.theme == Theme::System
    &&& r.nostr.encrypted_nsec is None
    &&& r.nostr.npub is None
    &&& r.nostr.relays@.len() == 0
    &&& r.nostr.auto_publish == false
    &&& r.editor == (EditorPreferences {
        font_size: 14u32,
        tab_size: 2u32,
        line_numbers: true,
        word_wrap: false,
        autocomplete: true,
    })
    &&& r.query == (QueryPreferences { max_rows: 10000u32, timeout_seconds: 30u32, auto_run: false })
}

/// How a returned preference record relates to the stored one: equivalent
/// to it, or the defaults when none is stored.
pub open spec fn prefs_view(stored: Option<UserPreferences>, r: UserPreferences) -> bool {
    match stored {
        Option::Some(p) => prefs_eq(r, p),
        Option::None => is_default_prefs(r),
    }
}

impl UserPreferences {
    /// Copies the preferences; the copy is field-for-field equivalent.
    pub fn duplicate(&self) -> (r: Self)
        ensures
            prefs_eq(r, *self),
    {
        UserPreferences {
            theme: self.theme,
            nostr: NostrPreferences {
                encrypted_nsec: match &self.nostr.encrypted_nsec {
                    Option::None => Option::None,
                    Option::Some(k) => Option::Some(EncryptedKey {
                        ciphertext: k.ciphertext.clone(),
                        salt: k.salt.clone(),
                        algorithm: k.algorithm.clone(),
                    }),
                },
                npub: match &self.nostr.npub {
                    Option::None => Option::None,
                    Option::Some(s) => Option::Some(s.clone()),
                },
                relays: crate::text::clone_texts(&self.nostr.relays),
                auto_publish: self.nostr.auto_publish,
            },
            editor: self.editor,
            query: self.query,
        }
    }
}

impl Default for UserPreferences {
    /// Fresh preferences use every component's default.
    fn default() -> (r: Self)
        ensures
            r.theme == Theme::System,
            r.nostr.encrypted_nsec is None,
            r.nostr.npub is None,
            r.nostr.relays@.len() == 0,
            r.nostr.auto_publish == false,
            r.editor == (EditorPreferences {
                font_size: 14u32,
                tab_size: 2u32,
                line_numbers: true,
                word_wrap: false,
                autocomplete: true,
            }),
            r.query == (QueryPreferences {
                max_rows: 10000u32,
                timeout_seconds: 30u32,
                auto_run: false,
            }),
    {
        UserPreferences {
            theme: Theme::default(),
            nostr: NostrPreferences::default(),
            editor: EditorPreferences::default(),
            query: QueryPreferences::default(),
        }
    }
}

/// Theme setting.
#[derive(Clone, Copy, Debug, PartialEq, Eq, Structural)]
pub enum Theme {
    Light,
    Dark,
    System,
}

impl Default for Theme {
    /// The theme follows the host system unless chosen explicitly.
    fn default() -> (r: Self)
        ensures
            r == Theme::System,
    {
        Theme::System
    }
}

/// Nostr-related preferences.
#[derive(Clone, Debug)]
pub struct NostrPreferences {
    /// Encrypted private key (nsec), encrypted with a user passphrase.
    pub encrypted_nsec: Option<EncryptedKey>,
    /// Public key (npub), not sensitive.
    pub npub: Option<String>,
    /// Preferred relay URLs.
    pub relays: Vec<String>,
    /// Auto-publish notebooks on save.
    pub auto_publish: bool,
}

impl Default for NostrPreferences {
    /// No keys, no relays, no auto-publishing.
    fn default() -> (r: Self)
        ensures
            r.encrypted_nsec is None,
            r.npub is None,
            r.relays@.len() == 0,
            r.auto_publish == false,
    {
        NostrPreferences {
            encrypted_nsec: Option::None,
            npub: Option::None,
            relays: Vec::new(),
            auto_publish: false,
        }
    }
}

/// Encrypted key storage.
#[derive(Clone, Debug)]
pub struct EncryptedKey {
    /// Encrypted data (base64).
    pub ciphertext: String,
    /// Encryption salt (base64).
    pub salt: String,
    /// Encryption algorithm identifier.
    pub algorithm: String,
}

/// Editor preferences.
#[derive(Clone, Copy, Debug, PartialEq, Eq, Structural)]
pub struct EditorPreferences {
    /// Font size in pixels.
    pub font_size: u32,
    /// Tab size in spaces.
    pub tab_size: u32,
    /// Enable line numbers.
    pub line_numbers: bool,
    /// Enable word wrap.
    pub word_wrap: bool,
    /// Enable autocomplete.
    pub autocomplete: bool,
}

impl Default for EditorPreferences {
    fn default() -> (r: Self)
        ensures
            r == (EditorPreferences {
                font_size: 14u32,
                tab_size: 2u32,
                line_numbers: true,
                word_wrap: false,
                autocomplete: true,
            }),
    {
        EditorPreferences {
            font_size: 14,
            tab_size: 2,
            line_numbers: true,
            word_wrap: false,
            autocomplete: true,
        }
    }
}

/// Query execution preferences.
#[derive(Clone, Copy, Debug, PartialEq, Eq, Structural)]
pub struct QueryPreferences {
    /// Maximum rows to return.
    pub max_rows: u32,
    /// Query timeout in seconds.
    pub timeout_seconds: u32,
    /// Auto-run cells on notebook load.
    pub auto_run: bool,
}

impl Default for QueryPreferences {
    fn default() -> (r: Self)
        ensures
            r == (QueryPreferences { max_rows: 10000u32, timeout_seconds: 30u32, auto_run: false }),
    {
        QueryPreferences { max_rows: 10000, timeout_seconds: 30, auto_run: false }
    }
}

/// Storage quota information.
#[derive(Clone, Debug)]
pub struct StorageQuota {
    /// Total quota in bytes (if the host reports one).
    pub total: Option<u64>,
    /// Used storage in bytes.
    pub used: u64,
    /// Available storage in bytes (if calculable).
    pub available: Option<u64>,
    /// Usage percentage (0-100, saturating).
    pub usage_percent: Option<u64>,
}

/// Exported data for backup/restore.
#[derive(Debug)]
pub struct ExportedData {
    /// Export format version.
    pub version: u32,
    /// Export timestamp.
    pub exported_at: Timestamp,
    /// All notebooks.
    pub notebooks: Vec<Notebook>,
    /// User preferences.
    pub preferences: UserPreferences,
    /// Cache metadata only (not the payload bytes).
    pub cache_metadata: Vec<CachedParquet>,
}

/// Field-for-field equivalence of backup envelopes.
pub open spec fn exported_eq(a: ExportedData, b: ExportedData) -> bool {
    &&& a.version == b.version
    &&& a.exported_at == b.exported_at
    &&& notebooks_eq(a.notebooks@, b.notebooks@)
    &&& prefs_eq(a.preferences, b.preferences)
    &&& metas_eq(a.cache_metadata@, b.cache_metadata@)
}

/// Commands sent to the storage engine.  Binary payloads cross the outer
/// boundary base64-encoded; the boundary layer decodes them to plain bytes
/// before the command reaches the engine.
#[derive(Debug)]
pub enum StorageCommand {
    /// Check whether a URL is cached and valid.
    CheckCache { url: String, etag: Option<String> },
    /// Store Parquet data in the cache.
    CacheParquet { url: String, data: Vec<u8>, etag: Option<String> },
    /// Retrieve cached Parquet data.
    GetCachedParquet { url: String },
    /// Remove a specific cache entry.
    EvictCache { url: String },
    /// Clear all cached data.
    ClearCache,
    /// Get cache statistics.
    GetCacheStats,
    /// Save a notebook.
    SaveNotebook { notebook: Notebook },
    /// Load a notebook by ID.
    LoadNotebook { id: String },
    /// Delete a notebook.
    DeleteNotebook { id: String },
    /// List all notebooks.
    ListNotebooks,
    /// Export one notebook.
    ExportNotebook { id: String },
    /// Import one notebook.
    ImportNotebook { notebook: Notebook },
    /// Get all preferences.
    GetPreferences,
    /// Update preferences.
    UpdatePreferences { preferences: UserPreferences },
    /// Clear all preferences.
    ClearPreferences,
    /// Get storage quota information.
    GetQuota,
    /// Run storage cleanup (LRU eviction).
    RunCleanup { target_bytes: u64 },
    /// Export all data for backup.
    ExportAll,
    /// Import backup data.
    ImportAll { data: ExportedData },
}

/// Events emitted by the storage engine, exactly one per command.
#[derive(Debug)]
pub enum StorageEvent {
    /// Cache check result.
    CacheStatus { url: String, status: CacheValidation, metadata: Option<CachedParquet> },
    /// Parquet cached successfully.
    ParquetCached { url: String, size: u64 },
    /// Cached Parquet retrieved.
    CachedParquetLoaded { url: String, data: Vec<u8>, metadata: CachedParquet },
    /// Cache entry evicted.
    CacheEvicted { url: String, freed_bytes: u64 },
    /// Cache cleared.
    CacheCleared { entries_removed: u32, bytes_freed: u64 },
    /// Cache statistics.
    CacheStats(CacheStats),
    /// Notebook saved.
    NotebookSaved { id: String, updated_at: Timestamp },
    /// Notebook loaded.
    NotebookLoaded { notebook: Notebook },
    /// Notebook deleted.
    NotebookDeleted { id: String },
    /// Notebook list.
    NotebookList { notebooks: Vec<NotebookSummary> },
    /// Notebook exported.
    NotebookExported { id: String, notebook: Notebook },
    /// Notebook imported.
    NotebookImported { notebook: Notebook },
    /// Preferences loaded.
    PreferencesLoaded { preferences: UserPreferences },
    /// Preferences updated.
    PreferencesUpdated { preferences: UserPreferences },
    /// Preferences cleared.
    PreferencesCleared,
    /// Storage quota info.
    QuotaInfo(StorageQuota),
    /// Cleanup completed.
    CleanupCompleted { entries_removed: u32, bytes_freed: u64 },
    /// Data exported.
    DataExported { data: ExportedData },
    /// Data imported.
    DataImported { notebooks_count: u32, cache_entries_count: u32 },
    /// A storage error occurred.
    Error { operation: String, error: StorageError },
    /// Quota warning (approaching the limit).
    QuotaWarning { used: u64, total: u64, percent: u64 },
}

/// Storage error types.
#[derive(Debug)]
pub enum StorageError {
    /// Storage quota exceeded.
    QuotaExceeded { required: u64, available: u64 },
    /// Item not found.
    NotFound { key: String },
    /// Data corruption detected.
    Corrupted { key: String, message: String },
    /// Underlying database error.
    DatabaseError { message: String },
    /// Serialization error.
    SerializationError { message: String },
    /// The host does not support the required persistence capability.
    NotSupported,
}

/// LRU eviction configuration.
#[derive(Clone, Copy, Debug, PartialEq, Eq, Structural)]
pub struct EvictionConfig {
    /// Maximum cache size in bytes.
    pub max_cache_size: u64,
    /// Target size after eviction (the low-water mark).
    pub target_size: u64,
    /// Minimum entries to keep.
    pub min_entries: u32,
    /// Maximum age before forced eviction, in seconds.
    pub max_age_seconds: i64,
}

impl EvictionConfig {
    /// A usable configuration keeps the low-water mark within the budget.
    pub open spec fn wf(&self) -> bool {
        self.target_size <= self.max_cache_size
    }

    /// Checks that the low-water mark does not exceed the maximum size.
    pub fn is_valid(&self) -> (r: bool)
        ensures
            r == self.wf(),
    {
        self.target_size <= self.max_cache_size
    }
}

impl Default for EvictionConfig {
    /// 500 MiB budget, 400 MiB low-water mark, keep at least 5 entries,
    /// force out entries older than 30 days.
    fn default() -> (r: Self)
        ensures
            r == (EvictionConfig {
                max_cache_size: 524288000u64,
                target_size: 419430400u64,
                min_entries: 5u32,
                max_age_seconds: 2592000i64,
            }),
            r.wf(),
    {
        EvictionConfig {
            max_cache_size: 500 * 1024 * 1024,
            target_size: 400 * 1024 * 1024,
            min_entries: 5,
            max_age_seconds: 30 * 24 * 3600,
        }
    }
}

/// Eviction result.
#[derive(Clone, Copy, Debug, PartialEq, Eq, Structural)]
pub struct EvictionResult {
    /// Number of entries removed.
    pub entries_removed: u32,
    /// Bytes freed.
    pub bytes_freed: u64,
}

impl Default for EvictionResult {
    /// An empty result: nothing removed, nothing freed.
    fn default() -> (r: Self)
        ensures
            r == (EvictionResult { entries_removed: 0u32, bytes_freed: 0u64 }),
    {
        EvictionResult { entries_removed: 0, bytes_freed: 0 }
    }
}

} // verus!
