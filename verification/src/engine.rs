//! The storage engine: the cache store, the notebook and preference
//! stores, backup and restore, and the command dispatcher that routes each
//! tagged command to its owning store and answers with exactly one event.
//!
//! Commands are processed one at a time to completion; every mutation is
//! applied atomically at entry or whole-store granularity before the next
//! command runs.

use vstd::prelude::*;
use vstd::pervasive::VecAdditionalExecFns;
use vstd::string::StringExecFns;
use crate::cache::{CacheStore, metas, register_all};
use crate::editor::{Notebook, notebook_eq, notebooks_eq};
use crate::storage::{EvictionConfig, NotebookSummary, StorageError, StorageQuota, UserPreferences};
use crate::text::texts_eq;

verus! {

/// The index of the first notebook with the given ID, or -1 when absent.
pub open spec fn find_nb(s: Seq<Notebook>, id: Seq<char>) -> int
    decreases s.len(),
{
    if s.len() == 0 {
        -1
    } else if s.first().id@ == id {
        0
    } else {
        let r = find_nb(s.drop_first(), id);
        if r < 0 {
            -1
        } else {
            r + 1
        }
    }
}

/// What `find_nb` returns: a hit names the first notebook with that ID, a
/// miss means no notebook has it.
pub proof fn lemma_find_nb_ensures(s: Seq<Notebook>, id: Seq<char>)
    ensures
        -1 <= find_nb(s, id) < s.len(),
        find_nb(s, id) >= 0 ==> s[find_nb(s, id)].id@ == id,
        find_nb(s, id) < 0 ==> forall|j: int| 0 <= j < s.len() ==> (#[trigger] s[j]).id@ != id,
        forall|j: int| 0 <= j < find_nb(s, id) ==> (#[trigger] s[j]).id@ != id,
    decreases s.len(),
{
    if s.len() > 0 && s.first().id@ != id {
        lemma_find_nb_ensures(s.drop_first(), id);
        assert(forall|j: int| 1 <= j < s.len() ==> s[j] == s.drop_first()[j - 1]);
    }
}

/// The first index with a matching ID is exactly `find_nb`.
pub proof fn lemma_find_nb_at(s: Seq<Notebook>, id: Seq<char>, i: int)
    requires
        0 <= i < s.len(),
        s[i].id@ == id,
        forall|j: int| 0 <= j < i ==> (#[trigger] s[j]).id@ != id,
    ensures
        find_nb(s, id) == i,
    decreases s.len(),
{
    if i > 0 {
        assert(s[0].id@ != id);
        assert(forall|j: int| 0 <= j < s.drop_first().len() ==> s.drop_first()[j] == s[j + 1]);
        lemma_find_nb_at(s.drop_first(), id, i - 1);
    }
}

/// Equivalent notebook stores answer lookups at the same index.
pub proof fn lemma_find_nb_eq(a: Seq<Notebook>, b: Seq<Notebook>, id: Seq<char>)
    requires
        notebooks_eq(a, b),
    ensures
        find_nb(a, id) == find_nb(b, id),
    decreases a.len(),
{
    if a.len() > 0 {
        assert(notebook_eq(a[0], b[0]));
        assert(a.first().id@ == b.first().id@);
        if a.first().id@ != id {
            assert(forall|j: int|
                0 <= j < a.drop_first().len() ==> a.drop_first()[j] == a[j + 1]);
            assert(forall|j: int|
                0 <= j < b.drop_first().len() ==> b.drop_first()[j] == b[j + 1]);
            assert(notebooks_eq(a.drop_first(), b.drop_first()));
            lemma_find_nb_eq(a.drop_first(), b.drop_first(), id);
        }
    }
}

/// A notebook with its modification timestamp set.
pub open spec fn with_modified(nb: Notebook, now: u64) -> Notebook {
    Notebook {
        id: nb.id,
        version: nb.version,
        metadata: crate::editor::NotebookMetadata {
            title: nb.metadata.title,
            author: nb.metadata.author,
            tags: nb.metadata.tags,
            created_at: nb.metadata.created_at,
            modified_at: now,
            description: nb.metadata.description,
        },
        cells: nb.cells,
        loaded_data: nb.loaded_data,
        charts: nb.charts,
    }
}

/// Saving one notebook: it replaces the notebook with its ID in place, or
/// joins the store at the end.
pub open spec fn upsert_nb(s: Seq<Notebook>, nb: Notebook) -> Seq<Notebook> {
    let i = find_nb(s, nb.id@);
    if i >= 0 {
        s.update(i, nb)
    } else {
        s.push(nb)
    }
}

/// Importing a sequence of notebooks, first notebook first.
pub open spec fn import_nbs(s: Seq<Notebook>, rows: Seq<Notebook>) -> Seq<Notebook>
    decreases rows.len(),
{
    if rows.len() == 0 {
        s
    } else {
        import_nbs(upsert_nb(s, rows.first()), rows.drop_first())
    }
}

/// Importing one more notebook imports it into the fold so far.
pub proof fn lemma_import_nbs_push(s: Seq<Notebook>, rows: Seq<Notebook>, nb: Notebook)
    ensures
        import_nbs(s, rows.push(nb)) == upsert_nb(import_nbs(s, rows), nb),
    decreases rows.len(),
{
    if rows.len() == 0 {
        assert(rows.push(nb).first() == nb);
        assert(rows.push(nb).drop_first() =~= Seq::<Notebook>::empty());
        assert(import_nbs(upsert_nb(s, nb), Seq::<Notebook>::empty()) == upsert_nb(s, nb));
    } else {
        assert(rows.push(nb).first() == rows.first());
        assert(rows.push(nb).drop_first() =~= rows.drop_first().push(nb));
        lemma_import_nbs_push(upsert_nb(s, rows.first()), rows.drop_first(), nb);
        assert(import_nbs(s, rows) == import_nbs(upsert_nb(s, rows.first()), rows.drop_first()));
    }
}

/// Importing notebooks with fresh and mutually distinct IDs appends them in
/// order.
pub proof fn lemma_import_nbs_disjoint(s: Seq<Notebook>, rows: Seq<Notebook>)
    requires
        forall|p: int, q: int|
            0 <= p < q < rows.len() ==> (#[trigger] rows[p]).id@ != (#[trigger] rows[q]).id@,
        forall|j: int, k: int|
            0 <= j < s.len() && 0 <= k < rows.len()
                ==> (#[trigger] s[j]).id@ != (#[trigger] rows[k]).id@,
    ensures
        import_nbs(s, rows).len() == s.len() + rows.len(),
        forall|j: int| 0 <= j < s.len() ==> #[trigger] import_nbs(s, rows)[j] == s[j],
        forall|k: int|
            0 <= k < rows.len() ==> #[trigger] import_nbs(s, rows)[s.len() + k] == rows[k],
    decreases rows.len(),
{
    if rows.len() > 0 {
        let nb = rows.first();
        lemma_find_nb_ensures(s, nb.id@);
        assert(find_nb(s, nb.id@) < 0) by {
            if find_nb(s, nb.id@) >= 0 {
                assert(s[find_nb(s, nb.id@)].id@ == nb.id@);
                assert(rows[0].id@ == nb.id@);
            }
        }
        let s1 = s.push(nb);
        assert(upsert_nb(s, nb) == s1);
        let rows1 = rows.drop_first();
        assert(forall|k: int| 0 <= k < rows1.len() ==> rows1[k] == rows[k + 1]);
        assert forall|p: int, q: int| 0 <= p < q < rows1.len()
            implies (rows1[p]).id@ != (rows1[q]).id@ by {
            assert(rows[p + 1].id@ != rows[q + 1].id@);
        }
        assert forall|j: int, k: int| 0 <= j < s1.len() && 0 <= k < rows1.len()
            implies (s1[j]).id@ != (rows1[k]).id@ by {
            if j < s.len() {
                assert(s[j].id@ != rows[k + 1].id@);
            } else {
                assert(s1[j] == nb);
                assert(rows[0].id@ != rows[k + 1].id@);
            }
        }
        lemma_import_nbs_disjoint(s1, rows1);
        assert(import_nbs(s, rows) == import_nbs(s1, rows1));
        assert(forall|j: int| 0 <= j < s.len() ==> s1[j] == s[j]);
        assert(s1[s.len() as int] == nb);
        assert forall|k: int| 0 <= k < rows.len()
            implies import_nbs(s, rows)[s.len() + k] == rows[k] by {
            if k == 0 {
                assert(import_nbs(s1, rows1)[s.len() as int] == s1[s.len() as int]);
            } else {
                assert(import_nbs(s1, rows1)[s1.len() + (k - 1)] == rows1[k - 1]);
                assert(s1.len() + (k - 1) == s.len() + k);
                assert(rows1[k - 1] == rows[k]);
            }
        }
    }
}

/// How one list entry summarizes a notebook: the ID, title (empty when the
/// notebook has none), both timestamps, the cell count and the tags; the
/// engine does not track publishing, so the event ID is absent.
pub open spec fn summary_matches(s: NotebookSummary, nb: Notebook) -> bool {
    &&& s.id@ == nb.id@
    &&& (match nb.metadata.title {
        Option::Some(t) => s.title@ == t@,
        Option::None => s.title@ == Seq::<char>::empty(),
    })
    &&& s.created_at == nb.metadata.created_at
    &&& s.updated_at == nb.metadata.modified_at
    &&& s.cell_count as int == vstd::math::min(nb.cells@.len() as int, u32::MAX as int)
    &&& texts_eq(s.tags@, nb.metadata.tags@)
    &&& s.nostr_event_id is None
}

/// The storage engine: single writer over the cache, notebook and
/// preference stores.
pub struct StorageEngine {
    /// The cache subsystem.
    pub cache: CacheStore,
    /// Notebook records, keyed by their ID.
    pub notebooks: Vec<Notebook>,
    /// The preference record, absent until first written.
    pub preferences: Option<UserPreferences>,
    /// The eviction policy configuration, replaced only wholesale.
    pub config: EvictionConfig,
    /// The host-reported storage quota, absent when the host has none.
    pub host_quota: Option<u64>,
}

impl StorageEngine {
    /// Well-formedness: the cache store is well-formed, the configuration
    /// keeps its low-water mark within the budget, and notebook IDs are
    /// unique.
    pub open spec fn wf(&self) -> bool {
        &&& self.cache.wf()
        &&& self.config.wf()
        &&& forall|i: int, j: int|
            0 <= i < j < self.notebooks@.len()
                ==> (#[trigger] self.notebooks@[i]).id@ != (#[trigger] self.notebooks@[j]).id@
    }

    /// Creates an engine with the given eviction configuration and no
    /// records.
    pub fn new(config: EvictionConfig) -> (r: Self)
        requires
            config.wf(),
        ensures
            r.wf(),
            r.cache.entries@.len() == 0,
            r.notebooks@.len() == 0,
            r.preferences is None,
            r.config == config,
            r.host_quota is None,
    {
        StorageEngine {
            cache: CacheStore::new(),
            notebooks: Vec::new(),
            preferences: Option::None,
            config,
            host_quota: Option::None,
        }
    }

    /// Replaces the eviction configuration wholesale; it is never
    /// partially mutated.
    pub fn replace_config(&mut self, config: EvictionConfig)
        requires
            old(self).wf(),
            config.wf(),
        ensures
            final(self).wf(),
            final(self).config == config,
            final(self).cache == old(self).cache,
            final(self).notebooks == old(self).notebooks,
            final(self).preferences == old(self).preferences,
            final(self).host_quota == old(self).host_quota,
    {
        self.config = config;
    }

    /// Records the host-reported quota for later snapshots.
    pub fn set_host_quota(&mut self, host_total: Option<u64>)
        requires
            old(self).wf(),
        ensures
            final(self).wf(),
            final(self).host_quota == host_total,
            final(self).cache == old(self).cache,
            final(self).notebooks == old(self).notebooks,
            final(self).preferences == old(self).preferences,
            final(self).config == old(self).config,
    {
        self.host_quota = host_total;
    }

    /// Finds the index of the notebook with an ID.
    fn find_notebook_index(&self, id: &String) -> (r: Option<usize>)
        ensures
            match r {
                Option::Some(i) => i < self.notebooks@.len()
                    && i as int == find_nb(self.notebooks@, id@),
                Option::None => find_nb(self.notebooks@, id@) < 0,
            },
    {
        let mut i: usize = 0;
        while i < self.notebooks.len()
            invariant
                0 <= i <= self.notebooks@.len(),
                forall|j: int| 0 <= j < i ==> (#[trigger] self.notebooks@[j]).id@ != id@,
            decreases self.notebooks@.len() - i,
        {
            if self.notebooks[i].id.eq(id) {
                proof {
                    lemma_find_nb_at(self.notebooks@, id@, i as int);
                }
                return Option::Some(i);
            }
            i = i + 1;
        }
        proof {
            lemma_find_nb_ensures(self.notebooks@, id@);
        }
        Option::None
    }

    /// Create-or-replace by ID: stores the notebook with its modification
    /// timestamp set to `now`, and reports the ID and that timestamp.
    pub fn save_notebook(&mut self, notebook: Notebook, now: u64) -> (r: (String, u64))
        requires
            old(self).wf(),
        ensures
            final(self).wf(),
            final(self).cache == old(self).cache,
            final(self).preferences == old(self).preferences,
            final(self).config == old(self).config,
            final(self).host_quota == old(self).host_quota,
            r.0@ == notebook.id@,
            r.1 == now,
            final(self).notebooks@ == upsert_nb(old(self).notebooks@, with_modified(notebook, now)),
    {
        let id = notebook.id.clone();
        let mut nb = notebook;
        nb.metadata.modified_at = now;
        let ghost nb1 = nb;
        let ghost s0 = self.notebooks@;
        match self.find_notebook_index(&id) {
            Option::Some(i) => {
                proof {
                    lemma_find_nb_ensures(s0, nb1.id@);
                    assert(upsert_nb(s0, nb1) == s0.update(i as int, nb1));
                }
                self.notebooks.set(i, nb);
                proof {
                    assert forall|p: int, q: int|
                        0 <= p < q < self.notebooks@.len()
                        implies (self.notebooks@[p]).id@ != (self.notebooks@[q]).id@ by {
                        assert(s0[p].id@ != s0[q].id@);
                        if p == i as int {
                            assert(self.notebooks@[p].id@ == s0[p].id@);
                        }
                        if q == i as int {
                            assert(self.notebooks@[q].id@ == s0[q].id@);
                        }
                    }
                }
            },
            Option::None => {
                proof {
                    lemma_find_nb_ensures(s0, nb1.id@);
                    assert(upsert_nb(s0, nb1) == s0.push(nb1));
                }
                self.notebooks.push(nb);
                proof {
                    assert forall|p: int, q: int|
                        0 <= p < q < self.notebooks@.len()
                        implies (self.notebooks@[p]).id@ != (self.notebooks@[q]).id@ by {
                        if q < s0.len() {
                            assert(s0[p].id@ != s0[q].id@);
                        } else {
                            assert(self.notebooks@[q].id@ == nb1.id@);
                            assert(s0[p].id@ != nb1.id@);
                        }
                    }
                }
            },
        }
        (id, now)
    }

    /// Fetch by ID: returns an equivalent copy of the stored notebook, or
    /// not-found.
    pub fn load_notebook(&self, id: &String) -> (r: Result<Notebook, StorageError>)
        ensures
            ({
                let i = find_nb(self.notebooks@, id@);
                match r {
                    Result::Ok(nb) => i >= 0 && notebook_eq(nb, self.notebooks@[i]),
                    Result::Err(e) => i < 0
                        && (e matches StorageError::NotFound { key } && key@ == id@),
                }
            }),
    {
        match self.find_notebook_index(id) {
            Option::Some(i) => Result::Ok(self.notebooks[i].duplicate()),
            Option::None => Result::Err(StorageError::NotFound { key: id.clone() }),
        }
    }

    /// Delete by ID: removes the notebook, or reports not-found.
    pub fn delete_notebook(&mut self, id: &String) -> (r: Result<(), StorageError>)
        requires
            old(self).wf(),
        ensures
            final(self).wf(),
            final(self).cache == old(self).cache,
            final(self).preferences == old(self).preferences,
            final(self).config == old(self).config,
            final(self).host_quota == old(self).host_quota,
            ({
                let i = find_nb(old(self).notebooks@, id@);
                match r {
                    Result::Ok(u) => i >= 0
                        && final(self).notebooks@ == old(self).notebooks@.remove(i),
                    Result::Err(e) => i < 0
                        && *final(self) == *old(self)
                        && (e matches StorageError::NotFound { key } && key@ == id@),
                }
            }),
    {
        match self.find_notebook_index(id) {
            Option::Some(i) => {
                proof {
                    self.notebooks@.remove_ensures(i as int);
                    lemma_remove_preserves_unique_nb(self.notebooks@, i as int);
                }
                let _ = self.notebooks.remove(i);
                Result::Ok(())
            },
            Option::None => Result::Err(StorageError::NotFound { key: id.clone() }),
        }
    }

    /// Lists lightweight summaries of every notebook, in store order.
    pub fn list_notebooks(&self) -> (r: Vec<NotebookSummary>)
        ensures
            r@.len() == self.notebooks@.len(),
            forall|i: int|
                0 <= i < r@.len() ==> summary_matches(#[trigger] r@[i], self.notebooks@[i]),
    {
        let mut r: Vec<NotebookSummary> = Vec::new();
        let mut i: usize = 0;
        while i < self.notebooks.len()
            invariant
                0 <= i <= self.notebooks@.len(),
                r@.len() == i,
                forall|j: int|
                    0 <= j < i ==> summary_matches(#[trigger] r@[j], self.notebooks@[j]),
            decreases self.notebooks@.len() - i,
        {
            let nb = &self.notebooks[i];
            let title: String = match &nb.metadata.title {
                Option::Some(t) => t.clone(),
                Option::None => String::new(),
            };
            let cell_count: u32 = if nb.cells.len() > u32::MAX as usize {
                u32::MAX
            } else {
                nb.cells.len() as u32
            };
            r.push(NotebookSummary {
                id: nb.id.clone(),
                title,
                created_at: nb.metadata.created_at,
                updated_at: nb.metadata.modified_at,
                cell_count,
                tags: crate::text::clone_texts(&nb.metadata.tags),
                nostr_event_id: Option::None,
            });
            i = i + 1;
        }
        r
    }

    /// Imports one notebook as it stands, replacing any notebook with the
    /// same ID.
    pub fn import_notebook(&mut self, notebook: Notebook) -> (r: (String, u64))
        requires
            old(self).wf(),
        ensures
            final(self).wf(),
            final(self).cache == old(self).cache,
            final(self).preferences == old(self).preferences,
            final(self).config == old(self).config,
            final(self).host_quota == old(self).host_quota,
            r.0@ == notebook.id@,
            r.1 == notebook.metadata.modified_at,
            final(self).notebooks@ == upsert_nb(old(self).notebooks@, notebook),
    {
        let modified = notebook.metadata.modified_at;
        self.save_notebook(notebook, modified)
    }

    /// Returns the stored preferences, or the defaults when none were ever
    /// written.
    pub fn get_preferences(&self) -> (r: UserPreferences)
        ensures
            crate::storage::prefs_view(self.preferences, r),
    {
        match &self.preferences {
            Option::Some(p) => p.duplicate(),
            Option::None => UserPreferences::default(),
        }
    }

    /// Replaces the preferences wholesale.
    pub fn update_preferences(&mut self, preferences: UserPreferences)
        requires
            old(self).wf(),
        ensures
            final(self).wf(),
            final(self).cache == old(self).cache,
            final(self).notebooks == old(self).notebooks,
            final(self).config == old(self).config,
            final(self).host_quota == old(self).host_quota,
            final(self).preferences matches Option::Some(p) && p == preferences,
    {
        self.preferences = Option::Some(preferences);
    }

    /// Removes the stored preferences; later reads see the defaults.
    pub fn clear_preferences(&mut self)
        requires
            old(self).wf(),
        ensures
            final(self).wf(),
            final(self).cache == old(self).cache,
            final(self).notebooks == old(self).notebooks,
            final(self).config == old(self).config,
            final(self).host_quota == old(self).host_quota,
            final(self).preferences is None,
    {
        self.preferences = Option::None;
    }

    /// A quota snapshot: the engine's tracked usage against the
    /// host-reported quota.
    pub fn quota_snapshot(&self) -> (q: StorageQuota)
        requires
            self.wf(),
        ensures
            q.used == crate::quota::used_bytes_spec(
                crate::eviction::total_size(metas(self.cache.entries@)) as u64,
                self.notebooks@,
                self.preferences,
            ),
            q.total == self.host_quota,
            q.usage_percent == crate::quota::percent_of(q.used, self.host_quota),
            q.available == (match self.host_quota {
                Option::None => Option::<u64>::None,
                Option::Some(t) => Option::Some(
                    if q.used <= t { (t - q.used) as u64 } else { 0u64 },
                ),
            }),
    {
        proof {
            crate::eviction::lemma_total_size_nonneg(metas(self.cache.entries@));
        }
        let cache_total = self.cache.total_bytes();
        crate::quota::snapshot(cache_total, &self.notebooks, &self.preferences, self.host_quota)
    }
}

/// The backup format version this engine writes.
pub const EXPORT_FORMAT_VERSION: u32 = 1;

impl StorageEngine {
    /// Assembles one consistent backup snapshot: every notebook, the
    /// preferences, and the cache metadata (never payload bytes).
    pub fn export_all(&self, now: u64) -> (r: crate::storage::ExportedData)
        requires
            self.wf(),
        ensures
            r.version == EXPORT_FORMAT_VERSION,
            r.exported_at == now,
            notebooks_eq(r.notebooks@, self.notebooks@),
            crate::storage::prefs_view(self.preferences, r.preferences),
            r.cache_metadata@ == metas(self.cache.entries@),
    {
        let mut notebooks: Vec<Notebook> = Vec::new();
        let mut i: usize = 0;
        while i < self.notebooks.len()
            invariant
                0 <= i <= self.notebooks@.len(),
                notebooks@.len() == i,
                forall|j: int|
                    0 <= j < i ==> notebook_eq(#[trigger] notebooks@[j], self.notebooks@[j]),
            decreases self.notebooks@.len() - i,
        {
            notebooks.push(self.notebooks[i].duplicate());
            i = i + 1;
        }
        crate::storage::ExportedData {
            version: EXPORT_FORMAT_VERSION,
            exported_at: now,
            notebooks,
            preferences: self.get_preferences(),
            cache_metadata: self.cache.export_metadata(),
        }
    }

    /// Restores a backup: notebooks and preferences are replaced by ID
    /// (upsert), and cache metadata rows are registered without payload
    /// bytes, so they are never valid until fetched again.  A backup whose
    /// metadata would overflow the byte counter is rejected whole, before
    /// anything changes.
    pub fn import_all(&mut self, data: crate::storage::ExportedData) -> (r: Result<
        (u32, u32),
        StorageError,
    >)
        requires
            old(self).wf(),
        ensures
            final(self).wf(),
            crate::cache::hashes_intact(old(self).cache.entries@)
                ==> crate::cache::hashes_intact(final(self).cache.entries@),
            ({
                let rows = data.cache_metadata@;
                if crate::eviction::total_size(metas(old(self).cache.entries@))
                    + crate::eviction::total_size(rows) > u64::MAX {
                    (r matches Result::Err(StorageError::SerializationError { message: _ }))
                        && *final(self) == *old(self)
                } else {
                    (r matches Result::Ok(counts)
                        && counts.0 as int
                            == vstd::math::min(data.notebooks@.len() as int, u32::MAX as int)
                        && counts.1 as int
                            == vstd::math::min(rows.len() as int, u32::MAX as int))
                        && notebooks_eq(
                            final(self).notebooks@,
                            import_nbs(old(self).notebooks@, data.notebooks@),
                        )
                        && (final(self).preferences matches Option::Some(p)
                            && p == data.preferences)
                        && final(self).cache.entries@
                            == register_all(old(self).cache.entries@, rows)
                        && final(self).config == old(self).config
                        && final(self).host_quota == old(self).host_quota
                }
            }),
    {
        let ghost rows_g = data.cache_metadata@;
        let cache_total = self.cache.total_bytes();
        let mut acc: u64 = cache_total;
        let mut fits: bool = true;
        let mut k: usize = 0;
        proof {
            assert(rows_g.take(0) =~= Seq::<crate::storage::CachedParquet>::empty());
        }
        while k < data.cache_metadata.len()
            invariant
                rows_g == data.cache_metadata@,
                cache_total == crate::eviction::total_size(metas(self.cache.entries@)),
                0 <= k <= rows_g.len(),
                fits ==> acc == cache_total + crate::eviction::total_size(rows_g.take(k as int)),
                !fits ==> cache_total + crate::eviction::total_size(rows_g.take(k as int))
                    > u64::MAX,
                *self == *old(self),
            decreases rows_g.len() - k,
        {
            proof {
                crate::cache::lemma_total_size_take_bound(rows_g, k as int + 1);
                crate::eviction::lemma_total_size_push(rows_g.take(k as int), rows_g[k as int]);
                assert(rows_g.take(k as int + 1)
                    =~= rows_g.take(k as int).push(rows_g[k as int]));
            }
            if fits {
                let sz = data.cache_metadata[k].size;
                if sz <= u64::MAX - acc {
                    acc = acc + sz;
                } else {
                    fits = false;
                }
            }
            k = k + 1;
        }
        proof {
            assert(rows_g.take(rows_g.len() as int) =~= rows_g);
        }
        if !fits {
            return Result::Err(StorageError::SerializationError {
                message: String::from_str("imported cache metadata overflows the byte counter"),
            });
        }
        let ghost orig_nbs = self.notebooks@;
        let nb_rows = &data.notebooks;
        let mut k2: usize = 0;
        proof {
            assert(nb_rows@.take(0) =~= Seq::<Notebook>::empty());
            assert(import_nbs(orig_nbs, nb_rows@.take(0)) == orig_nbs);
            assert(notebooks_eq(self.notebooks@, orig_nbs));
        }
        while k2 < nb_rows.len()
            invariant
                nb_rows@ == data.notebooks@,
                0 <= k2 <= nb_rows@.len(),
                notebooks_eq(self.notebooks@, import_nbs(orig_nbs, nb_rows@.take(k2 as int))),
                forall|p: int, q: int|
                    0 <= p < q < self.notebooks@.len()
                        ==> (#[trigger] self.notebooks@[p]).id@
                            != (#[trigger] self.notebooks@[q]).id@,
                self.cache == old(self).cache,
                self.preferences == old(self).preferences,
                self.config == old(self).config,
                self.host_quota == old(self).host_quota,
                self.cache.wf(),
                self.config.wf(),
            decreases nb_rows@.len() - k2,
        {
            let ghost cur = self.notebooks@;
            let ghost fold_k = import_nbs(orig_nbs, nb_rows@.take(k2 as int));
            let ghost row = nb_rows@[k2 as int];
            proof {
                assert(nb_rows@.take(k2 as int + 1) =~= nb_rows@.take(k2 as int).push(row));
                lemma_import_nbs_push(orig_nbs, nb_rows@.take(k2 as int), row);
            }
            let dup = nb_rows[k2].duplicate();
            let ghost dupg = dup;
            match self.find_notebook_index(&nb_rows[k2].id) {
                Option::Some(i) => {
                    proof {
                        lemma_find_nb_eq(cur, fold_k, row.id@);
                        lemma_find_nb_ensures(fold_k, row.id@);
                        assert(cur[i as int].id@ == row.id@);
                        assert(upsert_nb(fold_k, row) == fold_k.update(i as int, row));
                    }
                    self.notebooks.set(i, dup);
                    proof {
                        assert forall|j: int| 0 <= j < self.notebooks@.len()
                            implies notebook_eq(
                                #[trigger] self.notebooks@[j],
                                upsert_nb(fold_k, row)[j],
                            ) by {
                            if j == i as int {
                                assert(self.notebooks@[j] == dupg);
                                assert(notebook_eq(dupg, row));
                            } else {
                                assert(self.notebooks@[j] == cur[j]);
                                assert(notebook_eq(cur[j], fold_k[j]));
                            }
                        }
                        assert forall|p: int, q: int|
                            0 <= p < q < self.notebooks@.len()
                            implies (self.notebooks@[p]).id@ != (self.notebooks@[q]).id@ by {
                            assert(cur[p].id@ != cur[q].id@);
                            if p == i as int {
                                assert(self.notebooks@[p].id@ == row.id@ && row.id@ == cur[p].id@);
                            }
                            if q == i as int {
                                assert(self.notebooks@[q].id@ == row.id@ && row.id@ == cur[q].id@);
                            }
                        }
                    }
                },
                Option::None => {
                    proof {
                        lemma_find_nb_eq(cur, fold_k, row.id@);
                        lemma_find_nb_ensures(cur, row.id@);
                        assert(upsert_nb(fold_k, row) == fold_k.push(row));
                    }
                    self.notebooks.push(dup);
                    proof {
                        assert forall|j: int| 0 <= j < self.notebooks@.len()
                            implies notebook_eq(
                                #[trigger] self.notebooks@[j],
                                upsert_nb(fold_k, row)[j],
                            ) by {
                            if j < cur.len() {
                                assert(self.notebooks@[j] == cur[j]);
                                assert(notebook_eq(cur[j], fold_k[j]));
                            } else {
                                assert(self.notebooks@[j] == dupg);
                                assert(upsert_nb(fold_k, row)[j] == row);
                            }
                        }
                        assert forall|p: int, q: int|
                            0 <= p < q < self.notebooks@.len()
                            implies (self.notebooks@[p]).id@ != (self.notebooks@[q]).id@ by {
                            if q < cur.len() {
                                assert(cur[p].id@ != cur[q].id@);
                            } else {
                                assert(self.notebooks@[q].id@ == dupg.id@ && dupg.id@ == row.id@);
                                assert(cur[p].id@ != row.id@);
                            }
                        }
                    }
                },
            }
            k2 = k2 + 1;
        }
        proof {
            assert(nb_rows@.take(nb_rows@.len() as int) =~= nb_rows@);
        }
        let nb_count: u32 = if data.notebooks.len() > u32::MAX as usize {
            u32::MAX
        } else {
            data.notebooks.len() as u32
        };
        self.preferences = Option::Some(data.preferences);
        let cm_count = self.cache.register_metadata(&data.cache_metadata);
        Result::Ok((nb_count, cm_count))
    }
}

/// Round trip: importing a backup into an empty engine registers exactly
/// the backup's notebooks, in order, and exactly its cache metadata rows
/// as payload-free records.  With the export and import contracts this
/// says that `export_all` followed by `import_all` into an empty engine
/// reproduces the notebooks and the preferences field-for-field and the
/// cache metadata without payload bytes.
pub proof fn lemma_round_trip(nbs: Seq<Notebook>, rows: Seq<crate::storage::CachedParquet>)
    requires
        forall|p: int, q: int|
            0 <= p < q < nbs.len() ==> (#[trigger] nbs[p]).id@ != (#[trigger] nbs[q]).id@,
        forall|p: int, q: int|
            0 <= p < q < rows.len() ==> (#[trigger] rows[p]).url@ != (#[trigger] rows[q]).url@,
    ensures
        import_nbs(Seq::<Notebook>::empty(), nbs) == nbs,
        register_all(Seq::<crate::cache::CacheRecord>::empty(), rows).len() == rows.len(),
        forall|k: int|
            0 <= k < rows.len()
                ==> #[trigger] register_all(Seq::<crate::cache::CacheRecord>::empty(), rows)[k]
                    == (crate::cache::CacheRecord { meta: rows[k], payload: Option::None }),
{
    lemma_import_nbs_disjoint(Seq::<Notebook>::empty(), nbs);
    assert forall|k: int| 0 <= k < nbs.len()
        implies import_nbs(Seq::<Notebook>::empty(), nbs)[k] == nbs[k] by {
        assert(import_nbs(Seq::<Notebook>::empty(), nbs)[0 + k] == nbs[k]);
    }
    assert(import_nbs(Seq::<Notebook>::empty(), nbs) =~= nbs);
    crate::cache::lemma_register_all_disjoint(Seq::<crate::cache::CacheRecord>::empty(), rows);
    assert forall|k: int| 0 <= k < rows.len()
        implies register_all(Seq::<crate::cache::CacheRecord>::empty(), rows)[k]
            == (crate::cache::CacheRecord { meta: rows[k], payload: Option::None }) by {
        assert(register_all(Seq::<crate::cache::CacheRecord>::empty(), rows)[0 + k]
            == (crate::cache::CacheRecord { meta: rows[k], payload: Option::None }));
    }
}

/// The dispatcher's protocol: what each command does to the engine and
/// which single event answers it.  `pre` and `post` are the engine before
/// and after, `now` the time the command is processed at.
pub open spec fn dispatch_post(
    pre: StorageEngine, post: StorageEngine, cmd: crate::storage::StorageCommand, now: u64,
    ev: crate::storage::StorageEvent,
) -> bool {
    match cmd {
        crate::storage::StorageCommand::CheckCache { url, etag } => {
            &&& post == pre
            &&& (ev matches crate::storage::StorageEvent::CacheStatus { url: u, status, metadata }
                && u@ == url@
                && status == crate::cache::validation_of(
                    pre.cache.entries@, url@, etag, now, pre.config,
                )
                && ({
                    let i = crate::cache::find_url(pre.cache.entries@, url@);
                    if i < 0 {
                        metadata is None
                    } else {
                        metadata matches Option::Some(m) && m == pre.cache.entries@[i].meta
                    }
                }))
        },
        crate::storage::StorageCommand::CacheParquet { url, data, etag } => {
            &&& post.notebooks == pre.notebooks
            &&& post.preferences == pre.preferences
            &&& post.config == pre.config
            &&& post.host_quota == pre.host_quota
            &&& ({
                let s0 = pre.cache.entries@;
                let s1 = post.cache.entries@;
                let len = data@.len() as int;
                let i0 = crate::cache::find_url(s0, url@);
                let base0 = crate::eviction::total_size(metas(s0))
                    - (if i0 >= 0 { s0[i0].meta.size as int } else { 0 });
                if len > pre.config.max_cache_size {
                    s1 == s0 && (ev matches crate::storage::StorageEvent::Error { operation, error }
                        && operation@ == "cache_parquet"@
                        && (error matches StorageError::QuotaExceeded { required, available }
                            && required == data@.len()
                            && available == pre.config.max_cache_size))
                } else if base0 + len <= pre.config.max_cache_size {
                    crate::cache::upsert_shape(s0, s1, url@, etag, now, data@)
                        && (ev matches crate::storage::StorageEvent::ParquetCached { url: u, size }
                            && u@ == url@ && size == data@.len())
                } else {
                    let goal = base0 + len - pre.config.target_size;
                    let mid = crate::cache::cleanup_records(
                        s0, goal, 0, pre.config.min_entries as int, now, pre.config,
                    );
                    let i1 = crate::cache::find_url(mid, url@);
                    let base1 = crate::eviction::total_size(metas(mid))
                        - (if i1 >= 0 { mid[i1].meta.size as int } else { 0 });
                    if base1 + len <= pre.config.max_cache_size {
                        crate::cache::upsert_shape(mid, s1, url@, etag, now, data@)
                            && (ev matches crate::storage::StorageEvent::ParquetCached {
                                url: u,
                                size,
                            } && u@ == url@ && size == data@.len())
                    } else {
                        s1 == mid
                            && (ev matches crate::storage::StorageEvent::Error { operation, error }
                                && operation@ == "cache_parquet"@
                                && (error matches StorageError::QuotaExceeded { required, available }
                                    && required == data@.len()
                                    && available == (if base1 >= pre.config.max_cache_size {
                                        0int
                                    } else {
                                        pre.config.max_cache_size - base1
                                    })))
                    }
                }
            })
        },
        crate::storage::StorageCommand::GetCachedParquet { url } => {
            &&& post.notebooks == pre.notebooks
            &&& post.preferences == pre.preferences
            &&& post.config == pre.config
            &&& post.host_quota == pre.host_quota
            &&& ({
                let s0 = pre.cache.entries@;
                let i = crate::cache::find_url(s0, url@);
                &&& i < 0 ==> post == pre
                    && (ev matches crate::storage::StorageEvent::Error { operation, error }
                        && operation@ == "get_cached_parquet"@
                        && (error matches StorageError::NotFound { key } && key@ == url@))
                &&& i >= 0 ==> match s0[i].payload {
                    Option::None => post == pre
                        && (ev matches crate::storage::StorageEvent::Error { operation, error }
                            && operation@ == "get_cached_parquet"@
                            && (error matches StorageError::NotFound { key } && key@ == url@)),
                    Option::Some(p) => {
                        if crate::integrity::hash_hex(p@) == s0[i].meta.content_hash@ {
                            (ev matches crate::storage::StorageEvent::CachedParquetLoaded {
                                url: u,
                                data,
                                metadata,
                            } && u@ == url@
                                && data@ == p@
                                && metadata == crate::cache::touched(s0[i].meta, now))
                                && post.cache.entries@.len() == s0.len()
                                && (forall|j: int| 0 <= j < s0.len() && j != i
                                    ==> post.cache.entries@[j] == s0[j])
                                && post.cache.entries@[i].meta
                                    == crate::cache::touched(s0[i].meta, now)
                                && (post.cache.entries@[i].payload matches Option::Some(q)
                                    && q@ == p@)
                        } else {
                            post == pre
                                && (ev matches crate::storage::StorageEvent::Error {
                                    operation,
                                    error,
                                } && operation@ == "get_cached_parquet"@
                                    && (error matches StorageError::Corrupted { key, message: _ }
                                        && key@ == url@))
                        }
                    },
                }
            })
        },
        crate::storage::StorageCommand::EvictCache { url } => {
            &&& post.notebooks == pre.notebooks
            &&& post.preferences == pre.preferences
            &&& post.config == pre.config
            &&& post.host_quota == pre.host_quota
            &&& ({
                let s0 = pre.cache.entries@;
                let i = crate::cache::find_url(s0, url@);
                if i >= 0 {
                    post.cache.entries@ == s0.remove(i)
                        && (ev matches crate::storage::StorageEvent::CacheEvicted {
                            url: u,
                            freed_bytes,
                        } && u@ == url@ && freed_bytes == s0[i].meta.size)
                } else {
                    post == pre
                        && (ev matches crate::storage::StorageEvent::Error { operation, error }
                            && operation@ == "evict_cache"@
                            && (error matches StorageError::NotFound { key } && key@ == url@))
                }
            })
        },
        crate::storage::StorageCommand::ClearCache => {
            &&& post.notebooks == pre.notebooks
            &&& post.preferences == pre.preferences
            &&& post.config == pre.config
            &&& post.host_quota == pre.host_quota
            &&& post.cache.entries@.len() == 0
            &&& (ev matches crate::storage::StorageEvent::CacheCleared {
                entries_removed,
                bytes_freed,
            } && entries_removed as int
                == vstd::math::min(pre.cache.entries@.len() as int, u32::MAX as int)
                && bytes_freed == crate::eviction::total_size(metas(pre.cache.entries@)))
        },
        crate::storage::StorageCommand::GetCacheStats => {
            &&& post == pre
            &&& (ev matches crate::storage::StorageEvent::CacheStats(st)
                && st.file_count as int
                    == vstd::math::min(pre.cache.entries@.len() as int, u32::MAX as int)
                && st.total_size == crate::eviction::total_size(metas(pre.cache.entries@))
                && st.oldest_entry == crate::cache::oldest_fetch(metas(pre.cache.entries@))
                && st.newest_entry == crate::cache::newest_fetch(metas(pre.cache.entries@)))
        },
        crate::storage::StorageCommand::SaveNotebook { notebook } => {
            &&& post.cache == pre.cache
            &&& post.preferences == pre.preferences
            &&& post.config == pre.config
            &&& post.host_quota == pre.host_quota
            &&& post.notebooks@ == upsert_nb(pre.notebooks@, with_modified(notebook, now))
            &&& (ev matches crate::storage::StorageEvent::NotebookSaved { id, updated_at }
                && id@ == notebook.id@ && updated_at == now)
        },
        crate::storage::StorageCommand::LoadNotebook { id } => {
            &&& post == pre
            &&& ({
                let i = find_nb(pre.notebooks@, id@);
                if i >= 0 {
                    ev matches crate::storage::StorageEvent::NotebookLoaded { notebook }
                        && notebook_eq(notebook, pre.notebooks@[i])
                } else {
                    ev matches crate::storage::StorageEvent::Error { operation, error }
                        && operation@ == "load_notebook"@
                        && (error matches StorageError::NotFound { key } && key@ == id@)
                }
            })
        },
        crate::storage::StorageCommand::DeleteNotebook { id } => {
            &&& post.cache == pre.cache
            &&& post.preferences == pre.preferences
            &&& post.config == pre.config
            &&& post.host_quota == pre.host_quota
            &&& ({
                let i = find_nb(pre.notebooks@, id@);
                if i >= 0 {
                    post.notebooks@ == pre.notebooks@.remove(i)
                        && (ev matches crate::storage::StorageEvent::NotebookDeleted { id: d }
                            && d@ == id@)
                } else {
                    post == pre
                        && (ev matches crate::storage::StorageEvent::Error { operation, error }
                            && operation@ == "delete_notebook"@
                            && (error matches StorageError::NotFound { key } && key@ == id@))
                }
            })
        },
        crate::storage::StorageCommand::ListNotebooks => {
            &&& post == pre
            &&& (ev matches crate::storage::StorageEvent::NotebookList { notebooks }
                && notebooks@.len() == pre.notebooks@.len()
                && (forall|i: int| 0 <= i < notebooks@.len()
                    ==> summary_matches(#[trigger] notebooks@[i], pre.notebooks@[i])))
        },
        crate::storage::StorageCommand::ExportNotebook { id } => {
            &&& post == pre
            &&& ({
                let i = find_nb(pre.notebooks@, id@);
                if i >= 0 {
                    ev matches crate::storage::StorageEvent::NotebookExported { id: d, notebook }
                        && d@ == id@ && notebook_eq(notebook, pre.notebooks@[i])
                } else {
                    ev matches crate::storage::StorageEvent::Error { operation, error }
                        && operation@ == "export_notebook"@
                        && (error matches StorageError::NotFound { key } && key@ == id@)
                }
            })
        },
        crate::storage::StorageCommand::ImportNotebook { notebook } => {
            &&& post.cache == pre.cache
            &&& post.preferences == pre.preferences
            &&& post.config == pre.config
            &&& post.host_quota == pre.host_quota
            &&& post.notebooks@ == upsert_nb(pre.notebooks@, notebook)
            &&& (ev matches crate::storage::StorageEvent::NotebookImported { notebook: nb }
                && notebook_eq(nb, notebook))
        },
        crate::storage::StorageCommand::GetPreferences => {
            &&& post == pre
            &&& (ev matches crate::storage::StorageEvent::PreferencesLoaded { preferences }
                && crate::storage::prefs_view(pre.preferences, preferences))
        },
        crate::storage::StorageCommand::UpdatePreferences { preferences } => {
            &&& post.cache == pre.cache
            &&& post.notebooks == pre.notebooks
            &&& post.config == pre.config
            &&& post.host_quota == pre.host_quota
            &&& (post.preferences matches Option::Some(p) && p == preferences)
            &&& (ev matches crate::storage::StorageEvent::PreferencesUpdated { preferences: q }
                && crate::storage::prefs_eq(q, preferences))
        },
        crate::storage::StorageCommand::ClearPreferences => {
            &&& post.cache == pre.cache
            &&& post.notebooks == pre.notebooks
            &&& post.config == pre.config
            &&& post.host_quota == pre.host_quota
            &&& post.preferences is None
            &&& (ev matches crate::storage::StorageEvent::PreferencesCleared)
        },
        crate::storage::StorageCommand::GetQuota => {
            &&& post == pre
            &&& (ev matches crate::storage::StorageEvent::QuotaInfo(q)
                && q.used == crate::quota::used_bytes_spec(
                    crate::eviction::total_size(metas(pre.cache.entries@)) as u64,
                    pre.notebooks@,
                    pre.preferences,
                )
                && q.total == pre.host_quota
                && q.usage_percent == crate::quota::percent_of(q.used, pre.host_quota)
                && q.available == (match pre.host_quota {
                    Option::None => Option::<u64>::None,
                    Option::Some(t) => Option::Some(
                        if q.used <= t { (t - q.used) as u64 } else { 0u64 },
                    ),
                }))
        },
        crate::storage::StorageCommand::RunCleanup { target_bytes } => {
            &&& post.notebooks == pre.notebooks
            &&& post.preferences == pre.preferences
            &&& post.config == pre.config
            &&& post.host_quota == pre.host_quota
            &&& ({
                let goal = vstd::math::max(
                    target_bytes as int,
                    crate::eviction::total_size(metas(pre.cache.entries@)) - pre.config.target_size,
                );
                let removed = crate::eviction::cleanup_removed(
                    metas(pre.cache.entries@), goal, 0, pre.config.min_entries as int, now,
                    pre.config,
                );
                post.cache.entries@ == crate::cache::cleanup_records(
                    pre.cache.entries@, goal, 0, pre.config.min_entries as int, now, pre.config,
                )
                    && (ev matches crate::storage::StorageEvent::CleanupCompleted {
                        entries_removed,
                        bytes_freed,
                    } && bytes_freed == crate::eviction::total_size(removed)
                        && entries_removed as int
                            == vstd::math::min(removed.len() as int, u32::MAX as int))
            })
        },
        crate::storage::StorageCommand::ExportAll => {
            &&& post == pre
            &&& (ev matches crate::storage::StorageEvent::DataExported { data }
                && data.version == EXPORT_FORMAT_VERSION
                && data.exported_at == now
                && notebooks_eq(data.notebooks@, pre.notebooks@)
                && crate::storage::prefs_view(pre.preferences, data.preferences)
                && data.cache_metadata@ == metas(pre.cache.entries@))
        },
        crate::storage::StorageCommand::ImportAll { data } => {
            &&& ({
                let rows = data.cache_metadata@;
                if crate::eviction::total_size(metas(pre.cache.entries@))
                    + crate::eviction::total_size(rows) > u64::MAX {
                    post == pre
                        && (ev matches crate::storage::StorageEvent::Error { operation, error }
                            && operation@ == "import_all"@
                            && error is SerializationError)
                } else {
                    (ev matches crate::storage::StorageEvent::DataImported {
                        notebooks_count,
                        cache_entries_count,
                    } && notebooks_count as int
                        == vstd::math::min(data.notebooks@.len() as int, u32::MAX as int)
                        && cache_entries_count as int
                            == vstd::math::min(rows.len() as int, u32::MAX as int))
                        && notebooks_eq(
                            post.notebooks@,
                            import_nbs(pre.notebooks@, data.notebooks@),
                        )
                        && (post.preferences matches Option::Some(p) && p == data.preferences)
                        && post.cache.entries@ == register_all(pre.cache.entries@, rows)
                        && post.config == pre.config
                        && post.host_quota == pre.host_quota
                }
            })
        },
    }
}

impl StorageEngine {
    /// The single entry point: routes one command to its owning store and
    /// answers with exactly one event, success or error, never panicking
    /// past this boundary.
    pub fn dispatch(&mut self, cmd: crate::storage::StorageCommand, now: u64) -> (ev:
        crate::storage::StorageEvent)
        requires
            old(self).wf(),
        ensures
            final(self).wf(),
            crate::cache::hashes_intact(old(self).cache.entries@)
                ==> crate::cache::hashes_intact(final(self).cache.entries@),
            dispatch_post(*old(self), *final(self), cmd, now, ev),
    {
        match cmd {
            crate::storage::StorageCommand::CheckCache { url, etag } => {
                let cfg = self.config;
                let (status, metadata) = self.cache.check_cache(&url, &etag, now, &cfg);
                crate::storage::StorageEvent::CacheStatus { url, status, metadata }
            },
            crate::storage::StorageCommand::CacheParquet { url, data, etag } => {
                let cfg = self.config;
                let url_echo = url.clone();
                match self.cache.cache_payload(url, data, etag, now, &cfg) {
                    Result::Ok(m) => crate::storage::StorageEvent::ParquetCached {
                        url: url_echo,
                        size: m.size,
                    },
                    Result::Err(e) => crate::storage::StorageEvent::Error {
                        operation: String::from_str("cache_parquet"),
                        error: e,
                    },
                }
            },
            crate::storage::StorageCommand::GetCachedParquet { url } => {
                match self.cache.get_payload(&url, now) {
                    Result::Ok((data, metadata)) => {
                        crate::storage::StorageEvent::CachedParquetLoaded {
                            url,
                            data,
                            metadata,
                        }
                    },
                    Result::Err(e) => crate::storage::StorageEvent::Error {
                        operation: String::from_str("get_cached_parquet"),
                        error: e,
                    },
                }
            },
            crate::storage::StorageCommand::EvictCache { url } => {
                match self.cache.evict(&url) {
                    Result::Ok(freed_bytes) => crate::storage::StorageEvent::CacheEvicted {
                        url,
                        freed_bytes,
                    },
                    Result::Err(e) => crate::storage::StorageEvent::Error {
                        operation: String::from_str("evict_cache"),
                        error: e,
                    },
                }
            },
            crate::storage::StorageCommand::ClearCache => {
                let (entries_removed, bytes_freed) = self.cache.clear_all();
                crate::storage::StorageEvent::CacheCleared { entries_removed, bytes_freed }
            },
            crate::storage::StorageCommand::GetCacheStats => {
                crate::storage::StorageEvent::CacheStats(self.cache.stats())
            },
            crate::storage::StorageCommand::SaveNotebook { notebook } => {
                let (id, updated_at) = self.save_notebook(notebook, now);
                crate::storage::StorageEvent::NotebookSaved { id, updated_at }
            },
            crate::storage::StorageCommand::LoadNotebook { id } => {
                match self.load_notebook(&id) {
                    Result::Ok(notebook) => crate::storage::StorageEvent::NotebookLoaded {
                        notebook,
                    },
                    Result::Err(e) => crate::storage::StorageEvent::Error {
                        operation: String::from_str("load_notebook"),
                        error: e,
                    },
                }
            },
            crate::storage::StorageCommand::DeleteNotebook { id } => {
                match self.delete_notebook(&id) {
                    Result::Ok(()) => crate::storage::StorageEvent::NotebookDeleted { id },
                    Result::Err(e) => crate::storage::StorageEvent::Error {
                        operation: String::from_str("delete_notebook"),
                        error: e,
                    },
                }
            },
            crate::storage::StorageCommand::ListNotebooks => {
                crate::storage::StorageEvent::NotebookList { notebooks: self.list_notebooks() }
            },
            crate::storage::StorageCommand::ExportNotebook { id } => {
                match self.load_notebook(&id) {
                    Result::Ok(notebook) => crate::storage::StorageEvent::NotebookExported {
                        id,
                        notebook,
                    },
                    Result::Err(e) => crate::storage::StorageEvent::Error {
                        operation: String::from_str("export_notebook"),
                        error: e,
                    },
                }
            },
            crate::storage::StorageCommand::ImportNotebook { notebook } => {
                let echo = notebook.duplicate();
                let _ = self.import_notebook(notebook);
                crate::storage::StorageEvent::NotebookImported { notebook: echo }
            },
            crate::storage::StorageCommand::GetPreferences => {
                crate::storage::StorageEvent::PreferencesLoaded {
                    preferences: self.get_preferences(),
                }
            },
            crate::storage::StorageCommand::UpdatePreferences { preferences } => {
                let echo = preferences.duplicate();
                self.update_preferences(preferences);
                crate::storage::StorageEvent::PreferencesUpdated { preferences: echo }
            },
            crate::storage::StorageCommand::ClearPreferences => {
                self.clear_preferences();
                crate::storage::StorageEvent::PreferencesCleared
            },
            crate::storage::StorageCommand::GetQuota => {
                crate::storage::StorageEvent::QuotaInfo(self.quota_snapshot())
            },
            crate::storage::StorageCommand::RunCleanup { target_bytes } => {
                let cfg = self.config;
                let result = self.cache.run_cleanup(target_bytes, now, &cfg);
                crate::storage::StorageEvent::CleanupCompleted {
                    entries_removed: result.entries_removed,
                    bytes_freed: result.bytes_freed,
                }
            },
            crate::storage::StorageCommand::ExportAll => {
                crate::storage::StorageEvent::DataExported { data: self.export_all(now) }
            },
            crate::storage::StorageCommand::ImportAll { data } => {
                match self.import_all(data) {
                    Result::Ok((notebooks_count, cache_entries_count)) => {
                        crate::storage::StorageEvent::DataImported {
                            notebooks_count,
                            cache_entries_count,
                        }
                    },
                    Result::Err(e) => crate::storage::StorageEvent::Error {
                        operation: String::from_str("import_all"),
                        error: e,
                    },
                }
            },
        }
    }
}

/// Notebook ID uniqueness survives removing one notebook.
pub proof fn lemma_remove_preserves_unique_nb(s: Seq<Notebook>, i: int)
    requires
        0 <= i < s.len(),
        forall|p: int, q: int|
            0 <= p < q < s.len() ==> (#[trigger] s[p]).id@ != (#[trigger] s[q]).id@,
    ensures
        forall|p: int, q: int|
            0 <= p < q < s.remove(i).len()
                ==> (#[trigger] s.remove(i)[p]).id@ != (#[trigger] s.remove(i)[q]).id@,
{
    s.remove_ensures(i);
    assert forall|p: int, q: int|
        0 <= p < q < s.remove(i).len()
        implies (s.remove(i)[p]).id@ != (s.remove(i)[q]).id@ by {
        let p0 = if p < i { p } else { p + 1 };
        let q0 = if q < i { q } else { q + 1 };
        assert(s.remove(i)[p] == s[p0]);
        assert(s.remove(i)[q] == s[q0]);
    }
}

} // verus!
