//! The cache store: the mapping from source URL to cache entry (metadata
//! plus payload bytes) and all read, write and eviction operations over it.
//!
//! Entries imported from a backup carry metadata only; such entries are
//! never reported valid and their payload cannot be read.  Every stored
//! payload is checked against its recorded content hash on read.

use vstd::prelude::*;
use crate::eviction::{
    cleanup_removed, cleanup_remaining, is_forced, total_size, victim_idx, precedes,
    lemma_total_size_nonneg, lemma_total_size_push, lemma_total_size_remove,
    lemma_victim_idx_bounds, precedes_exec, is_forced_exec,
};
use crate::integrity::{content_hash_of, hash_hex};
use crate::storage::{CacheStats, CacheValidation, CachedParquet, EvictionConfig, StorageError};
use crate::text::opt_text_eq_spec;
use vstd::pervasive::VecAdditionalExecFns;
use vstd::string::StringExecFns;

verus! {

/// One cache entry: its metadata and, unless the entry was registered from
/// imported backup metadata, its payload bytes.
#[derive(Debug)]
pub struct CacheRecord {
    /// The entry metadata.
    pub meta: CachedParquet,
    /// The payload bytes; absent for entries registered without content.
    pub payload: Option<Vec<u8>>,
}

/// The metadata of a sequence of records, in order.
pub open spec fn metas(s: Seq<CacheRecord>) -> Seq<CachedParquet> {
    s.map_values(|r: CacheRecord| r.meta)
}

/// The index of the first record with the given URL, or -1 when absent.
pub open spec fn find_url(s: Seq<CacheRecord>, url: Seq<char>) -> int
    decreases s.len(),
{
    if s.len() == 0 {
        -1
    } else if s.first().meta.url@ == url {
        0
    } else {
        let r = find_url(s.drop_first(), url);
        if r < 0 {
            -1
        } else {
            r + 1
        }
    }
}

/// What `find_url` returns: a hit names the first record with that URL, a
/// miss means no record has it.
pub proof fn lemma_find_url_ensures(s: Seq<CacheRecord>, url: Seq<char>)
    ensures
        -1 <= find_url(s, url) < s.len(),
        find_url(s, url) >= 0 ==> s[find_url(s, url)].meta.url@ == url,
        find_url(s, url) < 0 ==> forall|j: int|
            0 <= j < s.len() ==> (#[trigger] s[j]).meta.url@ != url,
        forall|j: int| 0 <= j < find_url(s, url) ==> (#[trigger] s[j]).meta.url@ != url,
    decreases s.len(),
{
    if s.len() > 0 && s.first().meta.url@ != url {
        lemma_find_url_ensures(s.drop_first(), url);
        assert(forall|j: int| 1 <= j < s.len() ==> s[j] == s.drop_first()[j - 1]);
    }
}

/// The first index with a matching URL is exactly `find_url`.
pub proof fn lemma_find_url_at(s: Seq<CacheRecord>, url: Seq<char>, i: int)
    requires
        0 <= i < s.len(),
        s[i].meta.url@ == url,
        forall|j: int| 0 <= j < i ==> (#[trigger] s[j]).meta.url@ != url,
    ensures
        find_url(s, url) == i,
    decreases s.len(),
{
    if i > 0 {
        assert(s[0].meta.url@ != url);
        assert(forall|j: int| 0 <= j < s.drop_first().len() ==> s.drop_first()[j] == s[j + 1]);
        lemma_find_url_at(s.drop_first(), url, i - 1);
    }
}

/// The cache store.  URLs are unique, and the aggregate size fits in a
/// 64-bit byte count.
pub struct CacheStore {
    /// The records, keyed by their metadata URL.  Left open so that the
    /// surrounding system can model the underlying medium — including
    /// bytes changing beneath the store, which a later read detects
    /// through the content hash.
    pub entries: Vec<CacheRecord>,
}

impl CacheStore {
    /// Well-formedness: URLs are unique across entries and the aggregate
    /// size fits the 64-bit byte counter.
    pub open spec fn wf(&self) -> bool {
        &&& forall|i: int, j: int|
            0 <= i < j < self.entries@.len()
                ==> (#[trigger] self.entries@[i]).meta.url@
                    != (#[trigger] self.entries@[j]).meta.url@
        &&& total_size(metas(self.entries@)) <= u64::MAX
    }

    /// The aggregate cache size in the model.
    pub open spec fn spec_total(&self) -> int {
        total_size(metas(self.entries@))
    }

    /// Creates an empty cache store.
    pub fn new() -> (r: Self)
        ensures
            r.wf(),
            r.entries@.len() == 0,
    {
        let r = CacheStore { entries: Vec::new() };
        proof {
            assert(metas(r.entries@) =~= Seq::<CachedParquet>::empty());
        }
        r
    }

    /// Finds the index of the record for a URL.
    fn find_index(&self, url: &String) -> (r: Option<usize>)
        ensures
            match r {
                Option::Some(i) => i < self.entries@.len()
                    && i as int == find_url(self.entries@, url@),
                Option::None => find_url(self.entries@, url@) < 0,
            },
    {
        let mut i: usize = 0;
        while i < self.entries.len()
            invariant
                0 <= i <= self.entries@.len(),
                forall|j: int| 0 <= j < i ==> (#[trigger] self.entries@[j]).meta.url@ != url@,
            decreases self.entries@.len() - i,
        {
            if self.entries[i].meta.url.eq(url) {
                proof {
                    lemma_find_url_at(self.entries@, url@, i as int);
                }
                return Option::Some(i);
            }
            i = i + 1;
        }
        proof {
            lemma_find_url_ensures(self.entries@, url@);
        }
        Option::None
    }

    /// Computes the aggregate cache size.
    pub fn total_bytes(&self) -> (r: u64)
        requires
            self.wf(),
        ensures
            r == self.spec_total(),
    {
        let ghost ms = metas(self.entries@);
        let mut sum: u64 = 0;
        let mut i: usize = 0;
        proof {
            assert(ms.take(0) =~= Seq::<CachedParquet>::empty());
            lemma_total_size_nonneg(ms);
        }
        while i < self.entries.len()
            invariant
                self.wf(),
                ms == metas(self.entries@),
                0 <= i <= self.entries@.len(),
                sum == total_size(ms.take(i as int)),
                total_size(ms.take(i as int)) <= total_size(ms),
            decreases self.entries@.len() - i,
        {
            proof {
                lemma_total_size_take_bound(ms, i as int + 1);
                lemma_total_size_push(ms.take(i as int), ms[i as int]);
                assert(ms.take(i as int + 1) =~= ms.take(i as int).push(ms[i as int]));
                assert(ms[i as int] == self.entries@[i as int].meta);
            }
            sum = sum + self.entries[i].meta.size;
            i = i + 1;
        }
        proof {
            assert(ms.take(ms.len() as int) =~= ms);
        }
        sum
    }

    /// Removes one entry; only the first call for a URL frees its bytes.
    pub fn evict(&mut self, url: &String) -> (r: Result<u64, StorageError>)
        requires
            old(self).wf(),
        ensures
            final(self).wf(),
            hashes_intact(old(self).entries@) ==> hashes_intact(final(self).entries@),
            ({
                let i = find_url(old(self).entries@, url@);
                match r {
                    Result::Ok(freed) => i >= 0
                        && freed == old(self).entries@[i].meta.size
                        && final(self).entries@ == old(self).entries@.remove(i),
                    Result::Err(e) => i < 0
                        && *final(self) == *old(self)
                        && (e matches StorageError::NotFound { key } && key@ == url@),
                }
            }),
    {
        match self.find_index(url) {
            Option::Some(i) => {
                proof {
                    lemma_total_size_nonneg(metas(self.entries@).remove(i as int));
                    lemma_total_size_remove(metas(self.entries@), i as int);
                    assert(metas(self.entries@.remove(i as int))
                        =~= metas(self.entries@).remove(i as int));
                    self.entries@.remove_ensures(i as int);
                }
                let rec = self.entries.remove(i);
                Result::Ok(rec.meta.size)
            },
            Option::None => Result::Err(StorageError::NotFound { key: url.clone() }),
        }
    }

    /// Removes every entry; reports how many entries and bytes went.
    pub fn clear_all(&mut self) -> (r: (u32, u64))
        requires
            old(self).wf(),
        ensures
            final(self).wf(),
            hashes_intact(old(self).entries@) ==> hashes_intact(final(self).entries@),
            final(self).entries@.len() == 0,
            r.0 as int == vstd::math::min(old(self).entries@.len() as int, u32::MAX as int),
            r.1 == total_size(metas(old(self).entries@)),
    {
        let count: u32 = if self.entries.len() > u32::MAX as usize {
            u32::MAX
        } else {
            self.entries.len() as u32
        };
        let bytes = self.total_bytes();
        self.entries.clear();
        proof {
            assert(metas(self.entries@) =~= Seq::<CachedParquet>::empty());
        }
        (count, bytes)
    }
}

/// Hash integrity: every record that holds payload bytes records exactly
/// their content hash.  Every store operation preserves this; only a
/// medium that changes bytes beneath the store can break it, and a read
/// then fails with a corruption error.
pub open spec fn hashes_intact(s: Seq<CacheRecord>) -> bool {
    forall|i: int|
        0 <= i < s.len() ==> match (#[trigger] s[i]).payload {
            Option::Some(p) => s[i].meta.content_hash@ == hash_hex(p@),
            Option::None => true,
        }
}

/// Every element of a sequence of records with one index removed is an
/// element of the original sequence.
pub proof fn lemma_remove_contains_rec(s: Seq<CacheRecord>, i: int, x: CacheRecord)
    requires
        0 <= i < s.len(),
        s.remove(i).contains(x),
    ensures
        s.contains(x),
{
    s.remove_ensures(i);
    let j = choose|j: int| 0 <= j < s.remove(i).len() && s.remove(i)[j] == x;
    if j < i {
        assert(s[j] == x);
    } else {
        assert(s[j + 1] == x);
    }
}

/// Every cleanup survivor was in the store.
pub proof fn lemma_cleanup_records_contains(
    s: Seq<CacheRecord>, goal: int, freed: int, min_entries: int, now: u64, cfg: EvictionConfig,
    x: CacheRecord,
)
    requires
        cleanup_records(s, goal, freed, min_entries, now, cfg).contains(x),
    ensures
        s.contains(x),
    decreases s.len(),
{
    if s.len() == 0 || freed >= goal {
    } else {
        let i = victim_idx(metas(s), now, cfg);
        let e = metas(s)[i];
        lemma_victim_idx_bounds(metas(s), now, cfg);
        if is_forced(e, now, cfg) || s.len() > min_entries {
            lemma_cleanup_records_contains(
                s.remove(i), goal, freed + e.size, min_entries, now, cfg, x,
            );
            lemma_remove_contains_rec(s, i, x);
        }
    }
}

/// A cleanup pass preserves hash integrity.
pub proof fn lemma_cleanup_records_intact(
    s: Seq<CacheRecord>, goal: int, freed: int, min_entries: int, now: u64, cfg: EvictionConfig,
)
    requires
        hashes_intact(s),
    ensures
        hashes_intact(cleanup_records(s, goal, freed, min_entries, now, cfg)),
{
    let rem = cleanup_records(s, goal, freed, min_entries, now, cfg);
    assert forall|i: int| 0 <= i < rem.len() implies match (#[trigger] rem[i]).payload {
        Option::Some(p) => rem[i].meta.content_hash@ == hash_hex(p@),
        Option::None => true,
    } by {
        assert(rem.contains(rem[i]));
        lemma_cleanup_records_contains(s, goal, freed, min_entries, now, cfg, rem[i]);
        let j = choose|j: int| 0 <= j < s.len() && s[j] == rem[i];
        assert(match s[j].payload {
            Option::Some(p) => s[j].meta.content_hash@ == hash_hex(p@),
            Option::None => true,
        });
    }
}

/// Registering metadata rows preserves hash integrity: registered records
/// carry no payload.
pub proof fn lemma_register_all_intact(s: Seq<CacheRecord>, rows: Seq<CachedParquet>)
    requires
        hashes_intact(s),
    ensures
        hashes_intact(register_all(s, rows)),
    decreases rows.len(),
{
    if rows.len() > 0 {
        let m = rows.first();
        let s1 = upsert_meta(s, m);
        let i = find_url(s, m.url@);
        lemma_find_url_ensures(s, m.url@);
        assert forall|k: int| 0 <= k < s1.len() implies match (#[trigger] s1[k]).payload {
            Option::Some(p) => s1[k].meta.content_hash@ == hash_hex(p@),
            Option::None => true,
        } by {
            if i >= 0 && k != i {
                assert(s1[k] == s[k]);
            } else if i < 0 && k < s.len() {
                assert(s1[k] == s[k]);
            }
        }
        lemma_register_all_intact(s1, rows.drop_first());
    }
}

/// The validation state of a URL: `Missing` without an entry, `Stale` when
/// the entry has no local payload, is over-age, or the supplied token
/// differs from the stored one, `Valid` otherwise.
pub open spec fn validation_of(
    s: Seq<CacheRecord>, url: Seq<char>, etag: Option<String>, now: u64, cfg: EvictionConfig,
) -> CacheValidation {
    let i = find_url(s, url);
    if i < 0 {
        CacheValidation::Missing
    } else {
        let rec = s[i];
        if rec.payload is None {
            CacheValidation::Stale
        } else if is_forced(rec.meta, now, cfg) {
            CacheValidation::Stale
        } else {
            match etag {
                Option::None => CacheValidation::Valid,
                Option::Some(t) => if rec.meta.etag matches Option::Some(mt) && mt@ == t@ {
                    CacheValidation::Valid
                } else {
                    CacheValidation::Stale
                },
            }
        }
    }
}

/// The metadata record after a successful read at time `now`: the last
/// access time moves forward, never backward.
pub open spec fn touched(m: CachedParquet, now: u64) -> CachedParquet {
    CachedParquet {
        url: m.url,
        size: m.size,
        etag: m.etag,
        fetched_at: m.fetched_at,
        last_accessed: if now > m.last_accessed { now } else { m.last_accessed },
        content_hash: m.content_hash,
    }
}

/// The oldest fetch timestamp across entries, absent when there are none.
pub open spec fn oldest_fetch(s: Seq<CachedParquet>) -> Option<u64>
    decreases s.len(),
{
    if s.len() == 0 {
        Option::None
    } else {
        match oldest_fetch(s.drop_last()) {
            Option::None => Option::Some(s.last().fetched_at),
            Option::Some(m) => Option::Some(
                if s.last().fetched_at < m { s.last().fetched_at } else { m },
            ),
        }
    }
}

/// The newest fetch timestamp across entries, absent when there are none.
pub open spec fn newest_fetch(s: Seq<CachedParquet>) -> Option<u64>
    decreases s.len(),
{
    if s.len() == 0 {
        Option::None
    } else {
        match newest_fetch(s.drop_last()) {
            Option::None => Option::Some(s.last().fetched_at),
            Option::Some(m) => Option::Some(
                if s.last().fetched_at > m { s.last().fetched_at } else { m },
            ),
        }
    }
}

/// Copies a byte vector.
pub fn duplicate_bytes(v: &Vec<u8>) -> (r: Vec<u8>)
    ensures
        r@ == v@,
{
    let mut r: Vec<u8> = Vec::new();
    let mut i: usize = 0;
    while i < v.len()
        invariant
            0 <= i <= v@.len(),
            r@ =~= v@.take(i as int),
        decreases v@.len() - i,
    {
        r.push(v[i]);
        proof {
            assert(v@.take(i as int + 1) =~= v@.take(i as int).push(v@[i as int]));
        }
        i = i + 1;
    }
    proof {
        assert(v@.take(v@.len() as int) =~= v@);
    }
    r
}

impl CacheStore {
    /// Looks up the validation state of a URL against an optional token.
    /// A pure check: last-access times are not updated.
    pub fn check_cache(
        &self, url: &String, etag: &Option<String>, now: u64, cfg: &EvictionConfig,
    ) -> (r: (CacheValidation, Option<CachedParquet>))
        ensures
            r.0 == validation_of(self.entries@, url@, *etag, now, *cfg),
            ({
                let i = find_url(self.entries@, url@);
                if i < 0 {
                    r.1 is None
                } else {
                    r.1 matches Option::Some(m) && m == self.entries@[i].meta
                }
            }),
    {
        match self.find_index(url) {
            Option::None => (CacheValidation::Missing, Option::None),
            Option::Some(i) => {
                let rec = &self.entries[i];
                let status = match &rec.payload {
                    Option::None => CacheValidation::Stale,
                    Option::Some(_) => {
                        if is_forced_exec(&rec.meta, now, cfg) {
                            CacheValidation::Stale
                        } else {
                            match etag {
                                Option::None => CacheValidation::Valid,
                                Option::Some(t) => match &rec.meta.etag {
                                    Option::Some(mt) => if mt.eq(t) {
                                        CacheValidation::Valid
                                    } else {
                                        CacheValidation::Stale
                                    },
                                    Option::None => CacheValidation::Stale,
                                },
                            }
                        }
                    },
                };
                (status, Option::Some(rec.meta.duplicate()))
            },
        }
    }

    /// Reports entry count, aggregate size, and the oldest and newest fetch
    /// timestamps.
    pub fn stats(&self) -> (r: CacheStats)
        requires
            self.wf(),
        ensures
            r.file_count as int
                == vstd::math::min(self.entries@.len() as int, u32::MAX as int),
            r.total_size == self.spec_total(),
            r.oldest_entry == oldest_fetch(metas(self.entries@)),
            r.newest_entry == newest_fetch(metas(self.entries@)),
    {
        let ghost ms = metas(self.entries@);
        let count: u32 = if self.entries.len() > u32::MAX as usize {
            u32::MAX
        } else {
            self.entries.len() as u32
        };
        let bytes = self.total_bytes();
        let mut oldest: Option<u64> = Option::None;
        let mut newest: Option<u64> = Option::None;
        let mut i: usize = 0;
        proof {
            assert(ms.take(0) =~= Seq::<CachedParquet>::empty());
        }
        while i < self.entries.len()
            invariant
                ms == metas(self.entries@),
                0 <= i <= self.entries@.len(),
                oldest == oldest_fetch(ms.take(i as int)),
                newest == newest_fetch(ms.take(i as int)),
            decreases self.entries@.len() - i,
        {
            proof {
                assert(ms.take(i as int + 1).drop_last() =~= ms.take(i as int));
                assert(ms.take(i as int + 1).last() == ms[i as int]);
                assert(ms[i as int] == self.entries@[i as int].meta);
            }
            let f = self.entries[i].meta.fetched_at;
            oldest = match oldest {
                Option::None => Option::Some(f),
                Option::Some(m) => Option::Some(if f < m { f } else { m }),
            };
            newest = match newest {
                Option::None => Option::Some(f),
                Option::Some(m) => Option::Some(if f > m { f } else { m }),
            };
            i = i + 1;
        }
        proof {
            assert(ms.take(ms.len() as int) =~= ms);
        }
        CacheStats { file_count: count, total_size: bytes, oldest_entry: oldest, newest_entry: newest }
    }

    /// Returns the payload and metadata for a URL.  On success the entry's
    /// last-access time is updated before the payload is returned.  The
    /// payload is checked against the stored content hash; on a mismatch
    /// the read fails with a corruption error and the entry stays in place
    /// for inspection.
    pub fn get_payload(&mut self, url: &String, now: u64) -> (r: Result<
        (Vec<u8>, CachedParquet),
        StorageError,
    >)
        requires
            old(self).wf(),
        ensures
            final(self).wf(),
            hashes_intact(old(self).entries@) ==> hashes_intact(final(self).entries@),
            ({
                let i = find_url(old(self).entries@, url@);
                &&& i < 0 ==> ((r matches Result::Err(StorageError::NotFound { key })
                    && key@ == url@) && *final(self) == *old(self))
                &&& i >= 0 ==> match old(self).entries@[i].payload {
                    Option::None => (r matches Result::Err(StorageError::NotFound { key })
                        && key@ == url@) && *final(self) == *old(self),
                    Option::Some(p) => {
                        if hash_hex(p@) == old(self).entries@[i].meta.content_hash@ {
                            r matches Result::Ok((data, meta))
                                && data@ == p@
                                && meta == touched(old(self).entries@[i].meta, now)
                                && final(self).entries@.len() == old(self).entries@.len()
                                && (forall|j: int| 0 <= j < old(self).entries@.len() && j != i
                                    ==> final(self).entries@[j] == old(self).entries@[j])
                                && final(self).entries@[i].meta
                                    == touched(old(self).entries@[i].meta, now)
                                && (final(self).entries@[i].payload matches Option::Some(q)
                                    && q@ == p@)
                        } else {
                            (r matches Result::Err(StorageError::Corrupted { key, message: _ })
                                && key@ == url@)
                                && *final(self) == *old(self)
                        }
                    },
                }
            }),
    {
        let i = match self.find_index(url) {
            Option::None => {
                return Result::Err(StorageError::NotFound { key: url.clone() });
            },
            Option::Some(i) => i,
        };
        let has_payload = self.entries[i].payload.is_some();
        if !has_payload {
            return Result::Err(StorageError::NotFound { key: url.clone() });
        }
        let (data, ok) = match &self.entries[i].payload {
            Option::Some(p) => {
                let recomputed = content_hash_of(p);
                let matches_hash = recomputed.eq(&self.entries[i].meta.content_hash);
                (duplicate_bytes(p), matches_hash)
            },
            Option::None => {
                return Result::Err(StorageError::NotFound { key: url.clone() });
            },
        };
        if !ok {
            return Result::Err(StorageError::Corrupted {
                key: url.clone(),
                message: String::from_str("content hash mismatch"),
            });
        }
        let old_meta = self.entries[i].meta.duplicate();
        let new_la = if now > old_meta.last_accessed { now } else { old_meta.last_accessed };
        let new_meta = CachedParquet {
            url: old_meta.url,
            size: old_meta.size,
            etag: old_meta.etag,
            fetched_at: old_meta.fetched_at,
            last_accessed: new_la,
            content_hash: old_meta.content_hash,
        };
        let stored_payload = duplicate_bytes(&data);
        let returned_meta = new_meta.duplicate();
        proof {
            let ghost s0 = self.entries@;
            let i_int = i as int;
            assert(metas(s0.update(i_int, CacheRecord {
                meta: new_meta,
                payload: Option::Some(stored_payload),
            })) =~= metas(s0).update(i_int, new_meta));
            lemma_total_size_update(metas(s0), i_int, new_meta);
        }
        self.entries.set(i, CacheRecord { meta: new_meta, payload: Option::Some(stored_payload) });
        Result::Ok((data, returned_meta))
    }
}

/// The records that survive a cleanup pass, in their original order: the
/// record-level mirror of `cleanup_remaining` over the metadata.
pub open spec fn cleanup_records(
    s: Seq<CacheRecord>, goal: int, freed: int, min_entries: int, now: u64, cfg: EvictionConfig,
) -> Seq<CacheRecord>
    decreases s.len(),
    via cleanup_records_decreases
{
    if s.len() == 0 || freed >= goal {
        s
    } else {
        let i = victim_idx(metas(s), now, cfg);
        let e = metas(s)[i];
        if is_forced(e, now, cfg) || s.len() > min_entries {
            cleanup_records(s.remove(i), goal, freed + e.size, min_entries, now, cfg)
        } else {
            s
        }
    }
}

#[via_fn]
proof fn cleanup_records_decreases(
    s: Seq<CacheRecord>, goal: int, freed: int, min_entries: int, now: u64, cfg: EvictionConfig,
) {
    if s.len() != 0 && freed < goal {
        lemma_victim_idx_bounds(metas(s), now, cfg);
        s.remove_ensures(victim_idx(metas(s), now, cfg));
    }
}

/// Removing a record removes its metadata at the same index.
pub proof fn lemma_metas_remove(s: Seq<CacheRecord>, i: int)
    requires
        0 <= i < s.len(),
    ensures
        metas(s.remove(i)) == metas(s).remove(i),
{
    s.remove_ensures(i);
    metas(s).remove_ensures(i);
    assert(metas(s.remove(i)) =~= metas(s).remove(i));
}

/// The metadata of the cleanup survivors is the metadata-level cleanup.
pub proof fn lemma_cleanup_records_metas(
    s: Seq<CacheRecord>, goal: int, freed: int, min_entries: int, now: u64, cfg: EvictionConfig,
)
    ensures
        metas(cleanup_records(s, goal, freed, min_entries, now, cfg))
            == cleanup_remaining(metas(s), goal, freed, min_entries, now, cfg),
    decreases s.len(),
{
    if s.len() == 0 || freed >= goal {
    } else {
        let i = victim_idx(metas(s), now, cfg);
        let e = metas(s)[i];
        lemma_victim_idx_bounds(metas(s), now, cfg);
        if is_forced(e, now, cfg) || s.len() > min_entries {
            lemma_metas_remove(s, i);
            lemma_cleanup_records_metas(s.remove(i), goal, freed + e.size, min_entries, now, cfg);
        }
    }
}

/// URL uniqueness survives removing one record.
pub proof fn lemma_remove_preserves_unique(s: Seq<CacheRecord>, i: int)
    requires
        0 <= i < s.len(),
        forall|p: int, q: int|
            0 <= p < q < s.len()
                ==> (#[trigger] s[p]).meta.url@ != (#[trigger] s[q]).meta.url@,
    ensures
        forall|p: int, q: int|
            0 <= p < q < s.remove(i).len()
                ==> (#[trigger] s.remove(i)[p]).meta.url@ != (#[trigger] s.remove(i)[q]).meta.url@,
{
    s.remove_ensures(i);
    assert forall|p: int, q: int|
        0 <= p < q < s.remove(i).len()
        implies (s.remove(i)[p]).meta.url@ != (s.remove(i)[q]).meta.url@ by {
        let p0 = if p < i { p } else { p + 1 };
        let q0 = if q < i { q } else { q + 1 };
        assert(s.remove(i)[p] == s[p0]);
        assert(s.remove(i)[q] == s[q0]);
    }
}

impl CacheStore {
    /// The index of the record whose metadata leaves first.
    fn victim_scan_records(&self, now: u64, cfg: &EvictionConfig) -> (r: usize)
        requires
            self.entries@.len() > 0,
        ensures
            r < self.entries@.len(),
            r as int == victim_idx(metas(self.entries@), now, *cfg),
    {
        let ghost ms = metas(self.entries@);
        let mut best: usize = 0;
        let mut j: usize = 1;
        proof {
            assert(ms.take(1).len() == 1);
            assert(victim_idx(ms.take(1), now, *cfg) == 0);
        }
        while j < self.entries.len()
            invariant
                ms == metas(self.entries@),
                1 <= j <= ms.len(),
                ms.len() == self.entries@.len(),
                best < j,
                best as int == victim_idx(ms.take(j as int), now, *cfg),
            decreases ms.len() - j,
        {
            proof {
                let t1 = ms.take(j as int + 1);
                assert(t1.drop_last() =~= ms.take(j as int));
                assert(t1.last() == ms[j as int]);
                assert(t1[best as int] == ms[best as int]);
                assert(ms[j as int] == self.entries@[j as int].meta);
                assert(ms[best as int] == self.entries@[best as int].meta);
                assert(victim_idx(t1, now, *cfg)
                    == if precedes(ms[j as int], ms[best as int], now, *cfg) {
                        j as int
                    } else {
                        best as int
                    });
            }
            if precedes_exec(&self.entries[j].meta, &self.entries[best].meta, now, cfg) {
                best = j;
            }
            j = j + 1;
        }
        proof {
            assert(ms.take(ms.len() as int) =~= ms);
        }
        best
    }

    /// One eviction pass over the store: drains entries in the policy's
    /// order until `goal` bytes are freed, never removing a normal entry
    /// when at most `min_entries` would remain.  Returns entries removed
    /// (saturating) and bytes freed.
    fn apply_cleanup(&mut self, goal: u128, now: u64, cfg: &EvictionConfig) -> (r: (u32, u64))
        requires
            old(self).wf(),
        ensures
            final(self).wf(),
            hashes_intact(old(self).entries@) ==> hashes_intact(final(self).entries@),
            final(self).entries@ == cleanup_records(
                old(self).entries@, goal as int, 0, cfg.min_entries as int, now, *cfg,
            ),
            r.1 == total_size(cleanup_removed(
                metas(old(self).entries@), goal as int, 0, cfg.min_entries as int, now, *cfg,
            )),
            r.0 as int == vstd::math::min(
                cleanup_removed(
                    metas(old(self).entries@), goal as int, 0, cfg.min_entries as int, now, *cfg,
                ).len() as int,
                u32::MAX as int,
            ),
    {
        let ghost orig: Seq<CacheRecord> = self.entries@;
        let ghost goal_i: int = goal as int;
        let ghost min_e: int = cfg.min_entries as int;
        let ghost cfgv: EvictionConfig = *cfg;
        let mut freed: u64 = 0;
        let mut count: u32 = 0;
        let ghost mut removed_g: Seq<CachedParquet> = Seq::empty();
        proof {
            lemma_total_size_nonneg(metas(orig));
            assert(removed_g + cleanup_removed(metas(self.entries@), goal_i, 0, min_e, now, cfgv)
                =~= cleanup_removed(metas(orig), goal_i, 0, min_e, now, cfgv));
        }
        loop
            invariant
                self.wf(),
                total_size(metas(self.entries@)) + freed == total_size(metas(orig)),
                total_size(metas(orig)) <= u64::MAX,
                freed == total_size(removed_g),
                cleanup_removed(metas(orig), goal_i, 0, min_e, now, cfgv)
                    == removed_g + cleanup_removed(
                        metas(self.entries@), goal_i, freed as int, min_e, now, cfgv,
                    ),
                cleanup_records(orig, goal_i, 0, min_e, now, cfgv)
                    == cleanup_records(self.entries@, goal_i, freed as int, min_e, now, cfgv),
                count as int == vstd::math::min(removed_g.len() as int, u32::MAX as int),
                goal_i == goal as int,
                min_e == cfg.min_entries as int,
                cfgv == *cfg,
            ensures
                cleanup_removed(metas(self.entries@), goal_i, freed as int, min_e, now, cfgv)
                    =~= Seq::<CachedParquet>::empty(),
                cleanup_records(self.entries@, goal_i, freed as int, min_e, now, cfgv)
                    == self.entries@,
            decreases self.entries@.len(),
        {
            if (freed as u128) >= goal {
                break;
            }
            if self.entries.len() == 0 {
                break;
            }
            let i = self.victim_scan_records(now, cfg);
            let forced = is_forced_exec(&self.entries[i].meta, now, cfg);
            if !(forced || self.entries.len() > cfg.min_entries as usize) {
                break;
            }
            proof {
                let ms = metas(self.entries@);
                lemma_metas_remove(self.entries@, i as int);
                lemma_total_size_remove(ms, i as int);
                lemma_total_size_nonneg(ms.remove(i as int));
                lemma_total_size_push(removed_g, ms[i as int]);
                lemma_remove_preserves_unique(self.entries@, i as int);
                assert(ms[i as int] == self.entries@[i as int].meta);
                assert(cleanup_removed(ms, goal_i, freed as int, min_e, now, cfgv)
                    =~= seq![ms[i as int]] + cleanup_removed(
                        ms.remove(i as int), goal_i, freed as int + ms[i as int].size,
                        min_e, now, cfgv,
                    ));
                assert(removed_g + cleanup_removed(ms, goal_i, freed as int, min_e, now, cfgv)
                    =~= removed_g.push(ms[i as int]) + cleanup_removed(
                        ms.remove(i as int), goal_i, freed as int + ms[i as int].size,
                        min_e, now, cfgv,
                    ));
                assert(cleanup_records(self.entries@, goal_i, freed as int, min_e, now, cfgv)
                    == cleanup_records(
                        self.entries@.remove(i as int), goal_i,
                        freed as int + ms[i as int].size, min_e, now, cfgv,
                    ));
            }
            let rec = self.entries.remove(i);
            freed = freed + rec.meta.size;
            count = if count < u32::MAX { count + 1 } else { count };
            proof {
                removed_g = removed_g.push(rec.meta);
            }
        }
        proof {
            assert(cleanup_removed(metas(orig), goal_i, 0, min_e, now, cfgv) =~= removed_g);
            if hashes_intact(orig) {
                lemma_cleanup_records_intact(orig, goal_i, 0, min_e, now, cfgv);
            }
        }
        (count, freed)
    }

    /// Explicit cleanup: frees at least `target_bytes`, and in any case
    /// enough to bring the cache back under the configured low-water mark,
    /// within the policy's retention rules.
    pub fn run_cleanup(&mut self, target_bytes: u64, now: u64, cfg: &EvictionConfig) -> (r:
        crate::storage::EvictionResult)
        requires
            old(self).wf(),
        ensures
            final(self).wf(),
            hashes_intact(old(self).entries@) ==> hashes_intact(final(self).entries@),
            ({
                let goal = vstd::math::max(
                    target_bytes as int,
                    total_size(metas(old(self).entries@)) - cfg.target_size,
                );
                let removed = cleanup_removed(
                    metas(old(self).entries@), goal, 0, cfg.min_entries as int, now, *cfg,
                );
                &&& final(self).entries@ == cleanup_records(
                    old(self).entries@, goal, 0, cfg.min_entries as int, now, *cfg,
                )
                &&& metas(final(self).entries@) == cleanup_remaining(
                    metas(old(self).entries@), goal, 0, cfg.min_entries as int, now, *cfg,
                )
                &&& r.bytes_freed == total_size(removed)
                &&& r.entries_removed as int == vstd::math::min(removed.len() as int, u32::MAX as int)
            }),
    {
        let total = self.total_bytes();
        let over: u64 = if total > cfg.target_size {
            total - cfg.target_size
        } else {
            0
        };
        let goal: u64 = if over > target_bytes {
            over
        } else {
            target_bytes
        };
        proof {
            lemma_total_size_nonneg(metas(self.entries@));
        }
        let ghost orig = self.entries@;
        let (entries_removed, bytes_freed) = self.apply_cleanup(goal as u128, now, cfg);
        proof {
            lemma_cleanup_records_metas(
                orig, goal as int, 0, cfg.min_entries as int, now, *cfg,
            );
        }
        crate::storage::EvictionResult { entries_removed, bytes_freed }
    }
}

/// What the metadata of a freshly written entry holds: the key, the
/// payload size, the supplied token, both timestamps at `now`, and the
/// content hash of the payload.
pub open spec fn fresh_meta_matches(
    m: CachedParquet, url: Seq<char>, etag: Option<String>, now: u64, content: Seq<u8>,
) -> bool {
    &&& m.url@ == url
    &&& m.size == content.len()
    &&& opt_text_eq_spec(m.etag, etag)
    &&& m.fetched_at == now
    &&& m.last_accessed == now
    &&& m.content_hash@ == hash_hex(content)
}

/// The shape of a store after writing one entry: the record for the URL is
/// fresh and holds the payload; every other record is untouched; a prior
/// record for the URL was replaced in place, otherwise the entry is new at
/// the end.
pub open spec fn upsert_shape(
    s0: Seq<CacheRecord>, s1: Seq<CacheRecord>, url: Seq<char>, etag: Option<String>, now: u64,
    content: Seq<u8>,
) -> bool {
    let i = find_url(s0, url);
    if i >= 0 {
        &&& s1.len() == s0.len()
        &&& forall|j: int| 0 <= j < s0.len() && j != i ==> s1[j] == s0[j]
        &&& fresh_meta_matches(s1[i].meta, url, etag, now, content)
        &&& (s1[i].payload matches Option::Some(q) && q@ == content)
    } else {
        &&& s1.len() == s0.len() + 1
        &&& forall|j: int| 0 <= j < s0.len() ==> s1[j] == s0[j]
        &&& fresh_meta_matches(s1[s0.len() as int].meta, url, etag, now, content)
        &&& (s1[s0.len() as int].payload matches Option::Some(q) && q@ == content)
    }
}

/// One entry's size never exceeds the aggregate.
pub proof fn lemma_total_size_element_bound(s: Seq<CachedParquet>, i: int)
    requires
        0 <= i < s.len(),
    ensures
        s[i].size <= total_size(s),
{
    lemma_total_size_split(s, i);
    lemma_total_size_nonneg(s.take(i));
    assert(s.skip(i).first() == s[i]);
    assert(s.skip(i).drop_first() =~= s.skip(i + 1));
    assert(total_size(s.skip(i)) == s[i].size + total_size(s.skip(i + 1)));
    lemma_total_size_nonneg(s.skip(i + 1));
}

impl CacheStore {
    /// Writes a fresh record for the URL, replacing any prior one in place.
    fn upsert_record(&mut self, url: String, payload: Vec<u8>, etag: Option<String>, now: u64)
        -> (meta: CachedParquet)
        requires
            old(self).wf(),
            ({
                let i = find_url(old(self).entries@, url@);
                total_size(metas(old(self).entries@))
                    - (if i >= 0 { old(self).entries@[i].meta.size as int } else { 0 })
                    + payload@.len() <= u64::MAX
            }),
        ensures
            final(self).wf(),
            hashes_intact(old(self).entries@) ==> hashes_intact(final(self).entries@),
            fresh_meta_matches(meta, url@, etag, now, payload@),
            upsert_shape(old(self).entries@, final(self).entries@, url@, etag, now, payload@),
            total_size(metas(final(self).entries@))
                == total_size(metas(old(self).entries@))
                    - ({
                        let i = find_url(old(self).entries@, url@);
                        if i >= 0 { old(self).entries@[i].meta.size as int } else { 0 }
                    })
                    + payload@.len(),
    {
        let idx = self.find_index(&url);
        let size: u64 = payload.len() as u64;
        let hash = content_hash_of(&payload);
        let meta = CachedParquet {
            url,
            size,
            etag,
            fetched_at: now,
            last_accessed: now,
            content_hash: hash,
        };
        let ret = meta.duplicate();
        let ghost s0 = self.entries@;
        let ghost m = meta;
        match idx {
            Option::Some(i) => {
                proof {
                    lemma_find_url_ensures(s0, m.url@);
                    assert(metas(s0.update(i as int, CacheRecord {
                        meta: m,
                        payload: Option::Some(payload),
                    })) =~= metas(s0).update(i as int, m));
                    lemma_total_size_update(metas(s0), i as int, m);
                }
                self.entries.set(i, CacheRecord { meta, payload: Option::Some(payload) });
                proof {
                    assert forall|p: int, q: int|
                        0 <= p < q < self.entries@.len()
                        implies (self.entries@[p]).meta.url@ != (self.entries@[q]).meta.url@ by {
                        assert(s0[p].meta.url@ != s0[q].meta.url@);
                        if p == i as int {
                            assert(self.entries@[p].meta.url@ == s0[p].meta.url@);
                        }
                        if q == i as int {
                            assert(self.entries@[q].meta.url@ == s0[q].meta.url@);
                        }
                    }
                }
            },
            Option::None => {
                proof {
                    lemma_find_url_ensures(s0, m.url@);
                    assert(metas(s0.push(CacheRecord { meta: m, payload: Option::Some(payload) }))
                        =~= metas(s0).push(m));
                    lemma_total_size_push(metas(s0), m);
                }
                self.entries.push(CacheRecord { meta, payload: Option::Some(payload) });
                proof {
                    assert forall|p: int, q: int|
                        0 <= p < q < self.entries@.len()
                        implies (self.entries@[p]).meta.url@ != (self.entries@[q]).meta.url@ by {
                        if q < s0.len() {
                            assert(s0[p].meta.url@ != s0[q].meta.url@);
                        } else {
                            assert(self.entries@[q].meta.url@ == m.url@);
                            assert(s0[p].meta.url@ != m.url@);
                        }
                    }
                }
            },
        }
        ret
    }

    /// Stores a payload under its URL: computes the content hash, records
    /// the size and both timestamps, and atomically replaces any prior
    /// entry.  A payload larger than the whole budget is rejected without
    /// touching the cache.  A write that would push the aggregate size over
    /// the budget first triggers one automatic cleanup pass aiming at the
    /// low-water mark and is then retried once; if the budget still cannot
    /// hold it, the write fails and only the cleanup's evictions remain.
    pub fn cache_payload(
        &mut self, url: String, payload: Vec<u8>, etag: Option<String>, now: u64,
        cfg: &EvictionConfig,
    ) -> (r: Result<CachedParquet, StorageError>)
        requires
            old(self).wf(),
            cfg.wf(),
        ensures
            final(self).wf(),
            hashes_intact(old(self).entries@) ==> hashes_intact(final(self).entries@),
            ({
                let s0 = old(self).entries@;
                let len = payload@.len() as int;
                let i0 = find_url(s0, url@);
                let base0 = total_size(metas(s0))
                    - (if i0 >= 0 { s0[i0].meta.size as int } else { 0 });
                if len > cfg.max_cache_size {
                    (r matches Result::Err(StorageError::QuotaExceeded { required, available })
                        && required == payload@.len()
                        && available == cfg.max_cache_size)
                        && *final(self) == *old(self)
                } else if base0 + len <= cfg.max_cache_size {
                    (r matches Result::Ok(m)
                        && fresh_meta_matches(m, url@, etag, now, payload@))
                        && upsert_shape(s0, final(self).entries@, url@, etag, now, payload@)
                } else {
                    let goal = base0 + len - cfg.target_size;
                    let mid = cleanup_records(s0, goal, 0, cfg.min_entries as int, now, *cfg);
                    let i1 = find_url(mid, url@);
                    let base1 = total_size(metas(mid))
                        - (if i1 >= 0 { mid[i1].meta.size as int } else { 0 });
                    if base1 + len <= cfg.max_cache_size {
                        (r matches Result::Ok(m)
                            && fresh_meta_matches(m, url@, etag, now, payload@))
                            && upsert_shape(mid, final(self).entries@, url@, etag, now, payload@)
                    } else {
                        (r matches Result::Err(
                            StorageError::QuotaExceeded { required, available },
                        )
                            && required == payload@.len()
                            && available == (if base1 >= cfg.max_cache_size {
                                0int
                            } else {
                                cfg.max_cache_size - base1
                            }))
                            && final(self).entries@ == mid
                    }
                }
            }),
    {
        let len64: u64 = payload.len() as u64;
        if len64 > cfg.max_cache_size {
            return Result::Err(StorageError::QuotaExceeded {
                required: len64,
                available: cfg.max_cache_size,
            });
        }
        let cur: u64 = match self.find_index(&url) {
            Option::Some(i) => {
                proof {
                    lemma_total_size_element_bound(metas(self.entries@), i as int);
                    assert(metas(self.entries@)[i as int] == self.entries@[i as int].meta);
                }
                self.entries[i].meta.size
            },
            Option::None => 0,
        };
        let total = self.total_bytes();
        let base: u64 = total - cur;
        if (base as u128) + (len64 as u128) <= (cfg.max_cache_size as u128) {
            let m = self.upsert_record(url, payload, etag, now);
            return Result::Ok(m);
        }
        let goal: u128 = (base as u128) + (len64 as u128) - (cfg.target_size as u128);
        let _pass = self.apply_cleanup(goal, now, cfg);
        let cur1: u64 = match self.find_index(&url) {
            Option::Some(i) => {
                proof {
                    lemma_total_size_element_bound(metas(self.entries@), i as int);
                    assert(metas(self.entries@)[i as int] == self.entries@[i as int].meta);
                }
                self.entries[i].meta.size
            },
            Option::None => 0,
        };
        let total1 = self.total_bytes();
        let base1: u64 = total1 - cur1;
        if (base1 as u128) + (len64 as u128) <= (cfg.max_cache_size as u128) {
            let m = self.upsert_record(url, payload, etag, now);
            Result::Ok(m)
        } else {
            let avail: u64 = if base1 >= cfg.max_cache_size {
                0
            } else {
                cfg.max_cache_size - base1
            };
            Result::Err(StorageError::QuotaExceeded { required: len64, available: avail })
        }
    }
}

/// Registering one metadata row: it replaces the record with its URL in
/// place, or extends the store, and carries no payload.
pub open spec fn upsert_meta(s: Seq<CacheRecord>, m: CachedParquet) -> Seq<CacheRecord> {
    let i = find_url(s, m.url@);
    let rec = CacheRecord { meta: m, payload: Option::None };
    if i >= 0 {
        s.update(i, rec)
    } else {
        s.push(rec)
    }
}

/// Registering a sequence of metadata rows, first row first.
pub open spec fn register_all(s: Seq<CacheRecord>, rows: Seq<CachedParquet>) -> Seq<CacheRecord>
    decreases rows.len(),
{
    if rows.len() == 0 {
        s
    } else {
        register_all(upsert_meta(s, rows.first()), rows.drop_first())
    }
}

/// Registering one more row registers it into the fold so far.
pub proof fn lemma_register_all_push(s: Seq<CacheRecord>, rows: Seq<CachedParquet>, m: CachedParquet)
    ensures
        register_all(s, rows.push(m)) == upsert_meta(register_all(s, rows), m),
    decreases rows.len(),
{
    if rows.len() == 0 {
        assert(rows.push(m).first() == m);
        assert(rows.push(m).drop_first() =~= Seq::<CachedParquet>::empty());
        assert(register_all(upsert_meta(s, m), Seq::<CachedParquet>::empty())
            == upsert_meta(s, m));
    } else {
        assert(rows.push(m).first() == rows.first());
        assert(rows.push(m).drop_first() =~= rows.drop_first().push(m));
        lemma_register_all_push(upsert_meta(s, rows.first()), rows.drop_first(), m);
        assert(register_all(s, rows) == register_all(upsert_meta(s, rows.first()), rows.drop_first()));
    }
}

/// Registering a metadata row keeps URLs unique and grows the aggregate
/// size by at most the row's size.
pub proof fn lemma_upsert_meta_props(s: Seq<CacheRecord>, m: CachedParquet)
    requires
        forall|p: int, q: int|
            0 <= p < q < s.len()
                ==> (#[trigger] s[p]).meta.url@ != (#[trigger] s[q]).meta.url@,
    ensures
        ({
            let s1 = upsert_meta(s, m);
            &&& forall|p: int, q: int|
                0 <= p < q < s1.len()
                    ==> (#[trigger] s1[p]).meta.url@ != (#[trigger] s1[q]).meta.url@
            &&& total_size(metas(s1)) <= total_size(metas(s)) + m.size
        }),
{
    let i = find_url(s, m.url@);
    let rec = CacheRecord { meta: m, payload: Option::None };
    lemma_find_url_ensures(s, m.url@);
    if i >= 0 {
        let s1 = s.update(i, rec);
        assert(metas(s1) =~= metas(s).update(i, m));
        lemma_total_size_update(metas(s), i, m);
        lemma_total_size_nonneg(metas(s));
        assert(metas(s)[i] == s[i].meta);
        assert forall|p: int, q: int|
            0 <= p < q < s1.len()
            implies (s1[p]).meta.url@ != (s1[q]).meta.url@ by {
            assert(s[p].meta.url@ != s[q].meta.url@);
            if p == i {
                assert(s1[p].meta.url@ == m.url@ && m.url@ == s[i].meta.url@);
            }
            if q == i {
                assert(s1[q].meta.url@ == m.url@ && m.url@ == s[i].meta.url@);
            }
        }
    } else {
        let s1 = s.push(rec);
        assert(metas(s1) =~= metas(s).push(m));
        lemma_total_size_push(metas(s), m);
        assert forall|p: int, q: int|
            0 <= p < q < s1.len()
            implies (s1[p]).meta.url@ != (s1[q]).meta.url@ by {
            if q < s.len() {
                assert(s[p].meta.url@ != s[q].meta.url@);
            } else {
                assert(s1[q].meta.url@ == m.url@);
                assert(s[p].meta.url@ != m.url@);
            }
        }
    }
}

/// Registering rows whose URLs are fresh and mutually distinct appends
/// them, in order, as payload-free records.
pub proof fn lemma_register_all_disjoint(s: Seq<CacheRecord>, rows: Seq<CachedParquet>)
    requires
        forall|p: int, q: int|
            0 <= p < q < rows.len() ==> (#[trigger] rows[p]).url@ != (#[trigger] rows[q]).url@,
        forall|j: int, k: int|
            0 <= j < s.len() && 0 <= k < rows.len()
                ==> (#[trigger] s[j]).meta.url@ != (#[trigger] rows[k]).url@,
    ensures
        register_all(s, rows).len() == s.len() + rows.len(),
        forall|j: int| 0 <= j < s.len() ==> #[trigger] register_all(s, rows)[j] == s[j],
        forall|k: int|
            0 <= k < rows.len()
                ==> #[trigger] register_all(s, rows)[s.len() + k]
                    == (CacheRecord { meta: rows[k], payload: Option::None }),
    decreases rows.len(),
{
    if rows.len() > 0 {
        let m = rows.first();
        lemma_find_url_ensures(s, m.url@);
        assert(find_url(s, m.url@) < 0) by {
            if find_url(s, m.url@) >= 0 {
                assert(s[find_url(s, m.url@)].meta.url@ == m.url@);
                assert(rows[0].url@ == m.url@);
            }
        }
        let rec = CacheRecord { meta: m, payload: Option::None };
        let s1 = s.push(rec);
        assert(upsert_meta(s, m) == s1);
        let rows1 = rows.drop_first();
        assert(forall|k: int| 0 <= k < rows1.len() ==> rows1[k] == rows[k + 1]);
        assert forall|p: int, q: int| 0 <= p < q < rows1.len()
            implies (rows1[p]).url@ != (rows1[q]).url@ by {
            assert(rows[p + 1].url@ != rows[q + 1].url@);
        }
        assert forall|j: int, k: int| 0 <= j < s1.len() && 0 <= k < rows1.len()
            implies (s1[j]).meta.url@ != (rows1[k]).url@ by {
            if j < s.len() {
                assert(s[j].meta.url@ != rows[k + 1].url@);
            } else {
                assert(s1[j] == rec);
                assert(rows[0].url@ != rows[k + 1].url@);
            }
        }
        lemma_register_all_disjoint(s1, rows1);
        assert(register_all(s, rows) == register_all(s1, rows1));
        assert(forall|j: int| 0 <= j < s.len() ==> s1[j] == s[j]);
        assert(s1[s.len() as int] == rec);
        assert forall|k: int| 0 <= k < rows.len()
            implies register_all(s, rows)[s.len() + k]
                == (CacheRecord { meta: rows[k], payload: Option::None }) by {
            if k == 0 {
                assert(register_all(s1, rows1)[s.len() as int] == s1[s.len() as int]);
            } else {
                assert(register_all(s1, rows1)[s1.len() + (k - 1)]
                    == (CacheRecord { meta: rows1[k - 1], payload: Option::None }));
                assert(s1.len() + (k - 1) == s.len() + k);
                assert(rows1[k - 1] == rows[k]);
            }
        }
    }
}

impl CacheStore {
    /// Registers metadata rows from a backup, first row first: each row
    /// replaces any record with its URL, or joins the store, without
    /// payload bytes.  Such entries are never valid until the content is
    /// fetched and cached again.  Returns how many rows were registered.
    pub fn register_metadata(&mut self, rows: &Vec<CachedParquet>) -> (count: u32)
        requires
            old(self).wf(),
            total_size(metas(old(self).entries@)) + total_size(rows@) <= u64::MAX,
        ensures
            final(self).wf(),
            hashes_intact(old(self).entries@) ==> hashes_intact(final(self).entries@),
            final(self).entries@ == register_all(old(self).entries@, rows@),
            count as int == vstd::math::min(rows@.len() as int, u32::MAX as int),
    {
        let ghost orig = self.entries@;
        let mut k: usize = 0;
        proof {
            assert(rows@.take(0) =~= Seq::<CachedParquet>::empty());
            lemma_total_size_nonneg(rows@.take(0));
            assert(register_all(orig, rows@.take(0)) == orig);
            assert(total_size(metas(orig)) + total_size(rows@.take(0)) >= total_size(metas(orig)));
            lemma_total_size_nonneg(rows@);
        }
        while k < rows.len()
            invariant
                self.wf(),
                orig == old(self).entries@,
                total_size(metas(orig)) + total_size(rows@) <= u64::MAX,
                0 <= k <= rows@.len(),
                self.entries@ == register_all(orig, rows@.take(k as int)),
                total_size(metas(self.entries@))
                    <= total_size(metas(orig)) + total_size(rows@.take(k as int)),
                total_size(rows@.take(k as int)) <= total_size(rows@),
            decreases rows@.len() - k,
        {
            let ghost before = self.entries@;
            let ghost m = rows@[k as int];
            proof {
                lemma_total_size_take_bound(rows@, k as int + 1);
                lemma_total_size_push(rows@.take(k as int), m);
                assert(rows@.take(k as int + 1) =~= rows@.take(k as int).push(m));
                lemma_register_all_push(orig, rows@.take(k as int), m);
                lemma_upsert_meta_props(before, m);
            }
            let rec = CacheRecord { meta: rows[k].duplicate(), payload: Option::None };
            match self.find_index(&rows[k].url) {
                Option::Some(i) => {
                    proof {
                        assert(self.entries@.update(i as int, rec) == upsert_meta(before, m));
                    }
                    self.entries.set(i, rec);
                },
                Option::None => {
                    proof {
                        assert(self.entries@.push(rec) == upsert_meta(before, m));
                    }
                    self.entries.push(rec);
                },
            }
            k = k + 1;
        }
        proof {
            assert(rows@.take(rows@.len() as int) =~= rows@);
            if hashes_intact(orig) {
                lemma_register_all_intact(orig, rows@);
            }
        }
        if rows.len() > u32::MAX as usize {
            u32::MAX
        } else {
            rows.len() as u32
        }
    }

    /// The metadata of every entry, in store order: a consistent snapshot
    /// for statistics, eviction planning and export.  Payload bytes are
    /// never exported.
    pub fn export_metadata(&self) -> (r: Vec<CachedParquet>)
        ensures
            r@ == metas(self.entries@),
    {
        let mut r: Vec<CachedParquet> = Vec::new();
        let mut i: usize = 0;
        while i < self.entries.len()
            invariant
                0 <= i <= self.entries@.len(),
                r@ =~= metas(self.entries@).take(i as int),
            decreases self.entries@.len() - i,
        {
            proof {
                assert(metas(self.entries@)[i as int] == self.entries@[i as int].meta);
                assert(metas(self.entries@).take(i as int + 1)
                    =~= metas(self.entries@).take(i as int).push(self.entries@[i as int].meta));
            }
            r.push(self.entries[i].meta.duplicate());
            i = i + 1;
        }
        proof {
            assert(metas(self.entries@).take(metas(self.entries@).len() as int)
                =~= metas(self.entries@));
        }
        r
    }
}

/// Replacing one entry adjusts the aggregate size by the size difference.
pub proof fn lemma_total_size_update(s: Seq<CachedParquet>, i: int, m: CachedParquet)
    requires
        0 <= i < s.len(),
    ensures
        total_size(s.update(i, m)) == total_size(s) - s[i].size + m.size,
    decreases i,
{
    if i == 0 {
        assert(s.update(0, m).first() == m);
        assert(s.update(0, m).drop_first() =~= s.drop_first());
    } else {
        assert(s.update(i, m).first() == s.first());
        assert(s.update(i, m).drop_first() =~= s.drop_first().update(i - 1, m));
        assert(s.drop_first()[i - 1] == s[i]);
        lemma_total_size_update(s.drop_first(), i - 1, m);
    }
}

/// A prefix never exceeds the whole: aggregate sizes split at any index.
pub proof fn lemma_total_size_split(s: Seq<CachedParquet>, i: int)
    requires
        0 <= i <= s.len(),
    ensures
        total_size(s) == total_size(s.take(i)) + total_size(s.skip(i)),
    decreases i,
{
    if i == 0 {
        assert(s.take(0) =~= Seq::<CachedParquet>::empty());
        assert(s.skip(0) =~= s);
    } else {
        lemma_total_size_split(s, i - 1);
        assert(s.take(i) =~= s.take(i - 1).push(s[i - 1]));
        lemma_total_size_push(s.take(i - 1), s[i - 1]);
        assert(s.skip(i - 1).first() == s[i - 1]);
        assert(s.skip(i - 1).drop_first() =~= s.skip(i));
        assert(total_size(s.skip(i - 1)) == s[i - 1].size + total_size(s.skip(i)));
    }
}

/// The aggregate size of a prefix is at most the whole.
pub proof fn lemma_total_size_take_bound(s: Seq<CachedParquet>, i: int)
    requires
        0 <= i <= s.len(),
    ensures
        total_size(s.take(i)) <= total_size(s),
{
    lemma_total_size_split(s, i);
    lemma_total_size_nonneg(s.skip(i));
}

} // verus!
