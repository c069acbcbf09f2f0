//! The quota monitor: correlates the host-reported storage quota (an
//! external, possibly absent signal) with the engine's own tracked usage.
//!
//! The engine's used bytes are the cache's aggregate payload size plus the
//! stored text of notebook and preference records, counted one byte per
//! stored character and saturating at the 64-bit limit.  The monitor only
//! reports; it never evicts itself.

use vstd::prelude::*;
use vstd::string::StrSliceExecFns;
use crate::editor::{Cell, Notebook};
use crate::storage::{StorageQuota, UserPreferences};

verus! {

/// The usage percentage at which a quota warning is due.
pub const QUOTA_WARNING_PERCENT: u64 = 90;

/// The stored length of an optional text.
pub open spec fn opt_text_len(o: Option<String>) -> int {
    match o {
        Option::None => 0,
        Option::Some(s) => s@.len() as int,
    }
}

/// The stored length of a sequence of texts.
pub open spec fn texts_len(v: Seq<String>) -> int
    decreases v.len(),
{
    if v.len() == 0 {
        0
    } else {
        v.first()@.len() + texts_len(v.drop_first())
    }
}

/// The stored text of one cell: its identifier and its content.
pub open spec fn cell_bytes(c: Cell) -> int {
    c.id@.len() + c.content@.len() as int
}

/// The stored text of a sequence of cells.
pub open spec fn cells_bytes(v: Seq<Cell>) -> int
    decreases v.len(),
{
    if v.len() == 0 {
        0
    } else {
        cell_bytes(v.first()) + cells_bytes(v.drop_first())
    }
}

/// The stored text of one notebook record.
pub open spec fn notebook_bytes(nb: Notebook) -> int {
    nb.id@.len() + opt_text_len(nb.metadata.title) + opt_text_len(nb.metadata.author)
        + texts_len(nb.metadata.tags@) + opt_text_len(nb.metadata.description)
        + cells_bytes(nb.cells@) + texts_len(nb.loaded_data@) + texts_len(nb.charts@)
}

/// The stored text of one preference record.
pub open spec fn prefs_bytes(p: UserPreferences) -> int {
    opt_text_len(p.nostr.npub) + texts_len(p.nostr.relays@) + (match p.nostr.encrypted_nsec {
        Option::None => 0,
        Option::Some(k) => k.ciphertext@.len() + k.salt@.len() + k.algorithm@.len(),
    })
}

/// A byte count capped at the 64-bit limit.
pub open spec fn sat64(n: int) -> int {
    vstd::math::min(n, u64::MAX as int)
}

/// The tracked size of a sequence of notebooks, each capped at the 64-bit
/// limit.
pub open spec fn notebooks_sat_sum(s: Seq<Notebook>) -> int
    decreases s.len(),
{
    if s.len() == 0 {
        0
    } else {
        sat64(notebook_bytes(s.first())) + notebooks_sat_sum(s.drop_first())
    }
}

/// The engine's tracked used bytes: cache payload bytes plus the stored
/// text of notebook and preference records, saturating at the 64-bit limit.
pub open spec fn used_bytes_spec(
    cache_total: u64, notebooks: Seq<Notebook>, prefs: Option<UserPreferences>,
) -> int {
    sat64(cache_total + notebooks_sat_sum(notebooks) + (match prefs {
        Option::None => 0int,
        Option::Some(p) => sat64(prefs_bytes(p)),
    }))
}

/// Adds byte counts, saturating at the 64-bit limit.
pub fn sat_add64(a: u64, b: u64) -> (r: u64)
    ensures
        r == sat64(a + b),
{
    if b > u64::MAX - a {
        u64::MAX
    } else {
        a + b
    }
}

/// The stored length of an optional text, capped at the 64-bit limit.
fn opt_text_len64(o: &Option<String>) -> (r: u64)
    ensures
        r == sat64(opt_text_len(*o)),
{
    match o {
        Option::None => 0,
        Option::Some(s) => s.as_str().unicode_len() as u64,
    }
}

/// The stored length of a vector of texts, capped at the 64-bit limit.
fn texts_len64(v: &Vec<String>) -> (r: u64)
    ensures
        r == sat64(texts_len(v@)),
{
    let mut acc: u64 = 0;
    let mut i: usize = 0;
    proof {
        assert(v@.skip(0) =~= v@);
        lemma_texts_len_nonneg(v@);
    }
    while i < v.len()
        invariant
            0 <= i <= v@.len(),
            acc == sat64(texts_len(v@) - texts_len(v@.skip(i as int))),
            texts_len(v@.skip(i as int)) >= 0,
            texts_len(v@) - texts_len(v@.skip(i as int)) >= 0,
        decreases v@.len() - i,
    {
        proof {
            assert(v@.skip(i as int).first() == v@[i as int]);
            assert(v@.skip(i as int).drop_first() =~= v@.skip(i as int + 1));
            assert(texts_len(v@.skip(i as int))
                == v@[i as int]@.len() + texts_len(v@.skip(i as int + 1)));
            lemma_texts_len_nonneg(v@.skip(i as int + 1));
        }
        let n = v[i].as_str().unicode_len() as u64;
        acc = sat_add64(acc, n);
        i = i + 1;
    }
    proof {
        assert(v@.skip(v@.len() as int) =~= Seq::<String>::empty());
    }
    acc
}

/// The stored text of a sequence of texts is never negative.
pub proof fn lemma_texts_len_nonneg(v: Seq<String>)
    ensures
        texts_len(v) >= 0,
    decreases v.len(),
{
    if v.len() > 0 {
        lemma_texts_len_nonneg(v.drop_first());
    }
}

/// The stored text of a sequence of cells is never negative.
pub proof fn lemma_cells_bytes_nonneg(v: Seq<Cell>)
    ensures
        cells_bytes(v) >= 0,
    decreases v.len(),
{
    if v.len() > 0 {
        lemma_cells_bytes_nonneg(v.drop_first());
    }
}

/// The stored text of a vector of cells, capped at the 64-bit limit.
fn cells_len64(v: &Vec<Cell>) -> (r: u64)
    ensures
        r == sat64(cells_bytes(v@)),
{
    let mut acc: u64 = 0;
    let mut i: usize = 0;
    proof {
        assert(v@.skip(0) =~= v@);
        lemma_cells_bytes_nonneg(v@);
    }
    while i < v.len()
        invariant
            0 <= i <= v@.len(),
            acc == sat64(cells_bytes(v@) - cells_bytes(v@.skip(i as int))),
            cells_bytes(v@.skip(i as int)) >= 0,
            cells_bytes(v@) - cells_bytes(v@.skip(i as int)) >= 0,
        decreases v@.len() - i,
    {
        proof {
            assert(v@.skip(i as int).first() == v@[i as int]);
            assert(v@.skip(i as int).drop_first() =~= v@.skip(i as int + 1));
            assert(cells_bytes(v@.skip(i as int))
                == cell_bytes(v@[i as int]) + cells_bytes(v@.skip(i as int + 1)));
            lemma_cells_bytes_nonneg(v@.skip(i as int + 1));
        }
        let c = &v[i];
        let n = sat_add64(
            c.id.as_str().unicode_len() as u64,
            c.content.as_str().unicode_len() as u64,
        );
        acc = sat_add64(acc, n);
        i = i + 1;
    }
    proof {
        assert(v@.skip(v@.len() as int) =~= Seq::<Cell>::empty());
    }
    acc
}

/// The stored text of one notebook, capped at the 64-bit limit.
pub fn notebook_bytes64(nb: &Notebook) -> (r: u64)
    ensures
        r == sat64(notebook_bytes(*nb)),
{
    let mut acc: u64 = nb.id.as_str().unicode_len() as u64;
    acc = sat_add64(acc, opt_text_len64(&nb.metadata.title));
    acc = sat_add64(acc, opt_text_len64(&nb.metadata.author));
    acc = sat_add64(acc, texts_len64(&nb.metadata.tags));
    acc = sat_add64(acc, opt_text_len64(&nb.metadata.description));
    acc = sat_add64(acc, cells_len64(&nb.cells));
    acc = sat_add64(acc, texts_len64(&nb.loaded_data));
    acc = sat_add64(acc, texts_len64(&nb.charts));
    proof {
        lemma_texts_len_nonneg(nb.metadata.tags@);
        lemma_cells_bytes_nonneg(nb.cells@);
        lemma_texts_len_nonneg(nb.loaded_data@);
        lemma_texts_len_nonneg(nb.charts@);
    }
    acc
}

/// The stored text of one preference record, capped at the 64-bit limit.
pub fn prefs_bytes64(p: &UserPreferences) -> (r: u64)
    ensures
        r == sat64(prefs_bytes(*p)),
{
    let mut acc: u64 = opt_text_len64(&p.nostr.npub);
    acc = sat_add64(acc, texts_len64(&p.nostr.relays));
    match &p.nostr.encrypted_nsec {
        Option::None => {},
        Option::Some(k) => {
            acc = sat_add64(acc, k.ciphertext.as_str().unicode_len() as u64);
            acc = sat_add64(acc, k.salt.as_str().unicode_len() as u64);
            acc = sat_add64(acc, k.algorithm.as_str().unicode_len() as u64);
        },
    }
    proof {
        lemma_texts_len_nonneg(p.nostr.relays@);
    }
    acc
}

/// The engine's tracked used bytes across all stores.
pub fn used_bytes(
    cache_total: u64, notebooks: &Vec<Notebook>, prefs: &Option<UserPreferences>,
) -> (r: u64)
    ensures
        r == used_bytes_spec(cache_total, notebooks@, *prefs),
{
    let mut acc: u64 = cache_total;
    let mut i: usize = 0;
    proof {
        assert(notebooks@.skip(0) =~= notebooks@);
        lemma_notebooks_sat_nonneg(notebooks@);
    }
    while i < notebooks.len()
        invariant
            0 <= i <= notebooks@.len(),
            acc == sat64(cache_total + notebooks_sat_sum(notebooks@)
                - notebooks_sat_sum(notebooks@.skip(i as int))),
            notebooks_sat_sum(notebooks@.skip(i as int)) >= 0,
            cache_total + notebooks_sat_sum(notebooks@)
                - notebooks_sat_sum(notebooks@.skip(i as int)) >= 0,
        decreases notebooks@.len() - i,
    {
        proof {
            assert(notebooks@.skip(i as int).first() == notebooks@[i as int]);
            assert(notebooks@.skip(i as int).drop_first() =~= notebooks@.skip(i as int + 1));
            assert(notebooks_sat_sum(notebooks@.skip(i as int))
                == sat64(notebook_bytes(notebooks@[i as int]))
                    + notebooks_sat_sum(notebooks@.skip(i as int + 1)));
            lemma_notebooks_sat_nonneg(notebooks@.skip(i as int + 1));
        }
        let n = notebook_bytes64(&notebooks[i]);
        acc = sat_add64(acc, n);
        i = i + 1;
    }
    proof {
        assert(notebooks@.skip(notebooks@.len() as int) =~= Seq::<Notebook>::empty());
    }
    match prefs {
        Option::None => acc,
        Option::Some(p) => sat_add64(acc, prefs_bytes64(p)),
    }
}

/// The tracked size of a sequence of notebooks is never negative.
pub proof fn lemma_notebooks_sat_nonneg(s: Seq<Notebook>)
    ensures
        notebooks_sat_sum(s) >= 0,
    decreases s.len(),
{
    if s.len() > 0 {
        lemma_texts_len_nonneg(s.first().metadata.tags@);
        lemma_cells_bytes_nonneg(s.first().cells@);
        lemma_texts_len_nonneg(s.first().loaded_data@);
        lemma_texts_len_nonneg(s.first().charts@);
        lemma_notebooks_sat_nonneg(s.drop_first());
    }
}

/// The usage percentage: used over total, capped at the 64-bit limit;
/// absent when the host reports no quota or a zero quota.
pub open spec fn percent_of(used: u64, total: Option<u64>) -> Option<u64> {
    match total {
        Option::None => Option::None,
        Option::Some(t) => if t == 0 {
            Option::None
        } else {
            Option::Some(sat64(used * 100 / t as int) as u64)
        },
    }
}

/// Builds a quota snapshot from the tracked usage and the host-reported
/// quota, when the host exposes one.  Recomputed on demand, never cached.
pub fn snapshot(
    cache_total: u64, notebooks: &Vec<Notebook>, prefs: &Option<UserPreferences>,
    host_total: Option<u64>,
) -> (q: StorageQuota)
    ensures
        q.used == used_bytes_spec(cache_total, notebooks@, *prefs),
        q.total == host_total,
        q.available == (match host_total {
            Option::None => Option::<u64>::None,
            Option::Some(t) => Option::Some(if q.used <= t { (t - q.used) as u64 } else { 0u64 }),
        }),
        q.usage_percent == percent_of(q.used, host_total),
{
    let used = used_bytes(cache_total, notebooks, prefs);
    let (available, usage_percent): (Option<u64>, Option<u64>) = match host_total {
        Option::None => (Option::None, Option::None),
        Option::Some(t) => {
            let avail: u64 = if used <= t {
                t - used
            } else {
                0
            };
            let pct: Option<u64> = if t == 0 {
                Option::None
            } else {
                let p: u128 = (used as u128) * 100 / (t as u128);
                let p64: u64 = if p > u64::MAX as u128 {
                    u64::MAX
                } else {
                    p as u64
                };
                Option::Some(p64)
            };
            (Option::Some(avail), pct)
        },
    };
    StorageQuota { total: host_total, used, available, usage_percent }
}

/// Whether a quota warning is due: the usage percentage is known and at or
/// past the warning threshold.  Advisory only; it never evicts.
pub fn warning_due(q: &StorageQuota) -> (r: bool)
    ensures
        r == (q.usage_percent matches Option::Some(p) && p >= QUOTA_WARNING_PERCENT),
{
    match q.usage_percent {
        Option::Some(p) => p >= QUOTA_WARNING_PERCENT,
        Option::None => false,
    }
}

} // verus!
