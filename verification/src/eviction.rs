//! The eviction policy: a pure decision procedure over cache metadata.
//!
//! Entries past the configured maximum age are "forced" and leave first,
//! oldest fetch first; the rest leave in true LRU order, least recently
//! accessed first.  Ties are broken by the lexicographic order of the URL,
//! for determinism.  Removal stops once the requested number of bytes has
//! been freed; a normal entry is never removed when that would leave fewer
//! than the configured minimum number of entries, while forced entries are
//! removed even then.  The policy performs no I/O; the cache store applies
//! its decision.

use vstd::prelude::*;
use crate::storage::{CachedParquet, EvictionConfig};
use crate::text::{lex_le, str_lex_le, lemma_lex_le_total, lemma_lex_le_transitive, text_views};

verus! {

/// Age of an entry in milliseconds at time `now`, zero if the clock ran
/// backwards past the fetch time.
pub open spec fn age_ms(e: CachedParquet, now: u64) -> int {
    if now >= e.fetched_at {
        now - e.fetched_at
    } else {
        0
    }
}

/// An entry at or past the maximum age is eligible for forced removal.
pub open spec fn is_forced(e: CachedParquet, now: u64, cfg: EvictionConfig) -> bool {
    age_ms(e, now) >= cfg.max_age_seconds * 1000
}

/// Checks whether an entry is past the maximum age.
pub fn is_forced_exec(e: &CachedParquet, now: u64, cfg: &EvictionConfig) -> (r: bool)
    ensures
        r == is_forced(*e, now, *cfg),
{
    let age: u64 = if now >= e.fetched_at {
        now - e.fetched_at
    } else {
        0
    };
    (age as i128) >= (cfg.max_age_seconds as i128) * 1000
}

/// Strict order on (timestamp, URL) keys: earlier timestamp first, equal
/// timestamps broken by URL order.
pub open spec fn key_lt(ka: u64, ua: Seq<char>, kb: u64, ub: Seq<char>) -> bool {
    ka < kb || (ka == kb && lex_le(ua, ub) && !lex_le(ub, ua))
}

/// Strict eviction order: `a` leaves before `b`.  Forced entries leave
/// before normal ones; forced entries compare by fetch time, normal entries
/// by last access, each with the URL as tie-break.
pub open spec fn precedes(a: CachedParquet, b: CachedParquet, now: u64, cfg: EvictionConfig) -> bool {
    if is_forced(a, now, cfg) != is_forced(b, now, cfg) {
        is_forced(a, now, cfg)
    } else if is_forced(a, now, cfg) {
        key_lt(a.fetched_at, a.url@, b.fetched_at, b.url@)
    } else {
        key_lt(a.last_accessed, a.url@, b.last_accessed, b.url@)
    }
}

/// The eviction order never puts an entry before itself.
pub proof fn lemma_precedes_irreflexive(a: CachedParquet, now: u64, cfg: EvictionConfig)
    ensures
        !precedes(a, a, now, cfg),
{
    lemma_lex_le_total(a.url@, a.url@);
}

proof fn lemma_key_lt_transitive(
    ka: u64, ua: Seq<char>, kb: u64, ub: Seq<char>, kc: u64, uc: Seq<char>,
)
    requires
        key_lt(ka, ua, kb, ub),
        key_lt(kb, ub, kc, uc),
    ensures
        key_lt(ka, ua, kc, uc),
{
    if ka == kb && kb == kc {
        lemma_lex_le_transitive(ua, ub, uc);
        if lex_le(uc, ua) {
            lemma_lex_le_transitive(ub, uc, ua);
        }
    }
}

/// The eviction order is transitive.
pub proof fn lemma_precedes_transitive(
    a: CachedParquet, b: CachedParquet, c: CachedParquet, now: u64, cfg: EvictionConfig,
)
    requires
        precedes(a, b, now, cfg),
        precedes(b, c, now, cfg),
    ensures
        precedes(a, c, now, cfg),
{
    if is_forced(a, now, cfg) == is_forced(b, now, cfg)
        && is_forced(b, now, cfg) == is_forced(c, now, cfg) {
        if is_forced(a, now, cfg) {
            lemma_key_lt_transitive(
                a.fetched_at, a.url@, b.fetched_at, b.url@, c.fetched_at, c.url@,
            );
        } else {
            lemma_key_lt_transitive(
                a.last_accessed, a.url@, b.last_accessed, b.url@, c.last_accessed, c.url@,
            );
        }
    }
}

/// Compares two entries in the eviction order.
pub fn precedes_exec(a: &CachedParquet, b: &CachedParquet, now: u64, cfg: &EvictionConfig) -> (r: bool)
    ensures
        r == precedes(*a, *b, now, *cfg),
{
    let fa = is_forced_exec(a, now, cfg);
    let fb = is_forced_exec(b, now, cfg);
    if fa != fb {
        fa
    } else if fa {
        if a.fetched_at < b.fetched_at {
            true
        } else if a.fetched_at == b.fetched_at {
            str_lex_le(a.url.as_str(), b.url.as_str())
                && !str_lex_le(b.url.as_str(), a.url.as_str())
        } else {
            false
        }
    } else {
        if a.last_accessed < b.last_accessed {
            true
        } else if a.last_accessed == b.last_accessed {
            str_lex_le(a.url.as_str(), b.url.as_str())
                && !str_lex_le(b.url.as_str(), a.url.as_str())
        } else {
            false
        }
    }
}

/// The index of the entry that leaves first: the least entry in the eviction
/// order, earliest index on (impossible) ties.
pub open spec fn victim_idx(s: Seq<CachedParquet>, now: u64, cfg: EvictionConfig) -> int
    recommends
        s.len() > 0,
    decreases s.len(),
{
    if s.len() <= 1 {
        0
    } else {
        let r = victim_idx(s.drop_last(), now, cfg);
        if precedes(s.last(), s[r], now, cfg) {
            s.len() - 1
        } else {
            r
        }
    }
}

/// The victim index is in range.
pub proof fn lemma_victim_idx_bounds(s: Seq<CachedParquet>, now: u64, cfg: EvictionConfig)
    requires
        s.len() > 0,
    ensures
        0 <= victim_idx(s, now, cfg) < s.len(),
    decreases s.len(),
{
    if s.len() > 1 {
        lemma_victim_idx_bounds(s.drop_last(), now, cfg);
    }
}

/// No entry of the sequence leaves before the victim.
pub proof fn lemma_victim_idx_minimal(s: Seq<CachedParquet>, now: u64, cfg: EvictionConfig)
    requires
        s.len() > 0,
    ensures
        forall|j: int| 0 <= j < s.len()
            ==> !precedes(#[trigger] s[j], s[victim_idx(s, now, cfg)], now, cfg),
    decreases s.len(),
{
    lemma_victim_idx_bounds(s, now, cfg);
    if s.len() == 1 {
        lemma_precedes_irreflexive(s[0], now, cfg);
    } else {
        let t = s.drop_last();
        let r = victim_idx(t, now, cfg);
        lemma_victim_idx_bounds(t, now, cfg);
        lemma_victim_idx_minimal(t, now, cfg);
        assert(forall|j: int| 0 <= j < t.len() ==> t[j] == s[j]);
        let v = victim_idx(s, now, cfg);
        if precedes(s.last(), s[r], now, cfg) {
            assert(v == s.len() - 1);
            assert forall|j: int| 0 <= j < s.len() implies !precedes(s[j], s[v], now, cfg) by {
                if j < s.len() - 1 {
                    if precedes(s[j], s.last(), now, cfg) {
                        lemma_precedes_transitive(s[j], s.last(), s[r], now, cfg);
                    }
                } else {
                    lemma_precedes_irreflexive(s.last(), now, cfg);
                }
            }
        } else {
            assert(v == r);
        }
    }
}

/// Every element of a sequence with one index removed is an element of the
/// original sequence.
pub proof fn lemma_remove_contains(s: Seq<CachedParquet>, i: int, x: CachedParquet)
    requires
        0 <= i < s.len(),
        s.remove(i).contains(x),
    ensures
        s.contains(x),
{
    s.remove_ensures(i);
    let j = choose|j: int| 0 <= j < s.remove(i).len() && s.remove(i)[j] == x;
    if j < i {
        assert(s[j] == x);
    } else {
        assert(s[j + 1] == x);
    }
}

/// Aggregate size of a sequence of entries, in bytes.
pub open spec fn total_size(s: Seq<CachedParquet>) -> int
    decreases s.len(),
{
    if s.len() == 0 {
        0
    } else {
        s.first().size + total_size(s.drop_first())
    }
}

/// The aggregate size is never negative.
pub proof fn lemma_total_size_nonneg(s: Seq<CachedParquet>)
    ensures
        total_size(s) >= 0,
    decreases s.len(),
{
    if s.len() > 0 {
        lemma_total_size_nonneg(s.drop_first());
    }
}

/// Appending one entry adds its size.
pub proof fn lemma_total_size_push(s: Seq<CachedParquet>, e: CachedParquet)
    ensures
        total_size(s.push(e)) == total_size(s) + e.size,
    decreases s.len(),
{
    if s.len() == 0 {
        assert(s.push(e).drop_first() =~= Seq::<CachedParquet>::empty());
        assert(s.push(e).first() == e);
        assert(total_size(Seq::<CachedParquet>::empty()) == 0);
        assert(total_size(s) == 0);
    } else {
        assert(s.push(e).first() == s.first());
        assert(s.push(e).drop_first() =~= s.drop_first().push(e));
        lemma_total_size_push(s.drop_first(), e);
        assert(total_size(s.push(e))
            == s.first().size + total_size(s.drop_first().push(e)));
    }
}

/// Removing one entry subtracts its size.
pub proof fn lemma_total_size_remove(s: Seq<CachedParquet>, i: int)
    requires
        0 <= i < s.len(),
    ensures
        total_size(s.remove(i)) == total_size(s) - s[i].size,
    decreases i,
{
    s.remove_ensures(i);
    if i == 0 {
        assert(s.remove(0) =~= s.drop_first());
    } else {
        assert(s.remove(i).first() == s.first());
        assert(s.remove(i).drop_first() =~= s.drop_first().remove(i - 1));
        assert(s.drop_first()[i - 1] == s[i]);
        lemma_total_size_remove(s.drop_first(), i - 1);
    }
}

/// The entries that a cleanup pass removes, in removal order.  Removal
/// stops once `goal` bytes (counting from `freed`) have been freed, and a
/// normal entry is not removed when at most `min_entries` entries are left.
pub open spec fn cleanup_removed(
    s: Seq<CachedParquet>, goal: int, freed: int, min_entries: int, now: u64, cfg: EvictionConfig,
) -> Seq<CachedParquet>
    decreases s.len(),
    via cleanup_removed_decreases
{
    if s.len() == 0 || freed >= goal {
        Seq::empty()
    } else {
        let i = victim_idx(s, now, cfg);
        let e = s[i];
        if is_forced(e, now, cfg) || s.len() > min_entries {
            seq![e] + cleanup_removed(s.remove(i), goal, freed + e.size, min_entries, now, cfg)
        } else {
            Seq::empty()
        }
    }
}

#[via_fn]
proof fn cleanup_removed_decreases(
    s: Seq<CachedParquet>, goal: int, freed: int, min_entries: int, now: u64, cfg: EvictionConfig,
) {
    if s.len() != 0 && freed < goal {
        lemma_victim_idx_bounds(s, now, cfg);
        s.remove_ensures(victim_idx(s, now, cfg));
    }
}

/// The entries that survive a cleanup pass, in their original order.
pub open spec fn cleanup_remaining(
    s: Seq<CachedParquet>, goal: int, freed: int, min_entries: int, now: u64, cfg: EvictionConfig,
) -> Seq<CachedParquet>
    decreases s.len(),
    via cleanup_remaining_decreases
{
    if s.len() == 0 || freed >= goal {
        s
    } else {
        let i = victim_idx(s, now, cfg);
        let e = s[i];
        if is_forced(e, now, cfg) || s.len() > min_entries {
            cleanup_remaining(s.remove(i), goal, freed + e.size, min_entries, now, cfg)
        } else {
            s
        }
    }
}

#[via_fn]
proof fn cleanup_remaining_decreases(
    s: Seq<CachedParquet>, goal: int, freed: int, min_entries: int, now: u64, cfg: EvictionConfig,
) {
    if s.len() != 0 && freed < goal {
        lemma_victim_idx_bounds(s, now, cfg);
        s.remove_ensures(victim_idx(s, now, cfg));
    }
}

/// A cleanup pass accounts for every byte: what remains is what was there
/// less what was removed, and the pass stops only with the goal met or the
/// retention floor reached.
pub proof fn lemma_cleanup_accounting(
    s: Seq<CachedParquet>, goal: int, freed: int, min_entries: int, now: u64, cfg: EvictionConfig,
)
    requires
        min_entries >= 0,
    ensures
        total_size(cleanup_remaining(s, goal, freed, min_entries, now, cfg))
            == total_size(s) - total_size(cleanup_removed(s, goal, freed, min_entries, now, cfg)),
        cleanup_remaining(s, goal, freed, min_entries, now, cfg).len()
            == s.len() - cleanup_removed(s, goal, freed, min_entries, now, cfg).len(),
        freed + total_size(cleanup_removed(s, goal, freed, min_entries, now, cfg)) >= goal
            || cleanup_remaining(s, goal, freed, min_entries, now, cfg).len() <= min_entries,
    decreases s.len(),
{
    let removed = cleanup_removed(s, goal, freed, min_entries, now, cfg);
    let remaining = cleanup_remaining(s, goal, freed, min_entries, now, cfg);
    if s.len() == 0 || freed >= goal {
        assert(removed =~= Seq::<CachedParquet>::empty());
        if freed < goal {
            assert(remaining.len() == 0);
        }
    } else {
        let i = victim_idx(s, now, cfg);
        let e = s[i];
        lemma_victim_idx_bounds(s, now, cfg);
        if is_forced(e, now, cfg) || s.len() > min_entries {
            let tail = cleanup_removed(s.remove(i), goal, freed + e.size, min_entries, now, cfg);
            lemma_cleanup_accounting(s.remove(i), goal, freed + e.size, min_entries, now, cfg);
            lemma_total_size_remove(s, i);
            assert(removed =~= seq![e] + tail);
            assert(removed.drop_first() =~= tail);
            assert(total_size(removed) == e.size + total_size(tail));
        }
    }
}

/// When no removed entry was forced, a cleanup pass keeps at least
/// `min_entries` entries, or as many as there were to begin with.
pub proof fn lemma_cleanup_retains_min(
    s: Seq<CachedParquet>, goal: int, freed: int, min_entries: int, now: u64, cfg: EvictionConfig,
)
    requires
        min_entries >= 0,
        forall|k: int|
            0 <= k < cleanup_removed(s, goal, freed, min_entries, now, cfg).len()
                ==> !is_forced(#[trigger] cleanup_removed(s, goal, freed, min_entries, now, cfg)[k], now, cfg),
    ensures
        cleanup_remaining(s, goal, freed, min_entries, now, cfg).len()
            >= vstd::math::min(s.len() as int, min_entries),
    decreases s.len(),
{
    let removed = cleanup_removed(s, goal, freed, min_entries, now, cfg);
    if s.len() == 0 || freed >= goal {
    } else {
        let i = victim_idx(s, now, cfg);
        let e = s[i];
        lemma_victim_idx_bounds(s, now, cfg);
        if is_forced(e, now, cfg) || s.len() > min_entries {
            let tail = cleanup_removed(s.remove(i), goal, freed + e.size, min_entries, now, cfg);
            assert(removed =~= seq![e] + tail);
            assert(removed[0] == e);
            assert(!is_forced(e, now, cfg));
            assert(forall|k: int| 0 <= k < tail.len() ==> tail[k] == removed[k + 1]);
            lemma_cleanup_retains_min(s.remove(i), goal, freed + e.size, min_entries, now, cfg);
        }
    }
}

/// Every removed entry came from the cache.
pub proof fn lemma_cleanup_removed_contains(
    s: Seq<CachedParquet>, goal: int, freed: int, min_entries: int, now: u64, cfg: EvictionConfig,
    x: CachedParquet,
)
    requires
        cleanup_removed(s, goal, freed, min_entries, now, cfg).contains(x),
    ensures
        s.contains(x),
    decreases s.len(),
{
    let removed = cleanup_removed(s, goal, freed, min_entries, now, cfg);
    if s.len() == 0 || freed >= goal {
    } else {
        let i = victim_idx(s, now, cfg);
        let e = s[i];
        lemma_victim_idx_bounds(s, now, cfg);
        if is_forced(e, now, cfg) || s.len() > min_entries {
            let tail = cleanup_removed(s.remove(i), goal, freed + e.size, min_entries, now, cfg);
            assert(removed =~= seq![e] + tail);
            if x == e {
                assert(s.contains(x)) by {
                    assert(s[i] == x);
                }
            } else {
                let k = choose|k: int| 0 <= k < removed.len() && removed[k] == x;
                assert(tail[k - 1] == x);
                assert(tail.contains(x));
                lemma_cleanup_removed_contains(
                    s.remove(i), goal, freed + e.size, min_entries, now, cfg, x,
                );
                lemma_remove_contains(s, i, x);
            }
        }
    }
}

/// With no entry over-age, a cleanup pass removes entries in true LRU
/// order: each removed entry was accessed no later than the next, and the
/// first removed entry is the least recently accessed of all.
pub proof fn lemma_cleanup_lru_order(
    s: Seq<CachedParquet>, goal: int, freed: int, min_entries: int, now: u64, cfg: EvictionConfig,
)
    requires
        forall|k: int| 0 <= k < s.len() ==> !is_forced(#[trigger] s[k], now, cfg),
    ensures
        forall|p: int, q: int|
            #![trigger cleanup_removed(s, goal, freed, min_entries, now, cfg)[p],
                cleanup_removed(s, goal, freed, min_entries, now, cfg)[q]]
            0 <= p < q < cleanup_removed(s, goal, freed, min_entries, now, cfg).len()
                ==> cleanup_removed(s, goal, freed, min_entries, now, cfg)[p].last_accessed
                    <= cleanup_removed(s, goal, freed, min_entries, now, cfg)[q].last_accessed,
    decreases s.len(),
{
    let removed = cleanup_removed(s, goal, freed, min_entries, now, cfg);
    if s.len() == 0 || freed >= goal {
    } else {
        let i = victim_idx(s, now, cfg);
        let e = s[i];
        lemma_victim_idx_bounds(s, now, cfg);
        if is_forced(e, now, cfg) || s.len() > min_entries {
            let rest = s.remove(i);
            let tail = cleanup_removed(rest, goal, freed + e.size, min_entries, now, cfg);
            assert(removed =~= seq![e] + tail);
            s.remove_ensures(i);
            assert(forall|k: int| 0 <= k < rest.len() ==> !is_forced(#[trigger] rest[k], now, cfg));
            lemma_cleanup_lru_order(rest, goal, freed + e.size, min_entries, now, cfg);
            lemma_victim_idx_minimal(s, now, cfg);
            assert forall|q: int| #![trigger removed[q]] 1 <= q < removed.len()
                implies removed[0].last_accessed <= removed[q].last_accessed by {
                assert(removed[q] == tail[q - 1]);
                assert(tail.contains(tail[q - 1]));
                lemma_cleanup_removed_contains(
                    rest, goal, freed + e.size, min_entries, now, cfg, tail[q - 1],
                );
                lemma_remove_contains(s, i, tail[q - 1]);
                let j = choose|j: int| 0 <= j < s.len() && s[j] == tail[q - 1];
                assert(!precedes(s[j], e, now, cfg));
            }
            assert(forall|k: int| 0 <= k < tail.len() ==> tail[k] == removed[k + 1]);
        }
    }
}

/// The eviction invariant: a cleanup pass that aims to free
/// `target_bytes`, and in any case to bring the cache back under the
/// low-water mark, leaves the aggregate size at or under the low-water
/// mark unless the retention floor stopped it; and when no removal was
/// forced by age, at least `min_entries` entries remain (or all of them,
/// if there were fewer).
pub proof fn lemma_cleanup_invariant(
    ms: Seq<CachedParquet>, target_bytes: u64, now: u64, cfg: EvictionConfig,
)
    ensures
        ({
            let goal = vstd::math::max(target_bytes as int, total_size(ms) - cfg.target_size);
            let rem = cleanup_remaining(ms, goal, 0, cfg.min_entries as int, now, cfg);
            total_size(rem) <= cfg.target_size || rem.len() <= cfg.min_entries
        }),
        ({
            let goal = vstd::math::max(target_bytes as int, total_size(ms) - cfg.target_size);
            let rem = cleanup_remaining(ms, goal, 0, cfg.min_entries as int, now, cfg);
            let removed = cleanup_removed(ms, goal, 0, cfg.min_entries as int, now, cfg);
            (forall|k: int| 0 <= k < removed.len() ==> !is_forced(#[trigger] removed[k], now, cfg))
                ==> rem.len() >= vstd::math::min(ms.len() as int, cfg.min_entries as int)
        }),
{
    let goal = vstd::math::max(target_bytes as int, total_size(ms) - cfg.target_size);
    let rem = cleanup_remaining(ms, goal, 0, cfg.min_entries as int, now, cfg);
    let removed = cleanup_removed(ms, goal, 0, cfg.min_entries as int, now, cfg);
    lemma_cleanup_accounting(ms, goal, 0, cfg.min_entries as int, now, cfg);
    if total_size(removed) >= goal {
        assert(total_size(rem) == total_size(ms) - total_size(removed));
        assert(total_size(rem) <= cfg.target_size);
    }
    if forall|k: int| 0 <= k < removed.len() ==> !is_forced(#[trigger] removed[k], now, cfg) {
        lemma_cleanup_retains_min(ms, goal, 0, cfg.min_entries as int, now, cfg);
    }
}

/// The source URLs of a sequence of entries, in order.
pub open spec fn urls_of(s: Seq<CachedParquet>) -> Seq<Seq<char>> {
    s.map_values(|e: CachedParquet| e.url@)
}

/// The decision of one eviction pass: which URLs to remove, in order, and
/// what that frees.
pub struct EvictionPlan {
    /// URLs of the entries to remove, in removal order.
    pub urls: Vec<String>,
    /// Total bytes the removals free.
    pub bytes_freed: u64,
    /// Number of entries removed (saturating).
    pub entries_removed: u32,
}

/// The index of the entry that leaves first.
fn victim_scan(v: &Vec<CachedParquet>, now: u64, cfg: &EvictionConfig) -> (r: usize)
    requires
        v@.len() > 0,
    ensures
        r < v@.len(),
        r as int == victim_idx(v@, now, *cfg),
{
    let mut best: usize = 0;
    let mut j: usize = 1;
    proof {
        assert(v@.take(1).len() == 1);
        assert(victim_idx(v@.take(1), now, *cfg) == 0);
    }
    while j < v.len()
        invariant
            1 <= j <= v@.len(),
            v@.len() > 0,
            best < j,
            best as int == victim_idx(v@.take(j as int), now, *cfg),
        decreases v@.len() - j,
    {
        proof {
            let t1 = v@.take(j as int + 1);
            assert(t1.drop_last() =~= v@.take(j as int));
            assert(t1.last() == v@[j as int]);
            assert(t1[best as int] == v@[best as int]);
            assert(victim_idx(t1, now, *cfg) == if precedes(v@[j as int], v@[best as int], now, *cfg) {
                j as int
            } else {
                best as int
            });
        }
        if precedes_exec(&v[j], &v[best], now, cfg) {
            best = j;
        }
        j = j + 1;
    }
    proof {
        assert(v@.take(v@.len() as int) =~= v@);
    }
    best
}

/// Copies a vector of cache metadata records.
pub fn duplicate_metas(v: &Vec<CachedParquet>) -> (r: Vec<CachedParquet>)
    ensures
        r@ == v@,
{
    let mut r: Vec<CachedParquet> = Vec::new();
    let mut i: usize = 0;
    while i < v.len()
        invariant
            0 <= i <= v@.len(),
            r@ =~= v@.take(i as int),
        decreases v@.len() - i,
    {
        r.push(v[i].duplicate());
        proof {
            assert(v@.take(i as int + 1) =~= v@.take(i as int).push(v@[i as int]));
        }
        i = i + 1;
    }
    proof {
        assert(v@.take(v@.len() as int) =~= v@);
    }
    r
}

/// Decides one eviction pass over the given entries: remove forced entries
/// first, oldest fetch first, then normal entries in LRU order, stopping
/// once `target_bytes` have been freed, and never removing a normal entry
/// when at most `min_entries` would remain.  Pure: performs no I/O and does
/// not modify the entries; the cache store applies the decision.
pub fn plan_eviction(
    entries: &Vec<CachedParquet>,
    config: &EvictionConfig,
    now: u64,
    target_bytes: u64,
) -> (plan: EvictionPlan)
    requires
        total_size(entries@) <= u64::MAX,
    ensures
        ({
            let removed = cleanup_removed(
                entries@, target_bytes as int, 0, config.min_entries as int, now, *config,
            );
            &&& text_views(plan.urls@) == urls_of(removed)
            &&& plan.bytes_freed == total_size(removed)
            &&& plan.entries_removed as int == vstd::math::min(removed.len() as int, u32::MAX as int)
        }),
{
    let ghost orig: Seq<CachedParquet> = entries@;
    let ghost goal: int = target_bytes as int;
    let ghost min_e: int = config.min_entries as int;
    let ghost cfg: EvictionConfig = *config;
    let mut scratch: Vec<CachedParquet> = duplicate_metas(entries);
    let mut urls: Vec<String> = Vec::new();
    let mut freed: u64 = 0;
    let mut count: u32 = 0;
    let ghost mut removed_g: Seq<CachedParquet> = Seq::empty();
    proof {
        lemma_total_size_nonneg(orig);
        assert(removed_g + cleanup_removed(scratch@, goal, 0, min_e, now, cfg)
            =~= cleanup_removed(orig, goal, 0, min_e, now, cfg));
        assert(text_views(urls@) =~= urls_of(removed_g));
        assert(total_size(removed_g) == 0);
    }
    loop
        invariant
            total_size(scratch@) + freed == total_size(orig),
            total_size(orig) <= u64::MAX,
            freed == total_size(removed_g),
            cleanup_removed(orig, goal, 0, min_e, now, cfg)
                == removed_g + cleanup_removed(scratch@, goal, freed as int, min_e, now, cfg),
            text_views(urls@) == urls_of(removed_g),
            count as int == vstd::math::min(removed_g.len() as int, u32::MAX as int),
            goal == target_bytes as int,
            min_e == config.min_entries as int,
            cfg == *config,
            orig == entries@,
        ensures
            cleanup_removed(scratch@, goal, freed as int, min_e, now, cfg) =~= Seq::<CachedParquet>::empty(),
        decreases scratch@.len(),
    {
        if freed >= target_bytes {
            break;
        }
        if scratch.len() == 0 {
            break;
        }
        let i = victim_scan(&scratch, now, config);
        let forced = is_forced_exec(&scratch[i], now, config);
        if !(forced || scratch.len() > config.min_entries as usize) {
            break;
        }
        proof {
            lemma_total_size_remove(scratch@, i as int);
            lemma_total_size_nonneg(scratch@.remove(i as int));
            lemma_total_size_push(removed_g, scratch@[i as int]);
            assert(cleanup_removed(scratch@, goal, freed as int, min_e, now, cfg)
                =~= seq![scratch@[i as int]] + cleanup_removed(
                    scratch@.remove(i as int), goal, freed as int + scratch@[i as int].size,
                    min_e, now, cfg,
                ));
            assert(removed_g + cleanup_removed(scratch@, goal, freed as int, min_e, now, cfg)
                =~= removed_g.push(scratch@[i as int]) + cleanup_removed(
                    scratch@.remove(i as int), goal, freed as int + scratch@[i as int].size,
                    min_e, now, cfg,
                ));
            let x = scratch@[i as int];
            let lhs = text_views(urls@.push(x.url));
            let rhs = urls_of(removed_g.push(x));
            assert(text_views(urls@).len() == urls_of(removed_g).len());
            assert(urls@.len() == removed_g.len());
            assert forall|k: int| 0 <= k < lhs.len() implies lhs[k] == rhs[k] by {
                assert(lhs[k] == urls@.push(x.url)[k]@);
                assert(rhs[k] == removed_g.push(x)[k].url@);
                if k < urls@.len() {
                    assert(urls@.push(x.url)[k] == urls@[k]);
                    assert(removed_g.push(x)[k] == removed_g[k]);
                    assert(text_views(urls@)[k] == urls@[k]@);
                    assert(urls_of(removed_g)[k] == removed_g[k].url@);
                    assert(text_views(urls@)[k] == urls_of(removed_g)[k]);
                } else {
                    assert(urls@.push(x.url)[k] == x.url);
                    assert(removed_g.push(x)[k] == x);
                }
            }
            assert(lhs =~= rhs);
        }
        let e = scratch.remove(i);
        freed = freed + e.size;
        count = if count < u32::MAX { count + 1 } else { count };
        proof {
            removed_g = removed_g.push(e);
        }
        urls.push(e.url);
    }
    proof {
        assert(cleanup_removed(orig, goal, 0, min_e, now, cfg) =~= removed_g);
    }
    EvictionPlan { urls, bytes_freed: freed, entries_removed: count }
}

} // verus!
