//! The accounting of the per-database pool cache: which databases hold a pool,
//! when each was last used, and how many connections they reserve against the
//! global budget. Opening and closing connections is the caller's part.
use vstd::prelude::*;
use crate::text::{chars_of, string_of, eq_chars};

verus! {

/// One cached pool.
#[derive(Debug, Clone)]
pub struct PoolEntry {
    pub database: String,
    pub max_connections: u64,
    pub last_used: u64,
}

/// The connections reserved by `es`.
pub open spec fn reserved_by(es: Seq<PoolEntry>) -> nat
    decreases es.len(),
{
    if es.len() == 0 {
        0
    } else {
        reserved_by(es.drop_last()) + es.last().max_connections as nat
    }
}

/// The entries of `es` still in use at `now`: idle for at most `timeout`.
pub open spec fn kept_entries(es: Seq<PoolEntry>, now: u64, timeout: u64) -> Seq<PoolEntry>
    decreases es.len(),
{
    if es.len() == 0 {
        Seq::empty()
    } else if is_idle(es.last(), now, timeout) {
        kept_entries(es.drop_last(), now, timeout)
    } else {
        kept_entries(es.drop_last(), now, timeout).push(es.last())
    }
}

/// The databases of the entries of `es` idle at `now`, in order.
pub open spec fn idle_names(es: Seq<PoolEntry>, now: u64, timeout: u64) -> Seq<Seq<char>>
    decreases es.len(),
{
    if es.len() == 0 {
        Seq::empty()
    } else if is_idle(es.last(), now, timeout) {
        idle_names(es.drop_last(), now, timeout).push(es.last().database@)
    } else {
        idle_names(es.drop_last(), now, timeout)
    }
}

pub open spec fn is_idle(e: PoolEntry, now: u64, timeout: u64) -> bool {
    now >= e.last_used && now - e.last_used > timeout
}

/// Position of the entry of database `db`, if any.
pub open spec fn entry_of(es: Seq<PoolEntry>, db: Seq<char>) -> Option<int> {
    if exists|i: int| 0 <= i < es.len() && #[trigger] es[i].database@ == db {
        Some(choose|i: int| 0 <= i < es.len() && #[trigger] es[i].database@ == db)
    } else {
        None
    }
}

/// Entry `i` was used no later than any other: a least-recently-used entry.
pub open spec fn is_lru(es: Seq<PoolEntry>, i: int) -> bool {
    0 <= i < es.len() && forall|j: int| 0 <= j < es.len() ==> es[i].last_used <= #[trigger] es[j].last_used
}

/// What a pool request did.
#[derive(Debug, Clone)]
pub enum Admission {
    /// The database already had a pool; its use time was refreshed.
    Reused,
    /// A pool was created, after evicting the listed databases.
    Created { evicted: Vec<String> },
}

/// The pool cache's bookkeeping under a global connection budget.
pub struct PoolBudget {
    pub entries: Vec<PoolEntry>,
    pub reserved: u64,
    pub per_pool: u64,
    pub total_budget: u64,
}

proof fn lemma_reserved_remove(es: Seq<PoolEntry>, i: int)
    requires
        0 <= i < es.len(),
    ensures
        reserved_by(es.remove(i)) + es[i].max_connections == reserved_by(es),
    decreases es.len(),
{
    if i < es.len() - 1 {
        lemma_reserved_remove(es.drop_last(), i);
        assert(es.remove(i).drop_last() =~= es.drop_last().remove(i));
    } else {
        assert(es.remove(i) =~= es.drop_last());
    }
}

proof fn lemma_reserved_update_time(es: Seq<PoolEntry>, i: int, e: PoolEntry)
    requires
        0 <= i < es.len(),
        e.max_connections == es[i].max_connections,
    ensures
        reserved_by(es.update(i, e)) == reserved_by(es),
    decreases es.len(),
{
    if i < es.len() - 1 {
        lemma_reserved_update_time(es.drop_last(), i, e);
        assert(es.update(i, e).drop_last() =~= es.drop_last().update(i, e));
    } else {
        assert(es.update(i, e).drop_last() =~= es.drop_last());
    }
}

proof fn lemma_kept_reserved_le(es: Seq<PoolEntry>, now: u64, timeout: u64)
    ensures
        reserved_by(kept_entries(es, now, timeout)) <= reserved_by(es),
    decreases es.len(),
{
    if es.len() > 0 {
        lemma_kept_reserved_le(es.drop_last(), now, timeout);
        if !is_idle(es.last(), now, timeout) {
            let k = kept_entries(es, now, timeout);
            assert(k.drop_last() =~= kept_entries(es.drop_last(), now, timeout));
        }
    }
}

impl PoolBudget {
    /// The reserved count is the sum of the maxima of the cached pools, each
    /// cached pool has the per-pool maximum, and the count fits the budget.
    pub open spec fn wf(&self) -> bool {
        &&& self.reserved as nat == reserved_by(self.entries@)
        &&& forall|i: int| 0 <= i < self.entries@.len() ==> #[trigger] self.entries@[i].max_connections == self.per_pool
        &&& self.reserved <= self.total_budget
    }

    pub fn new(per_pool: u64, total_budget: u64) -> (r: Self)
        ensures
            r.wf(),
            r.entries@.len() == 0,
            r.per_pool == per_pool,
            r.total_budget == total_budget,
    {
        PoolBudget { entries: Vec::new(), reserved: 0, per_pool, total_budget }
    }

    /// Connections reserved by the cached pools.
    pub fn total_connections(&self) -> (r: u64)
        ensures
            r == self.reserved,
    {
        self.reserved
    }

    /// Number of cached pools.
    pub fn active_pools(&self) -> (r: usize)
        ensures
            r == self.entries@.len(),
    {
        self.entries.len()
    }

    fn find(&self, db: &str) -> (r: Option<usize>)
        ensures
            r matches Some(i) ==> i < self.entries@.len() && self.entries@[i as int].database@ == db@,
            r is None ==> entry_of(self.entries@, db@) is None,
    {
        let target = chars_of(db);
        let mut i: usize = 0;
        while i < self.entries.len()
            invariant
                i <= self.entries@.len(),
                target@ == db@,
                forall|j: int| 0 <= j < i ==> self.entries@[j].database@ != db@,
            decreases self.entries@.len() - i,
        {
            if eq_chars(&chars_of(self.entries[i].database.as_str()), &target) {
                return Some(i);
            }
            i = i + 1;
        }
        None
    }

    /// Position of a least-recently-used entry (the first of them).
    fn lru_index(&self) -> (r: usize)
        requires
            self.entries@.len() > 0,
        ensures
            is_lru(self.entries@, r as int),
    {
        let mut best: usize = 0;
        let mut i: usize = 1;
        while i < self.entries.len()
            invariant
                1 <= i <= self.entries@.len(),
                best < i,
                forall|j: int| 0 <= j < i ==> self.entries@[best as int].last_used <= #[trigger] self.entries@[j].last_used,
            decreases self.entries@.len() - i,
        {
            if self.entries[i].last_used < self.entries[best].last_used {
                best = i;
            }
            i = i + 1;
        }
        best
    }

    /// Serves a pool request for `db` at time `now`: a cached pool is reused
    /// and its use time refreshed; otherwise least-recently-used pools are
    /// evicted until one more pool fits the budget, and the new pool is cached.
    /// Fails (`None`, nothing changed) only where one pool alone exceeds the budget.
    pub fn acquire(&mut self, db: &str, now: u64) -> (r: Option<Admission>)
        requires
            old(self).wf(),
        ensures
            final(self).wf(),
            final(self).per_pool == old(self).per_pool,
            final(self).total_budget == old(self).total_budget,
            r is None <==> (entry_of(old(self).entries@, db@) is None && old(self).per_pool > old(self).total_budget),
            r is None ==> final(self).entries@ == old(self).entries@,
            r matches Some(Admission::Reused) ==> entry_of(old(self).entries@, db@) is Some
                && final(self).entries@.len() == old(self).entries@.len(),
            r matches Some(Admission::Reused) ==> exists|i: int| 0 <= i < old(self).entries@.len()
                && #[trigger] old(self).entries@[i].database@ == db@
                && final(self).entries@[i].database@ == db@ && final(self).entries@[i].last_used == now
                && forall|j: int| 0 <= j < old(self).entries@.len() && j != i ==> #[trigger] final(self).entries@[j] == old(self).entries@[j],
            r matches Some(Admission::Created { evicted }) ==> entry_of(old(self).entries@, db@) is None
                && final(self).entries@.len() > 0
                && final(self).entries@.last().database@ == db@
                && final(self).entries@.last().last_used == now
                && evicted@.len() <= 1
                && (evicted@.len() == 0 ==> final(self).entries@.drop_last() == old(self).entries@)
                && (evicted@.len() == 1 ==> exists|k: int| #[trigger] is_lru(old(self).entries@, k)
                    && evicted@[0]@ == old(self).entries@[k].database@
                    && final(self).entries@.drop_last() == old(self).entries@.remove(k)),
            r is Some ==> exists|i: int| 0 <= i < final(self).entries@.len() && #[trigger] final(self).entries@[i].database@ == db@
                && final(self).entries@[i].last_used == now,
    {
        match self.find(db) {
            Some(i) => {
                let ghost before = self.entries@;
                let e = PoolEntry {
                    database: string_of(&chars_of(self.entries[i].database.as_str())),
                    max_connections: self.entries[i].max_connections,
                    last_used: now,
                };
                proof {
                    lemma_reserved_update_time(before, i as int, e);
                }
                self.entries.set(i, e);
                assert(self.entries@[i as int].database@ == db@);
                Some(Admission::Reused)
            },
            None => {
                if self.per_pool > self.total_budget {
                    return None;
                }
                let mut evicted: Vec<String> = Vec::new();
                let ghost start = self.entries@;
                if self.reserved > self.total_budget - self.per_pool {
                    proof {
                        if self.entries@.len() == 0 {
                            assert(reserved_by(self.entries@) == 0);
                        }
                    }
                    let k = self.lru_index();
                    proof {
                        lemma_reserved_remove(start, k as int);
                    }
                    let gone = self.entries.remove(k);
                    self.reserved = self.reserved - gone.max_connections;
                    evicted.push(gone.database);
                    proof {
                        assert forall|j: int| 0 <= j < self.entries@.len() implies #[trigger] self.entries@[j].max_connections == self.per_pool by {
                            if j < k {
                                assert(self.entries@[j] == start[j]);
                            } else {
                                assert(self.entries@[j] == start[j + 1]);
                            }
                        }
                        assert(evicted@[0]@ == start[k as int].database@);
                        assert(is_lru(start, k as int));
                        assert(self.entries@ == start.remove(k as int));
                    }
                }
                proof {
                    if self.entries@.len() == 0 {
                        assert(reserved_by(self.entries@) == 0);
                    }
                }
                let ghost before = self.entries@;
                self.entries.push(PoolEntry { database: string_of(&chars_of(db)), max_connections: self.per_pool, last_used: now });
                self.reserved = self.reserved + self.per_pool;
                proof {
                    assert(self.entries@.drop_last() =~= before);
                    assert forall|j: int| 0 <= j < self.entries@.len() implies #[trigger] self.entries@[j].max_connections == self.per_pool by {
                        if j < before.len() {
                            assert(self.entries@[j] == before[j]);
                        }
                    }
                    let last = self.entries@.len() - 1;
                    assert(self.entries@[last].database@ == db@);
                }
                Some(Admission::Created { evicted })
            },
        }
    }

    /// Drops the pools idle for longer than `idle_timeout` at time `now`; the
    /// others stay, in order, and the reserved count follows.
    pub fn cleanup_idle(&mut self, now: u64, idle_timeout: u64) -> (removed: Vec<String>)
        requires
            old(self).wf(),
        ensures
            final(self).wf(),
            final(self).entries@ == kept_entries(old(self).entries@, now, idle_timeout),
            removed@.map_values(|d: String| d@) == idle_names(old(self).entries@, now, idle_timeout),
            final(self).reserved as nat == reserved_by(kept_entries(old(self).entries@, now, idle_timeout)),
            final(self).per_pool == old(self).per_pool,
            final(self).total_budget == old(self).total_budget,
    {
        let ghost orig = self.entries@;
        let mut kept: Vec<PoolEntry> = Vec::new();
        let mut removed: Vec<String> = Vec::new();
        let mut reserved: u64 = 0;
        let mut old_entries: Vec<PoolEntry> = Vec::new();
        std::mem::swap(&mut old_entries, &mut self.entries);
        let n = old_entries.len();
        let mut slots: Vec<PoolEntry> = Vec::new();
        while old_entries.len() > 0
            invariant
                n == orig.len(),
                slots@.len() + old_entries@.len() == n,
                old_entries@ == orig.subrange(0, old_entries@.len() as int),
                forall|m: int| 0 <= m < slots@.len() ==> #[trigger] slots@[m] == orig[n - 1 - m],
            decreases old_entries@.len(),
        {
            match old_entries.pop() {
                Some(e) => slots.push(e),
                None => {},
            }
        }
        let mut i: usize = 0;
        while i < n
            invariant
                n == orig.len(),
                slots@.len() == n - i,
                i <= n,
                forall|m: int| 0 <= m < slots@.len() ==> #[trigger] slots@[m] == orig[n - 1 - m],
                kept@ == kept_entries(orig.subrange(0, i as int), now, idle_timeout),
                removed@.map_values(|d: String| d@) == idle_names(orig.subrange(0, i as int), now, idle_timeout),
                reserved as nat == reserved_by(kept@),
                reserved_by(kept@) <= reserved_by(orig.subrange(0, i as int)),
                forall|j: int| 0 <= j < orig.len() ==> #[trigger] orig[j].max_connections == self.per_pool,
                reserved_by(orig) <= self.total_budget,
            decreases n - i,
        {
            let ghost pre = orig.subrange(0, i as int);
            let ghost post = orig.subrange(0, i + 1);
            assert(post.drop_last() =~= pre);
            proof {
                lemma_prefix_reserved_le(orig, i + 1);
            }
            let e = slots.pop().unwrap();
            assert(e == orig[i as int]);
            let ghost old_kept = kept@;
            let ghost old_removed = removed@.map_values(|d: String| d@);
            if now >= e.last_used && now - e.last_used > idle_timeout {
                removed.push(e.database);
                assert(removed@.map_values(|d: String| d@) =~= old_removed.push(orig[i as int].database@));
                assert(kept_entries(post, now, idle_timeout) == kept_entries(pre, now, idle_timeout));
            } else {
                assert(reserved_by(post) == reserved_by(pre) + e.max_connections);
                assert(reserved + e.max_connections <= reserved_by(orig));
                reserved = reserved + e.max_connections;
                kept.push(e);
                assert(removed@.map_values(|d: String| d@) == idle_names(post, now, idle_timeout));
                assert(kept@.drop_last() =~= old_kept);
                assert(kept@ =~= kept_entries(post, now, idle_timeout));
            }
            i = i + 1;
        }
        assert(orig.subrange(0, n as int) =~= orig);
        self.entries = kept;
        self.reserved = reserved;
        proof {
            lemma_kept_subset(orig, now, idle_timeout);
        }
        removed
    }
}

proof fn lemma_prefix_reserved_le(es: Seq<PoolEntry>, k: int)
    requires
        0 <= k <= es.len(),
    ensures
        reserved_by(es.subrange(0, k)) <= reserved_by(es),
    decreases es.len() - k,
{
    if k < es.len() {
        lemma_prefix_reserved_le(es, k + 1);
        assert(es.subrange(0, k + 1).drop_last() =~= es.subrange(0, k));
    } else {
        assert(es.subrange(0, k) =~= es);
    }
}

proof fn lemma_kept_subset(es: Seq<PoolEntry>, now: u64, timeout: u64)
    ensures
        forall|j: int| 0 <= j < kept_entries(es, now, timeout).len() ==> exists|m: int| 0 <= m < es.len() && #[trigger] kept_entries(es, now, timeout)[j] == es[m],
    decreases es.len(),
{
    if es.len() > 0 {
        lemma_kept_subset(es.drop_last(), now, timeout);
        let k = kept_entries(es, now, timeout);
        let p = kept_entries(es.drop_last(), now, timeout);
        assert forall|j: int| 0 <= j < k.len() implies exists|m: int| 0 <= m < es.len() && #[trigger] k[j] == es[m] by {
            if j < p.len() {
                let m = choose|m: int| 0 <= m < es.drop_last().len() && p[j] == es.drop_last()[m];
                assert(k[j] == es[m]);
            } else {
                assert(k[j] == es[es.len() - 1]);
            }
        }
    }
}

/// After idle cleanup the reserved count is the sum of the maxima of the
/// remaining pools, and no more than before: it cannot fall below zero.
pub proof fn lemma_cleanup_keeps_accounting(es: Seq<PoolEntry>, now: u64, timeout: u64)
    ensures
        reserved_by(kept_entries(es, now, timeout)) <= reserved_by(es),
{
    lemma_kept_reserved_le(es, now, timeout);
}

/// Idle cleanup removes as many pools as it reports: the kept pools and the
/// removed names together account for every pool.
pub proof fn lemma_cleanup_counts(es: Seq<PoolEntry>, now: u64, timeout: u64)
    ensures
        kept_entries(es, now, timeout).len() + idle_names(es, now, timeout).len() == es.len(),
    decreases es.len(),
{
    if es.len() > 0 {
        lemma_cleanup_counts(es.drop_last(), now, timeout);
    }
}

} // verus!
