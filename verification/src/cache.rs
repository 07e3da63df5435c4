//! In-memory cache of loaded bars with least-recently-used eviction.

use vstd::prelude::*;

use crate::market::{Bar, Resolution, Symbol, SymbolV};

verus! {

/// One cached range of bars for a symbol and resolution.
#[derive(Debug)]
pub struct CacheEntry {
    pub symbol: Symbol,
    pub resolution: Resolution,
    pub start_date: i64,
    pub end_date: i64,
    pub bars: Vec<Bar>,
    pub last_accessed: u64,
}

/// Cache effectiveness counters.
#[derive(Debug, Clone, Copy, PartialEq, Eq, Structural)]
pub struct CacheStats {
    pub hits: u64,
    pub misses: u64,
    pub stores: u64,
    pub evictions: u64,
    pub total_bars_cached: u64,
}

impl CacheStats {
    /// Fraction of lookups that hit, in millionths.
    pub fn hit_rate(&self) -> (r: crate::decimal::Dec)
        ensures
            self.hits + self.misses == 0 ==> r.m == 0,
            self.hits + self.misses > 0 ==> r.m == crate::decimal::div_m(
                self.hits as int,
                self.hits as int + self.misses as int,
            ),
    {
        let total: u128 = self.hits as u128 + self.misses as u128;
        if total == 0 {
            return crate::decimal::Dec::zero();
        }
        crate::decimal::Dec::from_raw(self.hits as i128).div(
            crate::decimal::Dec::from_raw(total as i128),
        )
    }

    /// Fraction of lookups that missed, in millionths.
    pub fn miss_rate(&self) -> (r: crate::decimal::Dec)
        ensures
            self.hits + self.misses == 0 ==> r.m == 0,
            self.hits + self.misses > 0 ==> r.m == crate::decimal::div_m(
                self.misses as int,
                self.hits as int + self.misses as int,
            ),
    {
        let total: u128 = self.hits as u128 + self.misses as u128;
        if total == 0 {
            return crate::decimal::Dec::zero();
        }
        crate::decimal::Dec::from_raw(self.misses as i128).div(
            crate::decimal::Dec::from_raw(total as i128),
        )
    }
}

/// Cache occupancy snapshot.
#[derive(Debug, Clone, Copy, PartialEq, Eq, Structural)]
pub struct CacheInfo {
    pub entries: usize,
    pub max_entries: usize,
}

/// The bars of `s` whose timestamps lie in `[start, end]`, in order.
pub open spec fn bars_in_range(s: Seq<Bar>, start: i64, end: i64) -> Seq<Bar>
    decreases s.len(),
{
    if s.len() == 0 {
        Seq::empty()
    } else {
        let p = bars_in_range(s.drop_last(), start, end);
        if start <= s.last().timestamp <= end {
            p.push(s.last())
        } else {
            p
        }
    }
}

/// Sequential bar cache keyed by symbol and resolution, with
/// least-recently-used eviction once full.
#[derive(Debug)]
pub struct CacheManager {
    entries: Vec<CacheEntry>,
    max_entries: usize,
    hits: u64,
    misses: u64,
    stores: u64,
    evictions: u64,
    tick: u64,
}

impl CacheManager {
    pub closed spec fn entries_seq(self) -> Seq<CacheEntry> {
        self.entries@
    }

    pub closed spec fn max_entries_spec(self) -> usize {
        self.max_entries
    }

    pub closed spec fn counters(self) -> (u64, u64, u64, u64) {
        (self.hits, self.misses, self.stores, self.evictions)
    }

    /// Every cached bar is bounded with a non-negative timestamp.
    pub closed spec fn wf(self) -> bool {
        &&& self.max_entries >= 1
        &&& self.entries@.len() <= self.max_entries
        &&& forall|i: int, j: int|
            0 <= i < self.entries@.len() && 0 <= j < (#[trigger] self.entries@[i]).bars@.len()
                ==> (#[trigger] self.entries@[i].bars@[j]).bounded()
                && self.entries@[i].bars@[j].timestamp >= 0
    }

    /// A cache holding at most one thousand ranges.
    pub fn new() -> (r: CacheManager)
        ensures
            r.wf(),
            r.entries_seq().len() == 0,
            r.max_entries_spec() == 1000,
    {
        CacheManager {
            entries: Vec::new(),
            max_entries: 1000,
            hits: 0,
            misses: 0,
            stores: 0,
            evictions: 0,
            tick: 0,
        }
    }

    /// A cache with an explicit entry limit (at least one).
    pub fn with_limits(max_entries: usize) -> (r: CacheManager)
        ensures
            r.wf(),
            r.entries_seq().len() == 0,
            r.max_entries_spec() == if max_entries >= 1 {
                max_entries
            } else {
                1usize
            },
    {
        CacheManager {
            entries: Vec::new(),
            max_entries: if max_entries >= 1 {
                max_entries
            } else {
                1
            },
            hits: 0,
            misses: 0,
            stores: 0,
            evictions: 0,
            tick: 0,
        }
    }

    /// Look up bars for a symbol and resolution covering
    /// `[start_date, end_date]`: a hit returns exactly the cached bars
    /// within the range.
    pub fn get_bars(
        &mut self,
        symbol: &Symbol,
        start_date: i64,
        end_date: i64,
        resolution: Resolution,
    ) -> (r: Option<Vec<Bar>>)
        requires
            old(self).wf(),
        ensures
            final(self).wf(),
            final(self).entries_seq().len() == old(self).entries_seq().len(),
            match r {
                Some(v) => exists|i: int|
                    {
                        &&& 0 <= i < old(self).entries_seq().len()
                        &&& (#[trigger] old(self).entries_seq()[i]).symbol@ == symbol@
                        &&& old(self).entries_seq()[i].resolution == resolution
                        &&& old(self).entries_seq()[i].start_date <= start_date
                        &&& old(self).entries_seq()[i].end_date >= end_date
                        &&& v@ == bars_in_range(
                            old(self).entries_seq()[i].bars@,
                            start_date,
                            end_date,
                        )
                    },
                None => true,
            },
    {
        self.tick = self.tick.saturating_add(1);
        let tick = self.tick;
        let mut i: usize = 0;
        while i < self.entries.len()
            invariant
                i <= self.entries@.len(),
                self.wf(),
                self.entries@.len() == old(self).entries_seq().len(),
                forall|k: int, j: int|
                    0 <= k < self.entries@.len() && 0 <= j < (
                    #[trigger] self.entries@[k]).bars@.len() ==> (
                    #[trigger] self.entries@[k].bars@[j]) == old(self).entries_seq()[k].bars@[j],
                forall|k: int|
                    0 <= k < self.entries@.len() ==> (#[trigger] self.entries@[k]).symbol@ == old(
                        self,
                    ).entries_seq()[k].symbol@ && self.entries@[k].resolution == old(
                        self,
                    ).entries_seq()[k].resolution && self.entries@[k].start_date == old(
                        self,
                    ).entries_seq()[k].start_date && self.entries@[k].end_date == old(
                        self,
                    ).entries_seq()[k].end_date && self.entries@[k].bars@.len() == old(
                        self,
                    ).entries_seq()[k].bars@.len(),
            decreases self.entries@.len() - i,
        {
            let matches_entry = {
                let e = &self.entries[i];
                e.resolution == resolution && e.symbol == *symbol && e.start_date <= start_date
                    && e.end_date >= end_date
            };
            if matches_entry {
                let ghost e0 = self.entries@[i as int];
                // Refresh recency and collect the bars in range.
                let mut e = self.entries[i].clone_entry();
                e.last_accessed = tick;
                let mut out: Vec<Bar> = Vec::new();
                let mut j: usize = 0;
                proof {
                    assert(bars_in_range(e.bars@.subrange(0, 0), start_date, end_date) =~= Seq::<
                        Bar,
                    >::empty());
                    assert(out@ =~= bars_in_range(e.bars@.subrange(0, 0), start_date, end_date));
                }
                while j < e.bars.len()
                    invariant
                        j <= e.bars@.len(),
                        out@ == bars_in_range(e.bars@.subrange(0, j as int), start_date, end_date),
                    decreases e.bars@.len() - j,
                {
                    proof {
                        assert(e.bars@.subrange(0, j as int + 1).drop_last() =~= e.bars@.subrange(
                            0,
                            j as int,
                        ));
                        assert(e.bars@.subrange(0, j as int + 1).last() == e.bars@[j as int]);
                    }
                    let b = &e.bars[j];
                    if start_date <= b.timestamp && b.timestamp <= end_date {
                        out.push(b.clone());
                    }
                    j += 1;
                }
                proof {
                    assert(e.bars@.subrange(0, e.bars@.len() as int) =~= e.bars@);
                }
                self.entries.set(i, e);
                self.hits = self.hits.saturating_add(1);
                proof {
                    assert(e0.bars@ =~= old(self).entries_seq()[i as int].bars@);
                }
                return Some(out);
            }
            i += 1;
        }
        self.misses = self.misses.saturating_add(1);
        None
    }

    /// Store a range of bars, evicting the least recently used entry
    /// when the cache is full.
    pub fn store_bars(&mut self, symbol: Symbol, bars: Vec<Bar>, resolution: Resolution)
        requires
            old(self).wf(),
            forall|j: int|
                0 <= j < bars@.len() ==> (#[trigger] bars@[j]).bounded() && bars@[j].timestamp
                    >= 0,
        ensures
            final(self).wf(),
            final(self).entries_seq().len() <= old(self).entries_seq().len() + 1,
            final(self).entries_seq().len() <= final(self).max_entries_spec(),
            old(self).entries_seq().len() <= old(self).max_entries_spec()
                ==> final(self).entries_seq().len() >= 1,
    {
        self.tick = self.tick.saturating_add(1);
        let (start_date, end_date): (i64, i64) = if bars.len() == 0 {
            (0, 0)
        } else {
            (bars[0].timestamp, bars[bars.len() - 1].timestamp)
        };

        if self.entries.len() >= self.max_entries {
            // Evict the least recently used entry.
            let mut lru: usize = 0;
            let mut k: usize = 1;
            while k < self.entries.len()
                invariant
                    self.entries@.len() > 0,
                    lru < k <= self.entries@.len() || (k <= self.entries@.len() && lru
                        < self.entries@.len()),
                decreases self.entries@.len() - k,
            {
                if self.entries[k].last_accessed < self.entries[lru].last_accessed {
                    lru = k;
                }
                k += 1;
            }
            if self.entries.len() > 0 {
                self.entries.remove(lru);
                self.evictions = self.evictions.saturating_add(1);
            }
        }

        let entry = CacheEntry {
            symbol,
            resolution,
            start_date,
            end_date,
            bars,
            last_accessed: self.tick,
        };
        if self.entries.len() < self.max_entries {
            self.entries.push(entry);
        }
        self.stores = self.stores.saturating_add(1);
    }

    /// Drop every cached entry.
    pub fn clear(&mut self)
        requires
            old(self).wf(),
        ensures
            final(self).wf(),
            final(self).entries_seq().len() == 0,
            final(self).max_entries_spec() == old(self).max_entries_spec(),
    {
        self.entries = Vec::new();
    }

    /// Cache effectiveness counters.
    pub fn get_stats(&self) -> (r: CacheStats)
        requires
            self.wf(),
        ensures
            (r.hits, r.misses, r.stores, r.evictions) == self.counters(),
    {
        let mut total_bars: u64 = 0;
        let mut i: usize = 0;
        while i < self.entries.len()
            invariant
                i <= self.entries@.len(),
            decreases self.entries@.len() - i,
        {
            total_bars = total_bars.saturating_add(self.entries[i].bars.len() as u64);
            i += 1;
        }
        CacheStats {
            hits: self.hits,
            misses: self.misses,
            stores: self.stores,
            evictions: self.evictions,
            total_bars_cached: total_bars,
        }
    }

    /// Occupancy snapshot.
    pub fn get_cache_info(&self) -> (r: CacheInfo)
        ensures
            r.entries == self.entries_seq().len(),
            r.max_entries == self.max_entries_spec(),
    {
        CacheInfo { entries: self.entries.len(), max_entries: self.max_entries }
    }
}

impl CacheEntry {
    /// Clone one cache entry.
    fn clone_entry(&self) -> (res: CacheEntry)
        ensures
            res.symbol == self.symbol,
            res.resolution == self.resolution,
            res.start_date == self.start_date,
            res.end_date == self.end_date,
            res.bars@ == self.bars@,
            res.last_accessed == self.last_accessed,
    {
        let mut bars: Vec<Bar> = Vec::new();
        let mut i: usize = 0;
        while i < self.bars.len()
            invariant
                i <= self.bars@.len(),
                bars@ =~= self.bars@.subrange(0, i as int),
            decreases self.bars@.len() - i,
        {
            bars.push(self.bars[i].clone());
            i += 1;
        }
        proof {
            assert(bars@ =~= self.bars@);
        }
        CacheEntry {
            symbol: self.symbol.clone(),
            resolution: self.resolution,
            start_date: self.start_date,
            end_date: self.end_date,
            bars,
            last_accessed: self.last_accessed,
        }
    }
}

/// Bars selected from a well-formed cache's entry are bounded.
pub proof fn lemma_bars_in_range_bounded(c: CacheManager, v: Seq<Bar>, start: i64, end: i64)
    requires
        c.wf(),
        exists|i: int|
            0 <= i < c.entries_seq().len() && v == bars_in_range(
                (#[trigger] c.entries_seq()[i]).bars@,
                start,
                end,
            ),
    ensures
        forall|k: int| 0 <= k < v.len() ==> (#[trigger] v[k]).bounded() && v[k].timestamp >= 0,
{
    let i = choose|i: int|
        0 <= i < c.entries_seq().len() && v == bars_in_range(
            (#[trigger] c.entries_seq()[i]).bars@,
            start,
            end,
        );
    lemma_bars_in_range_sub(c.entries_seq()[i].bars@, start, end);
    assert forall|k: int| 0 <= k < v.len() implies (#[trigger] v[k]).bounded() && v[k].timestamp
        >= 0 by {
        assert(c.entries_seq()[i].bars@.contains(v[k]));
        let w = choose|w: int|
            0 <= w < c.entries_seq()[i].bars@.len() && c.entries_seq()[i].bars@[w] == v[k];
        assert(c.entries_seq()[i].bars@[w].bounded());
    }
}

/// Every bar selected by the range filter comes from the source.
pub proof fn lemma_bars_in_range_sub(s: Seq<Bar>, start: i64, end: i64)
    ensures
        forall|k: int|
            0 <= k < bars_in_range(s, start, end).len() ==> s.contains(
                #[trigger] bars_in_range(s, start, end)[k],
            ),
    decreases s.len(),
{
    if s.len() > 0 {
        lemma_bars_in_range_sub(s.drop_last(), start, end);
        let p = bars_in_range(s.drop_last(), start, end);
        let cur = bars_in_range(s, start, end);
        assert forall|k: int| 0 <= k < cur.len() implies s.contains(#[trigger] cur[k]) by {
            if start <= s.last().timestamp <= end {
                if k < p.len() {
                    assert(cur[k] == p[k]);
                    assert(s.drop_last().contains(p[k]));
                    let w = choose|w: int|
                        0 <= w < s.drop_last().len() && s.drop_last()[w] == p[k];
                    assert(s[w] == p[k]);
                } else {
                    assert(cur[k] == s.last());
                    assert(s[s.len() - 1] == s.last());
                }
            } else {
                assert(cur[k] == p[k]);
                assert(s.drop_last().contains(p[k]));
                let w = choose|w: int| 0 <= w < s.drop_last().len() && s.drop_last()[w] == p[k];
                assert(s[w] == p[k]);
            }
        }
    }
}

} // verus!
