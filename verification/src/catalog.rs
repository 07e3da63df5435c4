//! Catalog of which symbols have data, over what ranges.

use vstd::prelude::*;

use crate::market::{Resolution, Symbol, SymbolV};
use crate::symtab::{keys_unique, tab_find, tab_get, tab_insert};

verus! {

/// What the catalog knows about one symbol's data.
#[derive(Debug)]
pub struct SymbolInfo {
    pub symbol: Symbol,
    pub first_date: i64,
    pub last_date: i64,
    pub resolution: Resolution,
    pub record_count: u64,
    pub last_updated: i64,
}

impl Clone for SymbolInfo {
    fn clone(&self) -> (res: SymbolInfo)
        ensures
            res == *self,
    {
        SymbolInfo {
            symbol: self.symbol.clone(),
            first_date: self.first_date,
            last_date: self.last_date,
            resolution: self.resolution,
            record_count: self.record_count,
            last_updated: self.last_updated,
        }
    }
}

/// Catalog statistics.
#[derive(Debug, Clone, Copy, PartialEq, Eq, Structural)]
pub struct CatalogStats {
    pub total_symbols: u64,
    pub total_records: u64,
    pub earliest_date: Option<i64>,
    pub latest_date: Option<i64>,
}

/// In-memory catalog of available symbol data.
#[derive(Debug)]
pub struct DataCatalog {
    entries: Vec<(Symbol, SymbolInfo)>,
}

impl DataCatalog {
    pub closed spec fn tab(self) -> Seq<(Symbol, SymbolInfo)> {
        self.entries@
    }

    pub open spec fn wf(self) -> bool {
        keys_unique(self.tab())
    }

    pub fn new() -> (r: DataCatalog)
        ensures
            r.wf(),
            r.tab().len() == 0,
    {
        DataCatalog { entries: Vec::new() }
    }

    /// Record that data for a symbol exists over a date range.
    pub fn register_symbol_data(&mut self, info: SymbolInfo)
        requires
            old(self).wf(),
        ensures
            final(self).wf(),
            tab_get(final(self).tab(), info.symbol@) == Some(info),
            forall|o: SymbolV|
                o != info.symbol@ ==> tab_get(final(self).tab(), o) == tab_get(
                    old(self).tab(),
                    o,
                ),
    {
        let key = info.symbol.clone();
        tab_insert(&mut self.entries, key, info);
    }

    /// What is known about a symbol, if anything.
    pub fn get_symbol_info(&self, symbol: &Symbol) -> (r: Option<&SymbolInfo>)
        requires
            self.wf(),
        ensures
            match r {
                Some(info) => tab_get(self.tab(), symbol@) == Some(*info),
                None => tab_get(self.tab(), symbol@) is None,
            },
    {
        match tab_find(&self.entries, symbol) {
            Some(i) => {
                proof {
                    crate::symtab::lemma_tab_at(self.entries@, symbol@, i as int);
                }
                Some(&self.entries[i].1)
            },
            None => None,
        }
    }

    /// All symbols with registered data, in registration order.
    pub fn list_available_symbols(&self) -> (r: Vec<Symbol>)
        ensures
            r@.len() == self.tab().len(),
            forall|i: int| 0 <= i < r@.len() ==> #[trigger] r@[i] == self.tab()[i].0,
    {
        let mut out: Vec<Symbol> = Vec::new();
        let mut i: usize = 0;
        while i < self.entries.len()
            invariant
                i <= self.entries@.len(),
                out@.len() == i,
                forall|k: int| 0 <= k < i ==> #[trigger] out@[k] == self.entries@[k].0,
            decreases self.entries@.len() - i,
        {
            out.push(self.entries[i].0.clone());
            i += 1;
        }
        out
    }

    /// Aggregate statistics: symbol count, record count, and the
    /// overall date range.
    pub fn get_catalog_stats(&self) -> (r: CatalogStats)
        requires
            self.tab().len() < 1000000000,
        ensures
            r.total_symbols == self.tab().len(),
            (r.earliest_date is Some) == (self.tab().len() > 0),
            (r.latest_date is Some) == (self.tab().len() > 0),
    {
        let mut total_records: u64 = 0;
        let mut earliest: Option<i64> = None;
        let mut latest: Option<i64> = None;
        let mut i: usize = 0;
        while i < self.entries.len()
            invariant
                i <= self.entries@.len(),
                (earliest is Some) == (i > 0),
                (latest is Some) == (i > 0),
            decreases self.entries@.len() - i,
        {
            let info = &self.entries[i].1;
            total_records = total_records.saturating_add(info.record_count);
            earliest = match earliest {
                Some(e) => if info.first_date < e {
                    Some(info.first_date)
                } else {
                    Some(e)
                },
                None => Some(info.first_date),
            };
            latest = match latest {
                Some(l) => if info.last_date > l {
                    Some(info.last_date)
                } else {
                    Some(l)
                },
                None => Some(info.last_date),
            };
            i += 1;
        }
        CatalogStats {
            total_symbols: self.entries.len() as u64,
            total_records,
            earliest_date: earliest,
            latest_date: latest,
        }
    }
}

impl Default for DataCatalog {
    fn default() -> (r: DataCatalog)
        ensures
            r.wf(),
            r.tab().len() == 0,
    {
        DataCatalog::new()
    }
}

} // verus!
