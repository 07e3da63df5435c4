//! Data manager: coordinates the cache, the catalog, the storage
//! layout and a prioritized list of providers.

use vstd::prelude::*;

use crate::cache::CacheManager;
use crate::catalog::{DataCatalog, SymbolInfo};
use crate::errors::{DataError, GbError, GbResult};
use crate::host;
use crate::market::{Bar, Resolution, Symbol};
use crate::providers::DataProvider;
use crate::storage::StorageManager;

verus! {

/// Coordinates all data operations: lookups try the cache first, then
/// each provider in order; provider hits back-fill the cache and the
/// catalog. Persistent storage is written at the application edge.
#[derive(Debug)]
pub struct DataManager<P: DataProvider> {
    pub catalog: DataCatalog,
    pub storage: StorageManager,
    pub cache: CacheManager,
    pub providers: Vec<P>,
}

impl<P: DataProvider> DataManager<P> {
    pub open spec fn wf(self) -> bool {
        &&& self.catalog.wf()
        &&& self.cache.wf()
    }

    pub fn new() -> (r: DataManager<P>)
        ensures
            r.wf(),
            r.providers@.len() == 0,
    {
        DataManager {
            catalog: DataCatalog::new(),
            storage: StorageManager::new("./data"),
            cache: CacheManager::new(),
            providers: Vec::new(),
        }
    }

    /// Register one more provider; providers are tried in the order
    /// they were added.
    pub fn add_provider(&mut self, provider: P)
        requires
            old(self).wf(),
        ensures
            final(self).wf(),
            final(self).providers@ == old(self).providers@.push(provider),
            final(self).catalog == old(self).catalog,
            final(self).storage == old(self).storage,
            final(self).cache == old(self).cache,
    {
        self.providers.push(provider);
    }

    /// Load bars for a symbol over `[start_date, end_date]`: the cache
    /// answers first; otherwise the first supporting provider that
    /// succeeds does, and its bars are cached and cataloged. Every bar
    /// returned is bounded with a non-negative timestamp.
    pub fn load_data(
        &mut self,
        symbol: &Symbol,
        start_date: i64,
        end_date: i64,
        resolution: Resolution,
    ) -> (r: GbResult<Vec<Bar>>)
        requires
            old(self).wf(),
        ensures
            final(self).wf(),
            match r {
                Ok(bars) => forall|i: int|
                    0 <= i < bars@.len() ==> (#[trigger] bars@[i]).bounded() && bars@[i].timestamp
                        >= 0,
                Err(_) => true,
            },
    {
        match self.cache.get_bars(symbol, start_date, end_date, resolution) {
            Some(bars) => {
                proof {
                    crate::cache::lemma_bars_in_range_bounded(
                        old(self).cache,
                        bars@,
                        start_date,
                        end_date,
                    );
                }
                return Ok(bars);
            },
            None => {},
        }

        let mut p: usize = 0;
        while p < self.providers.len()
            invariant
                p <= self.providers@.len(),
                self.catalog.wf(),
                self.cache.wf(),
            decreases self.providers@.len() - p,
        {
            if self.providers[p].supports_symbol(symbol) {
                let fetched = vec_provider_fetch(
                    &mut self.providers,
                    p,
                    symbol,
                    start_date,
                    end_date,
                    resolution,
                );
                match fetched {
                    Ok(bars) => {
                        let copy = clone_bars(&bars);
                        self.cache.store_bars(symbol.clone(), copy, resolution);
                        let info = SymbolInfo {
                            symbol: symbol.clone(),
                            first_date: if bars.len() > 0 {
                                bars[0].timestamp
                            } else {
                                start_date
                            },
                            last_date: if bars.len() > 0 {
                                bars[bars.len() - 1].timestamp
                            } else {
                                end_date
                            },
                            resolution,
                            record_count: bars.len() as u64,
                            last_updated: host::now_millis(),
                        };
                        self.catalog.register_symbol_data(info);
                        return Ok(bars);
                    },
                    Err(_) => {},
                }
            }
            p += 1;
        }

        Err(
            GbError::Data(
                DataError::SymbolNotFound { symbol: symbol.symbol.clone() },
            ),
        )
    }
}

/// Fetch from the provider at one index of a provider list.
fn vec_provider_fetch<P: DataProvider>(
    providers: &mut Vec<P>,
    p: usize,
    symbol: &Symbol,
    start_date: i64,
    end_date: i64,
    resolution: Resolution,
) -> (r: GbResult<Vec<Bar>>)
    requires
        p < old(providers)@.len(),
    ensures
        final(providers)@.len() == old(providers)@.len(),
        match r {
            Ok(bars) => forall|i: int|
                0 <= i < bars@.len() ==> (#[trigger] bars@[i]).bounded() && bars@[i].timestamp
                    >= 0,
            Err(_) => true,
        },
{
    let mut provider = providers.remove(p);
    let r = provider.fetch_bars(symbol, start_date, end_date, resolution);
    providers.insert(p, provider);
    r
}

/// Clone a vector of bars.
pub fn clone_bars(bars: &Vec<Bar>) -> (r: Vec<Bar>)
    ensures
        r@ == bars@,
{
    let mut out: Vec<Bar> = Vec::new();
    let mut i: usize = 0;
    while i < bars.len()
        invariant
            i <= bars@.len(),
            out@ =~= bars@.subrange(0, i as int),
        decreases bars@.len() - i,
    {
        out.push(bars[i].clone());
        i += 1;
    }
    proof {
        assert(out@ =~= bars@);
    }
    out
}

} // verus!
