//! Market data providers: the provider interface, a CSV file-name
//! resolver, and a deterministic sample-data generator.

use vstd::prelude::*;
use vstd::string::StringExecFns;
use vstd::string::StringSliceAdditionalSpecFns;

use crate::decimal::{Dec, PRICE_LIMIT, SCALE};
use crate::errors::{DataError, GbError, GbResult};
use crate::market::{AssetClass, Bar, Resolution, Symbol};
use crate::text::ascii_string;

verus! {

/// Interface for market data providers. An implementation returns
/// bounded, non-negatively timestamped bars for a requested range.
pub trait DataProvider {
    /// Whether this provider can serve the symbol.
    fn supports_symbol(&self, symbol: &Symbol) -> bool;

    /// Fetch bars for a symbol over `[start_date, end_date]` (epoch
    /// milliseconds) at the given resolution.
    fn fetch_bars(
        &mut self,
        symbol: &Symbol,
        start_date: i64,
        end_date: i64,
        resolution: Resolution,
    ) -> (r: GbResult<Vec<Bar>>)
        ensures
            match r {
                Ok(bars) => forall|i: int|
                    0 <= i < bars@.len() ==> (#[trigger] bars@[i]).bounded() && bars@[i].timestamp
                        >= 0,
                Err(_) => true,
            },
    ;

    /// The provider's display name.
    fn name(&self) -> &String;
}

/// The byte string with every occurrence of `from` replaced by `to`
/// (greedy left-to-right scan; `from` must not be empty).
pub open spec fn replace_bytes(h: Seq<u8>, from: Seq<u8>, to: Seq<u8>) -> Seq<u8>
    decreases h.len(),
{
    if h.len() == 0 {
        h
    } else if from.len() != 0 && from.len() <= h.len() && h.subrange(0, from.len() as int)
        == from {
        to + replace_bytes(h.skip(from.len() as int), from, to)
    } else {
        seq![h.first()] + replace_bytes(h.drop_first(), from, to)
    }
}

/// Replace every occurrence of an ASCII marker in an ASCII string.
/// Inputs that are not ASCII are returned unchanged.
pub fn str_replace(hay: &str, from: &str, to: &str) -> (r: String)
    ensures
        (hay.is_ascii() && from.is_ascii() && to.is_ascii() && from.spec_bytes().len() != 0) ==> ({
            let rb = replace_bytes(hay.spec_bytes(), from.spec_bytes(), to.spec_bytes());
            r@.len() == rb.len() && (forall|i: int|
                0 <= i < r@.len() ==> #[trigger] r@[i] == rb[i] as char)
        }),
{
    if !hay.is_ascii() || !from.is_ascii() || !to.is_ascii() {
        return hay.to_owned();
    }
    let h = hay.as_bytes();
    let f = from.as_bytes();
    let t = to.as_bytes();
    let hn = h.len();
    let fn_len = f.len();
    let tn = t.len();
    if fn_len == 0 {
        return hay.to_owned();
    }
    let mut out: Vec<u8> = Vec::new();
    let mut i: usize = 0;
    proof {
        assert(h@.skip(0) =~= h@);
        vstd::string::is_ascii_spec_bytes(hay);
        vstd::string::is_ascii_spec_bytes(to);
    }
    while i < h.len()
        invariant
            i <= h@.len(),
            h@ == hay.spec_bytes(),
            f@ == from.spec_bytes(),
            t@ == to.spec_bytes(),
            f@.len() >= 1,
            forall|k: int| 0 <= k < h@.len() ==> #[trigger] h@[k] < 128,
            forall|k: int| 0 <= k < t@.len() ==> #[trigger] t@[k] < 128,
            forall|k: int| 0 <= k < out@.len() ==> #[trigger] out@[k] < 128,
            out@ + replace_bytes(h@.skip(i as int), f@, t@) == replace_bytes(h@, f@, t@),
        decreases h@.len() - i,
    {
        // Does `from` match at position i?
        let mut matches_here = true;
        let mut k: usize = 0;
        if f.len() > h.len() - i {
            matches_here = false;
        } else {
            while k < f.len()
                invariant
                    k <= f@.len(),
                    i + f@.len() <= h@.len(),
                    h@.len() <= usize::MAX,
                    i <= usize::MAX,
                    matches_here == (forall|tt: int|
                        0 <= tt < k ==> h@[i + tt] == #[trigger] f@[tt]),
                decreases f@.len() - k,
            {
                if h[i + k] != f[k] {
                    matches_here = false;
                    k = f.len();
                } else {
                    let ghost kpre = k as int;
                    k += 1;
                    proof {
                        if matches_here {
                            assert(forall|tt: int|
                                0 <= tt < kpre + 1 ==> h@[i + tt] == #[trigger] f@[tt]);
                        }
                    }
                }
            }
        }
        let ghost rest = h@.skip(i as int);
        if matches_here {
            proof {
                assert(rest.subrange(0, f@.len() as int) =~= f@);
                assert(rest.skip(f@.len() as int) =~= h@.skip(i as int + f@.len()));
            }
            let ghost out_base = out@;
            let mut j: usize = 0;
            proof {
                assert(out@ =~= out_base + t@.subrange(0, 0));
            }
            while j < t.len()
                invariant
                    j <= t@.len(),
                    t@ == to.spec_bytes(),
                    forall|kk: int| 0 <= kk < t@.len() ==> #[trigger] t@[kk] < 128,
                    forall|kk: int| 0 <= kk < out_base.len() ==> #[trigger] out_base[kk] < 128,
                    out@ == out_base + t@.subrange(0, j as int),
                decreases t@.len() - j,
            {
                proof {
                    assert(out_base + t@.subrange(0, j as int + 1) =~= (out_base + t@.subrange(
                        0,
                        j as int,
                    )).push(t@[j as int]));
                }
                out.push(t[j]);
                j += 1;
            }
            proof {
                assert(t@.subrange(0, t@.len() as int) =~= t@);
                assert(out@ =~= out_base + t@);
                assert forall|kk: int| 0 <= kk < out@.len() implies #[trigger] out@[kk]
                    < 128 by {
                    if kk < out_base.len() {
                        assert(out@[kk] == out_base[kk]);
                    } else {
                        assert(out@[kk] == t@[kk - out_base.len()]);
                    }
                }
            }
            i = i + f.len();
        } else {
            proof {
                if f@.len() <= rest.len() {
                    assert(rest.subrange(0, f@.len() as int) != f@) by {
                        let w = choose|w: int| 0 <= w < f@.len() && h@[i + w] != f@[w];
                        assert(rest.subrange(0, f@.len() as int)[w] == h@[i + w]);
                    }
                }
                assert(rest.first() == h@[i as int]);
                assert(rest.drop_first() =~= h@.skip(i as int + 1));
            }
            out.push(h[i]);
            i = i + 1;
        }
        proof {
            assert(out@ + replace_bytes(h@.skip(i as int), f@, t@) =~= replace_bytes(h@, f@, t@));
        }
    }
    proof {
        assert(h@.skip(h@.len() as int).len() == 0);
        assert(out@ =~= replace_bytes(h@, f@, t@));
    }
    ascii_string(out)
}

/// Provider that resolves CSV files on a local directory by a naming
/// pattern. Reading the files happens at the application edge; this
/// type owns the configuration and the file-name logic.
#[derive(Debug)]
pub struct CsvDataProvider {
    pub name: String,
    pub data_directory: String,
    pub file_pattern: String,
}

impl CsvDataProvider {
    pub fn new(data_directory: &str) -> (r: CsvDataProvider)
        ensures
            r.name@ == "CSV Provider"@,
            r.data_directory@ == data_directory@,
            r.file_pattern@ == "{symbol}_{resolution}.csv"@,
    {
        CsvDataProvider {
            name: "CSV Provider".to_owned(),
            data_directory: data_directory.to_owned(),
            file_pattern: "{symbol}_{resolution}.csv".to_owned(),
        }
    }

    /// Use a custom file-name pattern with `{symbol}`, `{resolution}`
    /// and `{exchange}` markers.
    pub fn with_pattern(self, pattern: &str) -> (r: CsvDataProvider)
        ensures
            r.name@ == self.name@,
            r.data_directory@ == self.data_directory@,
            r.file_pattern@ == pattern@,
    {
        CsvDataProvider { file_pattern: pattern.to_owned(), ..self }
    }

    /// The file path for a symbol at a resolution: the directory,
    /// a separator, and the pattern with its markers substituted.
    pub fn get_file_path(&self, symbol: &Symbol, resolution: Resolution) -> (r: String) {
        let filename = str_replace(
            str_replace(
                str_replace(self.file_pattern.as_str(), "{symbol}", symbol.symbol.as_str()).as_str(),
                "{resolution}",
                resolution.code().as_str(),
            ).as_str(),
            "{exchange}",
            symbol.exchange.as_str(),
        );
        self.data_directory.clone().concat("/").concat(filename.as_str())
    }
}

/// Sample data provider: generates a deterministic synthetic random
/// walk for a fixed set of demo symbols.
#[derive(Debug)]
pub struct SampleDataProvider {
    pub name: String,
}

impl SampleDataProvider {
    pub fn new() -> (r: SampleDataProvider)
        ensures
            r.name@ == "Sample Data Provider"@,
    {
        SampleDataProvider { name: "Sample Data Provider".to_owned() }
    }

    /// The demo symbols this provider serves.
    fn is_supported_ticker(ticker: &str) -> (r: bool) {
        str_eq_bytes(ticker, "AAPL") || str_eq_bytes(ticker, "GOOGL") || str_eq_bytes(
            ticker,
            "MSFT",
        ) || str_eq_bytes(ticker, "TSLA") || str_eq_bytes(ticker, "SPY") || str_eq_bytes(
            ticker,
            "BTC-USD",
        ) || str_eq_bytes(ticker, "ETH-USD")
    }

    /// The synthetic starting price for a ticker.
    fn start_price(ticker: &str) -> (r: Dec)
        ensures
            0 < r.m <= 45000 * SCALE,
    {
        if str_eq_bytes(ticker, "AAPL") {
            Dec::from_int(150)
        } else if str_eq_bytes(ticker, "GOOGL") {
            Dec::from_int(2500)
        } else if str_eq_bytes(ticker, "MSFT") {
            Dec::from_int(300)
        } else if str_eq_bytes(ticker, "TSLA") {
            Dec::from_int(800)
        } else if str_eq_bytes(ticker, "SPY") {
            Dec::from_int(400)
        } else if str_eq_bytes(ticker, "BTC-USD") {
            Dec::from_int(45000)
        } else if str_eq_bytes(ticker, "ETH-USD") {
            Dec::from_int(3000)
        } else {
            Dec::from_int(100)
        }
    }
}

impl Default for SampleDataProvider {
    fn default() -> (r: SampleDataProvider)
        ensures
            r.name@ == "Sample Data Provider"@,
    {
        SampleDataProvider::new()
    }
}

impl DataProvider for SampleDataProvider {
    fn supports_symbol(&self, symbol: &Symbol) -> bool {
        SampleDataProvider::is_supported_ticker(symbol.symbol.as_str())
    }

    /// Generate a deterministic synthetic random walk: one bar per
    /// resolution step, prices clamped to stay positive and bounded.
    fn fetch_bars(
        &mut self,
        symbol: &Symbol,
        start_date: i64,
        end_date: i64,
        resolution: Resolution,
    ) -> (r: GbResult<Vec<Bar>>) {
        if !SampleDataProvider::is_supported_ticker(symbol.symbol.as_str()) {
            return Err(
                GbError::Data(
                    DataError::SymbolNotFound { symbol: symbol.symbol.clone() },
                ),
            );
        }
        let mut bars: Vec<Bar> = Vec::new();
        if start_date < 0 || end_date < start_date {
            return Ok(bars);
        }
        let increment: i64 = match resolution.to_seconds() {
            Some(s) => {
                if s >= 1 && s <= 31536000 {
                    (s as i64) * 1000
                } else {
                    86400000
                }
            },
            None => 86400000,
        };
        let mut price = SampleDataProvider::start_price(symbol.symbol.as_str());
        let mut current_date = start_date;
        let mut rng_state: u64 = 12345;
        while current_date <= end_date
            invariant
                0 <= start_date <= current_date,
                increment >= 1000,
                0 < price.m <= PRICE_LIMIT,
                forall|i: int|
                    0 <= i < bars@.len() ==> (#[trigger] bars@[i]).bounded() && bars@[i].timestamp
                        >= 0,
            decreases end_date + increment - current_date,
        {
            let ghost cur0 = current_date as int;
            let ghost bars0 = bars@;
            // Step the linear congruential generator and derive a
            // signed per-mille move in [-10, 10] (a one percent walk).
            rng_state = ((rng_state as u128 * 1103515245 + 12345) % 18446744073709551616) as u64;
            let draw: i64 = ((rng_state >> 16) % 21) as i64;
            let delta_permille: i64 = draw - 10;

            // New close: the price moved by up to 1%.
            proof {
                crate::decimal::lemma_mul_bound(
                    price.m as int,
                    delta_permille as int * 1000,
                    PRICE_LIMIT as int,
                    20000,
                );
                crate::decimal::lemma_tdiv_shrinks(
                    price.m * (delta_permille * 1000),
                    SCALE as int,
                );
            }
            let change = price.mul(Dec::from_raw((delta_permille * 1000) as i128));
            let mut new_price = price.add(change);
            if new_price.m < 1 {
                new_price = Dec::from_raw(1);
            }
            if new_price.m > PRICE_LIMIT {
                new_price = Dec::from_raw(PRICE_LIMIT);
            }

            // Intraday range: one percent around the close.
            proof {
                crate::decimal::lemma_mul_bound(
                    new_price.m as int,
                    10000,
                    PRICE_LIMIT as int,
                    10000,
                );
                crate::decimal::lemma_tdiv_shrinks(new_price.m * 10000, SCALE as int);
                crate::decimal::lemma_tdiv_abs(new_price.m * 10000, SCALE as int);
                vstd::arithmetic::div_mod::lemma_div_pos_is_pos(new_price.m * 10000, SCALE as int);
            }
            let vol = new_price.mul(Dec::from_raw(10000));
            let high_raw = new_price.add(vol);
            let high = if high_raw.m > PRICE_LIMIT {
                Dec::from_raw(PRICE_LIMIT)
            } else {
                high_raw
            };
            let low_raw = new_price.sub(vol);
            let low = if low_raw.m < 0 {
                Dec::zero()
            } else {
                low_raw
            };
            let open = price;
            let high_all = if high.m >= open.m {
                high
            } else {
                open
            };
            let low_all = if low.m <= open.m {
                low
            } else {
                open
            };
            let volume = Dec::from_int(10000000);

            let bar = Bar::new(
                symbol.clone(),
                current_date,
                open,
                high_all,
                low_all,
                new_price,
                volume,
                resolution,
            );
            proof {
                assert(bar.bounded());
            }
            bars.push(bar);
            proof {
                assert(bars@ == bars0.push(bar));
                assert forall|t: int|
                    0 <= t < bars@.len() implies (#[trigger] bars@[t]).bounded() && bars@[
                    t].timestamp >= 0 by {
                    if t < bars0.len() {
                        assert(bars@[t] == bars0[t]);
                        assert(bars0[t].bounded() && bars0[t].timestamp >= 0);
                    } else {
                        assert(bars@[t] == bar);
                    }
                }
            }
            price = new_price;
            if current_date > i64::MAX - increment {
                return Ok(bars);
            }
            current_date = current_date + increment;
            proof {
                assert(current_date == cur0 + increment);
                assert(increment >= 1000);
            }
        }
        Ok(bars)
    }

    fn name(&self) -> &String {
        &self.name
    }
}

/// Whether two strings have the same bytes.
pub fn str_eq_bytes(a: &str, b: &str) -> (r: bool)
    ensures
        r == (a.spec_bytes() == b.spec_bytes()),
{
    let ab = a.as_bytes();
    let bb = b.as_bytes();
    if ab.len() != bb.len() {
        proof {
            assert(a.spec_bytes().len() != b.spec_bytes().len());
        }
        return false;
    }
    let mut i: usize = 0;
    while i < ab.len()
        invariant
            i <= ab@.len(),
            ab@.len() == bb@.len(),
            ab@ == a.spec_bytes(),
            bb@ == b.spec_bytes(),
            forall|k: int| 0 <= k < i ==> ab@[k] == bb@[k],
        decreases ab@.len() - i,
    {
        if ab[i] != bb[i] {
            return false;
        }
        i += 1;
    }
    proof {
        assert(ab@ =~= bb@);
    }
    true
}

} // verus!
