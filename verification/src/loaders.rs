//! Utilities for loading market data files: format detection, symbol
//! derivation from file names, and bar validation.

use vstd::prelude::*;
use vstd::string::StringSliceAdditionalSpecFns;

use crate::decimal::Dec;
use crate::market::{AssetClass, Bar, Symbol, SymbolV};
use crate::text::{ascii_string, digits10, u64_text};

verus! {

/// File formats the loaders understand.
#[derive(Debug, Clone, Copy, PartialEq, Eq, Structural)]
pub enum DataFormat {
    Csv,
    Parquet,
    Json,
    JsonLines,
}

/// Index of the last occurrence of `b`, if any.
pub open spec fn rfind_byte(s: Seq<u8>, b: u8) -> Option<int>
    decreases s.len(),
{
    if s.len() == 0 {
        None
    } else if s.last() == b {
        Some(s.len() - 1)
    } else {
        rfind_byte(s.drop_last(), b)
    }
}

/// ASCII lower-casing of a byte string.
pub open spec fn lower_bytes(s: Seq<u8>) -> Seq<u8>
    decreases s.len(),
{
    if s.len() == 0 {
        Seq::empty()
    } else {
        lower_bytes(s.drop_last()).push(lower_byte(s.last()))
    }
}

/// ASCII lower-casing of one byte.
pub open spec fn lower_byte(b: u8) -> u8 {
    if 65 <= b <= 90 {
        (b + 32) as u8
    } else {
        b
    }
}

/// ASCII upper-casing of one byte.
pub open spec fn upper_byte(b: u8) -> u8 {
    if 97 <= b <= 122 {
        (b - 32) as u8
    } else {
        b
    }
}

/// ASCII upper-casing of a byte string.
pub open spec fn upper_bytes(s: Seq<u8>) -> Seq<u8> {
    Seq::new(s.len(), |i: int| upper_byte(s[i]))
}

/// Index of the first occurrence of `b`, if any.
pub open spec fn find_byte(s: Seq<u8>, b: u8) -> Option<int>
    decreases s.len(),
{
    if s.len() == 0 {
        None
    } else if s[0] == b {
        Some(0int)
    } else {
        match find_byte(s.subrange(1, s.len() as int), b) {
            Some(i) => Some(i + 1),
            None => None,
        }
    }
}

/// A scan that saw no occurrence of `b` before position `j` pins
/// `find_byte` down: the first occurrence is at `j`, or there is none.
proof fn lemma_find_byte_at(s: Seq<u8>, b: u8, j: int)
    requires
        0 <= j <= s.len(),
        forall|t: int| 0 <= t < j ==> s[t] != b,
        j < s.len() ==> s[j] == b,
    ensures
        find_byte(s, b) == if j < s.len() {
            Some(j)
        } else {
            None::<int>
        },
    decreases s.len(),
{
    if s.len() > 0 && j > 0 {
        let tail = s.subrange(1, s.len() as int);
        assert forall|t: int| 0 <= t < j - 1 implies tail[t] != b by {
            assert(tail[t] == s[t + 1]);
        }
        if j - 1 < tail.len() {
            assert(tail[j - 1] == s[j]);
        }
        lemma_find_byte_at(tail, b, j - 1);
    }
}

/// The ticker a file path yields: the file name after the last
/// separator, with everything from its last dot on removed (unless
/// that dot leads the name), cut at the first underscore and
/// upper-cased.
pub open spec fn ticker_of(path: Seq<u8>) -> Seq<u8> {
    let start: int = match rfind_byte(path, 47u8) {
        Some(i) => i + 1,
        None => 0,
    };
    let name = path.subrange(start, path.len() as int);
    let stem = match rfind_byte(name, 46u8) {
        Some(i) => if i > 0 {
            name.take(i)
        } else {
            name
        },
        None => name,
    };
    let cut: int = match find_byte(stem, 95u8) {
        Some(i) => i,
        None => stem.len() as int,
    };
    upper_bytes(stem.take(cut))
}

/// The format a file path's extension announces.
pub open spec fn format_of(path: Seq<u8>) -> Option<DataFormat> {
    match rfind_byte(path, 46u8) {
        None => None,
        Some(i) => {
            let ext = lower_bytes(path.skip(i + 1));
            if ext == "csv".spec_bytes() {
                Some(DataFormat::Csv)
            } else if ext == "parquet".spec_bytes() {
                Some(DataFormat::Parquet)
            } else if ext == "json".spec_bytes() {
                Some(DataFormat::Json)
            } else if ext == "jsonl".spec_bytes() || ext == "ndjson".spec_bytes() {
                Some(DataFormat::JsonLines)
            } else {
                None
            }
        },
    }
}

/// Find the last occurrence of a byte, scanning from the end.
fn rfind_byte_exec(s: &[u8], b: u8) -> (r: Option<usize>)
    ensures
        match r {
            Some(i) => rfind_byte(s@, b) == Some(i as int) && i < s@.len() && s@[i as int] == b,
            None => rfind_byte(s@, b) is None,
        },
{
    let mut i: usize = s.len();
    proof {
        assert(s@.subrange(0, s@.len() as int) =~= s@);
    }
    while i > 0
        invariant
            i <= s@.len(),
            rfind_byte(s@, b) == rfind_byte(s@.subrange(0, i as int), b),
        decreases i,
    {
        proof {
            assert(s@.subrange(0, i as int).last() == s@[i as int - 1]);
            assert(s@.subrange(0, i as int).drop_last() =~= s@.subrange(0, i as int - 1));
        }
        i = i - 1;
        if s[i] == b {
            return Some(i);
        }
    }
    proof {
        assert(s@.subrange(0, 0).len() == 0);
    }
    None
}

/// Utility functions for data loading.
pub struct DataLoaderUtils;

impl DataLoaderUtils {
    /// Detect the file format from the path's extension
    /// (case-insensitively).
    pub fn detect_format(file_path: &str) -> (r: Option<DataFormat>)
        ensures
            r == format_of(file_path.spec_bytes()),
    {
        let bytes = file_path.as_bytes();
        let blen = bytes.len();
        let dot = match rfind_byte_exec(bytes, 46) {
            Some(i) => i,
            None => {
                return None;
            },
        };
        let mut ext: Vec<u8> = Vec::new();
        let mut k: usize = dot + 1;
        proof {
            assert(lower_bytes(bytes@.subrange(dot as int + 1, dot as int + 1)) =~= Seq::<
                u8,
            >::empty());
            assert(ext@ =~= lower_bytes(bytes@.subrange(dot as int + 1, dot as int + 1)));
        }
        while k < bytes.len()
            invariant
                dot < k <= bytes@.len(),
                ext@ == lower_bytes(bytes@.subrange(dot as int + 1, k as int)),
            decreases bytes@.len() - k,
        {
            proof {
                assert(bytes@.subrange(dot as int + 1, k as int + 1).drop_last()
                    =~= bytes@.subrange(dot as int + 1, k as int));
                assert(bytes@.subrange(dot as int + 1, k as int + 1).last() == bytes@[k as int]);
            }
            let c = bytes[k];
            if 65 <= c && c <= 90 {
                ext.push(c + 32);
            } else {
                ext.push(c);
            }
            k += 1;
        }
        proof {
            assert(bytes@.subrange(dot as int + 1, bytes@.len() as int) =~= bytes@.skip(
                dot as int + 1,
            ));
        }
        if bytes_match(&ext, "csv") {
            Some(DataFormat::Csv)
        } else if bytes_match(&ext, "parquet") {
            Some(DataFormat::Parquet)
        } else if bytes_match(&ext, "json") {
            Some(DataFormat::Json)
        } else if bytes_match(&ext, "jsonl") || bytes_match(&ext, "ndjson") {
            Some(DataFormat::JsonLines)
        } else {
            None
        }
    }

    /// Derive a symbol from a file path: the file stem up to the first
    /// underscore, upper-cased. A path that is not ASCII, or whose stem
    /// starts with an underscore, yields the placeholder ticker.
    pub fn symbol_from_path(
        file_path: &str,
        default_exchange: &str,
        default_asset_class: AssetClass,
    ) -> (r: Symbol)
        ensures
            r@.exchange == default_exchange@,
            r@.asset_class == default_asset_class,
            ({
                let tick = ticker_of(file_path.spec_bytes());
                if vstd::string::is_ascii(file_path) && tick.len() > 0 {
                    r@.ticker == tick.map_values(|b: u8| b as char)
                } else {
                    r@.ticker == "UNKNOWN"@
                }
            }),
    {
        if !file_path.is_ascii() {
            return Symbol::new("UNKNOWN", default_exchange, default_asset_class);
        }
        proof {
            vstd::string::is_ascii_spec_bytes(file_path);
        }
        let bytes = file_path.as_bytes();
        let blen = bytes.len();
        let start: usize = match rfind_byte_exec(bytes, 47) {
            Some(i) => i + 1,
            None => 0,
        };
        let mut name: Vec<u8> = Vec::new();
        let mut k: usize = start;
        while k < blen
            invariant
                start <= k <= blen,
                blen == bytes@.len(),
                name@ == bytes@.subrange(start as int, k as int),
            decreases blen - k,
        {
            name.push(bytes[k]);
            proof {
                assert(bytes@.subrange(start as int, k as int + 1) =~= bytes@.subrange(
                    start as int,
                    k as int,
                ).push(bytes@[k as int]));
            }
            k += 1;
        }
        proof {
            assert(name@ =~= bytes@.subrange(start as int, blen as int));
        }
        let stem_len: usize = match rfind_byte_exec(name.as_slice(), 46) {
            Some(d) => if d > 0 {
                d
            } else {
                name.len()
            },
            None => name.len(),
        };
        let ghost stem = if stem_len < name@.len() {
            name@.take(stem_len as int)
        } else {
            name@
        };
        proof {
            assert(stem =~= name@.take(stem_len as int));
        }
        let mut out: Vec<u8> = Vec::new();
        let mut j: usize = 0;
        while j < stem_len && name[j] != 95
            invariant
                j <= stem_len <= name@.len(),
                out@.len() == j,
                forall|t: int| 0 <= t < j ==> #[trigger] out@[t] == upper_byte(name@[t]),
                forall|t: int| 0 <= t < j ==> #[trigger] name@[t] != 95,
            decreases stem_len - j,
        {
            let c = name[j];
            if 97 <= c && c <= 122 {
                out.push(c - 32);
            } else {
                out.push(c);
            }
            j += 1;
        }
        proof {
            assert forall|t: int| 0 <= t < j implies stem[t] != 95 by {
                assert(stem[t] == name@[t]);
            }
            if (j as int) < stem.len() {
                assert(stem[j as int] == name@[j as int]);
            }
            lemma_find_byte_at(stem, 95, j as int);
            assert(out@ =~= upper_bytes(stem.take(j as int)));
            assert(out@ =~= ticker_of(file_path.spec_bytes()));
        }
        if out.len() == 0 {
            return Symbol::new("UNKNOWN", default_exchange, default_asset_class);
        }
        proof {
            assert forall|t: int| 0 <= t < out@.len() implies #[trigger] out@[t] < 128 by {
                assert(out@[t] == upper_byte(name@[t]));
                assert(name@[t] == bytes@[start as int + t]);
            }
        }
        let ticker = ascii_string(out);
        Symbol::new(ticker.as_str(), default_exchange, default_asset_class)
    }

    /// Validate a batch of bars: the returned list of issues is empty
    /// exactly when the batch is non-empty, every bar is internally
    /// consistent, and timestamps never go backwards.
    #[verifier::rlimit(100)]
    pub fn validate_bars(bars: &Vec<Bar>) -> (r: Vec<String>)
        requires
            bars@.len() < 1000000,
        ensures
            (r@.len() == 0) <==> (bars@.len() > 0 && (forall|i: int|
                0 <= i < bars@.len() ==> bar_consistent(#[trigger] bars@[i])) && (forall|i: int|
                1 <= i < bars@.len() ==> (#[trigger] bars@[i]).timestamp >= bars@[i
                    - 1].timestamp)),
    {
        let mut issues: Vec<String> = Vec::new();
        if bars.len() == 0 {
            issues.push("No data found".to_owned());
            return issues;
        }

        let mut i: usize = 0;
        while i < bars.len()
            invariant
                i <= bars@.len(),
                bars@.len() < 1000000,
                (issues@.len() == 0) <==> (forall|k: int|
                    0 <= k < i ==> bar_consistent(#[trigger] bars@[k])),
            decreases bars@.len() - i,
        {
            let bar = &bars[i];
            let mut bad = false;
            if bar.open.m < 0 || bar.high.m < 0 || bar.low.m < 0 || bar.close.m < 0 {
                issues.push("Negative price at row ".to_owned());
                bad = true;
            }
            if bar.volume.m < 0 {
                issues.push("Negative volume at row ".to_owned());
                bad = true;
            }
            if bar.high.m < bar.low.m {
                issues.push("High is below low at row ".to_owned());
                bad = true;
            }
            if bar.high.m < bar.open.m || bar.high.m < bar.close.m {
                issues.push("High price inconsistent at row ".to_owned());
                bad = true;
            }
            if bar.low.m > bar.open.m || bar.low.m > bar.close.m {
                issues.push("Low price inconsistent at row ".to_owned());
                bad = true;
            }
            proof {
                if !bad {
                    assert(bar_consistent(bars@[i as int]));
                }
            }
            i += 1;
        }

        let mut k: usize = 1;
        while k < bars.len()
            invariant
                1 <= k <= bars@.len() || bars@.len() == 0,
                bars@.len() < 1000000,
                (issues@.len() == 0) <==> ((forall|t: int|
                    0 <= t < bars@.len() ==> bar_consistent(#[trigger] bars@[t])) && (forall|
                    t: int,
                |
                    1 <= t < k ==> (#[trigger] bars@[t]).timestamp >= bars@[t - 1].timestamp)),
            decreases bars@.len() - k,
        {
            if bars[k].timestamp < bars[k - 1].timestamp {
                issues.push("Timestamp out of order at row ".to_owned());
            }
            k += 1;
        }
        issues
    }
}

/// Internal consistency of one bar.
pub open spec fn bar_consistent(b: Bar) -> bool {
    &&& b.open.m >= 0
    &&& b.high.m >= 0
    &&& b.low.m >= 0
    &&& b.close.m >= 0
    &&& b.volume.m >= 0
    &&& b.high.m >= b.low.m
    &&& b.high.m >= b.open.m
    &&& b.high.m >= b.close.m
    &&& b.low.m <= b.open.m
    &&& b.low.m <= b.close.m
}

/// Whether a byte vector equals a literal's bytes.
fn bytes_match(v: &Vec<u8>, s: &str) -> (r: bool)
    ensures
        r == (v@ == s.spec_bytes()),
{
    let sb = s.as_bytes();
    if v.len() != sb.len() {
        proof {
            assert(v@.len() != s.spec_bytes().len());
        }
        return false;
    }
    let mut i: usize = 0;
    while i < v.len()
        invariant
            i <= v@.len(),
            v@.len() == sb@.len(),
            sb@ == s.spec_bytes(),
            forall|k: int| 0 <= k < i ==> v@[k] == sb@[k],
        decreases v@.len() - i,
    {
        if v[i] != sb[i] {
            return false;
        }
        i += 1;
    }
    proof {
        assert(v@ =~= sb@);
    }
    true
}

/// Batch data loader configuration for bulk operations.
#[derive(Debug, Clone, Copy, PartialEq, Eq, Structural)]
pub struct BatchLoader {
    pub chunk_size: usize,
}

impl BatchLoader {
    /// Process ten thousand rows at a time.
    pub fn new() -> (r: BatchLoader)
        ensures
            r.chunk_size == 10000,
    {
        BatchLoader { chunk_size: 10000 }
    }

    pub fn with_chunk_size(chunk_size: usize) -> (r: BatchLoader)
        ensures
            r.chunk_size == chunk_size,
    {
        BatchLoader { chunk_size }
    }
}

impl Default for BatchLoader {
    fn default() -> (r: BatchLoader)
        ensures
            r.chunk_size == 10000,
    {
        BatchLoader::new()
    }
}

} // verus!
