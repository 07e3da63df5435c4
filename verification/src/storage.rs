//! Storage layout: where bars for a symbol live on disk. The actual
//! file I/O happens at the application edge; this type owns the path
//! scheme and bookkeeping.

use vstd::prelude::*;
use vstd::string::StringExecFns;

use crate::market::{Resolution, Symbol};

verus! {

/// Manages the on-disk layout of market data.
#[derive(Debug)]
pub struct StorageManager {
    pub data_root: String,
}

impl StorageManager {
    pub fn new(data_root: &str) -> (r: StorageManager)
        ensures
            r.data_root@ == data_root@,
    {
        StorageManager { data_root: data_root.to_owned() }
    }

    /// The path of the file holding a symbol's bars at a resolution:
    /// `root/EXCHANGE/TICKER_code.parquet`.
    pub fn get_storage_path(&self, symbol: &Symbol, resolution: Resolution) -> (r: String)
        ensures
            r@ == self.data_root@ + "/"@ + symbol.exchange@ + "/"@ + symbol.symbol@ + "_"@
                + (match resolution {
                Resolution::Tick => "tick"@,
                Resolution::Second => "1s"@,
                Resolution::Minute => "1m"@,
                Resolution::FiveMinute => "5m"@,
                Resolution::FifteenMinute => "15m"@,
                Resolution::Hour => "1h"@,
                Resolution::FourHour => "4h"@,
                Resolution::Day => "1d"@,
                Resolution::Week => "1w"@,
                Resolution::Month => "1M"@,
            }) + ".parquet"@,
    {
        self.data_root.clone().concat("/").concat(symbol.exchange.as_str()).concat("/").concat(
            symbol.symbol.as_str(),
        ).concat("_").concat(resolution.code().as_str()).concat(".parquet")
    }
}

/// Statistics over the stored data.
#[derive(Debug)]
pub struct StorageStats {
    pub total_files: u64,
    pub total_size_bytes: u64,
    pub data_root: String,
}

impl Clone for StorageStats {
    fn clone(&self) -> (res: StorageStats)
        ensures
            res.total_files == self.total_files,
            res.total_size_bytes == self.total_size_bytes,
            res.data_root@ == self.data_root@,
    {
        StorageStats {
            total_files: self.total_files,
            total_size_bytes: self.total_size_bytes,
            data_root: self.data_root.clone(),
        }
    }
}

} // verus!
