//! Market data model: symbols, OHLCV bars, ticks and market events.
//!
//! Timestamps throughout the crate are UTC epoch milliseconds.

use vstd::prelude::*;

use crate::decimal::Dec;

verus! {

/// Asset classes supported by the platform.
#[derive(Debug, Clone, Copy, PartialEq, Eq, Structural, Hash)]
pub enum AssetClass {
    Equity,
    Crypto,
    Forex,
    Commodity,
    Bond,
}

/// Mathematical value of a [`Symbol`].
pub ghost struct SymbolV {
    pub ticker: Seq<char>,
    pub exchange: Seq<char>,
    pub asset_class: AssetClass,
}

/// A financial symbol with exchange information. Used as a map key
/// throughout the crate; equality compares all three fields.
#[derive(Debug)]
pub struct Symbol {
    pub symbol: String,
    pub exchange: String,
    pub asset_class: AssetClass,
}

impl View for Symbol {
    type V = SymbolV;

    open spec fn view(&self) -> SymbolV {
        SymbolV {
            ticker: self.symbol@,
            exchange: self.exchange@,
            asset_class: self.asset_class,
        }
    }
}

impl Clone for Symbol {
    fn clone(&self) -> (res: Symbol)
        ensures
            res == *self,
    {
        Symbol {
            symbol: self.symbol.clone(),
            exchange: self.exchange.clone(),
            asset_class: self.asset_class,
        }
    }
}

impl PartialEq for Symbol {
    fn eq(&self, other: &Symbol) -> (r: bool) {
        self.symbol == other.symbol && self.exchange == other.exchange
            && self.asset_class == other.asset_class
    }
}

impl vstd::std_specs::cmp::PartialEqSpecImpl for Symbol {
    open spec fn obeys_eq_spec() -> bool {
        true
    }

    open spec fn eq_spec(&self, other: &Symbol) -> bool {
        self@ == other@
    }
}

impl Symbol {
    pub fn new(symbol: &str, exchange: &str, asset_class: AssetClass) -> (r: Symbol)
        ensures
            r@ == (SymbolV { ticker: symbol@, exchange: exchange@, asset_class }),
    {
        Symbol { symbol: symbol.to_owned(), exchange: exchange.to_owned(), asset_class }
    }

    pub fn equity(symbol: &str) -> (r: Symbol)
        ensures
            r@ == (SymbolV {
                ticker: symbol@,
                exchange: "NASDAQ"@,
                asset_class: AssetClass::Equity,
            }),
    {
        Symbol::new(symbol, "NASDAQ", AssetClass::Equity)
    }

    pub fn crypto(symbol: &str) -> (r: Symbol)
        ensures
            r@ == (SymbolV {
                ticker: symbol@,
                exchange: "BINANCE"@,
                asset_class: AssetClass::Crypto,
            }),
    {
        Symbol::new(symbol, "BINANCE", AssetClass::Crypto)
    }
}

/// Time resolution for market data.
#[derive(Debug, Clone, Copy, PartialEq, Eq, Structural, Hash)]
pub enum Resolution {
    Tick,
    Second,
    Minute,
    FiveMinute,
    FifteenMinute,
    Hour,
    FourHour,
    Day,
    Week,
    Month,
}

impl Resolution {
    /// Length of one period in seconds; `None` for tick data. The month
    /// value is the average Gregorian month.
    pub fn to_seconds(&self) -> (r: Option<u64>)
        ensures
            r == match *self {
                Resolution::Tick => Option::<u64>::None,
                Resolution::Second => Some(1u64),
                Resolution::Minute => Some(60u64),
                Resolution::FiveMinute => Some(300u64),
                Resolution::FifteenMinute => Some(900u64),
                Resolution::Hour => Some(3600u64),
                Resolution::FourHour => Some(14400u64),
                Resolution::Day => Some(86400u64),
                Resolution::Week => Some(604800u64),
                Resolution::Month => Some(2629746u64),
            },
    {
        match self {
            Resolution::Tick => None,
            Resolution::Second => Some(1),
            Resolution::Minute => Some(60),
            Resolution::FiveMinute => Some(300),
            Resolution::FifteenMinute => Some(900),
            Resolution::Hour => Some(3600),
            Resolution::FourHour => Some(14400),
            Resolution::Day => Some(86400),
            Resolution::Week => Some(604800),
            Resolution::Month => Some(2629746),
        }
    }

    /// Short code for this resolution, as used in data file names.
    pub fn code(&self) -> (r: String)
        ensures
            r@ == match *self {
                Resolution::Tick => "tick"@,
                Resolution::Second => "1s"@,
                Resolution::Minute => "1m"@,
                Resolution::FiveMinute => "5m"@,
                Resolution::FifteenMinute => "15m"@,
                Resolution::Hour => "1h"@,
                Resolution::FourHour => "4h"@,
                Resolution::Day => "1d"@,
                Resolution::Week => "1w"@,
                Resolution::Month => "1M"@,
            },
    {
        match self {
            Resolution::Tick => "tick".to_owned(),
            Resolution::Second => "1s".to_owned(),
            Resolution::Minute => "1m".to_owned(),
            Resolution::FiveMinute => "5m".to_owned(),
            Resolution::FifteenMinute => "15m".to_owned(),
            Resolution::Hour => "1h".to_owned(),
            Resolution::FourHour => "4h".to_owned(),
            Resolution::Day => "1d".to_owned(),
            Resolution::Week => "1w".to_owned(),
            Resolution::Month => "1M".to_owned(),
        }
    }
}

/// OHLCV bar data with volume and timestamp (epoch milliseconds).
#[derive(Debug)]
pub struct Bar {
    pub symbol: Symbol,
    pub timestamp: i64,
    pub open: Dec,
    pub high: Dec,
    pub low: Dec,
    pub close: Dec,
    pub volume: Dec,
    pub resolution: Resolution,
}

impl Clone for Bar {
    fn clone(&self) -> (res: Bar)
        ensures
            res == *self,
    {
        Bar {
            symbol: self.symbol.clone(),
            timestamp: self.timestamp,
            open: self.open,
            high: self.high,
            low: self.low,
            close: self.close,
            volume: self.volume,
            resolution: self.resolution,
        }
    }
}

/// Mathematical value of a [`Bar`].
pub ghost struct BarV {
    pub symbol: SymbolV,
    pub timestamp: i64,
    pub open: Dec,
    pub high: Dec,
    pub low: Dec,
    pub close: Dec,
    pub volume: Dec,
    pub resolution: Resolution,
}

impl View for Bar {
    type V = BarV;

    open spec fn view(&self) -> BarV {
        BarV {
            symbol: self.symbol@,
            timestamp: self.timestamp,
            open: self.open,
            high: self.high,
            low: self.low,
            close: self.close,
            volume: self.volume,
            resolution: self.resolution,
        }
    }
}

impl Bar {
    /// All price fields within the price bound, the volume within the
    /// atomic value bound, and the low/high range a genuine range.
    pub open spec fn bounded(self) -> bool {
        &&& -crate::decimal::PRICE_LIMIT <= self.open.m <= crate::decimal::PRICE_LIMIT
        &&& -crate::decimal::PRICE_LIMIT <= self.high.m <= crate::decimal::PRICE_LIMIT
        &&& -crate::decimal::PRICE_LIMIT <= self.low.m <= crate::decimal::PRICE_LIMIT
        &&& -crate::decimal::PRICE_LIMIT <= self.close.m <= crate::decimal::PRICE_LIMIT
        &&& self.volume.val_ok()
        &&& self.low.m <= self.high.m
    }

    #[allow(clippy::too_many_arguments)]
    pub fn new(
        symbol: Symbol,
        timestamp: i64,
        open: Dec,
        high: Dec,
        low: Dec,
        close: Dec,
        volume: Dec,
        resolution: Resolution,
    ) -> (r: Bar)
        ensures
            r@ == (BarV {
                symbol: symbol@,
                timestamp,
                open,
                high,
                low,
                close,
                volume,
                resolution,
            }),
    {
        Bar { symbol, timestamp, open, high, low, close, volume, resolution }
    }

    /// Typical price: (high + low + close) / 3.
    pub fn typical_price(&self) -> (r: Dec)
        requires
            self.bounded(),
        ensures
            r.m == crate::decimal::div_m(
                self.high.m + self.low.m + self.close.m,
                3 * crate::decimal::SCALE,
            ),
    {
        self.high.add(self.low).add(self.close).div(Dec::from_int(3))
    }

    /// True range: the bar's range, widened by any gap from the
    /// previous close.
    pub fn true_range(&self, prev_close: Option<Dec>) -> (r: Dec)
        requires
            self.bounded(),
            prev_close is Some ==> prev_close->0.val_ok(),
        ensures
            match prev_close {
                Option::None => r.m == self.high.m - self.low.m,
                Option::Some(prev) => r.m == max3(
                    self.high.m - self.low.m,
                    crate::decimal::abs_m(self.high.m - prev.m),
                    crate::decimal::abs_m(self.low.m - prev.m),
                ),
            },
    {
        let high_low = self.high.sub(self.low);
        match prev_close {
            Some(prev) => {
                let high_prev = self.high.sub(prev).abs();
                let low_prev = self.low.sub(prev).abs();
                high_low.max(high_prev).max(low_prev)
            },
            None => high_low,
        }
    }
}

/// The largest of three mantissas.
pub open spec fn max3(a: int, b: int, c: int) -> int {
    if a >= b && a >= c {
        a
    } else if b >= c {
        b
    } else {
        c
    }
}

/// Type of tick (trade vs quote).
#[derive(Debug, Clone, Copy, PartialEq, Eq, Structural)]
pub enum TickType {
    Trade,
    BidQuote,
    AskQuote,
}

/// Tick data for high-frequency analysis.
#[derive(Debug)]
pub struct Tick {
    pub symbol: Symbol,
    pub timestamp: i64,
    pub price: Dec,
    pub size: Dec,
    pub tick_type: TickType,
}

impl Clone for Tick {
    fn clone(&self) -> (res: Tick)
        ensures
            res == *self,
    {
        Tick {
            symbol: self.symbol.clone(),
            timestamp: self.timestamp,
            price: self.price,
            size: self.size,
            tick_type: self.tick_type,
        }
    }
}

/// Market data event for the event-driven engine.
#[derive(Debug)]
pub enum MarketEvent {
    Bar(Bar),
    Tick(Tick),
    Quote { symbol: Symbol, timestamp: i64, bid: Dec, ask: Dec, bid_size: Dec, ask_size: Dec },
}

impl Clone for MarketEvent {
    fn clone(&self) -> (res: MarketEvent)
        ensures
            res == *self,
    {
        match self {
            MarketEvent::Bar(bar) => MarketEvent::Bar(bar.clone()),
            MarketEvent::Tick(tick) => MarketEvent::Tick(tick.clone()),
            MarketEvent::Quote { symbol, timestamp, bid, ask, bid_size, ask_size } => {
                MarketEvent::Quote {
                    symbol: symbol.clone(),
                    timestamp: *timestamp,
                    bid: *bid,
                    ask: *ask,
                    bid_size: *bid_size,
                    ask_size: *ask_size,
                }
            },
        }
    }
}

impl MarketEvent {
    /// All prices carried by the event lie within the price bound.
    pub open spec fn bounded(&self) -> bool {
        match *self {
            MarketEvent::Bar(ref bar) => bar.bounded(),
            MarketEvent::Tick(ref tick) => -crate::decimal::PRICE_LIMIT <= tick.price.m
                <= crate::decimal::PRICE_LIMIT,
            MarketEvent::Quote { bid, ask, .. } => -crate::decimal::PRICE_LIMIT <= bid.m
                <= crate::decimal::PRICE_LIMIT && -crate::decimal::PRICE_LIMIT <= ask.m
                <= crate::decimal::PRICE_LIMIT,
        }
    }

    /// The symbol value this event carries.
    pub open spec fn symbol_val(&self) -> Symbol {
        match *self {
            MarketEvent::Bar(ref bar) => bar.symbol,
            MarketEvent::Tick(ref tick) => tick.symbol,
            MarketEvent::Quote { ref symbol, .. } => *symbol,
        }
    }

    pub open spec fn timestamp_spec(&self) -> i64 {
        match *self {
            MarketEvent::Bar(ref bar) => bar.timestamp,
            MarketEvent::Tick(ref tick) => tick.timestamp,
            MarketEvent::Quote { timestamp, .. } => timestamp,
        }
    }

    pub open spec fn symbol_spec(&self) -> SymbolV {
        match *self {
            MarketEvent::Bar(ref bar) => bar.symbol@,
            MarketEvent::Tick(ref tick) => tick.symbol@,
            MarketEvent::Quote { ref symbol, .. } => symbol@,
        }
    }

    /// The reference price this event carries: a bar's close, a tick's
    /// trade price, or a quote's bid/ask midpoint.
    pub open spec fn price_spec(&self) -> int {
        match *self {
            MarketEvent::Bar(ref bar) => bar.close.m as int,
            MarketEvent::Tick(ref tick) => tick.price.m as int,
            MarketEvent::Quote { bid, ask, .. } => crate::decimal::tdiv(
                (bid.m + ask.m) * crate::decimal::SCALE,
                2 * crate::decimal::SCALE,
            ),
        }
    }

    pub fn timestamp(&self) -> (r: i64)
        ensures
            r == self.timestamp_spec(),
    {
        match self {
            MarketEvent::Bar(bar) => bar.timestamp,
            MarketEvent::Tick(tick) => tick.timestamp,
            MarketEvent::Quote { timestamp, .. } => *timestamp,
        }
    }

    pub fn symbol(&self) -> (r: &Symbol)
        ensures
            r@ == self.symbol_spec(),
            *r == self.symbol_val(),
    {
        match self {
            MarketEvent::Bar(bar) => &bar.symbol,
            MarketEvent::Tick(tick) => &tick.symbol,
            MarketEvent::Quote { symbol, .. } => symbol,
        }
    }
}

/// Market hours configuration for simulation (UTC hours).
#[derive(Debug, Clone, Copy, PartialEq, Eq, Structural)]
pub struct MarketHours {
    pub open_hour: u32,
    pub close_hour: u32,
    pub weekend_trading: bool,
}

impl Default for MarketHours {
    /// Regular US equity hours expressed in UTC.
    fn default() -> (r: MarketHours)
        ensures
            r == (MarketHours { open_hour: 14u32, close_hour: 21u32, weekend_trading: false }),
    {
        MarketHours { open_hour: 14, close_hour: 21, weekend_trading: false }
    }
}

} // verus!
