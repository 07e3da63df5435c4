//! Strategy abstraction: the callback contract every trading strategy
//! implements, the read-only context handed to callbacks, and a simple
//! buy-and-hold strategy.

use vstd::prelude::*;

use crate::decimal::{div_m, mul_m, Dec, SCALE, VAL_LIMIT};
use crate::market::{Bar, MarketEvent, Symbol, SymbolV};
use crate::orders::{Order, OrderEvent, OrderId, Side};
use crate::portfolio::{lookup, Portfolio, Position, RiskLimits};
use crate::symtab::{keys_unique, tab_find, tab_get, tab_insert};

verus! {

/// Rolling window of recent market events for one symbol.
#[derive(Debug)]
pub struct MarketDataBuffer {
    pub symbol: Symbol,
    pub data: Vec<MarketEvent>,
    pub max_size: usize,
}

impl Clone for MarketDataBuffer {
    fn clone(&self) -> (res: MarketDataBuffer)
        ensures
            res.symbol == self.symbol,
            res.data@ == self.data@,
            res.max_size == self.max_size,
    {
        let mut data: Vec<MarketEvent> = Vec::new();
        let mut i: usize = 0;
        while i < self.data.len()
            invariant
                i <= self.data@.len(),
                data@ =~= self.data@.subrange(0, i as int),
            decreases self.data@.len() - i,
        {
            data.push(self.data[i].clone());
            i += 1;
        }
        proof {
            assert(data@ =~= self.data@);
        }
        MarketDataBuffer { symbol: self.symbol.clone(), data, max_size: self.max_size }
    }
}

impl MarketDataBuffer {
    /// Every buffered event's prices are within the price bound.
    pub open spec fn events_bounded(self) -> bool {
        forall|i: int| 0 <= i < self.data@.len() ==> (#[trigger] self.data@[i]).bounded()
    }

    pub fn new(symbol: Symbol, max_size: usize) -> (r: MarketDataBuffer)
        ensures
            r.symbol == symbol,
            r.data@.len() == 0,
            r.max_size == max_size,
    {
        MarketDataBuffer { symbol, data: Vec::new(), max_size }
    }

    /// Append an event; once the window is full the oldest event is
    /// dropped.
    pub fn add_event(&mut self, event: MarketEvent)
        ensures
            final(self).data@ == if old(self).data@.len() + 1 > old(self).max_size {
                old(self).data@.push(event).drop_first()
            } else {
                old(self).data@.push(event)
            },
            final(self).symbol == old(self).symbol,
            final(self).max_size == old(self).max_size,
    {
        self.data.push(event);
        if self.data.len() > self.max_size {
            self.data.remove(0);
            proof {
                assert(self.data@ =~= old(self).data@.push(event).drop_first());
            }
        }
    }

    /// The price of the most recent event, if any.
    pub fn get_current_price(&self) -> (r: Option<Dec>)
        requires
            self.events_bounded(),
        ensures
            r == (if self.data@.len() == 0 {
                None
            } else {
                Some(Dec { m: self.data@.last().price_spec() as i128 })
            }),
    {
        if self.data.len() == 0 {
            return None;
        }
        let last = &self.data[self.data.len() - 1];
        match last {
            MarketEvent::Bar(bar) => Some(bar.close),
            MarketEvent::Tick(tick) => Some(tick.price),
            MarketEvent::Quote { bid, ask, .. } => {
                proof {
                    crate::decimal::lemma_tdiv_shrinks((bid.m + ask.m) * SCALE, 2 * SCALE as int);
                }
                Some(bid.add(*ask).div(Dec::from_int(2)))
            },
        }
    }

    /// The most recent bar in the window, if any.
    pub fn get_latest_bar(&self) -> (r: Option<&Bar>)
        ensures
            match r {
                Some(b) => exists|i: int|
                    0 <= i < self.data@.len() && self.data@[i] == MarketEvent::Bar(*b),
                None => true,
            },
    {
        let mut i: usize = self.data.len();
        while i > 0
            invariant
                i <= self.data@.len(),
            decreases i,
        {
            i = i - 1;
            match &self.data[i] {
                MarketEvent::Bar(bar) => {
                    proof {
                        assert(self.data@[i as int] == MarketEvent::Bar(*bar));
                    }
                    return Some(bar);
                },
                _ => {},
            }
        }
        None
    }

    /// Up to `count` most recent bars, oldest first.
    pub fn get_bars(&self, count: usize) -> (r: Vec<Bar>)
        ensures
            r@.len() <= count,
    {
        let mut rev: Vec<Bar> = Vec::new();
        let mut i: usize = self.data.len();
        while i > 0 && rev.len() < count
            invariant
                i <= self.data@.len(),
                rev@.len() <= count,
            decreases i,
        {
            i = i - 1;
            match &self.data[i] {
                MarketEvent::Bar(bar) => {
                    rev.push(bar.clone());
                },
                _ => {},
            }
        }
        let mut out: Vec<Bar> = Vec::new();
        let mut k: usize = rev.len();
        while k > 0
            invariant
                k <= rev@.len(),
                rev@.len() <= count,
                out@.len() == rev@.len() - k,
            decreases k,
        {
            k = k - 1;
            out.push(rev[k].clone());
        }
        out
    }
}

/// Action a strategy asks the engine to take.
#[derive(Debug)]
pub enum StrategyAction {
    PlaceOrder(Order),
    CancelOrder { order_id: OrderId },
    Log { level: LogLevel, message: String },
    SetParameter { key: String, value: String },
}

/// Log levels for strategy output.
#[derive(Debug, Clone, Copy, PartialEq, Eq, Structural)]
pub enum LogLevel {
    Debug,
    Info,
    Warning,
    Error,
}

/// Strategy performance metrics.
#[derive(Debug)]
pub struct StrategyMetrics {
    pub strategy_id: String,
    pub start_time: i64,
    pub end_time: Option<i64>,
    pub total_return: Dec,
    pub annualized_return: Dec,
    pub volatility: Dec,
    pub sharpe_ratio: Option<Dec>,
    pub max_drawdown: Dec,
    pub total_trades: u64,
    pub winning_trades: u64,
    pub losing_trades: u64,
    pub win_rate: Dec,
    pub average_win: Dec,
    pub average_loss: Dec,
    pub profit_factor: Dec,
    pub total_commissions: Dec,
}

impl Clone for StrategyMetrics {
    fn clone(&self) -> (res: StrategyMetrics)
        ensures
            res.strategy_id@ == self.strategy_id@,
            res.total_trades == self.total_trades,
            res.winning_trades == self.winning_trades,
            res.losing_trades == self.losing_trades,
            res.total_return == self.total_return,
            res.win_rate == self.win_rate,
            res.total_commissions == self.total_commissions,
    {
        StrategyMetrics {
            strategy_id: self.strategy_id.clone(),
            start_time: self.start_time,
            end_time: self.end_time,
            total_return: self.total_return,
            annualized_return: self.annualized_return,
            volatility: self.volatility,
            sharpe_ratio: self.sharpe_ratio,
            max_drawdown: self.max_drawdown,
            total_trades: self.total_trades,
            winning_trades: self.winning_trades,
            losing_trades: self.losing_trades,
            win_rate: self.win_rate,
            average_win: self.average_win,
            average_loss: self.average_loss,
            profit_factor: self.profit_factor,
            total_commissions: self.total_commissions,
        }
    }
}

impl StrategyMetrics {
    pub fn new(strategy_id: String) -> (r: StrategyMetrics)
        ensures
            r.strategy_id@ == strategy_id@,
            r.end_time is None,
            r.total_return.m == 0,
            r.annualized_return.m == 0,
            r.volatility.m == 0,
            r.sharpe_ratio is None,
            r.max_drawdown.m == 0,
            r.total_trades == 0,
            r.winning_trades == 0,
            r.losing_trades == 0,
            r.win_rate.m == 0,
            r.average_win.m == 0,
            r.average_loss.m == 0,
            r.profit_factor.m == 0,
            r.total_commissions.m == 0,
    {
        StrategyMetrics {
            strategy_id,
            start_time: crate::host::now_millis(),
            end_time: None,
            total_return: Dec::zero(),
            annualized_return: Dec::zero(),
            volatility: Dec::zero(),
            sharpe_ratio: None,
            max_drawdown: Dec::zero(),
            total_trades: 0,
            winning_trades: 0,
            losing_trades: 0,
            win_rate: Dec::zero(),
            average_win: Dec::zero(),
            average_loss: Dec::zero(),
            profit_factor: Dec::zero(),
            total_commissions: Dec::zero(),
        }
    }
}

/// Strategy configuration parameters.
#[derive(Debug)]
pub struct StrategyConfig {
    pub strategy_id: String,
    pub name: String,
    pub description: String,
    pub parameters: Vec<(String, String)>,
    pub symbols: Vec<Symbol>,
    pub initial_capital: Dec,
    pub risk_limits: RiskLimits,
    pub enabled: bool,
}

impl Clone for StrategyConfig {
    fn clone(&self) -> (res: StrategyConfig)
        ensures
            res.strategy_id@ == self.strategy_id@,
            res.symbols@ == self.symbols@,
            res.initial_capital == self.initial_capital,
            res.enabled == self.enabled,
    {
        let mut parameters: Vec<(String, String)> = Vec::new();
        let mut i: usize = 0;
        while i < self.parameters.len()
            invariant
                i <= self.parameters@.len(),
            decreases self.parameters@.len() - i,
        {
            let e = &self.parameters[i];
            parameters.push((e.0.clone(), e.1.clone()));
            i += 1;
        }
        let mut symbols: Vec<Symbol> = Vec::new();
        let mut k: usize = 0;
        while k < self.symbols.len()
            invariant
                k <= self.symbols@.len(),
                symbols@ =~= self.symbols@.subrange(0, k as int),
            decreases self.symbols@.len() - k,
        {
            symbols.push(self.symbols[k].clone());
            k += 1;
        }
        proof {
            assert(symbols@ =~= self.symbols@);
        }
        StrategyConfig {
            strategy_id: self.strategy_id.clone(),
            name: self.name.clone(),
            description: self.description.clone(),
            parameters,
            symbols,
            initial_capital: self.initial_capital,
            risk_limits: self.risk_limits,
            enabled: self.enabled,
        }
    }
}

impl StrategyConfig {
    pub fn new(strategy_id: String, name: String) -> (r: StrategyConfig)
        ensures
            r.strategy_id@ == strategy_id@,
            r.name@ == name@,
            r.symbols@.len() == 0,
            r.parameters@.len() == 0,
            r.initial_capital.m == 100000 * SCALE,
            r.enabled,
    {
        StrategyConfig {
            strategy_id,
            name,
            description: String::new(),
            parameters: Vec::new(),
            symbols: Vec::new(),
            initial_capital: Dec::from_int(100000),
            risk_limits: RiskLimits::default(),
            enabled: true,
        }
    }

    /// Add a symbol to the strategy's universe.
    pub fn add_symbol(&mut self, symbol: Symbol)
        ensures
            final(self).symbols@ == old(self).symbols@.push(symbol),
            final(self).strategy_id == old(self).strategy_id,
            final(self).initial_capital == old(self).initial_capital,
    {
        self.symbols.push(symbol);
    }

    /// Store a named parameter as text.
    pub fn set_parameter(&mut self, key: &str, value: &str)
        ensures
            final(self).symbols@ == old(self).symbols@,
            final(self).strategy_id == old(self).strategy_id,
    {
        self.parameters.push((key.to_owned(), value.to_owned()));
    }

    /// The most recently set value for a parameter, if any.
    pub fn get_parameter(&self, key: &str) -> (r: Option<&String>) {
        let mut found: Option<&String> = None;
        let mut i: usize = 0;
        while i < self.parameters.len()
            decreases self.parameters@.len() - i,
        {
            if self.parameters[i].0.as_str() == key {
                found = Some(&self.parameters[i].1);
            }
            i += 1;
        }
        found
    }
}

/// Read-only context handed to strategy callbacks: the clock, the
/// portfolio, and a bounded look-back buffer of market data per
/// symbol.
#[derive(Debug)]
pub struct StrategyContext {
    pub current_time: i64,
    pub portfolio: Portfolio,
    pub market_data: Vec<(Symbol, MarketDataBuffer)>,
    pub pending_orders: Vec<Order>,
    pub strategy_id: String,
}

impl StrategyContext {
    pub open spec fn wf(self) -> bool {
        &&& self.portfolio.wf()
        &&& keys_unique(self.market_data@)
        &&& forall|i: int|
            0 <= i < self.market_data@.len() ==> (
            #[trigger] self.market_data@[i].1).events_bounded()
    }

    pub fn new(strategy_id: String, initial_capital: Dec) -> (r: StrategyContext)
        requires
            0 <= initial_capital.m <= VAL_LIMIT,
        ensures
            r.wf(),
            r.strategy_id@ == strategy_id@,
            r.portfolio.initial_capital == initial_capital,
            r.portfolio.cash == initial_capital,
            r.market_data@.len() == 0,
            r.pending_orders@.len() == 0,
    {
        StrategyContext {
            current_time: crate::host::now_millis(),
            portfolio: Portfolio::new("default".to_owned(), initial_capital),
            market_data: Vec::new(),
            pending_orders: Vec::new(),
            strategy_id,
        }
    }

    /// The portfolio position for a symbol, if any.
    pub fn get_position(&self, symbol: &Symbol) -> (r: Option<&Position>)
        requires
            self.wf(),
        ensures
            match r {
                Some(p) => lookup(self.portfolio.positions@, symbol@) == Some(*p),
                None => lookup(self.portfolio.positions@, symbol@) is None,
            },
    {
        self.portfolio.get_position(symbol)
    }

    /// The latest buffered price for a symbol.
    pub fn get_current_price(&self, symbol: &Symbol) -> (r: Option<Dec>)
        requires
            self.wf(),
        ensures
            keys_unique(self.market_data@) ==> (match tab_get(self.market_data@, symbol@) {
                Some(buf) => r == (if buf.data@.len() == 0 {
                    None
                } else {
                    Some(Dec { m: buf.data@.last().price_spec() as i128 })
                }),
                None => r is None,
            }),
    {
        match tab_find(&self.market_data, symbol) {
            Some(i) => {
                proof {
                    if keys_unique(self.market_data@) {
                        crate::symtab::lemma_tab_at(self.market_data@, symbol@, i as int);
                    }
                }
                self.market_data[i].1.get_current_price()
            },
            None => None,
        }
    }

    /// The market-data buffer for a symbol.
    pub fn get_market_data(&self, symbol: &Symbol) -> (r: Option<&MarketDataBuffer>)
        ensures
            keys_unique(self.market_data@) ==> (match r {
                Some(b) => tab_get(self.market_data@, symbol@) == Some(*b),
                None => tab_get(self.market_data@, symbol@) is None,
            }),
    {
        match tab_find(&self.market_data, symbol) {
            Some(i) => {
                proof {
                    if keys_unique(self.market_data@) {
                        crate::symtab::lemma_tab_at(self.market_data@, symbol@, i as int);
                    }
                }
                Some(&self.market_data[i].1)
            },
            None => None,
        }
    }

    /// Cash available for new orders.
    pub fn get_available_cash(&self) -> (r: Dec)
        ensures
            r.m == if self.portfolio.cash.m >= 0 {
                self.portfolio.cash.m
            } else {
                0
            },
    {
        self.portfolio.get_available_cash()
    }

    /// Total portfolio equity.
    pub fn get_portfolio_value(&self) -> (r: Dec)
        ensures
            r == self.portfolio.total_equity,
    {
        self.portfolio.total_equity
    }
}

/// The callback contract every strategy implements. The engines call
/// only these six methods and swallow per-call errors, so a
/// misbehaving strategy can never crash an engine loop.
pub trait Strategy {
    /// Initialize the strategy with configuration.
    fn initialize(&mut self, config: &StrategyConfig) -> Result<(), String>;

    /// React to one market event with zero or more actions.
    fn on_market_event(&mut self, event: &MarketEvent, context: &StrategyContext) -> Result<
        Vec<StrategyAction>,
        String,
    >
        requires
            context.wf(),
    ;

    /// React to an order event (fill, cancel, rejection).
    fn on_order_event(&mut self, event: &OrderEvent, context: &StrategyContext) -> Result<
        Vec<StrategyAction>,
        String,
    >
        requires
            context.wf(),
    ;

    /// Called at the end of each trading day.
    fn on_day_end(&mut self, context: &StrategyContext) -> Result<Vec<StrategyAction>, String>
        requires
            context.wf(),
    ;

    /// Called when the strategy is stopped.
    fn on_stop(&mut self, context: &StrategyContext) -> Result<Vec<StrategyAction>, String>
        requires
            context.wf(),
    ;

    /// The strategy's configuration.
    fn get_config(&self) -> &StrategyConfig;

    /// The strategy's performance metrics.
    fn get_metrics(&self) -> StrategyMetrics;
}

/// Simple buy-and-hold strategy: on the first market event for its
/// first configured symbol, spend 95% of available cash; then hold.
#[derive(Debug)]
pub struct BuyAndHoldStrategy {
    config: StrategyConfig,
    initialized: bool,
    position_opened: bool,
}

impl BuyAndHoldStrategy {
    pub closed spec fn opened(self) -> bool {
        self.position_opened
    }

    pub fn new() -> (r: BuyAndHoldStrategy)
        ensures
            !r.opened(),
    {
        BuyAndHoldStrategy {
            config: StrategyConfig::new("buy_and_hold".to_owned(), "Buy and Hold".to_owned()),
            initialized: false,
            position_opened: false,
        }
    }
}

impl Strategy for BuyAndHoldStrategy {
    fn initialize(&mut self, config: &StrategyConfig) -> Result<(), String> {
        self.config = config.clone();
        self.initialized = true;
        Ok(())
    }

    fn on_market_event(&mut self, event: &MarketEvent, context: &StrategyContext) -> Result<
        Vec<StrategyAction>,
        String,
    > {
        if !self.initialized || self.position_opened {
            return Ok(Vec::new());
        }

        if self.config.symbols.len() > 0 {
            let symbol = &self.config.symbols[0];
            if event.symbol() == symbol {
                let available_cash = context.get_available_cash();
                match context.get_current_price(symbol) {
                    Some(price) => {
                        if price.m > 0 && available_cash.m <= crate::decimal::AMT_LIMIT
                            && available_cash.m >= 0 {
                            // Spend 95% of available cash.
                            proof {
                                crate::decimal::lemma_mul_bound(
                                    available_cash.m as int,
                                    950000,
                                    crate::decimal::AMT_LIMIT as int,
                                    SCALE as int,
                                );
                                crate::decimal::lemma_tdiv_shrinks(
                                    available_cash.m * 950000,
                                    SCALE as int,
                                );
                                crate::decimal::lemma_tdiv_shrinks(
                                    mul_m(available_cash.m as int, 950000) * SCALE,
                                    price.m as int,
                                );
                            }
                            let budget = available_cash.mul(Dec::from_raw(950000));
                            if budget.m <= i128::MAX / SCALE {
                                let quantity = budget.div(price);
                                if quantity.m > 0 && quantity.m <= VAL_LIMIT {
                                    let order = Order::market_order(
                                        symbol.clone(),
                                        Side::Buy,
                                        quantity,
                                        self.config.strategy_id.clone(),
                                    );
                                    self.position_opened = true;
                                    let mut actions: Vec<StrategyAction> = Vec::new();
                                    actions.push(StrategyAction::PlaceOrder(order));
                                    return Ok(actions);
                                }
                            }
                        }
                    },
                    None => {},
                }
            }
        }

        Ok(Vec::new())
    }

    fn on_order_event(&mut self, _event: &OrderEvent, _context: &StrategyContext) -> Result<
        Vec<StrategyAction>,
        String,
    > {
        Ok(Vec::new())
    }

    fn on_day_end(&mut self, _context: &StrategyContext) -> Result<Vec<StrategyAction>, String> {
        Ok(Vec::new())
    }

    fn on_stop(&mut self, _context: &StrategyContext) -> Result<Vec<StrategyAction>, String> {
        Ok(Vec::new())
    }

    fn get_config(&self) -> &StrategyConfig {
        &self.config
    }

    fn get_metrics(&self) -> StrategyMetrics {
        StrategyMetrics::new(self.config.strategy_id.clone())
    }
}

} // verus!
