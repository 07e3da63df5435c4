//! Backtesting engines: the event-driven engine that walks simulated
//! days through execution, portfolio accounting and strategy
//! callbacks, and a thin wrapper for engine-independent smoke runs.

use vstd::prelude::*;

use crate::backtest::{returns_ok, BacktestConfig, BacktestResult};
use crate::data::DataManager;
use crate::decimal::{abs_m, div_m, Dec, AMT_LIMIT, COST_LIMIT, SCALE, VAL_LIMIT};
use crate::errors::{BacktestError, GbError, GbResult};
use crate::execution::{ExecutionConfig, ExecutionEngine};
use crate::host;
use crate::market::{Bar, MarketEvent, Symbol, SymbolV};
use crate::orders::{Fill, Order, OrderStatus};
use crate::portfolio::{Portfolio, MAX_POSITIONS};
use crate::providers::DataProvider;
use crate::strategy::{
    MarketDataBuffer, Strategy, StrategyAction, StrategyContext, StrategyMetrics,
};
use crate::symtab::{keys_unique, tab_find, tab_get, tab_insert};

verus! {

/// One simulated day, in milliseconds.
pub const DAY_MS: i64 = 86400000;

/// Bounds under which a backtest configuration can be simulated.
pub open spec fn config_runnable(config: BacktestConfig) -> bool {
    &&& 0 <= config.initial_capital.m <= VAL_LIMIT
    &&& 0 <= config.start_date
    &&& config.start_date <= config.end_date
    &&& config.end_date - config.start_date < 86399913600000
    &&& config.end_date <= 253402300799999
    &&& config.symbols@.len() >= 1
    &&& config.symbols@.len() <= 100
}

/// Number of simulated days in a configuration's range.
pub open spec fn simulated_days(config: BacktestConfig) -> int {
    (config.end_date - config.start_date) / (DAY_MS as int) + 1
}

/// Event-driven backtesting engine: per simulated day it surfaces the
/// day's bars, attempts pending orders, marks the portfolio to
/// market, invokes the strategy, and records a daily return.
pub struct Engine<P: DataProvider, S: Strategy> {
    config: BacktestConfig,
    data_manager: DataManager<P>,
    portfolio: Portfolio,
    strategy: S,
    execution: ExecutionEngine,
    current_time: i64,
    market_data: Vec<(Symbol, Vec<Bar>)>,
    pending_orders: Vec<Order>,
    strategy_metrics: StrategyMetrics,
    context: StrategyContext,
}

impl<P: DataProvider, S: Strategy> Engine<P, S> {
    pub closed spec fn portfolio_spec(self) -> Portfolio {
        self.portfolio
    }

    pub closed spec fn config_spec(self) -> BacktestConfig {
        self.config
    }

    pub closed spec fn pending_spec(self) -> Seq<Order> {
        self.pending_orders@
    }

    pub closed spec fn wf(self) -> bool {
        &&& self.portfolio.wf()
        &&& returns_ok(self.portfolio.daily_returns@)
        &&& self.portfolio.daily_returns@.len() < 1000000
        &&& config_runnable(self.config)
        &&& self.execution.wf()
        &&& keys_unique(self.market_data@)
        &&& (forall|i: int, j: int|
            0 <= i < self.market_data@.len() && 0 <= j < (
            #[trigger] self.market_data@[i].1)@.len() ==> (
            #[trigger] self.market_data@[i].1@[j]).bounded()
                && self.market_data@[i].1@[j].timestamp >= 0)
        &&& (forall|i: int|
            0 <= i < self.pending_orders@.len() ==> (#[trigger] self.pending_orders@[i]).wf()
                && (match self.pending_orders@[i].average_fill_price {
                Some(a) => a.val_ok(),
                None => true,
            }))
        &&& self.context.wf()
    }

    /// Create an engine: validates the configuration, then loads bars
    /// for every configured symbol, substituting a synthetic random
    /// walk when a symbol's data cannot be loaded (flagged behaviour,
    /// favouring availability).
    pub fn new(config: BacktestConfig, data_manager: DataManager<P>, strategy: S) -> (r: GbResult<
        Engine<P, S>,
    >)
        requires
            data_manager.wf(),
        ensures
            r is Ok <==> config_runnable(config),
            match r {
                Ok(engine) => engine.wf() && engine.config_spec() == config
                    && engine.portfolio_spec().cash == config.initial_capital
                    && engine.portfolio_spec().daily_returns@.len() == 0
                    && engine.pending_spec().len() == 0,
                Err(_) => !config_runnable(config),
            },
    {
        if !(config.initial_capital.m >= 0 && config.initial_capital.m <= VAL_LIMIT) {
            return Err(
                GbError::Backtest(
                    BacktestError::InvalidConfig {
                        message: "initial capital out of range".to_owned(),
                    },
                ),
            );
        }
        if !(config.start_date >= 0 && config.start_date <= config.end_date && config.end_date
            - config.start_date < 86399913600000 && config.end_date <= 253402300799999) {
            return Err(
                GbError::Backtest(
                    BacktestError::InvalidDateRange {
                        start: "start".to_owned(),
                        end: "end".to_owned(),
                    },
                ),
            );
        }
        if config.symbols.len() < 1 || config.symbols.len() > 100 {
            return Err(GbError::Backtest(BacktestError::NoSymbols));
        }

        let portfolio = Portfolio::new("backtest_portfolio".to_owned(), config.initial_capital);
        let strategy_metrics = StrategyMetrics::new(
            strategy.get_config().strategy_id.clone(),
        );
        let context = StrategyContext::new(
            strategy.get_config().strategy_id.clone(),
            config.initial_capital,
        );

        let mut data_manager = data_manager;
        let mut market_data: Vec<(Symbol, Vec<Bar>)> = Vec::new();
        let mut k: usize = 0;
        while k < config.symbols.len()
            invariant
                k <= config.symbols@.len(),
                data_manager.wf(),
                keys_unique(market_data@),
                config.start_date >= 0,
                config.start_date <= config.end_date,
                config.end_date - config.start_date < 86399913600000,
                forall|i: int, j: int|
                    0 <= i < market_data@.len() && 0 <= j < (
                    #[trigger] market_data@[i].1)@.len() ==> (
                    #[trigger] market_data@[i].1@[j]).bounded() && market_data@[i].1@[j].timestamp
                        >= 0,
            decreases config.symbols@.len() - k,
        {
            let symbol = &config.symbols[k];
            let bars: Vec<Bar> = match data_manager.load_data(
                symbol,
                config.start_date,
                config.end_date,
                config.resolution,
            ) {
                Ok(bars) => bars,
                Err(_) => generate_sample_data(symbol, config.start_date, config.end_date),
            };
            tab_insert(&mut market_data, symbol.clone(), bars);
            proof {
                assert forall|i: int, j: int|
                    0 <= i < market_data@.len() && 0 <= j < (
                    #[trigger] market_data@[i].1)@.len() implies (
                #[trigger] market_data@[i].1@[j]).bounded() && market_data@[i].1@[j].timestamp
                    >= 0 by {}
            }
            k += 1;
        }

        Ok(
            Engine {
                current_time: config.start_date,
                config,
                data_manager,
                portfolio,
                strategy,
                execution: ExecutionEngine::new(ExecutionConfig::default()),
                market_data,
                pending_orders: Vec::new(),
                strategy_metrics,
                context,
            },
        )
    }

    /// Run the complete simulation: one iteration per simulated day,
    /// in the fixed order execution, mark-to-market, strategy
    /// callback, day-end callback, daily return. The result is
    /// Completed, carries the final portfolio, and holds exactly one
    /// daily return per simulated day.
    pub fn run(&mut self) -> (r: GbResult<BacktestResult>)
        requires
            old(self).wf(),
            old(self).portfolio_spec().daily_returns@.len() == 0,
        ensures
            final(self).wf(),
            match r {
                Ok(result) => {
                    &&& result.status == crate::backtest::BacktestStatus::Completed
                    &&& result.final_portfolio is Some
                    &&& result.final_portfolio->0.wf()
                    &&& result.final_portfolio->0.daily_returns@.len() == simulated_days(
                        old(self).config_spec(),
                    )
                    &&& (result.performance_metrics is Some)
                    &&& (result.strategy_metrics is Some)
                    &&& result.equity_curve@.len() == simulated_days(old(self).config_spec())
                },
                Err(_) => false,
            },
    {
        let mut result = BacktestResult::new(self.config.clone());
        result.mark_started();
        let mut curve: Vec<crate::backtest::EquityCurvePoint> = Vec::new();

        self.current_time = self.config.start_date;
        let ghost days_total = simulated_days(self.config);
        let mut day: u64 = 0;
        proof {
            vstd::arithmetic::div_mod::lemma_div_pos_is_pos(
                self.config.end_date - self.config.start_date,
                DAY_MS as int,
            );
            vstd::arithmetic::div_mod::lemma_div_is_ordered(
                self.config.end_date - self.config.start_date,
                86399913600000 - 1,
                DAY_MS as int,
            );
            assert(86399913599999int == 86400000int * 999998 + 86399999) by (nonlinear_arith);
            vstd::arithmetic::div_mod::lemma_div_multiples_vanish_fancy(
                999998,
                86399999,
                86400000,
            );
        }
        while self.current_time <= self.config.end_date
            invariant
                self.wf(),
                self.config == old(self).config,
                self.config.start_date <= self.current_time,
                self.current_time == self.config.start_date + day * DAY_MS,
                self.portfolio.daily_returns@.len() == day,
                curve@.len() == day,
                day <= simulated_days(self.config),
                days_total == simulated_days(self.config),
            decreases self.config.end_date - self.current_time + DAY_MS,
        {
            // 1 & 2: attempt execution of every pending order against
            // the day's bars, applying resulting fills.
            self.execute_pending_orders();

            // 3: mark the portfolio to the day's closes.
            self.update_portfolio_values();

            // 4: strategy callback per (symbol, bar) pair.
            self.generate_strategy_signals();

            // 5: day-end callback.
            let _ = self.strategy.on_day_end(&self.context);

            // 6: record the daily return and the equity-curve point.
            self.update_daily_returns();
            proof {
                crate::portfolio::lemma_sum_mv_bound(self.portfolio.positions@);
            }
            let last = self.portfolio.daily_returns[self.portfolio.daily_returns.len() - 1];
            curve.push(
                crate::backtest::EquityCurvePoint {
                    timestamp: self.current_time,
                    portfolio_value: self.portfolio.total_equity,
                    cash: self.portfolio.cash,
                    positions_value: Dec::from_raw(
                        self.portfolio.total_equity.m - self.portfolio.cash.m,
                    ),
                    total_pnl: self.portfolio.total_pnl,
                    daily_return: Some(last.daily_return),
                    cumulative_return: last.cumulative_return,
                    drawdown: Dec::from_raw(
                        crate::backtest::max_dd_exec(
                            self.portfolio.initial_capital,
                            &self.portfolio.daily_returns,
                        ),
                    ),
                },
            );

            // 7: advance one day.
            proof {
                lemma_day_step(
                    self.config.start_date as int,
                    self.config.end_date as int,
                    day as int,
                );
            }
            day = day + 1;
            self.current_time = self.current_time + DAY_MS;
        }
        proof {
            lemma_day_count(
                self.config.start_date as int,
                self.config.end_date as int,
                day as int,
            );
        }

        let _ = self.strategy.on_stop(&self.context);
        result.mark_completed(self.portfolio.clone(), self.strategy_metrics.clone());
        result.equity_curve = curve;
        Ok(result)
    }

    /// The day's bar per symbol: for each feed, the first bar whose
    /// timestamp falls inside the current simulated day.
    fn todays_bars(&self) -> (r: Vec<(Symbol, Bar)>)
        requires
            self.wf(),
        ensures
            keys_unique(r@),
            forall|k: int|
                0 <= k < r@.len() ==> (#[trigger] r@[k].1).bounded() && r@[k].1.timestamp >= 0,
    {
        let mut out: Vec<(Symbol, Bar)> = Vec::new();
        let day_start = self.current_time;
        let mut i: usize = 0;
        while i < self.market_data.len()
            invariant
                i <= self.market_data@.len(),
                self.wf(),
                day_start == self.current_time,
                keys_unique(out@),
                forall|k: int|
                    0 <= k < out@.len() ==> (#[trigger] out@[k].1).bounded() && out@[
                    k].1.timestamp >= 0,
            decreases self.market_data@.len() - i,
        {
            let bars = &self.market_data[i].1;
            let mut found: Option<Bar> = None;
            let mut b: usize = 0;
            while b < bars.len()
                invariant
                    b <= bars@.len(),
                    forall|j: int|
                        0 <= j < bars@.len() ==> (#[trigger] bars@[j]).bounded() && bars@[
                        j].timestamp >= 0,
                    match found {
                        Some(bar) => bar.bounded() && bar.timestamp >= 0,
                        None => true,
                    },
                decreases bars@.len() - b,
            {
                let bar = &bars[b];
                if day_start <= i64::MAX - DAY_MS && bar.timestamp >= day_start && bar.timestamp
                    < day_start + DAY_MS {
                    found = Some(bar.clone());
                    b = bars.len();
                } else {
                    b += 1;
                }
            }
            match found {
                Some(bar) => {
                    let ghost out0 = out@;
                    tab_insert(&mut out, self.market_data[i].0.clone(), bar);
                    proof {
                        assert forall|k: int|
                            0 <= k < out@.len() implies (#[trigger] out@[k].1).bounded() && out@[
                        k].1.timestamp >= 0 by {
                            if out@[k].1 != bar {
                                let e = out@[k];
                                assert(out0.contains(e));
                                let w = choose|w: int| 0 <= w < out0.len() && out0[w] == e;
                                assert(out0[w].1.bounded());
                            }
                        }
                    }
                },
                None => {},
            }
            i += 1;
        }
        out
    }

    /// Attempt every pending order against the day's bar for its
    /// symbol; a filled or rejected order leaves the pending queue.
    fn execute_pending_orders(&mut self)
        requires
            old(self).wf(),
        ensures
            final(self).wf(),
            final(self).config == old(self).config,
            final(self).current_time == old(self).current_time,
            final(self).portfolio.daily_returns@ == old(self).portfolio.daily_returns@,
    {
        let today = self.todays_bars();
        let mut still_pending: Vec<Order> = Vec::new();
        let mut orders: Vec<Order> = Vec::new();
        core::mem::swap(&mut orders, &mut self.pending_orders);
        let ghost o0 = orders@;
        let n = orders.len();
        let mut i: usize = 0;
        while i < n
            invariant
                i <= orders@.len(),
                orders@ == o0,
                n == orders@.len(),
                self.wf(),
                self.pending_orders@.len() == 0,
                self.config == old(self).config,
                self.current_time == old(self).current_time,
                self.portfolio.daily_returns@ == old(self).portfolio.daily_returns@,
                keys_unique(today@),
                forall|k: int|
                    0 <= k < today@.len() ==> (#[trigger] today@[k].1).bounded() && today@[
                    k].1.timestamp >= 0,
                forall|k: int|
                    0 <= k < o0.len() ==> (#[trigger] o0[k]).wf() && (match o0[
                    k].average_fill_price {
                    Some(a) => a.val_ok(),
                    None => true,
                }),
                forall|k: int|
                    0 <= k < still_pending@.len() ==> (#[trigger] still_pending@[k]).wf() && (
                    match still_pending@[k].average_fill_price {
                        Some(a) => a.val_ok(),
                        None => true,
                    }),
            decreases n - i,
        {
            let order = orders[i].clone();

            let bar: Option<Bar> = match tab_find(&today, &order.symbol) {
                Some(ti) => {
                    proof {
                        crate::symtab::lemma_tab_at(today@, order.symbol@, ti as int);
                    }
                    Some(today[ti].1.clone())
                },
                None => None,
            };

            match bar {
                Some(bar) => {
                    let mut execution = ExecutionEngine::new(ExecutionConfig::default());
                    core::mem::swap(&mut execution, &mut self.execution);
                    execution.update_market_data(bar.symbol.clone(), bar);
                    let attempt = execution.execute_order(&order, self.current_time);
                    core::mem::swap(&mut execution, &mut self.execution);
                    match attempt {
                        Ok(Some(fill)) => {
                            let realized_before = self.portfolio.total_realized_pnl;
                            if fill.quantity.m >= 0 && fill.commission.m >= 0
                                && self.portfolio.can_absorb(&fill) {
                                self.portfolio.apply_fill(&fill);
                                self.strategy_metrics.total_trades =
                                    self.strategy_metrics.total_trades.saturating_add(1);
                                // A trade counts as winning when it
                                // increased realized P&L.
                                if self.portfolio.total_realized_pnl.m > realized_before.m {
                                    self.strategy_metrics.winning_trades =
                                        self.strategy_metrics.winning_trades.saturating_add(1);
                                } else if self.portfolio.total_realized_pnl.m
                                    < realized_before.m {
                                    self.strategy_metrics.losing_trades =
                                        self.strategy_metrics.losing_trades.saturating_add(1);
                                }
                                let order_event = crate::orders::OrderEvent::OrderFilled {
                                    order_id: order.id,
                                    fill,
                                };
                                let _ = self.strategy.on_order_event(
                                    &order_event,
                                    &self.context,
                                );
                            } else {
                                still_pending.push(order);
                            }
                        },
                        Ok(None) => {
                            still_pending.push(order);
                        },
                        Err(_) => {
                            still_pending.push(order);
                        },
                    }
                },
                None => {
                    still_pending.push(order);
                },
            }
            i += 1;
        }
        self.pending_orders = still_pending;
    }

    /// Mark every position to the day's close.
    fn update_portfolio_values(&mut self)
        requires
            old(self).wf(),
        ensures
            final(self).wf(),
            final(self).config == old(self).config,
            final(self).current_time == old(self).current_time,
            final(self).portfolio.daily_returns@ == old(self).portfolio.daily_returns@,
    {
        let today = self.todays_bars();
        let mut prices: Vec<(Symbol, Dec)> = Vec::new();
        let mut i: usize = 0;
        while i < today.len()
            invariant
                i <= today@.len(),
                keys_unique(today@),
                forall|k: int| 0 <= k < today@.len() ==> (#[trigger] today@[k].1).bounded(),
                prices@.len() == i,
                forall|k: int| 0 <= k < i ==> (#[trigger] prices@[k].0)@ == today@[k].0@,
                forall|k: int| 0 <= k < i ==> (#[trigger] prices@[k].1).val_ok(),
            decreases today@.len() - i,
        {
            prices.push((today[i].0.clone(), today[i].1.close));
            i += 1;
        }
        proof {
            assert forall|k: int, l: int|
                0 <= k < l < prices@.len() implies (#[trigger] prices@[k].0)@ != (
            #[trigger] prices@[l].0)@ by {
                assert(today@[k].0@ != today@[l].0@);
            }
        }
        self.portfolio.update_market_prices(&prices);
    }

    /// Invoke the strategy once per (symbol, day-bar) pair with a
    /// fresh read-only context, and enqueue any placed orders.
    fn generate_strategy_signals(&mut self)
        requires
            old(self).wf(),
        ensures
            final(self).wf(),
            final(self).config == old(self).config,
            final(self).current_time == old(self).current_time,
            final(self).portfolio.daily_returns@ == old(self).portfolio.daily_returns@,
    {
        // Refresh the context's view of the portfolio and clock.
        self.context.portfolio = self.portfolio.clone();
        self.context.current_time = self.current_time;

        let today = self.todays_bars();
        let mut i: usize = 0;
        while i < today.len()
            invariant
                i <= today@.len(),
                self.wf(),
                self.config == old(self).config,
                self.current_time == old(self).current_time,
                self.portfolio.daily_returns@ == old(self).portfolio.daily_returns@,
                forall|k: int|
                    0 <= k < today@.len() ==> (#[trigger] today@[k].1).bounded() && today@[
                    k].1.timestamp >= 0,
            decreases today@.len() - i,
        {
            let bar = today[i].1.clone();
            let event = MarketEvent::Bar(bar.clone());

            // Maintain the bounded look-back buffer.
            let mut md: Vec<(Symbol, MarketDataBuffer)> = Vec::new();
            core::mem::swap(&mut md, &mut self.context.market_data);
            let ghost md0 = md@;
            match tab_find(&md, &bar.symbol) {
                Some(bi) => {
                    proof {
                        crate::symtab::lemma_tab_at(md@, bar.symbol@, bi as int);
                    }
                    let mut buf = md[bi].1.clone();
                    let key = md[bi].0.clone();
                    buf.add_event(event.clone());
                    proof {
                        crate::symtab::lemma_tab_update(md@, bi as int, (md@[bi as int].0, buf));
                    }
                    md.set(bi, (key, buf));
                    proof {
                        assert forall|x: int|
                            0 <= x < md@.len() implies (#[trigger] md@[x].1).events_bounded() by {
                            if x != bi as int {
                                assert(md@[x] == md0[x]);
                                assert(md0[x].1.events_bounded());
                            } else {
                                assert(md0[x].1.events_bounded());
                                let pre = md0[bi as int].1.data@.push(event);
                                assert forall|e: int|
                                    0 <= e < md@[x].1.data@.len() implies (
                                #[trigger] md@[x].1.data@[e]).bounded() by {
                                    if md@[x].1.data@.len() == pre.len() {
                                        assert(md@[x].1.data@[e] == pre[e]);
                                        if e < md0[bi as int].1.data@.len() {
                                            assert(pre[e] == md0[bi as int].1.data@[e]);
                                        }
                                    } else {
                                        assert(md@[x].1.data@[e] == pre[e + 1]);
                                        if e + 1 < md0[bi as int].1.data@.len() {
                                            assert(pre[e + 1] == md0[bi as int].1.data@[e + 1]);
                                        }
                                    }
                                }
                            }
                        }
                    }
                },
                None => {
                    let mut buf = MarketDataBuffer::new(bar.symbol.clone(), 100);
                    buf.add_event(event.clone());
                    proof {
                        crate::symtab::lemma_tab_push(md0, (bar.symbol, buf));
                    }
                    md.push((bar.symbol.clone(), buf));
                    proof {
                        assert forall|x: int|
                            0 <= x < md@.len() implies (#[trigger] md@[x].1).events_bounded() by {
                            if x < md0.len() {
                                assert(md@[x] == md0[x]);
                                assert(md0[x].1.events_bounded());
                            }
                        }
                    }
                },
            }
            core::mem::swap(&mut md, &mut self.context.market_data);

            let actions = self.strategy.on_market_event(&event, &self.context);
            match actions {
                Ok(actions) => {
                    self.apply_actions(actions);
                },
                Err(_) => {
                    // A strategy error is swallowed: it never aborts
                    // the run.
                },
            }
            i += 1;
        }
    }

    /// Route the actions of one callback: orders with representable
    /// quantities are enqueued, cancellations remove by id, the rest
    /// is strategy-internal.
    fn apply_actions(&mut self, actions: Vec<StrategyAction>)
        requires
            old(self).wf(),
        ensures
            final(self).wf(),
            final(self).config == old(self).config,
            final(self).current_time == old(self).current_time,
            final(self).portfolio.daily_returns@ == old(self).portfolio.daily_returns@,
    {
        let mut actions = actions;
        let n = actions.len();
        let mut a: usize = 0;
        while a < n && actions.len() > 0
            invariant
                self.wf(),
                self.config == old(self).config,
                self.current_time == old(self).current_time,
                self.portfolio.daily_returns@ == old(self).portfolio.daily_returns@,
            decreases n - a,
        {
            let action = actions.remove(0);
            match action {
                StrategyAction::PlaceOrder(order) => {
                    let ok = order.quantity.m >= 0 && order.quantity.m <= VAL_LIMIT
                        && order.filled_quantity.m >= 0 && order.filled_quantity.m <= VAL_LIMIT
                        && order.remaining_quantity.m >= 0 && order.remaining_quantity.m
                        <= VAL_LIMIT && order.filled_quantity.m + order.remaining_quantity.m
                        == order.quantity.m && (match &order.average_fill_price {
                        Some(p) => -VAL_LIMIT <= p.m && p.m <= VAL_LIMIT,
                        None => true,
                    });
                    if ok {
                        self.pending_orders.push(order);
                    }
                },
                StrategyAction::CancelOrder { order_id } => {
                    let mut kept: Vec<Order> = Vec::new();
                    let mut orders: Vec<Order> = Vec::new();
                    core::mem::swap(&mut orders, &mut self.pending_orders);
                    let ghost o0 = orders@;
                    let mut k: usize = 0;
                    while k < orders.len()
                        invariant
                            k <= orders@.len(),
                            orders@ == o0,
                            forall|t: int|
                                0 <= t < o0.len() ==> (#[trigger] o0[t]).wf() && (match o0[
                                t].average_fill_price {
                                Some(p) => p.val_ok(),
                                None => true,
                            }),
                            forall|t: int|
                                0 <= t < kept@.len() ==> (#[trigger] kept@[t]).wf() && (match
                                kept@[t].average_fill_price {
                                Some(p) => p.val_ok(),
                                None => true,
                            }),
                        decreases orders@.len() - k,
                    {
                        if orders[k].id != order_id {
                            kept.push(orders[k].clone());
                        }
                        k += 1;
                    }
                    self.pending_orders = kept;
                },
                StrategyAction::Log { .. } => {},
                StrategyAction::SetParameter { .. } => {},
            }
            a += 1;
        }
    }

    /// Append the day's return: the equity change over the previous
    /// snapshot's value (zero on the first day or a non-positive
    /// prior), clamped to the representable return range.
    fn update_daily_returns(&mut self)
        requires
            old(self).wf(),
            old(self).portfolio.daily_returns@.len() < 999999,
        ensures
            final(self).wf(),
            final(self).config == old(self).config,
            final(self).current_time == old(self).current_time,
            final(self).portfolio.daily_returns@.len() == old(
                self,
            ).portfolio.daily_returns@.len() + 1,
    {
        proof {
            crate::portfolio::lemma_sum_mv_bound(self.portfolio.positions@);
        }
        let equity = self.portfolio.total_equity;
        let n = self.portfolio.daily_returns.len();
        let daily_return: Dec = if n > 0 {
            let prev = self.portfolio.daily_returns[n - 1].portfolio_value;
            if prev.m > 0 && -AMT_LIMIT <= equity.m && equity.m <= AMT_LIMIT && prev.m
                <= AMT_LIMIT {
                proof {
                    crate::decimal::lemma_tdiv_shrinks((equity.m - prev.m) * SCALE, prev.m as int);
                }
                let dr = equity.sub(prev).div(prev);
                if dr.m > 100 * SCALE {
                    Dec::from_raw(100 * SCALE)
                } else if dr.m < -100 * SCALE {
                    Dec::from_raw(-100 * SCALE)
                } else {
                    dr
                }
            } else {
                Dec::zero()
            }
        } else {
            Dec::zero()
        };
        self.portfolio.add_daily_return(self.current_time, daily_return);
        proof {
            assert(returns_ok(self.portfolio.daily_returns@)) by {
                assert forall|i: int|
                    0 <= i < self.portfolio.daily_returns@.len() implies -100 * SCALE <= (
                #[trigger] self.portfolio.daily_returns@[i]).daily_return.m <= 100 * SCALE && (
                -100_000_000_000_000_000_000_000_000_000
                    <= self.portfolio.daily_returns@[i].portfolio_value.m
                    <= 100_000_000_000_000_000_000_000_000_000) by {
                    if i < old(self).portfolio.daily_returns@.len() {
                        assert(self.portfolio.daily_returns@[i] == old(
                            self,
                        ).portfolio.daily_returns@[i]);
                    }
                }
            }
        }
    }

    /// The engine's portfolio.
    pub fn portfolio(&self) -> (r: &Portfolio)
        ensures
            *r == self.portfolio_spec(),
    {
        &self.portfolio
    }
}

/// Generate a synthetic daily random walk for a symbol: one bounded
/// bar per day over the range.
pub fn generate_sample_data(symbol: &Symbol, start_date: i64, end_date: i64) -> (r: Vec<Bar>)
    requires
        0 <= start_date,
    ensures
        forall|i: int|
            0 <= i < r@.len() ==> (#[trigger] r@[i]).bounded() && r@[i].timestamp >= 0,
{
    let mut bars: Vec<Bar> = Vec::new();
    if end_date < start_date {
        return bars;
    }
    let mut price = Dec::from_int(100);
    let mut current_date = start_date;
    while current_date <= end_date
        invariant
            0 <= start_date <= current_date,
            0 < price.m <= crate::decimal::PRICE_LIMIT,
            forall|i: int|
                0 <= i < bars@.len() ==> (#[trigger] bars@[i]).bounded() && bars@[i].timestamp
                    >= 0,
        decreases end_date + DAY_MS - current_date,
    {
        // Draw a move of up to two percent from the host's generator.
        let draw = host::random_u32();
        let delta_permille: i64 = ((draw % 41) as i64) - 20;
        proof {
            crate::decimal::lemma_mul_bound(
                price.m as int,
                delta_permille as int * 1000,
                crate::decimal::PRICE_LIMIT as int,
                20000,
            );
            crate::decimal::lemma_tdiv_shrinks(price.m * (delta_permille * 1000), SCALE as int);
        }
        let change = price.mul(Dec::from_raw((delta_permille * 1000) as i128));
        let mut new_price = price.add(change);
        if new_price.m < 1 {
            new_price = Dec::from_raw(1);
        }
        if new_price.m > crate::decimal::PRICE_LIMIT {
            new_price = Dec::from_raw(crate::decimal::PRICE_LIMIT);
        }
        let high = if new_price.m >= price.m {
            new_price
        } else {
            price
        };
        let low = if new_price.m <= price.m {
            new_price
        } else {
            price
        };
        let bar = Bar::new(
            symbol.clone(),
            current_date,
            price,
            high,
            low,
            new_price,
            Dec::from_int(1000000),
            crate::market::Resolution::Day,
        );
        bars.push(bar);
        price = new_price;
        if current_date > i64::MAX - DAY_MS {
            return bars;
        }
        current_date = current_date + DAY_MS;
    }
    bars
}

/// Day-step arithmetic: while the cursor has not passed the end, the
/// day index stays within the simulated day count.
proof fn lemma_day_step(start: int, end: int, day: int)
    requires
        0 <= start <= end,
        day >= 0,
        start + day * (DAY_MS as int) <= end,
    ensures
        day + 1 <= (end - start) / (DAY_MS as int) + 1,
{
    assert(day * (DAY_MS as int) <= end - start);
    assert(day <= (end - start) / (DAY_MS as int)) by {
        vstd::arithmetic::div_mod::lemma_div_multiples_vanish(day, DAY_MS as int);
        vstd::arithmetic::div_mod::lemma_div_is_ordered(
            (DAY_MS as int) * day,
            end - start,
            DAY_MS as int,
        );
    }
}

/// Day-count arithmetic: when the cursor first passes the end, the
/// day index equals the simulated day count.
proof fn lemma_day_count(start: int, end: int, day: int)
    requires
        0 <= start <= end,
        day >= 1,
        start + (day - 1) * (DAY_MS as int) <= end,
        start + day * (DAY_MS as int) > end,
    ensures
        day == (end - start) / (DAY_MS as int) + 1,
{
    let d = DAY_MS as int;
    let q = (end - start) / d;
    vstd::arithmetic::div_mod::lemma_fundamental_div_mod(end - start, d);
    vstd::arithmetic::div_mod::lemma_mod_division_less_than_divisor(end - start, d);
    assert((day - 1) * d <= end - start) by {
    }
    assert(day * d > end - start);
    assert(end - start == d * q + (end - start) % d);
    assert((day - 1) * d <= d * q + (end - start) % d);
    assert((day - 1) <= q) by (nonlinear_arith)
        requires
            (day - 1) * d <= d * q + (end - start) % d,
            0 <= (end - start) % d < d,
            d > 0,
    ;
    assert(day > q) by (nonlinear_arith)
        requires
            day * d > d * q + (end - start) % d,
            0 <= (end - start) % d < d,
            d > 0,
    ;
}

/// Thin wrapper for engine-independent smoke runs: loads data through
/// the data manager and produces a completed result with a fresh
/// portfolio (no trades are simulated here; see [`Engine`]).
#[derive(Debug)]
pub struct BacktestEngine<P: DataProvider> {
    config: BacktestConfig,
    data_manager: DataManager<P>,
}

impl<P: DataProvider> BacktestEngine<P> {
    pub closed spec fn config_spec(self) -> BacktestConfig {
        self.config
    }

    pub closed spec fn wf(self) -> bool {
        self.data_manager.wf()
    }

    pub fn new(config: BacktestConfig) -> (r: GbResult<BacktestEngine<P>>)
        ensures
            match r {
                Ok(engine) => engine.wf() && engine.config_spec() == config,
                Err(_) => false,
            },
    {
        Ok(BacktestEngine { config, data_manager: DataManager::new() })
    }

    /// Try to load data for each symbol; failures are reported per
    /// symbol but never abort the call.
    pub fn load_market_data(&mut self, symbols: Vec<Symbol>) -> (r: GbResult<()>)
        requires
            old(self).wf(),
        ensures
            final(self).wf(),
            final(self).config_spec() == old(self).config_spec(),
            r is Ok,
    {
        let mut k: usize = 0;
        let n = symbols.len();
        while k < n
            invariant
                k <= symbols@.len(),
                n == symbols@.len(),
                self.data_manager.wf(),
                self.config == old(self).config_spec(),
            decreases symbols@.len() - k,
        {
            let _ = self.data_manager.load_data(
                &symbols[k],
                self.config.start_date,
                self.config.end_date,
                self.config.resolution,
            );
            k += 1;
        }
        Ok(())
    }

    /// Produce a completed result over a fresh portfolio at the
    /// configured capital.
    pub fn run(&mut self) -> (r: GbResult<BacktestResult>)
        requires
            old(self).wf(),
            0 <= old(self).config_spec().initial_capital.m <= VAL_LIMIT,
        ensures
            final(self).wf(),
            match r {
                Ok(result) => {
                    &&& result.status == crate::backtest::BacktestStatus::Completed
                    &&& result.final_portfolio is Some
                    &&& result.final_portfolio->0.cash == old(self).config_spec().initial_capital
                    &&& result.performance_metrics is Some
                    &&& result.strategy_metrics is Some
                },
                Err(_) => false,
            },
    {
        let mut result = BacktestResult::new(self.config.clone());
        let portfolio = Portfolio::new("demo_portfolio".to_owned(), self.config.initial_capital);
        let strategy_metrics = StrategyMetrics::new("placeholder_strategy".to_owned());
        result.mark_completed(portfolio, strategy_metrics);
        Ok(result)
    }

    /// The engine's configuration.
    pub fn get_config(&self) -> (r: &BacktestConfig)
        ensures
            *r == self.config_spec(),
    {
        &self.config
    }
}

} // verus!
