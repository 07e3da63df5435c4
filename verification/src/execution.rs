//! Order execution engine for backtests: resolves a pending order
//! against the current bar, applying order-type rules, slippage, a
//! commission schedule and a latency gate.

use vstd::prelude::*;

use crate::decimal::{
    abs_m, div_m, mul_m, Dec, COST_LIMIT, PRICE_LIMIT, SCALE, VAL_LIMIT,
};
use crate::errors::GbError;
use crate::market::{Bar, Symbol};
use crate::orders::{Fill, Order, OrderType, Side};
use crate::symtab::{keys_unique, tab_find, tab_get, tab_insert};

verus! {

/// Execution cost and latency configuration.
#[derive(Debug, Clone, Copy, PartialEq, Eq, Structural)]
pub struct ExecutionConfig {
    pub commission_per_share: Dec,
    pub commission_percentage: Dec,
    pub minimum_commission: Dec,
    pub slippage_bps: Dec,
    pub latency_ms: u64,
}

impl ExecutionConfig {
    /// Rates within their sensible ranges: per-share fee at most
    /// 10,000, percentage at most 100, slippage at most 10,000 basis
    /// points.
    pub open spec fn wf(self) -> bool {
        &&& 0 <= self.commission_per_share.m <= 10000 * SCALE
        &&& 0 <= self.commission_percentage.m <= 100 * SCALE
        &&& 0 <= self.minimum_commission.m <= VAL_LIMIT
        &&& 0 <= self.slippage_bps.m <= 10000 * SCALE
    }
}

impl Default for ExecutionConfig {
    /// $0.001 per share, 0.005% of notional, $1.00 minimum, 5 basis
    /// points of slippage, 50 ms latency.
    fn default() -> (r: ExecutionConfig)
        ensures
            r.commission_per_share.m == 1000,
            r.commission_percentage.m == 5000,
            r.minimum_commission.m == SCALE,
            r.slippage_bps.m == 5 * SCALE,
            r.latency_ms == 50,
            r.wf(),
    {
        ExecutionConfig {
            commission_per_share: Dec::from_raw(1000),
            commission_percentage: Dec::from_raw(5000),
            minimum_commission: Dec::one(),
            slippage_bps: Dec::from_int(5),
            latency_ms: 50,
        }
    }
}

/// Half the simulated bid/ask spread of a bar: 0.5% of the bar's
/// range, divided by two.
pub open spec fn half_spread_m(bar: Bar) -> int {
    div_m(mul_m(bar.high.m - bar.low.m, 5000), 2 * SCALE as int)
}

/// Whether an order's price rules allow it to execute on a bar: a
/// market order always may; a limit order iff its limit lies in the
/// bar's range; a stop order iff the stop is touched; a stop-limit
/// iff the stop is touched and the limit is in range.
pub open spec fn fillable(order: Order, bar: Bar) -> bool {
    match order.order_type {
        OrderType::Market => true,
        OrderType::Limit { price } => bar.low.m <= price.m <= bar.high.m,
        OrderType::Stop { stop_price } => stop_touched(order.side, stop_price, bar),
        OrderType::StopLimit { stop_price, limit_price } => stop_touched(
            order.side,
            stop_price,
            bar,
        ) && bar.low.m <= limit_price.m <= bar.high.m,
    }
}

/// The base execution price of a fillable order against a bar, before
/// slippage. Market orders pay (receive) half the simulated spread
/// over (under) the close; limit and stop-limit orders execute at the
/// limit price; stop orders become market-at-close once touched.
pub open spec fn base_price_m(order: Order, bar: Bar) -> int {
    match order.order_type {
        OrderType::Market => match order.side {
            Side::Buy => bar.close.m + half_spread_m(bar),
            Side::Sell => bar.close.m - half_spread_m(bar),
        },
        OrderType::Limit { price } => if bar.low.m <= price.m <= bar.high.m {
            price.m as int
        } else {
            0
        },
        OrderType::Stop { stop_price } => if stop_touched(order.side, stop_price, bar) {
            bar.close.m as int
        } else {
            0
        },
        OrderType::StopLimit { stop_price, limit_price } => if stop_touched(
            order.side,
            stop_price,
            bar,
        ) && bar.low.m <= limit_price.m <= bar.high.m {
            limit_price.m as int
        } else {
            0
        },
    }
}

/// A stop is touched when the bar's high reaches a buy stop, or the
/// bar's low reaches a sell stop.
pub open spec fn stop_touched(side: Side, stop_price: Dec, bar: Bar) -> bool {
    match side {
        Side::Buy => bar.high.m >= stop_price.m,
        Side::Sell => bar.low.m <= stop_price.m,
    }
}

/// The execution price after slippage: the proportional slippage
/// amount is paid on a buy and given up on a sell.
pub open spec fn slipped_price_m(side: Side, base: int, cfg: ExecutionConfig) -> int {
    let factor = div_m(cfg.slippage_bps.m as int, 10000 * SCALE as int);
    let amount = mul_m(base, factor);
    match side {
        Side::Buy => base + amount,
        Side::Sell => base - amount,
    }
}

/// Commission for executing `qty` at `price`: per-share plus a
/// percentage of notional, floored at the configured minimum.
pub open spec fn commission_m(qty: int, price: int, cfg: ExecutionConfig) -> int {
    let notional = mul_m(qty, price);
    let raw = mul_m(cfg.commission_per_share.m as int, qty) + div_m(
        mul_m(notional, cfg.commission_percentage.m as int),
        100 * SCALE as int,
    );
    if raw >= cfg.minimum_commission.m {
        raw
    } else {
        cfg.minimum_commission.m as int
    }
}

/// Whether the latency gate defers execution at `now`: a configured
/// latency that has not yet elapsed since the last execution.
pub open spec fn latency_blocked(last: Option<i64>, now: i64, latency_ms: u64) -> bool {
    match last {
        Some(t) => now - t < latency_ms,
        None => false,
    }
}

/// Execution engine state: configuration, the current bar per symbol,
/// and the time of the last simulated execution.
#[derive(Debug)]
pub struct ExecutionEngine {
    config: ExecutionConfig,
    current_market_data: Vec<(Symbol, Bar)>,
    last_execution_time: Option<i64>,
}

impl ExecutionEngine {
    pub closed spec fn wf(self) -> bool {
        &&& self.config.wf()
        &&& keys_unique(self.current_market_data@)
        &&& forall|i: int|
            0 <= i < self.current_market_data@.len() ==> (
            #[trigger] self.current_market_data@[i].1).bounded()
    }

    /// The bar currently held for a symbol.
    pub closed spec fn bar_for(self, sym: crate::market::SymbolV) -> Option<Bar> {
        tab_get(self.current_market_data@, sym)
    }

    pub closed spec fn config_spec(self) -> ExecutionConfig {
        self.config
    }

    pub closed spec fn last_execution_spec(self) -> Option<i64> {
        self.last_execution_time
    }

    pub fn new(config: ExecutionConfig) -> (r: ExecutionEngine)
        requires
            config.wf(),
        ensures
            r.wf(),
            r.config_spec() == config,
            forall|o: crate::market::SymbolV| r.bar_for(o) is None,
            r.last_execution_spec() is None,
    {
        ExecutionEngine { config, current_market_data: Vec::new(), last_execution_time: None }
    }

    /// Record the current bar for a symbol.
    pub fn update_market_data(&mut self, symbol: Symbol, bar: Bar)
        requires
            old(self).wf(),
            bar.bounded(),
        ensures
            final(self).wf(),
            final(self).bar_for(symbol@) == Some(bar),
            forall|o: crate::market::SymbolV|
                o != symbol@ ==> final(self).bar_for(o) == old(self).bar_for(o),
            final(self).config_spec() == old(self).config_spec(),
            final(self).last_execution_spec() == old(self).last_execution_spec(),
    {
        tab_insert(&mut self.current_market_data, symbol, bar);
    }

    /// Attempt to execute an order at `current_time` against the
    /// current bar for its symbol. `Ok(None)` means the order cannot
    /// execute now (no data, latency gate, or price rules); it stays
    /// pending. A returned fill carries the slipped price and the
    /// commission of the schedule.
    pub fn execute_order(&mut self, order: &Order, current_time: i64) -> (r: Result<
        Option<Fill>,
        GbError,
    >)
        requires
            old(self).wf(),
            order.wf(),
        ensures
            final(self).wf(),
            final(self).config_spec() == old(self).config_spec(),
            final(self).bar_for(order.symbol@) == old(self).bar_for(order.symbol@),
            forall|o: crate::market::SymbolV| final(self).bar_for(o) == old(self).bar_for(o),
            match r {
                Ok(opt) => match opt {
                    None => final(self).last_execution_spec() == old(
                        self,
                    ).last_execution_spec() && (match old(self).bar_for(order.symbol@) {
                        None => true,
                        Some(bar) => latency_blocked(
                            old(self).last_execution_spec(),
                            current_time,
                            old(self).config_spec().latency_ms,
                        ) || !fillable(*order, bar),
                    }),
                    Some(f) => {
                        &&& old(self).bar_for(order.symbol@) is Some
                        &&& !latency_blocked(
                            old(self).last_execution_spec(),
                            current_time,
                            old(self).config_spec().latency_ms,
                        )
                        &&& ({
                            let bar = old(self).bar_for(order.symbol@)->0;
                            let base = base_price_m(*order, bar);
                            &&& fillable(*order, bar)
                            &&& f.price.m == slipped_price_m(
                                order.side,
                                base,
                                old(self).config_spec(),
                            )
                            &&& f.commission.m == commission_m(
                                order.quantity.m as int,
                                f.price.m as int,
                                old(self).config_spec(),
                            )
                            &&& f.order_id == order.id
                            &&& f.symbol@ == order.symbol@
                            &&& f.side == order.side
                            &&& f.quantity == order.quantity
                            &&& f.strategy_id@ == order.strategy_id@
                            &&& f.bounded()
                            &&& final(self).last_execution_spec() == Some(current_time)
                        })
                    },
                },
                Err(_) => false,
            },
    {
        let idx = tab_find(&self.current_market_data, &order.symbol);
        let market_bar: &Bar = match idx {
            Some(i) => {
                proof {
                    crate::symtab::lemma_tab_at(
                        self.current_market_data@,
                        order.symbol@,
                        i as int,
                    );
                }
                &self.current_market_data[i].1
            },
            None => {
                return Ok(None);
            },
        };

        match self.last_execution_time {
            Some(last_exec) => {
                // The latency model defers execution until the
                // configured delay has elapsed since the last fill.
                if (current_time as i128) - (last_exec as i128) < (self.config.latency_ms
                    as i128) {
                    return Ok(None);
                }
            },
            None => {},
        }

        let base_price = match self.get_execution_price(order, market_bar) {
            Some(p) => p,
            None => {
                return Ok(None);
            },
        };

        let slipped_price = self.apply_slippage(order, base_price, market_bar);
        let commission = self.calculate_commission(order, slipped_price);

        let fill = Fill::new(
            order.id,
            order.symbol.clone(),
            order.side,
            order.quantity,
            slipped_price,
            commission,
            order.strategy_id.clone(),
        );

        self.last_execution_time = Some(current_time);
        Ok(Some(fill))
    }

    /// Base price for an order against a bar; `None` exactly when the
    /// order's price rules do not allow execution on this bar.
    fn get_execution_price(&self, order: &Order, market_bar: &Bar) -> (r: Option<Dec>)
        requires
            self.wf(),
            market_bar.bounded(),
        ensures
            r is Some <==> fillable(*order, *market_bar),
            match r {
                Some(p) => p.m == base_price_m(*order, *market_bar) && -2 * PRICE_LIMIT <= p.m <= 2
                    * PRICE_LIMIT,
                None => true,
            },
    {
        proof {
            crate::decimal::lemma_mul_bound(
                market_bar.high.m - market_bar.low.m,
                5000,
                2 * PRICE_LIMIT as int,
                5000,
            );
            crate::decimal::lemma_tdiv_abs(
                (market_bar.high.m - market_bar.low.m) * 5000,
                SCALE as int,
            );
            crate::decimal::lemma_tdiv_shrinks(
                mul_m(market_bar.high.m - market_bar.low.m as int, 5000) * SCALE,
                2 * SCALE as int,
            );
            crate::decimal::lemma_tdiv_abs(
                mul_m(market_bar.high.m - market_bar.low.m as int, 5000) * SCALE,
                2 * SCALE as int,
            );
        }
        match &order.order_type {
            OrderType::Market => {
                let spread = market_bar.high.sub(market_bar.low).mul(Dec::from_raw(5000));
                let half = spread.div(Dec::from_int(2));
                match order.side {
                    Side::Buy => Some(market_bar.close.add(half)),
                    Side::Sell => Some(market_bar.close.sub(half)),
                }
            },
            OrderType::Limit { price } => {
                if price.m >= market_bar.low.m && price.m <= market_bar.high.m {
                    Some(*price)
                } else {
                    None
                }
            },
            OrderType::Stop { stop_price } => {
                let touched = match order.side {
                    Side::Buy => market_bar.high.m >= stop_price.m,
                    Side::Sell => market_bar.low.m <= stop_price.m,
                };
                if touched {
                    Some(market_bar.close)
                } else {
                    None
                }
            },
            OrderType::StopLimit { stop_price, limit_price } => {
                let touched = match order.side {
                    Side::Buy => market_bar.high.m >= stop_price.m,
                    Side::Sell => market_bar.low.m <= stop_price.m,
                };
                if touched && limit_price.m >= market_bar.low.m && limit_price.m
                    <= market_bar.high.m {
                    Some(*limit_price)
                } else {
                    None
                }
            },
        }
    }

    /// Apply the proportional slippage model, adverse to the order's
    /// side.
    fn apply_slippage(&self, order: &Order, base_price: Dec, market_bar: &Bar) -> (r: Dec)
        requires
            self.wf(),
            -2 * PRICE_LIMIT <= base_price.m <= 2 * PRICE_LIMIT,
        ensures
            r.m == slipped_price_m(order.side, base_price.m as int, self.config),
            r.val_ok(),
    {
        proof {
            crate::decimal::lemma_tdiv_abs(self.config.slippage_bps.m * SCALE, 10000 * SCALE as int);
            vstd::arithmetic::div_mod::lemma_div_is_ordered(
                abs_m(self.config.slippage_bps.m * SCALE as int),
                10000 * SCALE * SCALE,
                10000 * SCALE as int,
            );
            vstd::arithmetic::div_mod::lemma_div_multiples_vanish(SCALE as int, 10000 * SCALE as int);
        }
        let slippage_factor = self.config.slippage_bps.div(Dec::from_int(10000));
        proof {
            crate::decimal::lemma_mul_bound(
                base_price.m as int,
                slippage_factor.m as int,
                2 * PRICE_LIMIT as int,
                SCALE as int,
            );
            crate::decimal::lemma_tdiv_abs(base_price.m * slippage_factor.m, SCALE as int);
            vstd::arithmetic::div_mod::lemma_div_is_ordered(
                abs_m(base_price.m * slippage_factor.m as int),
                2 * PRICE_LIMIT * SCALE,
                SCALE as int,
            );
            vstd::arithmetic::div_mod::lemma_div_multiples_vanish(2 * PRICE_LIMIT as int, SCALE as int);
            assert(2 * PRICE_LIMIT * SCALE == SCALE * (2 * PRICE_LIMIT));
        }
        let slippage_amount = base_price.mul(slippage_factor);

        match order.side {
            Side::Buy => base_price.add(slippage_amount),
            Side::Sell => base_price.sub(slippage_amount),
        }
    }

    /// Commission of the configured schedule for this order at the
    /// given execution price.
    fn calculate_commission(&self, order: &Order, execution_price: Dec) -> (r: Dec)
        requires
            self.wf(),
            order.wf(),
            execution_price.val_ok(),
        ensures
            r.m == commission_m(order.quantity.m as int, execution_price.m as int, self.config),
            0 <= r.m <= COST_LIMIT,
    {
        proof {
            crate::decimal::lemma_mul_bound(
                order.quantity.m as int,
                execution_price.m as int,
                VAL_LIMIT as int,
                VAL_LIMIT as int,
            );
            crate::decimal::lemma_tdiv_abs(order.quantity.m * execution_price.m, SCALE as int);
            vstd::arithmetic::div_mod::lemma_div_is_ordered(
                abs_m(order.quantity.m * execution_price.m as int),
                VAL_LIMIT * VAL_LIMIT,
                SCALE as int,
            );
            assert(VAL_LIMIT * VAL_LIMIT / (SCALE as int) == 1_000_000_000_000_000_000_000_000int)
               ;
        }
        let notional_value = order.quantity.mul(execution_price);
        proof {
            crate::decimal::lemma_mul_bound(
                self.config.commission_per_share.m as int,
                order.quantity.m as int,
                10000 * SCALE as int,
                VAL_LIMIT as int,
            );
            crate::decimal::lemma_tdiv_abs(
                self.config.commission_per_share.m * order.quantity.m,
                SCALE as int,
            );
            vstd::arithmetic::div_mod::lemma_div_is_ordered(
                abs_m(self.config.commission_per_share.m * order.quantity.m as int),
                10000 * SCALE * VAL_LIMIT,
                SCALE as int,
            );
            assert(10000 * SCALE * VAL_LIMIT / (SCALE as int) == 10_000_000_000_000_000_000int)
               ;
            crate::decimal::lemma_mul_bound(
                notional_value.m as int,
                self.config.commission_percentage.m as int,
                1_000_000_000_000_000_000_000_000,
                100 * SCALE as int,
            );
            crate::decimal::lemma_tdiv_abs(
                notional_value.m * self.config.commission_percentage.m,
                SCALE as int,
            );
            crate::decimal::lemma_tdiv_shrinks(
                mul_m(notional_value.m as int, self.config.commission_percentage.m as int) * SCALE,
                100 * SCALE as int,
            );
            crate::decimal::lemma_mul_bound(
                mul_m(notional_value.m as int, self.config.commission_percentage.m as int),
                SCALE as int,
                1_000_000_000_000_000_000_000_000_000_000_000_00,
                SCALE as int,
            );
        }
        let commission = self.config.commission_per_share.mul(order.quantity).add(
            notional_value.mul(self.config.commission_percentage).div(Dec::from_int(100)),
        );

        commission.max(self.config.minimum_commission)
    }

    /// Set the execution latency in milliseconds.
    pub fn set_latency(&mut self, latency_ms: u64)
        requires
            old(self).wf(),
        ensures
            final(self).wf(),
            final(self).config_spec() == (ExecutionConfig {
                latency_ms,
                ..old(self).config_spec()
            }),
    {
        self.config.latency_ms = latency_ms;
    }

    /// Set the slippage in basis points.
    pub fn set_slippage(&mut self, slippage_bps: Dec)
        requires
            old(self).wf(),
            0 <= slippage_bps.m <= 10000 * SCALE,
        ensures
            final(self).wf(),
            final(self).config_spec() == (ExecutionConfig {
                slippage_bps,
                ..old(self).config_spec()
            }),
    {
        self.config.slippage_bps = slippage_bps;
    }

    /// Current execution configuration.
    pub fn get_config(&self) -> (r: &ExecutionConfig)
        ensures
            *r == self.config_spec(),
    {
        &self.config
    }

    /// Replace the execution configuration.
    pub fn update_config(&mut self, config: ExecutionConfig)
        requires
            old(self).wf(),
            config.wf(),
        ensures
            final(self).wf(),
            final(self).config_spec() == config,
    {
        self.config = config;
    }
}

impl Default for ExecutionEngine {
    fn default() -> (r: ExecutionEngine)
        ensures
            r.wf(),
            forall|o: crate::market::SymbolV| r.bar_for(o) is None,
            r.last_execution_spec() is None,
    {
        ExecutionEngine::new(ExecutionConfig::default())
    }
}

} // verus!
