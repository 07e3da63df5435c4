//! Paper (simulated) broker for sandbox mode: executes orders locally
//! against fed market events, with a flat commission and slippage
//! model. Insufficient cash on a buy rejects the order rather than
//! partially filling it.

use vstd::prelude::*;

use crate::broker::{
    AccountBalance, Broker, BrokerError, BrokerPosition, BrokerResult, ConnectionStatus,
};
use crate::decimal::{
    abs_m, div_m, mul_m, Dec, AMT_LIMIT, COST_LIMIT, PRICE_LIMIT, SCALE, VAL_LIMIT,
};
use crate::market::{MarketEvent, Symbol, SymbolV};
use crate::orders::{
    is_active_status, order_filled, Fill, Order, OrderId, OrderStatus, OrderType, Side,
};
use crate::portfolio::MAX_POSITIONS;
use crate::symtab::{
    has_sym_in, ids_unique, keys_unique, lemma_otab_at, lemma_otab_update, lemma_tab_at,
    otab_find, otab_get, otab_idx, otab_insert, tab_find, tab_get, tab_insert,
};

verus! {

/// Headroom bound under which one more paper fill cannot overflow the
/// cash accumulator.
pub const PAPER_ROOM: i128 = 6_000_000_000_000_000_000_000_000;

/// Configuration for the paper broker.
#[derive(Debug, Clone, Copy, PartialEq, Eq, Structural)]
pub struct PaperBrokerConfig {
    /// Starting cash balance.
    pub initial_cash: Dec,
    /// Commission per share (applied to both buys and sells).
    pub commission_per_share: Dec,
    /// Simulated slippage as a fraction of price (e.g. 0.0005).
    pub slippage_bps: Dec,
    /// Whether market orders fill immediately at the latest price, or
    /// wait for the next market event.
    pub fill_market_orders_immediately: bool,
}

impl PaperBrokerConfig {
    pub open spec fn wf(self) -> bool {
        &&& 0 <= self.initial_cash.m <= VAL_LIMIT
        &&& 0 <= self.commission_per_share.m <= 10000 * SCALE
        &&& 0 <= self.slippage_bps.m <= SCALE
    }
}

impl Default for PaperBrokerConfig {
    /// $100,000 starting cash, $0.01 per share, 0.05% slippage,
    /// immediate market-order fills.
    fn default() -> (r: PaperBrokerConfig)
        ensures
            r.initial_cash.m == 100000 * SCALE,
            r.commission_per_share.m == 10000,
            r.slippage_bps.m == 500,
            r.fill_market_orders_immediately,
            r.wf(),
    {
        PaperBrokerConfig {
            initial_cash: Dec::from_int(100000),
            commission_per_share: Dec::from_raw(10000),
            slippage_bps: Dec::from_raw(500),
            fill_market_orders_immediately: true,
        }
    }
}

/// Internal position tracking: net quantity and average cost.
#[derive(Debug)]
pub struct PaperPosition {
    pub symbol: Symbol,
    pub quantity: Dec,
    pub average_cost: Dec,
}

impl Clone for PaperPosition {
    fn clone(&self) -> (res: PaperPosition)
        ensures
            res == *self,
    {
        PaperPosition {
            symbol: self.symbol.clone(),
            quantity: self.quantity,
            average_cost: self.average_cost,
        }
    }
}

impl PaperPosition {
    pub open spec fn wf(self) -> bool {
        &&& 0 <= self.quantity.m <= VAL_LIMIT
        &&& -VAL_LIMIT <= self.average_cost.m <= VAL_LIMIT
    }
}

/// The ledger state of a paper broker, as one mathematical value.
pub ghost struct PaperSnap {
    pub cash: Dec,
    pub orders: Seq<(u128, Order)>,
    pub positions: Seq<(Symbol, PaperPosition)>,
    pub prices: Seq<(Symbol, Dec)>,
}

/// The price at which an order fills against `market`, or `None` if
/// it cannot fill at this market price: market orders fill at the
/// market price moved adversely by the slippage fraction; a buy limit
/// fills at its limit once the market is at or below it (a sell limit
/// once at or above); stops become market once touched; stop-limits
/// additionally need the market inside the limit.
pub open spec fn paper_fill_price_m(o: Order, market: Dec, cfg: PaperBrokerConfig) -> Option<
    int,
> {
    match o.order_type {
        OrderType::Market => {
            let slip = mul_m(market.m as int, cfg.slippage_bps.m as int);
            match o.side {
                Side::Buy => Some(market.m + slip),
                Side::Sell => Some(market.m - slip),
            }
        },
        OrderType::Limit { price } => match o.side {
            Side::Buy => if market.m <= price.m {
                Some(price.m as int)
            } else {
                None
            },
            Side::Sell => if market.m >= price.m {
                Some(price.m as int)
            } else {
                None
            },
        },
        OrderType::Stop { stop_price } => match o.side {
            Side::Buy => if market.m >= stop_price.m {
                Some(market.m as int)
            } else {
                None
            },
            Side::Sell => if market.m <= stop_price.m {
                Some(market.m as int)
            } else {
                None
            },
        },
        OrderType::StopLimit { stop_price, limit_price } => match o.side {
            Side::Buy => if market.m >= stop_price.m && market.m <= limit_price.m {
                Some(limit_price.m as int)
            } else {
                None
            },
            Side::Sell => if market.m <= stop_price.m && market.m >= limit_price.m {
                Some(limit_price.m as int)
            } else {
                None
            },
        },
    }
}

/// A paper position after buying `qty` at `price`: the average cost
/// is re-averaged over the combined quantity.
pub open spec fn paper_pos_buy(p: PaperPosition, qty: Dec, price: int) -> PaperPosition {
    let total_cost = mul_m(p.quantity.m as int, p.average_cost.m as int) + mul_m(
        qty.m as int,
        price,
    );
    let new_q = p.quantity.m + qty.m;
    PaperPosition {
        quantity: Dec { m: new_q as i128 },
        average_cost: if new_q > 0 {
            Dec { m: div_m(total_cost, new_q) as i128 }
        } else {
            p.average_cost
        },
        ..p
    }
}

/// A paper position after selling `qty`: quantity drops, and a
/// position sold to (or past) zero resets its cost to zero.
pub open spec fn paper_pos_sell(p: PaperPosition, qty: Dec) -> PaperPosition {
    let new_q = p.quantity.m - qty.m;
    if new_q <= 0 {
        PaperPosition { quantity: Dec { m: 0 }, average_cost: Dec { m: 0 }, ..p }
    } else {
        PaperPosition { quantity: Dec { m: new_q as i128 }, ..p }
    }
}

/// Whether a fill of `qty` at `fp` fits the broker's representable
/// ranges: the fill price within the atomic bound, a buy within the
/// position-quantity bound and the position-count cap, a sell within
/// the cash headroom.
pub open spec fn paper_fill_fits(s: PaperSnap, o: Order, qty: Dec, fp: int) -> bool {
    &&& -VAL_LIMIT <= fp <= VAL_LIMIT
    &&& -PAPER_ROOM <= s.cash.m <= PAPER_ROOM
    &&& (tab_get(s.positions, o.symbol@) is Some || s.positions.len() < MAX_POSITIONS)
    &&& (match o.side {
        Side::Buy => {
            let q0 = match tab_get(s.positions, o.symbol@) {
                Some(p) => p.quantity.m as int,
                None => 0,
            };
            q0 + qty.m <= VAL_LIMIT
        },
        Side::Sell => true,
    })
}

/// One attempt to fill the order under `id` at `market`: the
/// resulting ledger and whether a fill happened. A missing or
/// inactive order, an unfillable price, or a fill outside the
/// representable ranges leaves the ledger unchanged; a buy whose cost
/// exceeds cash marks the order Rejected; otherwise cash moves by the
/// fill's net amount, the position is updated, and the order records
/// the execution.
pub open spec fn paper_fill_step(
    s: PaperSnap,
    cfg: PaperBrokerConfig,
    id: u128,
    market: Dec,
) -> (PaperSnap, bool) {
    match otab_get(s.orders, id) {
        None => (s, false),
        Some(o) => {
            if !is_active_status(o.status) {
                (s, false)
            } else {
                match paper_fill_price_m(o, market, cfg) {
                    None => (s, false),
                    Some(fp) => {
                        let qty = o.remaining_quantity;
                        let commission = mul_m(qty.m as int, cfg.commission_per_share.m as int);
                        if !paper_fill_fits(s, o, qty, fp) {
                            (s, false)
                        } else {
                            let gross = mul_m(qty.m as int, fp);
                            let cost = gross + commission;
                            if o.side == Side::Buy && cost > s.cash.m {
                                (
                                    PaperSnap {
                                        orders: s.orders.update(
                                            otab_idx(s.orders, id),
                                            (
                                                id,
                                                Order {
                                                    status: OrderStatus::Rejected,
                                                    ..o
                                                },
                                            ),
                                        ),
                                        ..s
                                    },
                                    false,
                                )
                            } else {
                                let new_cash = Dec {
                                    m: (match o.side {
                                        Side::Buy => s.cash.m - cost,
                                        Side::Sell => s.cash.m + gross - commission,
                                    }) as i128,
                                };
                                let base = match tab_get(s.positions, o.symbol@) {
                                    Some(p) => p,
                                    None => PaperPosition {
                                        symbol: o.symbol,
                                        quantity: Dec { m: 0 },
                                        average_cost: Dec { m: 0 },
                                    },
                                };
                                let new_pos = match o.side {
                                    Side::Buy => paper_pos_buy(base, qty, fp),
                                    Side::Sell => paper_pos_sell(base, qty),
                                };
                                let new_order = order_filled(o, qty, Dec { m: fp as i128 });
                                (
                                    PaperSnap {
                                        cash: new_cash,
                                        orders: s.orders.update(
                                            otab_idx(s.orders, id),
                                            (id, new_order),
                                        ),
                                        positions: crate::symtab::tab_put(
                                            s.positions,
                                            o.symbol,
                                            new_pos,
                                        ),
                                        ..s
                                    },
                                    true,
                                )
                            }
                        }
                    },
                }
            }
        },
    }
}

/// A fully in-process broker that simulates order execution.
#[derive(Debug)]
pub struct PaperBroker {
    config: PaperBrokerConfig,
    connected: bool,
    cash: Dec,
    positions: Vec<(Symbol, PaperPosition)>,
    orders: Vec<(OrderId, Order)>,
    fills: Vec<Fill>,
    latest_prices: Vec<(Symbol, Dec)>,
    subscribed_symbols: Vec<Symbol>,
    clock: i64,
}

impl PaperBroker {
    /// Broker ledger bounds maintained at every point: bounded cash,
    /// well-formed orders and positions under unique keys.
    #[verifier::type_invariant]
    spec fn inv(self) -> bool {
        &&& self.config.wf()
        &&& -AMT_LIMIT <= self.cash.m <= AMT_LIMIT
        &&& ids_unique(self.orders@)
        &&& (forall|i: int|
            0 <= i < self.orders@.len() ==> (#[trigger] self.orders@[i].1).wf() && (
            is_active_status(self.orders@[i].1.status) ==> self.orders@[i].1.remaining_quantity.m
                > 0) && (match self.orders@[i].1.average_fill_price {
                Some(a) => a.val_ok(),
                None => true,
            }))
        &&& keys_unique(self.positions@)
        &&& self.positions@.len() <= MAX_POSITIONS
        &&& (forall|i: int|
            0 <= i < self.positions@.len() ==> (#[trigger] self.positions@[i].1).wf())
        &&& keys_unique(self.latest_prices@)
        &&& (forall|i: int|
            0 <= i < self.latest_prices@.len() ==> -PRICE_LIMIT <= (
            #[trigger] self.latest_prices@[i].1).m <= PRICE_LIMIT)
    }

    /// The broker's ledger as one mathematical value.
    pub closed spec fn snap(self) -> PaperSnap {
        PaperSnap {
            cash: self.cash,
            orders: self.orders@,
            positions: self.positions@,
            prices: self.latest_prices@,
        }
    }

    pub closed spec fn cfg(self) -> PaperBrokerConfig {
        self.config
    }

    pub closed spec fn connected_spec(self) -> bool {
        self.connected
    }

    pub closed spec fn fills_seq(self) -> Seq<Fill> {
        self.fills@
    }

    pub closed spec fn subscribed(self) -> Seq<Symbol> {
        self.subscribed_symbols@
    }

    pub closed spec fn clock_spec(self) -> i64 {
        self.clock
    }

    pub fn new(config: PaperBrokerConfig) -> (r: PaperBroker)
        requires
            config.wf(),
        ensures
            r.cfg() == config,
            !r.connected_spec(),
            r.snap().cash == config.initial_cash,
            r.snap().orders.len() == 0,
            r.snap().positions.len() == 0,
            r.snap().prices.len() == 0,
            r.fills_seq().len() == 0,
            r.subscribed().len() == 0,
            r.clock_spec() == 0,
    {
        let cash = config.initial_cash;
        PaperBroker {
            config,
            connected: false,
            cash,
            positions: Vec::new(),
            orders: Vec::new(),
            fills: Vec::new(),
            latest_prices: Vec::new(),
            subscribed_symbols: Vec::new(),
            clock: 0,
        }
    }

    /// A paper broker with default settings.
    pub fn with_defaults() -> (r: PaperBroker)
        ensures
            r.cfg().initial_cash.m == 100000 * SCALE,
            r.cfg().fill_market_orders_immediately,
            !r.connected_spec(),
            r.snap().orders.len() == 0,
            r.snap().positions.len() == 0,
            r.snap().prices.len() == 0,
            r.fills_seq().len() == 0,
    {
        PaperBroker::new(PaperBrokerConfig::default())
    }

    /// All recorded fills.
    pub fn get_fills(&self) -> (r: &Vec<Fill>)
        ensures
            r@ == self.fills_seq(),
    {
        &self.fills
    }

    /// Current cash balance.
    pub fn cash(&self) -> (r: Dec)
        ensures
            r == self.snap().cash,
    {
        self.cash
    }

    /// Attempt to fill an order at `market_price`; returns whether a
    /// fill happened. The exact outcome is [`paper_fill_step`]; on a
    /// fill, one fill record with the order's id, symbol, side, the
    /// remaining quantity and the computed price is appended.
    #[verifier::rlimit(100)]
    fn try_fill_order(&mut self, order_id: OrderId, market_price: Dec) -> (r: bool)
        requires
            -PRICE_LIMIT <= market_price.m <= PRICE_LIMIT,
        ensures
            ({
                let step = paper_fill_step(
                    old(self).snap(),
                    old(self).cfg(),
                    order_id,
                    market_price,
                );
                let s2 = step.0;
                let filled = step.1;
                &&& r == filled
                &&& final(self).snap() == s2
                &&& final(self).cfg() == old(self).cfg()
                &&& final(self).connected_spec() == old(self).connected_spec()
                &&& final(self).subscribed() == old(self).subscribed()
                &&& final(self).clock_spec() == old(self).clock_spec()
                &&& if filled {
                    ({
                        let o = otab_get(old(self).snap().orders, order_id)->0;
                        let fp = paper_fill_price_m(o, market_price, old(self).cfg())->0;
                        &&& final(self).fills_seq().len() == old(self).fills_seq().len() + 1
                        &&& final(self).fills_seq().subrange(
                            0,
                            old(self).fills_seq().len() as int,
                        ) == old(self).fills_seq()
                        &&& ({
                            let f = final(self).fills_seq().last();
                            &&& f.order_id == order_id
                            &&& f.symbol@ == o.symbol@
                            &&& f.side == o.side
                            &&& f.quantity == o.remaining_quantity
                            &&& f.price.m == fp
                            &&& f.commission.m == mul_m(
                                o.remaining_quantity.m as int,
                                old(self).cfg().commission_per_share.m as int,
                            )
                            &&& f.strategy_id@ == o.strategy_id@
                            &&& f.bounded()
                        })
                    })
                } else {
                    final(self).fills_seq() == old(self).fills_seq()
                }
            }),
    {
        proof {
            use_type_invariant(&*self);
        }
        let ghost s0 = self.snap();

        let oi = match otab_find(&self.orders, order_id) {
            Some(i) => i,
            None => {
                return false;
            },
        };
        proof {
            lemma_otab_at(self.orders@, order_id, oi as int);
        }
        let order = self.orders[oi].1.clone();
        if !order.is_active() {
            return false;
        }

        proof {
            crate::decimal::lemma_mul_bound(
                market_price.m as int,
                self.config.slippage_bps.m as int,
                PRICE_LIMIT as int,
                SCALE as int,
            );
            crate::decimal::lemma_tdiv_abs(
                market_price.m * self.config.slippage_bps.m,
                SCALE as int,
            );
            vstd::arithmetic::div_mod::lemma_div_is_ordered(
                abs_m(market_price.m * self.config.slippage_bps.m as int),
                PRICE_LIMIT * SCALE,
                SCALE as int,
            );
            vstd::arithmetic::div_mod::lemma_div_multiples_vanish(
                PRICE_LIMIT as int,
                SCALE as int,
            );
            assert(PRICE_LIMIT * SCALE == SCALE * PRICE_LIMIT);
        }
        let fill_price_found: Option<Dec> = match &order.order_type {
            OrderType::Market => {
                let slip = market_price.mul(self.config.slippage_bps);
                match order.side {
                    Side::Buy => Some(market_price.add(slip)),
                    Side::Sell => Some(market_price.sub(slip)),
                }
            },
            OrderType::Limit { price } => {
                match order.side {
                    Side::Buy if market_price.m <= price.m => Some(*price),
                    Side::Sell if market_price.m >= price.m => Some(*price),
                    _ => None,
                }
            },
            OrderType::Stop { stop_price } => {
                match order.side {
                    Side::Buy if market_price.m >= stop_price.m => Some(market_price),
                    Side::Sell if market_price.m <= stop_price.m => Some(market_price),
                    _ => None,
                }
            },
            OrderType::StopLimit { stop_price, limit_price } => {
                match order.side {
                    Side::Buy if market_price.m >= stop_price.m && market_price.m
                        <= limit_price.m => Some(*limit_price),
                    Side::Sell if market_price.m <= stop_price.m && market_price.m
                        >= limit_price.m => Some(*limit_price),
                    _ => None,
                }
            },
        };
        let fill_price: Dec = match fill_price_found {
            Some(p) => p,
            None => {
                return false;
            },
        };

        let quantity = order.remaining_quantity;
        // Range guards: a fill that would leave the ledger outside its
        // representable ranges is not taken.
        let pos_idx = tab_find(&self.positions, &order.symbol);
        proof {
            if let Some(i) = pos_idx {
                lemma_tab_at(self.positions@, order.symbol@, i as int);
            }
        }
        let fits: bool = (-VAL_LIMIT <= fill_price.m && fill_price.m <= VAL_LIMIT) && (-PAPER_ROOM
            <= self.cash.m && self.cash.m <= PAPER_ROOM) && (pos_idx.is_some()
            || self.positions.len() < MAX_POSITIONS) && (match order.side {
            Side::Buy => {
                let q0: i128 = match pos_idx {
                    Some(i) => self.positions[i].1.quantity.m,
                    None => 0,
                };
                q0 + quantity.m <= VAL_LIMIT
            },
            Side::Sell => true,
        });
        if !fits {
            return false;
        }
        proof {
            crate::decimal::lemma_mul_bound(
                quantity.m as int,
                self.config.commission_per_share.m as int,
                VAL_LIMIT as int,
                10000 * SCALE as int,
            );
            crate::decimal::lemma_tdiv_abs(
                quantity.m * self.config.commission_per_share.m,
                SCALE as int,
            );
            vstd::arithmetic::div_mod::lemma_div_is_ordered(
                abs_m(quantity.m * self.config.commission_per_share.m as int),
                VAL_LIMIT * 10000 * SCALE,
                SCALE as int,
            );
            vstd::arithmetic::div_mod::lemma_div_multiples_vanish(
                10000 * VAL_LIMIT as int,
                SCALE as int,
            );
            assert(VAL_LIMIT * 10000 * SCALE == SCALE * (10000 * VAL_LIMIT));
            crate::decimal::lemma_mul_bound(
                quantity.m as int,
                fill_price.m as int,
                VAL_LIMIT as int,
                VAL_LIMIT as int,
            );
            crate::decimal::lemma_tdiv_abs(quantity.m * fill_price.m, SCALE as int);
            vstd::arithmetic::div_mod::lemma_div_is_ordered(
                abs_m(quantity.m * fill_price.m as int),
                VAL_LIMIT * VAL_LIMIT,
                SCALE as int,
            );
            vstd::arithmetic::div_mod::lemma_div_multiples_vanish(
                1_000_000_000_000_000_000_000_000int,
                SCALE as int,
            );
            assert(VAL_LIMIT * VAL_LIMIT == SCALE * 1_000_000_000_000_000_000_000_000int);
        }
        let commission = quantity.mul(self.config.commission_per_share);
        let gross = quantity.mul(fill_price);


        // Cash update; a buy without enough cash rejects the order.
        match order.side {
            Side::Buy => {
                let cost = gross.add(commission);
                if cost.m > self.cash.m {
                    let mut rejected = order.clone();
                    rejected.status = OrderStatus::Rejected;
                    proof {
                        lemma_otab_update(self.orders@, oi as int, (order_id, rejected));
                    }
                    let mut orders: Vec<(OrderId, Order)> = Vec::new();
                    core::mem::swap(&mut orders, &mut self.orders);
                    orders.set(oi, (order_id, rejected));
                    core::mem::swap(&mut orders, &mut self.orders);
                    return false;
                }
                self.cash = self.cash.sub(cost);
            },
            Side::Sell => {
                self.cash = self.cash.add(gross.sub(commission));
            },
        }

        // Position update.
        let base: PaperPosition = match pos_idx {
            Some(i) => self.positions[i].1.clone(),
            None => PaperPosition {
                symbol: order.symbol.clone(),
                quantity: Dec::zero(),
                average_cost: Dec::zero(),
            },
        };
        let new_pos: PaperPosition = match order.side {
            Side::Buy => {
                proof {
                    crate::decimal::lemma_mul_bound(
                        base.quantity.m as int,
                        base.average_cost.m as int,
                        VAL_LIMIT as int,
                        VAL_LIMIT as int,
                    );
                    crate::decimal::lemma_tdiv_abs(
                        base.quantity.m * base.average_cost.m,
                        SCALE as int,
                    );
                    vstd::arithmetic::div_mod::lemma_div_is_ordered(
                        abs_m(base.quantity.m * base.average_cost.m as int),
                        VAL_LIMIT * VAL_LIMIT,
                        SCALE as int,
                    );
                    crate::decimal::lemma_weighted_avg_bound(
                        base.quantity.m as int,
                        quantity.m as int,
                        base.average_cost.m as int,
                        fill_price.m as int,
                        VAL_LIMIT as int,
                    );
                }
                let total_cost = base.quantity.mul(base.average_cost).add(
                    quantity.mul(fill_price),
                );
                let new_q = base.quantity.add(quantity);
                PaperPosition {
                    symbol: base.symbol,
                    quantity: new_q,
                    average_cost: if new_q.m > 0 {
                        total_cost.div(new_q)
                    } else {
                        base.average_cost
                    },
                }
            },
            Side::Sell => {
                let new_q = base.quantity.sub(quantity);
                if new_q.m <= 0 {
                    PaperPosition {
                        symbol: base.symbol,
                        quantity: Dec::zero(),
                        average_cost: Dec::zero(),
                    }
                } else {
                    PaperPosition {
                        symbol: base.symbol,
                        quantity: new_q,
                        average_cost: base.average_cost,
                    }
                }
            },
        };
        let ghost positions0 = self.positions@;
        let mut positions: Vec<(Symbol, PaperPosition)> = Vec::new();
        core::mem::swap(&mut positions, &mut self.positions);
        tab_insert(&mut positions, order.symbol.clone(), new_pos);
        core::mem::swap(&mut positions, &mut self.positions);
        proof {
            assert forall|i: int| 0 <= i < self.positions@.len() implies (
            #[trigger] self.positions@[i].1).wf() by {
                if self.positions@[i].1 != new_pos {
                    let e = self.positions@[i];
                    assert(positions0.contains(e));
                    let j = choose|j: int| 0 <= j < positions0.len() && positions0[j] == e;
                    assert(positions0[j].1.wf());
                }
            }
        }

        // Record the fill.
        let fill = Fill::new(
            order_id,
            order.symbol.clone(),
            order.side,
            quantity,
            fill_price,
            commission,
            order.strategy_id.clone(),
        );
        let mut fills: Vec<Fill> = Vec::new();
        core::mem::swap(&mut fills, &mut self.fills);
        fills.push(fill);
        core::mem::swap(&mut fills, &mut self.fills);

        // Update the order itself.
        let mut updated = order.clone();
        updated.fill(quantity, fill_price);
        proof {
            match order.average_fill_price {
                Some(avg) => {
                    crate::decimal::lemma_mul_bound(
                        avg.m as int,
                        order.filled_quantity.m as int,
                        VAL_LIMIT as int,
                        VAL_LIMIT as int,
                    );
                    crate::decimal::lemma_tdiv_abs(avg.m * order.filled_quantity.m, SCALE as int);
                    crate::decimal::lemma_tdiv_abs(fill_price.m * quantity.m, SCALE as int);
                    crate::decimal::lemma_weighted_avg_bound(
                        order.filled_quantity.m as int,
                        if quantity.m <= order.remaining_quantity.m {
                            quantity.m as int
                        } else {
                            order.remaining_quantity.m as int
                        },
                        avg.m as int,
                        fill_price.m as int,
                        VAL_LIMIT as int,
                    );
                },
                None => {},
            }
            lemma_otab_update(self.orders@, oi as int, (order_id, updated));
        }
        let mut orders: Vec<(OrderId, Order)> = Vec::new();
        core::mem::swap(&mut orders, &mut self.orders);
        orders.set(oi, (order_id, updated));
        core::mem::swap(&mut orders, &mut self.orders);

        proof {
            assert(self.snap() == paper_fill_step(s0, self.config, order_id, market_price).0);
        }
        true
    }
}


/// Ids of the active orders for a symbol, in table order.
pub open spec fn active_ids(s: Seq<(u128, Order)>, sym: SymbolV) -> Seq<u128>
    decreases s.len(),
{
    if s.len() == 0 {
        Seq::empty()
    } else {
        let p = active_ids(s.drop_last(), sym);
        if s.last().1.symbol@ == sym && is_active_status(s.last().1.status) {
            p.push(s.last().0)
        } else {
            p
        }
    }
}

/// The ledger after attempting to fill each listed order in turn.
pub open spec fn paper_fill_all(
    s: PaperSnap,
    cfg: PaperBrokerConfig,
    ids: Seq<u128>,
    market: Dec,
) -> PaperSnap
    decreases ids.len(),
{
    if ids.len() == 0 {
        s
    } else {
        paper_fill_all(paper_fill_step(s, cfg, ids.first(), market).0, cfg, ids.drop_first(), market)
    }
}

/// Per order attempted, the record a successful fill leaves: the
/// order's id, the filled quantity, the fill price's mantissa and the
/// commission's mantissa, in attempt order.
pub open spec fn fill_summaries(
    s: PaperSnap,
    cfg: PaperBrokerConfig,
    ids: Seq<u128>,
    market: Dec,
) -> Seq<(u128, Dec, int, int)>
    decreases ids.len(),
{
    if ids.len() == 0 {
        Seq::empty()
    } else {
        let step = paper_fill_step(s, cfg, ids.first(), market);
        let rest = fill_summaries(step.0, cfg, ids.drop_first(), market);
        if step.1 {
            let o = otab_get(s.orders, ids.first())->0;
            seq![
                (
                    ids.first(),
                    o.remaining_quantity,
                    paper_fill_price_m(o, market, cfg)->0,
                    mul_m(o.remaining_quantity.m as int, cfg.commission_per_share.m as int),
                ),
            ] + rest
        } else {
            rest
        }
    }
}

/// A recorded fill carries exactly what its summary entry states.
pub open spec fn fill_matches_summary(f: Fill, t: (u128, Dec, int, int)) -> bool {
    &&& f.order_id == t.0
    &&& f.quantity == t.1
    &&& f.price.m == t.2
    &&& f.commission.m == t.3
    &&& f.bounded()
}

/// Sum of position values, each at its latest price (falling back to
/// its average cost when no price is known).
pub open spec fn position_value_m(
    s: Seq<(Symbol, PaperPosition)>,
    prices: Seq<(Symbol, Dec)>,
) -> int
    decreases s.len(),
{
    if s.len() == 0 {
        0
    } else {
        let p = s.last().1;
        let px = match tab_get(prices, p.symbol@) {
            Some(px) => px.m as int,
            None => p.average_cost.m as int,
        };
        position_value_m(s.drop_last(), prices) + mul_m(p.quantity.m as int, px)
    }
}

/// The broker-position snapshot of one paper position at a price.
pub open spec fn as_broker_position(p: PaperPosition, prices: Seq<(Symbol, Dec)>) -> BrokerPosition {
    let px = match tab_get(prices, p.symbol@) {
        Some(px) => px.m as int,
        None => p.average_cost.m as int,
    };
    BrokerPosition {
        symbol: p.symbol,
        quantity: p.quantity,
        market_value: Dec { m: mul_m(p.quantity.m as int, px) as i128 },
        average_cost: p.average_cost,
        unrealized_pnl: Dec { m: mul_m(p.quantity.m as int, px - p.average_cost.m) as i128 },
    }
}

/// The positions with a positive quantity, as broker snapshots.
pub open spec fn visible_positions(
    s: Seq<(Symbol, PaperPosition)>,
    prices: Seq<(Symbol, Dec)>,
) -> Seq<BrokerPosition>
    decreases s.len(),
{
    if s.len() == 0 {
        Seq::empty()
    } else {
        let p = visible_positions(s.drop_last(), prices);
        if s.last().1.quantity.m > 0 {
            p.push(as_broker_position(s.last().1, prices))
        } else {
            p
        }
    }
}

/// The active orders of the table, in table order.
pub open spec fn open_orders_of(s: Seq<(u128, Order)>) -> Seq<Order>
    decreases s.len(),
{
    if s.len() == 0 {
        Seq::empty()
    } else {
        let p = open_orders_of(s.drop_last());
        if is_active_status(s.last().1.status) {
            p.push(s.last().1)
        } else {
            p
        }
    }
}

impl PaperBroker {
    /// The account balance this broker reports: cash, cash as buying
    /// power, and equity as cash plus the value of all positions at
    /// their latest prices.
    pub open spec fn balance_of(self) -> AccountBalance {
        AccountBalance {
            cash: self.snap().cash,
            buying_power: self.snap().cash,
            equity: Dec {
                m: (self.snap().cash.m + position_value_m(
                    self.snap().positions,
                    self.snap().prices,
                )) as i128,
            },
            timestamp: self.clock_spec(),
        }
    }

    /// Feed a market event: the latest price for the event's symbol is
    /// recorded, the clock advances to the event's time, and every
    /// active order for that symbol is attempted in table order.
    pub fn process_market_event(&mut self, event: &MarketEvent)
        requires
            event.bounded(),
        ensures
            final(self).cfg() == old(self).cfg(),
            final(self).connected_spec() == old(self).connected_spec(),
            final(self).subscribed() == old(self).subscribed(),
            final(self).clock_spec() == event.timestamp_spec(),
            ({
                let price = Dec { m: event.price_spec() as i128 };
                let s1 = PaperSnap {
                    prices: crate::symtab::tab_put(
                        old(self).snap().prices,
                        event.symbol_val(),
                        price,
                    ),
                    ..old(self).snap()
                };
                final(self).snap() == paper_fill_all(
                    s1,
                    old(self).cfg(),
                    active_ids(old(self).snap().orders, event.symbol_spec()),
                    price,
                )
            }),
            old(self).fills_seq() == final(self).fills_seq().subrange(
                0,
                old(self).fills_seq().len() as int,
            ),
            ({
                let price = Dec { m: event.price_spec() as i128 };
                let s1 = PaperSnap {
                    prices: crate::symtab::tab_put(
                        old(self).snap().prices,
                        event.symbol_val(),
                        price,
                    ),
                    ..old(self).snap()
                };
                let sums = fill_summaries(
                    s1,
                    old(self).cfg(),
                    active_ids(old(self).snap().orders, event.symbol_spec()),
                    price,
                );
                &&& final(self).fills_seq().len() == old(self).fills_seq().len() + sums.len()
                &&& forall|k: int|
                    0 <= k < sums.len() ==> fill_matches_summary(
                        #[trigger] final(self).fills_seq()[old(self).fills_seq().len() + k],
                        sums[k],
                    )
            }),
    {
        proof {
            use_type_invariant(&*self);
        }
        let symbol: Symbol = event.symbol().clone();
        let price: Dec = match event {
            MarketEvent::Bar(bar) => bar.close,
            MarketEvent::Tick(tick) => tick.price,
            MarketEvent::Quote { bid, ask, .. } => {
                proof {
                    crate::decimal::lemma_tdiv_abs(
                        (bid.m + ask.m) * SCALE,
                        2 * SCALE as int,
                    );
                    vstd::arithmetic::div_mod::lemma_div_is_ordered(
                        abs_m((bid.m + ask.m) * SCALE as int),
                        2 * PRICE_LIMIT * SCALE,
                        2 * SCALE as int,
                    );
                    vstd::arithmetic::div_mod::lemma_div_multiples_vanish(
                        PRICE_LIMIT as int,
                        2 * SCALE as int,
                    );
                    assert(2 * PRICE_LIMIT * SCALE == (2 * SCALE) * PRICE_LIMIT);
                }
                bid.add(*ask).div(Dec::from_int(2))
            },
        };
        self.clock = event.timestamp();

        let mut prices: Vec<(Symbol, Dec)> = Vec::new();
        core::mem::swap(&mut prices, &mut self.latest_prices);
        tab_insert(&mut prices, symbol.clone(), price);
        core::mem::swap(&mut prices, &mut self.latest_prices);

        let ghost s1 = self.snap();
        let ghost gids = active_ids(self.orders@, symbol@);

        // Collect the active orders for this symbol.
        let mut pending: Vec<u128> = Vec::new();
        let mut i: usize = 0;
        proof {
            assert(active_ids(self.orders@.subrange(0, 0), symbol@) =~= Seq::<u128>::empty());
            assert(pending@ =~= active_ids(self.orders@.subrange(0, 0), symbol@));
        }
        while i < self.orders.len()
            invariant
                i <= self.orders@.len(),
                pending@ == active_ids(self.orders@.subrange(0, i as int), symbol@),
            decreases self.orders@.len() - i,
        {
            proof {
                assert(self.orders@.subrange(0, i as int + 1).drop_last() =~= self.orders@.subrange(
                    0,
                    i as int,
                ));
                assert(self.orders@.subrange(0, i as int + 1).last() == self.orders@[i as int]);
            }
            let entry = &self.orders[i];
            if entry.1.symbol == symbol && entry.1.is_active() {
                pending.push(entry.0);
            }
            i += 1;
        }
        proof {
            assert(self.orders@.subrange(0, self.orders@.len() as int) =~= self.orders@);
            assert(pending@ == gids);
        }

        // Attempt each order in turn.
        let ghost fills1 = self.fills@;
        let mut j: usize = 0;
        proof {
            assert(gids.subrange(0, gids.len() as int) =~= gids);
            assert(fills1 =~= self.fills@.subrange(0, fills1.len() as int));
            assert(fill_summaries(s1, self.cfg(), gids, price).skip(0) =~= fill_summaries(
                s1,
                self.cfg(),
                gids,
                price,
            ));
        }
        while j < pending.len()
            invariant
                j <= pending@.len(),
                pending@ == gids,
                -PRICE_LIMIT <= price.m <= PRICE_LIMIT,
                paper_fill_all(
                    self.snap(),
                    self.cfg(),
                    gids.subrange(j as int, gids.len() as int),
                    price,
                ) == paper_fill_all(s1, self.cfg(), gids, price),
                self.cfg() == old(self).cfg(),
                self.connected == old(self).connected,
                self.subscribed_symbols@ == old(self).subscribed_symbols@,
                self.clock == event.timestamp_spec(),
                fills1.len() <= self.fills@.len(),
                fills1 == self.fills@.subrange(0, fills1.len() as int),
                fill_summaries(
                    self.snap(),
                    self.cfg(),
                    gids.subrange(j as int, gids.len() as int),
                    price,
                ) == fill_summaries(s1, self.cfg(), gids, price).skip(
                    self.fills@.len() - fills1.len(),
                ),
                self.fills@.len() - fills1.len() <= fill_summaries(
                    s1,
                    self.cfg(),
                    gids,
                    price,
                ).len(),
                forall|k: int|
                    0 <= k < self.fills@.len() - fills1.len() ==> fill_matches_summary(
                        #[trigger] self.fills@[fills1.len() + k],
                        fill_summaries(s1, self.cfg(), gids, price)[k],
                    ),
            decreases pending@.len() - j,
        {
            let ghost pre = self.snap();
            let ghost rest = gids.subrange(j as int, gids.len() as int);
            let ghost fills_pre = self.fills@;
            let order_id = pending[j];
            let filled = self.try_fill_order(order_id, price);
            proof {
                assert(rest.first() == gids[j as int]);
                assert(rest.drop_first() =~= gids.subrange(j as int + 1, gids.len() as int));
                assert(paper_fill_all(pre, self.cfg(), rest, price) == paper_fill_all(
                    self.snap(),
                    self.cfg(),
                    gids.subrange(j as int + 1, gids.len() as int),
                    price,
                ));
                let total = fill_summaries(s1, self.cfg(), gids, price);
                let al = fills_pre.len() - fills1.len();
                let step = paper_fill_step(pre, self.cfg(), order_id, price);
                if filled {
                    let o = otab_get(pre.orders, order_id)->0;
                    let head = (
                        order_id,
                        o.remaining_quantity,
                        paper_fill_price_m(o, price, self.cfg())->0,
                        mul_m(
                            o.remaining_quantity.m as int,
                            self.cfg().commission_per_share.m as int,
                        ),
                    );
                    let tail = fill_summaries(step.0, self.cfg(), rest.drop_first(), price);
                    assert(fill_summaries(pre, self.cfg(), rest, price) == seq![head] + tail);
                    assert((seq![head] + tail)[0] == head);
                    assert((seq![head] + tail).drop_first() =~= tail);
                    assert(self.snap() == step.0);
                    assert(fill_summaries(pre, self.cfg(), rest, price) == total.skip(al));
                    assert(total.skip(al).len() >= 1);
                    assert(total.skip(al)[0] == total[al]);
                    assert(total.skip(al).drop_first() =~= total.skip(al + 1));
                    assert(total[al] == head);
                    assert(tail =~= total.skip(al + 1));
                    assert(fill_summaries(
                        self.snap(),
                        self.cfg(),
                        gids.subrange(j as int + 1, gids.len() as int),
                        price,
                    ) == total.skip(al + 1));
                    assert(self.fills@.len() - fills1.len() == al + 1);
                    assert(fill_matches_summary(self.fills@[fills1.len() + al], total[al]));
                    assert forall|k: int|
                        0 <= k < self.fills@.len() - fills1.len() implies fill_matches_summary(
                        #[trigger] self.fills@[fills1.len() + k],
                        total[k],
                    ) by {
                        if k < al {
                            assert(self.fills@.subrange(0, fills_pre.len() as int)[fills1.len()
                                + k] == self.fills@[fills1.len() + k]);
                            assert(fills_pre[fills1.len() + k] == self.fills@[fills1.len() + k]);
                        }
                    }
                } else {
                    assert(self.snap() == step.0);
                    assert(fill_summaries(pre, self.cfg(), rest, price) == fill_summaries(
                        step.0,
                        self.cfg(),
                        rest.drop_first(),
                        price,
                    ));
                }
                if filled {
                    assert(fills_pre == self.fills@.subrange(0, fills_pre.len() as int));
                    assert forall|k: int| 0 <= k < fills1.len() implies self.fills@[k]
                        == fills1[k] by {
                        assert(fills_pre[k] == fills1[k]);
                        assert(self.fills@.subrange(0, fills_pre.len() as int)[k]
                            == self.fills@[k]);
                    }
                    assert(fills1 =~= self.fills@.subrange(0, fills1.len() as int));
                } else {
                    assert(fills1 =~= self.fills@.subrange(0, fills1.len() as int));
                }
            }
            j += 1;
        }
        proof {
            assert(gids.subrange(gids.len() as int, gids.len() as int) =~= Seq::<u128>::empty());
            let total = fill_summaries(s1, self.cfg(), gids, price);
            let al = self.fills@.len() - fills1.len();
            assert(total.skip(al).len() == 0);
            assert(al == total.len());
        }
    }

    /// Submit a new order; fails with NotConnected before `connect`.
    /// The order is recorded as Submitted; a market order is filled
    /// immediately when so configured and a price is already known.
    pub fn submit_order(&mut self, order: Order) -> (r: BrokerResult<OrderId>)
        requires
            order.wf(),
            order.remaining_quantity.m > 0,
            match order.average_fill_price {
                Some(a) => a.val_ok(),
                None => true,
            },
        ensures
            final(self).cfg() == old(self).cfg(),
            final(self).connected_spec() == old(self).connected_spec(),
            ({
                let submitted = Order { status: OrderStatus::Submitted, ..order };
                let s1 = PaperSnap {
                    orders: crate::symtab::otab_put(old(self).snap().orders, order.id, submitted),
                    ..old(self).snap()
                };
                if !old(self).connected_spec() {
                    &&& r is Err
                    &&& final(self).snap() == old(self).snap()
                    &&& final(self).fills_seq() == old(self).fills_seq()
                } else if old(self).cfg().fill_market_orders_immediately && order.order_type
                    == OrderType::Market && tab_get(old(self).snap().prices, order.symbol@)
                    is Some {
                    let px = tab_get(old(self).snap().prices, order.symbol@)->0;
                    &&& r == Ok::<OrderId, BrokerError>(order.id)
                    &&& final(self).snap() == paper_fill_step(s1, old(self).cfg(), order.id, px).0
                    &&& if paper_fill_step(s1, old(self).cfg(), order.id, px).1 {
                        &&& final(self).fills_seq().len() == old(self).fills_seq().len() + 1
                        &&& final(self).fills_seq().subrange(
                            0,
                            old(self).fills_seq().len() as int,
                        ) == old(self).fills_seq()
                        &&& ({
                            let f = final(self).fills_seq().last();
                            &&& f.order_id == order.id
                            &&& f.symbol@ == order.symbol@
                            &&& f.side == order.side
                            &&& f.quantity == order.remaining_quantity
                            &&& f.price.m == paper_fill_price_m(
                                submitted,
                                px,
                                old(self).cfg(),
                            )->0
                            &&& f.commission.m == mul_m(
                                order.remaining_quantity.m as int,
                                old(self).cfg().commission_per_share.m as int,
                            )
                            &&& f.strategy_id@ == order.strategy_id@
                            &&& f.bounded()
                        })
                    } else {
                        final(self).fills_seq() == old(self).fills_seq()
                    }
                } else {
                    &&& r == Ok::<OrderId, BrokerError>(order.id)
                    &&& final(self).snap() == s1
                    &&& final(self).fills_seq() == old(self).fills_seq()
                }
            }),
    {
        proof {
            use_type_invariant(&*self);
        }
        if !self.connected {
            return Err(BrokerError::NotConnected);
        }

        let order_id = order.id;
        let mut submitted = order.clone();
        submitted.status = OrderStatus::Submitted;

        let price_idx = tab_find(&self.latest_prices, &order.symbol);
        proof {
            if let Some(i) = price_idx {
                lemma_tab_at(self.latest_prices@, order.symbol@, i as int);
            }
        }

        let immediate = self.config.fill_market_orders_immediately && matches!(
            order.order_type,
            OrderType::Market,
        );

        let mut orders: Vec<(OrderId, Order)> = Vec::new();
        core::mem::swap(&mut orders, &mut self.orders);
        otab_insert(&mut orders, order_id, submitted);
        core::mem::swap(&mut orders, &mut self.orders);

        if immediate {
            match price_idx {
                Some(i) => {
                    let px = self.latest_prices[i].1;
                    self.try_fill_order(order_id, px);
                    return Ok(order_id);
                },
                None => {},
            }
        }
        Ok(order_id)
    }

    /// Cancel an open order: an active order becomes Canceled; a
    /// terminal order is refused, an unknown one reported missing.
    pub fn cancel_order(&mut self, order_id: OrderId) -> (r: BrokerResult<()>)
        ensures
            final(self).cfg() == old(self).cfg(),
            final(self).connected_spec() == old(self).connected_spec(),
            final(self).fills_seq() == old(self).fills_seq(),
            if !old(self).connected_spec() {
                &&& r is Err
                &&& final(self).snap() == old(self).snap()
            } else {
                match otab_get(old(self).snap().orders, order_id) {
                    Some(o) => if is_active_status(o.status) {
                        &&& r is Ok
                        &&& final(self).snap() == (PaperSnap {
                            orders: crate::symtab::otab_put(
                                old(self).snap().orders,
                                order_id,
                                Order { status: OrderStatus::Canceled, ..o },
                            ),
                            ..old(self).snap()
                        })
                    } else {
                        &&& r is Err
                        &&& final(self).snap() == old(self).snap()
                    },
                    None => {
                        &&& r is Err
                        &&& final(self).snap() == old(self).snap()
                    },
                }
            },
    {
        proof {
            use_type_invariant(&*self);
        }
        if !self.connected {
            return Err(BrokerError::NotConnected);
        }
        match otab_find(&self.orders, order_id) {
            Some(i) => {
                proof {
                    lemma_otab_at(self.orders@, order_id, i as int);
                }
                if self.orders[i].1.is_active() {
                    let mut canceled = self.orders[i].1.clone();
                    canceled.cancel();
                    proof {
                        lemma_otab_update(self.orders@, i as int, (order_id, canceled));
                    }
                    let mut orders: Vec<(OrderId, Order)> = Vec::new();
                    core::mem::swap(&mut orders, &mut self.orders);
                    orders.set(i, (order_id, canceled));
                    core::mem::swap(&mut orders, &mut self.orders);
                    Ok(())
                } else {
                    Err(
                        BrokerError::OrderRejected {
                            reason: "order is not active".to_owned(),
                        },
                    )
                }
            },
            None => {
                Err(
                    BrokerError::OrderNotFound {
                        order_id: crate::text::u128_text(order_id),
                    },
                )
            },
        }
    }

    /// The status of an order, if known.
    pub fn get_order_status(&self, order_id: OrderId) -> (r: BrokerResult<OrderStatus>)
        ensures
            match otab_get(self.snap().orders, order_id) {
                Some(o) => r == Ok::<OrderStatus, BrokerError>(o.status),
                None => r is Err,
            },
    {
        proof {
            use_type_invariant(&*self);
        }
        match otab_find(&self.orders, order_id) {
            Some(i) => {
                proof {
                    lemma_otab_at(self.orders@, order_id, i as int);
                }
                Ok(self.orders[i].1.status)
            },
            None => Err(
                BrokerError::OrderNotFound {
                    order_id: crate::text::u128_text(order_id),
                },
            ),
        }
    }

    /// All open (active) orders, in table order.
    pub fn get_open_orders(&self) -> (r: BrokerResult<Vec<Order>>)
        ensures
            match r {
                Ok(v) => v@ == open_orders_of(self.snap().orders),
                Err(_) => false,
            },
    {
        proof {
            use_type_invariant(&*self);
        }
        let mut out: Vec<Order> = Vec::new();
        let mut i: usize = 0;
        proof {
            assert(open_orders_of(self.orders@.subrange(0, 0)) =~= Seq::<Order>::empty());
            assert(out@ =~= open_orders_of(self.orders@.subrange(0, 0)));
        }
        while i < self.orders.len()
            invariant
                i <= self.orders@.len(),
                out@ == open_orders_of(self.orders@.subrange(0, i as int)),
            decreases self.orders@.len() - i,
        {
            proof {
                assert(self.orders@.subrange(0, i as int + 1).drop_last() =~= self.orders@.subrange(
                    0,
                    i as int,
                ));
                assert(self.orders@.subrange(0, i as int + 1).last() == self.orders@[i as int]);
            }
            if self.orders[i].1.is_active() {
                out.push(self.orders[i].1.clone());
            }
            i += 1;
        }
        proof {
            assert(self.orders@.subrange(0, self.orders@.len() as int) =~= self.orders@);
        }
        Ok(out)
    }

    /// The current account balance; see [`PaperBroker::balance_of`].
    pub fn get_account_balance(&self) -> (r: BrokerResult<AccountBalance>)
        ensures
            r == Ok::<AccountBalance, BrokerError>(self.balance_of()),
    {
        proof {
            use_type_invariant(&*self);
        }
        let ghost s = self.positions@;
        let mut acc: i128 = 0;
        let mut i: usize = 0;
        proof {
            assert(position_value_m(s.subrange(0, 0), self.latest_prices@) == 0);
        }
        while i < self.positions.len()
            invariant
                i <= s.len(),
                self.positions@ == s,
                self.inv(),
                acc == position_value_m(s.subrange(0, i as int), self.latest_prices@),
                -(i as int) * AMT_LIMIT <= acc <= (i as int) * AMT_LIMIT,
            decreases s.len() - i,
        {
            proof {
                assert(s.subrange(0, i as int + 1).drop_last() =~= s.subrange(0, i as int));
                assert(s.subrange(0, i as int + 1).last() == s[i as int]);
                assert(s[i as int].1.wf());
            }
            let p = &self.positions[i].1;
            let px: Dec = match tab_find(&self.latest_prices, &p.symbol) {
                Some(k) => {
                    proof {
                        lemma_tab_at(self.latest_prices@, p.symbol@, k as int);
                    }
                    self.latest_prices[k].1
                },
                None => p.average_cost,
            };
            proof {
                crate::decimal::lemma_mul_bound(
                    p.quantity.m as int,
                    px.m as int,
                    VAL_LIMIT as int,
                    VAL_LIMIT as int,
                );
                crate::decimal::lemma_tdiv_shrinks(p.quantity.m * px.m, SCALE as int);
            }
            acc = acc + p.quantity.mul(px).m;
            i += 1;
        }
        proof {
            assert(s.subrange(0, s.len() as int) =~= s);
        }
        let equity = self.cash.add(Dec::from_raw(acc));
        Ok(
            AccountBalance {
                cash: self.cash,
                buying_power: self.cash,
                equity,
                timestamp: self.clock,
            },
        )
    }

    /// All positions with a positive quantity, marked to their latest
    /// prices.
    pub fn get_positions(&self) -> (r: BrokerResult<Vec<BrokerPosition>>)
        ensures
            match r {
                Ok(v) => v@ == visible_positions(self.snap().positions, self.snap().prices),
                Err(_) => false,
            },
    {
        proof {
            use_type_invariant(&*self);
        }
        let ghost s = self.positions@;
        let mut out: Vec<BrokerPosition> = Vec::new();
        let mut i: usize = 0;
        proof {
            assert(visible_positions(s.subrange(0, 0), self.latest_prices@) =~= Seq::<
                BrokerPosition,
            >::empty());
            assert(out@ =~= visible_positions(s.subrange(0, 0), self.latest_prices@));
        }
        while i < self.positions.len()
            invariant
                i <= s.len(),
                self.positions@ == s,
                self.inv(),
                out@ == visible_positions(s.subrange(0, i as int), self.latest_prices@),
            decreases s.len() - i,
        {
            proof {
                assert(s.subrange(0, i as int + 1).drop_last() =~= s.subrange(0, i as int));
                assert(s.subrange(0, i as int + 1).last() == s[i as int]);
                assert(s[i as int].1.wf());
            }
            let p = &self.positions[i].1;
            if p.quantity.m > 0 {
                out.push(self.position_snapshot(p));
            }
            i += 1;
        }
        proof {
            assert(s.subrange(0, s.len() as int) =~= s);
        }
        Ok(out)
    }

    /// The position for a symbol, if one with positive quantity is
    /// held.
    pub fn get_position(&self, symbol: &Symbol) -> (r: BrokerResult<Option<BrokerPosition>>)
        ensures
            match r {
                Ok(opt) => opt == (match tab_get(self.snap().positions, symbol@) {
                    Some(p) => if p.quantity.m > 0 {
                        Some(as_broker_position(p, self.snap().prices))
                    } else {
                        None
                    },
                    None => None,
                }),
                Err(_) => false,
            },
    {
        proof {
            use_type_invariant(&*self);
        }
        match tab_find(&self.positions, symbol) {
            Some(i) => {
                proof {
                    lemma_tab_at(self.positions@, symbol@, i as int);
                    assert(self.positions@[i as int].1.wf());
                }
                let p = &self.positions[i].1;
                if p.quantity.m > 0 {
                    Ok(Some(self.position_snapshot(p)))
                } else {
                    Ok(None)
                }
            },
            None => Ok(None),
        }
    }

    /// One position marked to its latest price.
    fn position_snapshot(&self, p: &PaperPosition) -> (r: BrokerPosition)
        requires
            p.wf(),
        ensures
            r == as_broker_position(*p, self.snap().prices),
    {
        proof {
            use_type_invariant(&*self);
        }
        let px: Dec = match tab_find(&self.latest_prices, &p.symbol) {
            Some(k) => {
                proof {
                    lemma_tab_at(self.latest_prices@, p.symbol@, k as int);
                }
                self.latest_prices[k].1
            },
            None => p.average_cost,
        };
        proof {
            crate::decimal::lemma_mul_bound(
                p.quantity.m as int,
                px.m as int,
                VAL_LIMIT as int,
                VAL_LIMIT as int,
            );
            crate::decimal::lemma_mul_bound(
                p.quantity.m as int,
                px.m - p.average_cost.m,
                VAL_LIMIT as int,
                2 * VAL_LIMIT as int,
            );
        }
        BrokerPosition {
            symbol: p.symbol.clone(),
            quantity: p.quantity,
            market_value: p.quantity.mul(px),
            average_cost: p.average_cost,
            unrealized_pnl: p.quantity.mul(px.sub(p.average_cost)),
        }
    }

    /// Record interest in symbols (duplicates are not added).
    pub fn subscribe_market_data(&mut self, symbols: &Vec<Symbol>) -> (r: BrokerResult<()>)
        ensures
            r is Ok,
            final(self).snap() == old(self).snap(),
            final(self).cfg() == old(self).cfg(),
            final(self).connected_spec() == old(self).connected_spec(),
            final(self).fills_seq() == old(self).fills_seq(),
            forall|k: int|
                0 <= k < symbols@.len() ==> has_sym_in(final(self).subscribed(), (
                #[trigger] symbols@[k])@),
            forall|o: SymbolV|
                has_sym_in(final(self).subscribed(), o) ==> has_sym_in(old(self).subscribed(), o)
                    || exists|k: int| 0 <= k < symbols@.len() && (#[trigger] symbols@[k])@ == o,
    {
        proof {
            use_type_invariant(&*self);
        }
        let mut list: Vec<Symbol> = Vec::new();
        core::mem::swap(&mut list, &mut self.subscribed_symbols);
        let mut k: usize = 0;
        while k < symbols.len()
            invariant
                k <= symbols@.len(),
                forall|j: int|
                    0 <= j < k ==> has_sym_in(list@, (#[trigger] symbols@[j])@),
                forall|o: SymbolV|
                    has_sym_in(list@, o) ==> has_sym_in(old(self).subscribed(), o) || exists|j: int|
                        0 <= j < symbols@.len() && (#[trigger] symbols@[j])@ == o,
            decreases symbols@.len() - k,
        {
            let sym = &symbols[k];
            let mut found = false;
            let mut t: usize = 0;
            while t < list.len()
                invariant
                    t <= list@.len(),
                    found ==> has_sym_in(list@, sym@),
                    !found ==> forall|j: int| 0 <= j < t ==> (#[trigger] list@[j])@ != sym@,
                decreases list@.len() - t,
            {
                if list[t] == *sym {
                    proof {
                        assert(list@[t as int]@ == sym@);
                    }
                    found = true;
                    t = list.len();
                } else {
                    t += 1;
                }
            }
            if !found {
                let ghost lpre = list@;
                list.push(sym.clone());
                proof {
                    assert(symbols@[k as int]@ == sym@);
                    assert(list@[lpre.len() as int]@ == sym@);
                    assert(has_sym_in(list@, sym@));
                    assert forall|o: SymbolV| has_sym_in(lpre, o) implies has_sym_in(
                        list@,
                        o,
                    ) by {
                        let w = choose|w: int| 0 <= w < lpre.len() && (#[trigger] lpre[w])@ == o;
                        assert(list@[w] == lpre[w]);
                    }
                    assert forall|o: SymbolV| has_sym_in(list@, o) implies has_sym_in(lpre, o)
                        || o == sym@ by {
                        let w = choose|w: int|
                            0 <= w < list@.len() && (#[trigger] list@[w])@ == o;
                        if w < lpre.len() {
                            assert(lpre[w] == list@[w]);
                        }
                    }
                    assert forall|o: SymbolV| has_sym_in(list@, o) implies has_sym_in(
                        old(self).subscribed(),
                        o,
                    ) || exists|j: int|
                        0 <= j < symbols@.len() && (#[trigger] symbols@[j])@ == o by {
                        if has_sym_in(lpre, o) {
                        } else {
                            assert(o == sym@);
                            assert(symbols@[k as int]@ == o);
                        }
                    }
                }
            }
            k += 1;
        }
        core::mem::swap(&mut list, &mut self.subscribed_symbols);
        Ok(())
    }

    /// Remove symbols from the subscription list.
    pub fn unsubscribe_market_data(&mut self, symbols: &Vec<Symbol>) -> (r: BrokerResult<()>)
        ensures
            r is Ok,
            final(self).snap() == old(self).snap(),
            final(self).cfg() == old(self).cfg(),
            final(self).connected_spec() == old(self).connected_spec(),
            final(self).fills_seq() == old(self).fills_seq(),
            forall|k: int|
                0 <= k < symbols@.len() ==> !has_sym_in(final(self).subscribed(), (
                #[trigger] symbols@[k])@),
            forall|o: SymbolV|
                has_sym_in(final(self).subscribed(), o) ==> has_sym_in(old(self).subscribed(), o),
    {
        proof {
            use_type_invariant(&*self);
        }
        let mut kept: Vec<Symbol> = Vec::new();
        let mut i: usize = 0;
        let ghost list0 = self.subscribed_symbols@;
        while i < self.subscribed_symbols.len()
            invariant
                i <= self.subscribed_symbols@.len(),
                self.subscribed_symbols@ == list0,
                forall|k: int, j: int|
                    0 <= k < symbols@.len() && 0 <= j < kept@.len() ==> (#[trigger] symbols@[k])@
                        != (#[trigger] kept@[j])@,
                forall|j: int|
                    0 <= j < kept@.len() ==> has_sym_in(list0, (#[trigger] kept@[j])@),
            decreases self.subscribed_symbols@.len() - i,
        {
            let sym = &self.subscribed_symbols[i];
            let mut found = false;
            let mut t: usize = 0;
            while t < symbols.len()
                invariant
                    t <= symbols@.len(),
                    found ==> exists|k: int|
                        0 <= k < symbols@.len() && (#[trigger] symbols@[k])@ == sym@,
                    !found ==> forall|k: int| 0 <= k < t ==> (#[trigger] symbols@[k])@ != sym@,
                decreases symbols@.len() - t,
            {
                if symbols[t] == *sym {
                    found = true;
                    t = symbols.len();
                } else {
                    t += 1;
                }
            }
            if !found {
                proof {
                    assert(list0[i as int] == self.subscribed_symbols@[i as int]);
                    assert(has_sym_in(list0, sym@));
                }
                kept.push(sym.clone());
            }
            i += 1;
        }
        let mut list = kept;
        core::mem::swap(&mut list, &mut self.subscribed_symbols);
        Ok(())
    }

    /// The currently subscribed symbols.
    pub fn subscribed_symbols(&self) -> (r: Vec<Symbol>)
        ensures
            r@ == self.subscribed(),
    {
        let mut out: Vec<Symbol> = Vec::new();
        let mut i: usize = 0;
        while i < self.subscribed_symbols.len()
            invariant
                i <= self.subscribed_symbols@.len(),
                out@ =~= self.subscribed_symbols@.subrange(0, i as int),
            decreases self.subscribed_symbols@.len() - i,
        {
            out.push(self.subscribed_symbols[i].clone());
            i += 1;
        }
        proof {
            assert(out@ =~= self.subscribed_symbols@);
        }
        out
    }

    /// Mark the broker connected.
    pub fn connect(&mut self) -> (r: BrokerResult<()>)
        ensures
            r is Ok,
            final(self).connected_spec(),
            final(self).snap() == old(self).snap(),
            final(self).cfg() == old(self).cfg(),
            final(self).fills_seq() == old(self).fills_seq(),
            final(self).subscribed() == old(self).subscribed(),
            final(self).clock_spec() == old(self).clock_spec(),
    {
        proof {
            use_type_invariant(&*self);
        }
        self.connected = true;
        Ok(())
    }

    /// Mark the broker disconnected.
    pub fn disconnect(&mut self) -> (r: BrokerResult<()>)
        ensures
            r is Ok,
            !final(self).connected_spec(),
            final(self).snap() == old(self).snap(),
            final(self).cfg() == old(self).cfg(),
            final(self).fills_seq() == old(self).fills_seq(),
            final(self).subscribed() == old(self).subscribed(),
            final(self).clock_spec() == old(self).clock_spec(),
    {
        proof {
            use_type_invariant(&*self);
        }
        self.connected = false;
        Ok(())
    }

    /// Connected or disconnected.
    pub fn connection_status(&self) -> (r: ConnectionStatus)
        ensures
            r == if self.connected_spec() {
                ConnectionStatus::Connected
            } else {
                ConnectionStatus::Disconnected
            },
    {
        if self.connected {
            ConnectionStatus::Connected
        } else {
            ConnectionStatus::Disconnected
        }
    }

    /// The latest known price for a symbol.
    pub fn get_latest_price(&self, symbol: &Symbol) -> (r: Option<Dec>)
        ensures
            r == tab_get(self.snap().prices, symbol@),
    {
        proof {
            use_type_invariant(&*self);
        }
        match tab_find(&self.latest_prices, symbol) {
            Some(i) => {
                proof {
                    lemma_tab_at(self.latest_prices@, symbol@, i as int);
                }
                Some(self.latest_prices[i].1)
            },
            None => None,
        }
    }

    /// All latest prices.
    pub fn get_all_prices(&self) -> (r: Vec<(Symbol, Dec)>)
        ensures
            r@ == self.snap().prices,
    {
        let mut out: Vec<(Symbol, Dec)> = Vec::new();
        let mut i: usize = 0;
        while i < self.latest_prices.len()
            invariant
                i <= self.latest_prices@.len(),
                out@ =~= self.latest_prices@.subrange(0, i as int),
            decreases self.latest_prices@.len() - i,
        {
            let e = &self.latest_prices[i];
            out.push((e.0.clone(), e.1));
            i += 1;
        }
        proof {
            assert(out@ =~= self.latest_prices@);
        }
        out
    }
}

impl Broker for PaperBroker {
    fn connect(&mut self) -> BrokerResult<()> {
        PaperBroker::connect(self)
    }

    fn disconnect(&mut self) -> BrokerResult<()> {
        PaperBroker::disconnect(self)
    }

    fn connection_status(&self) -> ConnectionStatus {
        PaperBroker::connection_status(self)
    }

    fn submit_order(&mut self, order: Order) -> BrokerResult<OrderId> {
        PaperBroker::submit_order(self, order)
    }

    fn cancel_order(&mut self, order_id: OrderId) -> BrokerResult<()> {
        PaperBroker::cancel_order(self, order_id)
    }

    fn get_order_status(&self, order_id: OrderId) -> BrokerResult<OrderStatus> {
        PaperBroker::get_order_status(self, order_id)
    }

    fn get_open_orders(&self) -> BrokerResult<Vec<Order>> {
        PaperBroker::get_open_orders(self)
    }

    fn get_account_balance(&self) -> BrokerResult<AccountBalance> {
        PaperBroker::get_account_balance(self)
    }

    fn get_positions(&self) -> BrokerResult<Vec<BrokerPosition>> {
        PaperBroker::get_positions(self)
    }

    fn get_position(&self, symbol: &Symbol) -> BrokerResult<Option<BrokerPosition>> {
        PaperBroker::get_position(self, symbol)
    }

    fn subscribe_market_data(&mut self, symbols: &Vec<Symbol>) -> BrokerResult<()> {
        PaperBroker::subscribe_market_data(self, symbols)
    }

    fn unsubscribe_market_data(&mut self, symbols: &Vec<Symbol>) -> BrokerResult<()> {
        PaperBroker::unsubscribe_market_data(self, symbols)
    }

    fn get_latest_price(&self, symbol: &Symbol) -> Option<Dec> {
        PaperBroker::get_latest_price(self, symbol)
    }

    fn get_all_prices(&self) -> Vec<(Symbol, Dec)> {
        PaperBroker::get_all_prices(self)
    }
}

/// The account balance a paper broker reports is a function of its
/// ledger and clock alone: with no intervening fill or price update,
/// reading it twice yields identical results.
pub proof fn lemma_balance_idempotent(a: PaperBroker, b: PaperBroker)
    requires
        a.snap() == b.snap(),
        a.clock_spec() == b.clock_spec(),
    ensures
        a.balance_of() == b.balance_of(),
{
}

} // verus!
