//! Live/sandbox trading engine: ties a strategy, a broker and a risk
//! manager together in an event-driven loop. Every order a strategy
//! places passes the pre-trade risk checks before it may reach the
//! broker.

use vstd::prelude::*;

use crate::broker::{Broker, BrokerError};
use crate::decimal::{abs_m, Dec, AMT_LIMIT, VAL_LIMIT};
use crate::market::{MarketEvent, Symbol, SymbolV};
use crate::orders::{Fill, Order, OrderEvent, OrderId, Side};
use crate::portfolio::{
    fresh_position, lookup, position_after_fill, Position, MAX_POSITIONS,
};
use crate::risk::{
    tracked_qty_m, RiskCheckResult, RiskConfig, RiskManager, RiskVerdict,
};
use crate::strategy::{
    MarketDataBuffer, Strategy, StrategyAction, StrategyConfig, StrategyContext,
};
use crate::symtab::{
    otab_find, otab_get, otab_has, otab_insert, otab_put, tab_find, tab_get, tab_has,
};

verus! {

/// Operating mode of the live engine.
#[derive(Debug, Clone, Copy, PartialEq, Eq, Structural)]
pub enum TradingMode {
    /// Orders reach the real broker (after passing risk checks).
    Live,
    /// Orders are executed on a paper broker.
    Sandbox,
}

/// Events emitted by the live engine for external consumption.
#[derive(Debug)]
pub enum LiveEngineEvent {
    Started { mode: TradingMode, strategy_id: String },
    Stopped { strategy_id: String, reason: String },
    OrderSubmitted { order_id: OrderId, symbol: String, quantity: Dec },
    OrderFilled { order_id: OrderId, price: Dec, quantity: Dec },
    OrderRejectedByRisk { order_id: OrderId, reason: String },
    OrderRejectedByBroker { order_id: OrderId, error: String },
    CircuitBreakerTripped { equity: Dec },
    MarketDataReceived { symbol: String },
    Error { message: String },
}

/// Configuration for the live trading engine.
#[derive(Debug)]
pub struct LiveEngineConfig {
    pub mode: TradingMode,
    pub strategy_config: StrategyConfig,
    pub risk_config: RiskConfig,
    pub initial_capital: Dec,
}

/// The bounds an order's fields must satisfy before the engine will
/// risk-check it or hand it to the broker.
pub open spec fn order_fields_ok(order: Order) -> bool {
    &&& 0 <= order.quantity.m <= VAL_LIMIT
    &&& 0 <= order.filled_quantity.m <= VAL_LIMIT
    &&& 0 < order.remaining_quantity.m <= VAL_LIMIT
    &&& order.filled_quantity.m + order.remaining_quantity.m == order.quantity.m
    &&& match order.average_fill_price {
        Some(p) => -VAL_LIMIT <= p.m <= VAL_LIMIT,
        None => true,
    }
}

/// Prefixhood of event logs carries across successive extensions.
proof fn lemma_prefix_trans(a: Seq<LiveEngineEvent>, b: Seq<LiveEngineEvent>, c: Seq<
    LiveEngineEvent,
>)
    requires
        a.is_prefix_of(b),
        b.is_prefix_of(c),
    ensures
        a.is_prefix_of(c),
{
    assert forall|i: int| 0 <= i < a.len() implies a[i] == c[i] by {
        assert(a[i] == b[i]);
    }
    assert(a =~= c.subrange(0, a.len() as int));
}

/// Relates the pending-order table after a fill to the table before
/// it: `mid` is the table once a completing fill's entry has left
/// (and is the old table otherwise), and the final table differs from
/// `mid` only by entries that a strategy reaction submitted.
pub open spec fn pending_after_fill(
    p0: Seq<(OrderId, Order)>,
    p1: Seq<(OrderId, Order)>,
    mid: Seq<(OrderId, Order)>,
    fill: Fill,
) -> bool {
    &&& (match otab_get(p0, fill.order_id) {
        Some(ord) => if ord.remaining_quantity.m <= fill.quantity.m {
            &&& !otab_has(mid, fill.order_id)
            &&& mid.len() == p0.len() - 1
            &&& (forall|o: OrderId|
                o != fill.order_id ==> otab_get(mid, o) == otab_get(p0, o))
        } else {
            mid == p0
        },
        None => mid == p0,
    })
    &&& (forall|o: OrderId| #[trigger]
        otab_get(p1, o) == otab_get(mid, o) || otab_get(p1, o) is Some)
}

/// `post` is `pre` with exactly `k` events appended.
pub open spec fn events_extended(
    pre: Seq<LiveEngineEvent>,
    post: Seq<LiveEngineEvent>,
    k: int,
) -> bool {
    &&& post.len() == pre.len() + k
    &&& post.take(pre.len() as int) == pre
}

/// The live trading engine, generic over the broker and strategy so
/// sandbox runs plug in a paper broker.
pub struct LiveEngine<B: Broker, S: Strategy> {
    broker: B,
    strategy: S,
    risk_manager: RiskManager,
    config: LiveEngineConfig,
    /// The strategy's read-only view: portfolio and market buffers.
    pub context: StrategyContext,
    events: Vec<LiveEngineEvent>,
    running: bool,
    pending_orders: Vec<(OrderId, Order)>,
}

impl<B: Broker, S: Strategy> LiveEngine<B, S> {
    pub closed spec fn running_spec(self) -> bool {
        self.running
    }

    pub closed spec fn mode_spec(self) -> TradingMode {
        self.config.mode
    }

    pub closed spec fn events_len(self) -> nat {
        self.events@.len()
    }

    pub closed spec fn events_seq(self) -> Seq<LiveEngineEvent> {
        self.events@
    }

    pub closed spec fn pending_spec(self) -> Seq<(OrderId, Order)> {
        self.pending_orders@
    }

    pub closed spec fn context_spec(self) -> StrategyContext {
        self.context
    }

    pub closed spec fn wf(self) -> bool {
        &&& self.risk_spec().wf()
        &&& self.context.wf()
        &&& crate::symtab::ids_unique(self.pending_orders@)
    }

    pub closed spec fn risk_spec(self) -> RiskManager {
        self.risk_manager
    }

    /// Create a live engine around a broker, a strategy and a risk
    /// configuration.
    pub fn new(broker: B, strategy: S, config: LiveEngineConfig) -> (r: LiveEngine<B, S>)
        requires
            config.risk_config.wf(),
            0 <= config.initial_capital.m <= VAL_LIMIT,
        ensures
            r.wf(),
            !r.running_spec(),
            r.mode_spec() == config.mode,
            r.events_len() == 0,
    {
        let context = StrategyContext::new(
            config.strategy_config.strategy_id.clone(),
            config.initial_capital,
        );
        let risk_manager = RiskManager::new(config.risk_config, config.initial_capital);
        LiveEngine {
            broker,
            strategy,
            risk_manager,
            config,
            context,
            events: Vec::new(),
            running: false,
            pending_orders: Vec::new(),
        }
    }

    /// Start the engine: connect the broker, initialize the strategy,
    /// subscribe to the configured symbols, and emit a Started event.
    pub fn start(&mut self) -> (r: Result<(), String>)
        requires
            old(self).wf(),
        ensures
            final(self).wf(),
            r is Ok ==> final(self).running_spec(),
    {
        match self.broker.connect() {
            Ok(_) => {},
            Err(_) => {
                return Err("broker connect failed".to_owned());
            },
        }
        match self.strategy.initialize(&self.config.strategy_config) {
            Ok(_) => {},
            Err(_) => {
                return Err("strategy init failed".to_owned());
            },
        }
        let symbols = clone_symbols(&self.config.strategy_config.symbols);
        match self.broker.subscribe_market_data(&symbols) {
            Ok(_) => {},
            Err(_) => {
                return Err("market data subscription failed".to_owned());
            },
        }
        self.running = true;
        self.events.push(
            LiveEngineEvent::Started {
                mode: self.config.mode,
                strategy_id: self.config.strategy_config.strategy_id.clone(),
            },
        );
        Ok(())
    }

    /// Stop the engine gracefully; the strategy's stop callback runs
    /// first, then the broker is unsubscribed and disconnected.
    pub fn stop(&mut self, reason: &str) -> (r: Result<(), String>)
        requires
            old(self).wf(),
        ensures
            final(self).wf(),
            !final(self).running_spec(),
    {
        self.running = false;
        let _ = self.strategy.on_stop(&self.context);
        let symbols = clone_symbols(&self.config.strategy_config.symbols);
        match self.broker.unsubscribe_market_data(&symbols) {
            Ok(_) => {},
            Err(_) => {
                return Err("unsubscribe failed".to_owned());
            },
        }
        match self.broker.disconnect() {
            Ok(_) => {},
            Err(_) => {
                return Err("broker disconnect failed".to_owned());
            },
        }
        self.events.push(
            LiveEngineEvent::Stopped {
                strategy_id: self.config.strategy_config.strategy_id.clone(),
                reason: reason.to_owned(),
            },
        );
        Ok(())
    }

    /// Process one market event: fails when the engine is not
    /// running; otherwise the strategy reacts and its actions route
    /// through the risk manager and the broker.
    pub fn on_market_event(&mut self, event: MarketEvent) -> (r: Result<(), String>)
        requires
            old(self).wf(),
            event.bounded(),
        ensures
            final(self).wf(),
            !old(self).running_spec() ==> r is Err && *final(self) == *old(self),
            final(self).running_spec() == old(self).running_spec(),
            final(self).mode_spec() == old(self).mode_spec(),
            old(self).events_seq().is_prefix_of(final(self).events_seq()),
            old(self).running_spec() ==> ({
                let md0 = old(self).context_spec().market_data@;
                let md1 = final(self).context_spec().market_data@;
                &&& final(self).context_spec().current_time == event.timestamp_spec()
                &&& final(self).context_spec().portfolio == old(self).context_spec().portfolio
                &&& if tab_has(md0, event.symbol_spec()) {
                    exists|bi: int|
                        #![trigger old(self).context_spec().market_data@[bi]]
                        {
                            &&& 0 <= bi < md0.len()
                            &&& md0[bi].0@ == event.symbol_spec()
                            &&& md1.len() == md0.len()
                            &&& md1[bi].0 == md0[bi].0
                            &&& md1[bi].1.symbol == md0[bi].1.symbol
                            &&& md1[bi].1.max_size == md0[bi].1.max_size
                            &&& md1[bi].1.data@ == (if md0[bi].1.data@.len() + 1 > md0[bi].1.max_size {
                                md0[bi].1.data@.push(event).drop_first()
                            } else {
                                md0[bi].1.data@.push(event)
                            })
                            &&& forall|x: int|
                                0 <= x < md0.len() && x != bi ==> md1[x] == #[trigger] md0[x]
                        }
                } else {
                    &&& md1.len() == md0.len() + 1
                    &&& (forall|x: int| 0 <= x < md0.len() ==> md1[x] == #[trigger] md0[x])
                    &&& md1.last().0 == event.symbol_val()
                    &&& md1.last().1.symbol == event.symbol_val()
                    &&& md1.last().1.max_size == 500
                    &&& md1.last().1.data@ == seq![event]
                }
            }),
    {
        if !self.running {
            return Err("engine not running".to_owned());
        }

        // Update the strategy context's market-data buffer.
        let symbol = event.symbol().clone();
        let mut md: Vec<(Symbol, MarketDataBuffer)> = Vec::new();
        core::mem::swap(&mut md, &mut self.context.market_data);
        let ghost md0 = md@;
        match tab_find(&md, &symbol) {
            Some(bi) => {
                proof {
                    crate::symtab::lemma_tab_at(md@, symbol@, bi as int);
                }
                let mut buf = md[bi].1.clone();
                let key = md[bi].0.clone();
                buf.add_event(event.clone());
                proof {
                    crate::symtab::lemma_tab_update(md@, bi as int, (md@[bi as int].0, buf));
                }
                md.set(bi, (key, buf));
                proof {
                    assert forall|x: int|
                        0 <= x < md@.len() implies (#[trigger] md@[x].1).events_bounded() by {
                        if x != bi as int {
                            assert(md@[x] == md0[x]);
                            assert(md0[x].1.events_bounded());
                        } else {
                            assert(md0[x].1.events_bounded());
                            let pre = md0[bi as int].1.data@.push(event);
                            assert forall|e: int|
                                0 <= e < md@[x].1.data@.len() implies (
                            #[trigger] md@[x].1.data@[e]).bounded() by {
                                if md@[x].1.data@.len() == pre.len() {
                                    assert(md@[x].1.data@[e] == pre[e]);
                                    if e < md0[bi as int].1.data@.len() {
                                        assert(pre[e] == md0[bi as int].1.data@[e]);
                                    }
                                } else {
                                    assert(md@[x].1.data@[e] == pre[e + 1]);
                                    if e + 1 < md0[bi as int].1.data@.len() {
                                        assert(pre[e + 1] == md0[bi as int].1.data@[e + 1]);
                                    }
                                }
                            }
                        }
                    }
                }
            },
            None => {
                let mut buf = MarketDataBuffer::new(symbol.clone(), 500);
                buf.add_event(event.clone());
                proof {
                    crate::symtab::lemma_tab_push(md0, (symbol, buf));
                }
                md.push((symbol.clone(), buf));
                proof {
                    assert forall|x: int|
                        0 <= x < md@.len() implies (#[trigger] md@[x].1).events_bounded() by {
                        if x < md0.len() {
                            assert(md@[x] == md0[x]);
                            assert(md0[x].1.events_bounded());
                        }
                    }
                }
            },
        }
        core::mem::swap(&mut md, &mut self.context.market_data);
        self.context.current_time = event.timestamp();

        let actions = match self.strategy.on_market_event(&event, &self.context) {
            Ok(actions) => actions,
            Err(_) => {
                return Err("strategy error".to_owned());
            },
        };
        self.handle_actions(actions);
        Ok(())
    }

    /// Process an order fill received from the broker: the portfolio
    /// and the risk manager's position tracking are updated, the
    /// order leaves the pending map if fully filled, and the strategy
    /// is notified.
    pub fn on_fill(&mut self, fill: Fill) -> (r: Result<(), String>)
        requires
            old(self).wf(),
        ensures
            final(self).wf(),
            !old(self).running_spec() ==> r is Err && *final(self) == *old(self),
            final(self).running_spec() == old(self).running_spec(),
            final(self).mode_spec() == old(self).mode_spec(),
            old(self).events_seq().is_prefix_of(final(self).events_seq()),
            old(self).running_spec() ==> ({
                let pf0 = old(self).context_spec().portfolio;
                let pf1 = final(self).context_spec().portfolio;
                let applied = fill.bounded() && pf0.can_absorb_spec(fill);
                &&& (applied ==> {
                    &&& pf1.cash.m == pf0.cash.m + fill.net_m()
                    &&& pf1.total_commissions.m == pf0.total_commissions.m + fill.commission.m
                    &&& ({
                        let base = match lookup(pf0.positions@, fill.symbol@) {
                            Some(p) => p,
                            None => fresh_position(fill.symbol, 0),
                        };
                        let p2 = position_after_fill(Position { last_updated: 0, ..base }, fill);
                        &&& (if p2.quantity.m == 0 {
                            lookup(pf1.positions@, fill.symbol@) is None
                        } else {
                            lookup(pf1.positions@, fill.symbol@) == Some(p2)
                        })
                        &&& forall|o: SymbolV|
                            o != fill.symbol@ ==> lookup(pf1.positions@, o) == lookup(
                                pf0.positions@,
                                o,
                            )
                    })
                })
                &&& (!applied ==> pf1 == pf0)
            }),
            old(self).running_spec() ==> ({
                let rm0 = old(self).risk_spec();
                let rm1 = final(self).risk_spec();
                let qty0 = tracked_qty_m(rm0.pos_tab(), fill.symbol@);
                let moves = fill.bounded() && abs_m(qty0) + fill.quantity.m <= VAL_LIMIT && (
                tab_get(rm0.pos_tab(), fill.symbol@) is Some || rm0.pos_tab().len()
                    < MAX_POSITIONS);
                &&& rm1.cfg() == rm0.cfg()
                &&& rm1.start_equity() == rm0.start_equity()
                &&& (rm0.tripped() ==> rm1.tripped())
                &&& (moves ==> tracked_qty_m(rm1.pos_tab(), fill.symbol@) == qty0 + (
                match fill.side {
                    Side::Buy => fill.quantity.m as int,
                    Side::Sell => -(fill.quantity.m as int),
                }))
                &&& (moves ==> forall|o: SymbolV|
                    o != fill.symbol@ ==> tab_get(rm1.pos_tab(), o) == tab_get(rm0.pos_tab(), o))
                &&& (!moves ==> rm1.pos_tab() == rm0.pos_tab())
            }),
            old(self).running_spec() ==> ({
                let pre = old(self).events_seq();
                let post = final(self).events_seq();
                &&& post.len() > pre.len()
                &&& (post[pre.len() as int] matches LiveEngineEvent::OrderFilled {
                    order_id,
                    price,
                    quantity,
                } && order_id == fill.order_id && price == fill.price && quantity
                    == fill.quantity)
            }),
            old(self).running_spec() ==> exists|mid: Seq<(OrderId, Order)>| #[trigger]
                pending_after_fill(
                    old(self).pending_spec(),
                    final(self).pending_spec(),
                    mid,
                    fill,
                ),
    {
        if !self.running {
            return Err("engine not running".to_owned());
        }
        let ghost pre = self.events@;

        // Apply to the context portfolio when representable.
        let bounded = fill.quantity.m >= 0 && fill.quantity.m <= VAL_LIMIT && -VAL_LIMIT
            <= fill.price.m && fill.price.m <= VAL_LIMIT && fill.commission.m >= 0
            && fill.commission.m <= crate::decimal::COST_LIMIT;
        if bounded && self.context.portfolio.can_absorb(&fill) {
            self.context.portfolio.apply_fill(&fill);
        }

        // Track the net position for risk decisions.
        if bounded {
            let current = self.risk_manager.position_quantity(&fill.symbol);
            let headroom = if current.m >= 0 {
                current.m <= VAL_LIMIT - fill.quantity.m
            } else {
                -current.m <= VAL_LIMIT - fill.quantity.m
            };
            let has_slot = self.risk_manager.has_position(&fill.symbol)
                || self.risk_manager.position_count() < MAX_POSITIONS;
            if headroom && has_slot {
                self.risk_manager.update_position(&fill.symbol, fill.side, fill.quantity);
            }
        }

        // Drop from pending if this fill completes the order.
        match otab_find(&self.pending_orders, fill.order_id) {
            Some(i) => {
                proof {
                    crate::symtab::lemma_otab_at(
                        self.pending_orders@,
                        fill.order_id,
                        i as int,
                    );
                }
                if self.pending_orders[i].1.remaining_quantity.m <= fill.quantity.m {
                    let ghost p0 = self.pending_orders@;
                    proof {
                        crate::symtab::lemma_otab_remove(p0, i as int);
                    }
                    self.pending_orders.remove(i);
                }
            },
            None => {},
        }
        let ghost mid_w = self.pending_orders@;

        self.events.push(
            LiveEngineEvent::OrderFilled {
                order_id: fill.order_id,
                price: fill.price,
                quantity: fill.quantity,
            },
        );
        let ghost evmid = self.events@;
        proof {
            assert(evmid.take(pre.len() as int) =~= pre);
        }

        let order_event = OrderEvent::OrderFilled { order_id: fill.order_id, fill };
        match self.strategy.on_order_event(&order_event, &self.context) {
            Ok(actions) => {
                self.handle_actions(actions);
                proof {
                    lemma_prefix_trans(pre, evmid, self.events@);
                    assert(self.events@[pre.len() as int] == evmid[pre.len() as int]);
                    assert(pending_after_fill(
                        old(self).pending_spec(),
                        self.pending_spec(),
                        mid_w,
                        fill,
                    ));
                }
                Ok(())
            },
            Err(_) => {
                proof {
                    assert(pending_after_fill(
                        old(self).pending_spec(),
                        self.pending_spec(),
                        mid_w,
                        fill,
                    ));
                }
                Err("strategy error on fill".to_owned())
            },
        }
    }

    /// Signal end of the trading day: the strategy's day-end callback
    /// runs and the risk manager's daily state resets at the current
    /// equity.
    pub fn on_day_end(&mut self) -> (r: Result<(), String>)
        requires
            old(self).wf(),
        ensures
            final(self).wf(),
            !old(self).running_spec() ==> r is Err && *final(self) == *old(self),
            (old(self).running_spec() && r is Ok) ==> !final(self).risk_spec().tripped(),
    {
        if !self.running {
            return Err("engine not running".to_owned());
        }
        let actions = match self.strategy.on_day_end(&self.context) {
            Ok(actions) => actions,
            Err(_) => {
                return Err("strategy day-end error".to_owned());
            },
        };
        self.handle_actions(actions);

        proof {
            crate::portfolio::lemma_sum_mv_bound(self.context.portfolio.positions@);
        }
        let equity = self.context.portfolio.total_equity;
        self.risk_manager.reset_daily(equity);
        Ok(())
    }

    /// Route each action through the risk manager and the broker.
    /// The engine's mode, running flag and strategy context are
    /// untouched, and already-emitted events are preserved in order.
    fn handle_actions(&mut self, actions: Vec<StrategyAction>)
        requires
            old(self).wf(),
        ensures
            final(self).wf(),
            final(self).running_spec() == old(self).running_spec(),
            final(self).mode_spec() == old(self).mode_spec(),
            final(self).context_spec() == old(self).context_spec(),
            old(self).events_seq().is_prefix_of(final(self).events_seq()),
            final(self).risk_spec().cfg() == old(self).risk_spec().cfg(),
            final(self).risk_spec().pos_tab() == old(self).risk_spec().pos_tab(),
            final(self).risk_spec().start_equity() == old(self).risk_spec().start_equity(),
            old(self).risk_spec().tripped() ==> final(self).risk_spec().tripped(),
            forall|o: OrderId| #[trigger]
                otab_get(final(self).pending_spec(), o) == otab_get(old(self).pending_spec(), o)
                || otab_get(final(self).pending_spec(), o) is Some,
    {
        proof {
            assert(self.events@.is_prefix_of(self.events@));
        }
        let mut actions = actions;
        let n = actions.len();
        let mut a: usize = 0;
        while a < n && actions.len() > 0
            invariant
                self.wf(),
                self.running_spec() == old(self).running_spec(),
                self.mode_spec() == old(self).mode_spec(),
                self.context_spec() == old(self).context_spec(),
                old(self).events_seq().is_prefix_of(self.events_seq()),
                self.risk_spec().cfg() == old(self).risk_spec().cfg(),
                self.risk_spec().pos_tab() == old(self).risk_spec().pos_tab(),
                self.risk_spec().start_equity() == old(self).risk_spec().start_equity(),
                old(self).risk_spec().tripped() ==> self.risk_spec().tripped(),
                forall|o: OrderId| #[trigger]
                    otab_get(self.pending_spec(), o) == otab_get(old(self).pending_spec(), o)
                    || otab_get(self.pending_spec(), o) is Some,
            decreases n - a,
        {
            let ghost ev_in = self.events@;
            let ghost pend_in = self.pending_spec();
            let action = actions.remove(0);
            match action {
                StrategyAction::PlaceOrder(order) => {
                    self.submit_order(order);
                    proof {
                        lemma_prefix_trans(
                            old(self).events_seq(),
                            ev_in,
                            self.events_seq(),
                        );
                        assert forall|o: OrderId| #[trigger]
                            otab_get(self.pending_spec(), o) == otab_get(
                                old(self).pending_spec(),
                                o,
                            ) || otab_get(self.pending_spec(), o) is Some by {
                            if otab_get(self.pending_spec(), o) == otab_get(pend_in, o) {
                                assert(otab_get(pend_in, o) == otab_get(
                                    old(self).pending_spec(),
                                    o,
                                ) || otab_get(pend_in, o) is Some);
                            }
                        }
                    }
                },
                StrategyAction::CancelOrder { order_id } => {
                    // Cancellation failures are logged, not
                    // propagated.
                    let _ = self.broker.cancel_order(order_id);
                },
                StrategyAction::Log { .. } => {},
                StrategyAction::SetParameter { .. } => {},
            }
            a += 1;
        }
    }

    /// Submit one order: price lookup, pre-trade risk check, then the
    /// broker; each outcome is recorded as an engine event. An order
    /// with out-of-range fields only logs an error; a risk rejection
    /// logs the rejection (and the breaker trip, when tripped); an
    /// approved order goes to the broker, and the broker's answer
    /// decides between a submission event with a new pending entry
    /// and a broker-rejection event.
    fn submit_order(&mut self, order: Order)
        requires
            old(self).wf(),
        ensures
            final(self).wf(),
            final(self).running_spec() == old(self).running_spec(),
            final(self).mode_spec() == old(self).mode_spec(),
            final(self).context_spec() == old(self).context_spec(),
            old(self).events_seq().is_prefix_of(final(self).events_seq()),
            final(self).risk_spec().cfg() == old(self).risk_spec().cfg(),
            final(self).risk_spec().pos_tab() == old(self).risk_spec().pos_tab(),
            final(self).risk_spec().start_equity() == old(self).risk_spec().start_equity(),
            old(self).risk_spec().tripped() ==> final(self).risk_spec().tripped(),
            forall|o: OrderId| #[trigger]
                otab_get(final(self).pending_spec(), o) == otab_get(old(self).pending_spec(), o)
                || otab_get(final(self).pending_spec(), o) is Some,
            !order_fields_ok(order) ==> ({
                &&& events_extended(old(self).events_seq(), final(self).events_seq(), 1)
                &&& final(self).events_seq().last() matches LiveEngineEvent::Error { .. }
                &&& final(self).risk_spec() == old(self).risk_spec()
                &&& final(self).pending_spec() == old(self).pending_spec()
            }),
            order_fields_ok(order) ==> exists|now: i64, price: Dec|
                #![trigger old(self).risk_spec().verdict(order, price, old(self).context_spec().portfolio.total_equity, now)]
                {
                    let rm0 = old(self).risk_spec();
                    let equity = old(self).context_spec().portfolio.total_equity;
                    let pre = old(self).events_seq();
                    let post = final(self).events_seq();
                    let pend_pre = old(self).pending_spec();
                    let pend_post = final(self).pending_spec();
                    let v = rm0.verdict(order, price, equity, now);
                    &&& price.val_ok()
                    &&& final(self).risk_spec().cfg() == rm0.cfg()
                    &&& final(self).risk_spec().pos_tab() == rm0.pos_tab()
                    &&& final(self).risk_spec().start_equity() == rm0.start_equity()
                    &&& final(self).risk_spec().recents() == rm0.recents_after(
                        order,
                        price,
                        equity,
                        now,
                    )
                    &&& final(self).risk_spec().tripped() == (rm0.tripped() || v
                        == RiskVerdict::BreakerTrips)
                    &&& final(self).risk_spec().tripped_at() == (if v
                        == RiskVerdict::BreakerTrips {
                        Some(now)
                    } else {
                        rm0.tripped_at()
                    })
                    &&& if v == RiskVerdict::Approved || rm0.cfg().dry_run {
                        ||| (post.last() matches LiveEngineEvent::OrderSubmitted {
                            order_id,
                            symbol,
                            quantity,
                        } && events_extended(pre, post, 1) && symbol@ == order.symbol.symbol@
                            && quantity == order.quantity && pend_post == otab_put(
                            pend_pre,
                            order_id,
                            order,
                        ))
                        ||| (post.last() matches LiveEngineEvent::OrderRejectedByBroker {
                            order_id,
                            ..
                        } && events_extended(pre, post, 1) && order_id == order.id && pend_post
                            == pend_pre)
                    } else {
                        &&& pend_post == pend_pre
                        &&& (post[pre.len() as int] matches LiveEngineEvent::OrderRejectedByRisk {
                            order_id,
                            reason,
                        } && order_id == order.id && reason@ == rm0.reason_of(
                            order,
                            price,
                            equity,
                            now,
                        ))
                        &&& if final(self).risk_spec().tripped() {
                            (post.last() matches LiveEngineEvent::CircuitBreakerTripped {
                                equity: e,
                            } && events_extended(pre, post, 2) && e == equity)
                        } else {
                            events_extended(pre, post, 1)
                        }
                    }
                },
    {
        let ghost pre = self.events@;
        let ghost pend0 = self.pending_orders@;
        let ghost rm0 = self.risk_manager;
        // The risk check and the broker both need a representable
        // order.
        let order_ok = order.quantity.m >= 0 && order.quantity.m <= VAL_LIMIT
            && order.filled_quantity.m >= 0 && order.filled_quantity.m <= VAL_LIMIT
            && order.remaining_quantity.m > 0 && order.remaining_quantity.m <= VAL_LIMIT
            && order.filled_quantity.m + order.remaining_quantity.m == order.quantity.m && (
        match &order.average_fill_price {
            Some(p) => -VAL_LIMIT <= p.m && p.m <= VAL_LIMIT,
            None => true,
        });
        if !order_ok {
            self.events.push(
                LiveEngineEvent::Error {
                    message: "order fields out of representable range".to_owned(),
                },
            );
            proof {
                assert(self.events@.take(pre.len() as int) =~= pre);
            }
            return ;
        }

        let price: Dec = match self.broker.get_latest_price(&order.symbol) {
            Some(p) => if -VAL_LIMIT <= p.m && p.m <= VAL_LIMIT {
                p
            } else {
                Dec::zero()
            },
            None => Dec::zero(),
        };
        proof {
            crate::portfolio::lemma_sum_mv_bound(self.context.portfolio.positions@);
        }
        let equity = self.context.portfolio.total_equity;

        let verdict = self.risk_manager.check_order(&order, price, equity);
        let ghost now_w: i64 = choose|now: i64|
            {
                &&& self.risk_manager.recents() == rm0.recents_after(order, price, equity, now)
                &&& self.risk_manager.tripped() == (rm0.tripped() || rm0.verdict(
                    order,
                    price,
                    equity,
                    now,
                ) == RiskVerdict::BreakerTrips)
                &&& self.risk_manager.tripped_at() == (if rm0.verdict(order, price, equity, now)
                    == RiskVerdict::BreakerTrips {
                    Some(now)
                } else {
                    rm0.tripped_at()
                })
                &&& ({
                    let v = #[trigger] rm0.verdict(order, price, equity, now);
                    if v == RiskVerdict::Approved || rm0.cfg().dry_run {
                        verdict is Approved
                    } else {
                        match verdict {
                            RiskCheckResult::Rejected { reason } => reason@ == rm0.reason_of(
                                order,
                                price,
                                equity,
                                now,
                            ),
                            RiskCheckResult::Approved => false,
                        }
                    }
                })
            };
        match verdict {
            RiskCheckResult::Approved => {
                let order_id = order.id;
                let submitted = order.clone();
                match self.broker.submit_order(submitted) {
                    Ok(oid) => {
                        self.events.push(
                            LiveEngineEvent::OrderSubmitted {
                                order_id: oid,
                                symbol: order.symbol.symbol.clone(),
                                quantity: order.quantity,
                            },
                        );
                        otab_insert(&mut self.pending_orders, oid, order);
                        proof {
                            assert(self.events@.take(pre.len() as int) =~= pre);
                        }
                    },
                    Err(e) => {
                        self.events.push(
                            LiveEngineEvent::OrderRejectedByBroker {
                                order_id,
                                error: e.message(),
                            },
                        );
                        proof {
                            assert(self.events@.take(pre.len() as int) =~= pre);
                        }
                    },
                }
            },
            RiskCheckResult::Rejected { reason } => {
                self.events.push(
                    LiveEngineEvent::OrderRejectedByRisk { order_id: order.id, reason },
                );
                if self.risk_manager.is_circuit_breaker_tripped() {
                    self.events.push(LiveEngineEvent::CircuitBreakerTripped { equity });
                }
                proof {
                    assert(self.events@.take(pre.len() as int) =~= pre);
                }
            },
        }
    }

    /// Whether the engine is currently running.
    pub fn is_running(&self) -> (r: bool)
        ensures
            r == self.running_spec(),
    {
        self.running
    }

    /// Current trading mode.
    pub fn mode(&self) -> (r: TradingMode)
        ensures
            r == self.mode_spec(),
    {
        self.config.mode
    }

    /// Drain all emitted events (consume-once): the returned vector
    /// holds exactly the events emitted since the last drain, in
    /// emission order, and nothing else changes.
    pub fn drain_events(&mut self) -> (r: Vec<LiveEngineEvent>)
        requires
            old(self).wf(),
        ensures
            final(self).wf(),
            r@ == old(self).events_seq(),
            final(self).events_len() == 0,
            final(self).running_spec() == old(self).running_spec(),
            final(self).mode_spec() == old(self).mode_spec(),
            final(self).risk_spec() == old(self).risk_spec(),
            final(self).context_spec() == old(self).context_spec(),
            final(self).pending_spec() == old(self).pending_spec(),
    {
        let mut out: Vec<LiveEngineEvent> = Vec::new();
        core::mem::swap(&mut out, &mut self.events);
        out
    }

    /// The current strategy context (portfolio, market data).
    pub fn context(&self) -> (r: &StrategyContext) {
        &self.context
    }

    /// Mutable access to the broker (e.g. to feed market events on a
    /// paper broker).
    pub fn broker_mut(&mut self) -> &mut B {
        &mut self.broker
    }

    /// Immutable access to the broker.
    pub fn broker(&self) -> &B {
        &self.broker
    }

    /// The risk manager.
    pub fn risk_manager(&self) -> (r: &RiskManager)
        ensures
            *r == self.risk_spec(),
    {
        &self.risk_manager
    }
}

/// Clone a list of symbols.
pub fn clone_symbols(symbols: &Vec<Symbol>) -> (r: Vec<Symbol>)
    ensures
        r@ == symbols@,
{
    let mut out: Vec<Symbol> = Vec::new();
    let mut i: usize = 0;
    while i < symbols.len()
        invariant
            i <= symbols@.len(),
            out@ =~= symbols@.subrange(0, i as int),
        decreases symbols@.len() - i,
    {
        out.push(symbols[i].clone());
        i += 1;
    }
    proof {
        assert(out@ =~= symbols@);
    }
    out
}

} // verus!
