//! Pre-trade risk controls: an ordered gauntlet of checks with a
//! daily-loss circuit breaker, order-rate limiting, and notional,
//! concentration and exposure limits.

use vstd::prelude::*;
use vstd::string::StringExecFns;

use crate::decimal::{abs_m, div_m, mul_m, Dec, AMT_LIMIT, SCALE, VAL_LIMIT};
use crate::host;
use crate::market::{Symbol, SymbolV};
use crate::orders::{Order, Side};
use crate::portfolio::{RiskLimits, MAX_POSITIONS};
use crate::symtab::{keys_unique, tab_find, tab_get, tab_insert};
use crate::text::{dec_text, dec_text_bytes, digits10, u64_text};

verus! {

/// Result of a risk check: either the order passes or it is rejected
/// with a human-readable reason.
#[derive(Debug)]
pub enum RiskCheckResult {
    Approved,
    Rejected { reason: String },
}

impl Clone for RiskCheckResult {
    fn clone(&self) -> (res: RiskCheckResult)
        ensures
            (res is Approved) == (*self is Approved),
    {
        match self {
            RiskCheckResult::Approved => RiskCheckResult::Approved,
            RiskCheckResult::Rejected { reason } => RiskCheckResult::Rejected {
                reason: reason.clone(),
            },
        }
    }
}

impl RiskCheckResult {
    pub fn is_approved(&self) -> (r: bool)
        ensures
            r == (*self is Approved),
    {
        matches!(self, RiskCheckResult::Approved)
    }
}

/// Configuration for the risk manager.
#[derive(Debug, Clone, Copy, PartialEq, Eq, Structural)]
pub struct RiskConfig {
    /// Base risk limits (position size, leverage, concentration).
    pub limits: RiskLimits,
    /// Maximum number of orders per rolling window.
    pub max_orders_per_window: u32,
    /// Rolling window size in seconds.
    pub order_window_seconds: u64,
    /// Maximum notional value of a single order.
    pub max_order_notional: Dec,
    /// Maximum total notional exposure across all positions.
    pub max_total_exposure: Dec,
    /// Daily loss fraction at which all trading halts.
    pub daily_loss_circuit_breaker: Dec,
    /// When true, rejections are reported as approvals (observe-only).
    pub dry_run: bool,
}

impl RiskConfig {
    pub open spec fn wf(self) -> bool {
        &&& self.limits.position_concentration_limit.val_ok()
        &&& self.max_order_notional.amt_ok()
        &&& self.max_total_exposure.amt_ok()
        &&& self.daily_loss_circuit_breaker.val_ok()
        &&& self.order_window_seconds <= 31536000
    }
}

impl Default for RiskConfig {
    /// 100 orders per minute, $100,000 per order, $500,000 total
    /// exposure, 5% daily-loss circuit breaker.
    fn default() -> (r: RiskConfig)
        ensures
            r.limits.max_position_size.m == 10000 * SCALE,
            r.limits.max_portfolio_leverage.m == 2 * SCALE,
            r.limits.max_daily_loss.m == 50000,
            r.limits.max_drawdown.m == 200000,
            r.limits.position_concentration_limit.m == 250000,
            r.max_orders_per_window == 100,
            r.order_window_seconds == 60,
            r.max_order_notional.m == 100000 * SCALE,
            r.max_total_exposure.m == 500000 * SCALE,
            r.daily_loss_circuit_breaker.m == 50000,
            !r.dry_run,
            r.wf(),
    {
        RiskConfig {
            limits: RiskLimits::default(),
            max_orders_per_window: 100,
            order_window_seconds: 60,
            max_order_notional: Dec::from_int(100000),
            max_total_exposure: Dec::from_int(500000),
            daily_loss_circuit_breaker: Dec::from_raw(50000),
            dry_run: false,
        }
    }
}

/// Which rule an order fell to, if any; the checks run in this fixed
/// order and stop at the first rejection.
#[derive(Debug, Clone, Copy, PartialEq, Eq, Structural)]
pub enum RiskVerdict {
    Approved,
    /// The breaker was already tripped.
    BreakerTripped,
    /// This very check trips the breaker.
    BreakerTrips,
    RateLimited,
    NotionalExceeded,
    ConcentrationExceeded,
    ExposureExceeded,
}

/// The timestamps of `s` not older than `cutoff`, oldest first.
pub open spec fn pruned(s: Seq<i64>, cutoff: int) -> Seq<i64>
    decreases s.len(),
{
    if s.len() == 0 {
        Seq::empty()
    } else {
        let p = pruned(s.drop_last(), cutoff);
        if s.last() >= cutoff {
            p.push(s.last())
        } else {
            p
        }
    }
}

/// Pruning never lengthens the sequence.
pub proof fn lemma_pruned_len(s: Seq<i64>, cutoff: int)
    ensures
        pruned(s, cutoff).len() <= s.len(),
    decreases s.len(),
{
    if s.len() > 0 {
        lemma_pruned_len(s.drop_last(), cutoff);
    }
}

/// Oldest timestamp still inside the rolling window at `now`.
pub open spec fn window_cutoff(now: i64, cfg: RiskConfig) -> int {
    now - cfg.order_window_seconds * 1000
}

/// Mantissa of an order's notional at a price.
pub open spec fn order_notional_m(order: Order, price: Dec) -> int {
    mul_m(order.quantity.m as int, price.m as int)
}

/// Sum of `|quantity| * price` across tracked positions (all at the
/// same price, as a coarse exposure estimate).
pub open spec fn exposure_sum_m(s: Seq<(Symbol, Dec)>, price: Dec) -> int
    decreases s.len(),
{
    if s.len() == 0 {
        0
    } else {
        exposure_sum_m(s.drop_last(), price) + mul_m(abs_m(s.last().1.m as int), price.m as int)
    }
}

/// Net position quantity the manager tracks for a symbol.
pub open spec fn tracked_qty_m(s: Seq<(Symbol, Dec)>, sym: SymbolV) -> int {
    match tab_get(s, sym) {
        Some(q) => q.m as int,
        None => 0,
    }
}

/// Mantissa of the concentration an order would reach: the resulting
/// position's value as a fraction of equity.
pub open spec fn concentration_m(
    s: Seq<(Symbol, Dec)>,
    order: Order,
    price: Dec,
    equity: Dec,
) -> int {
    let delta = match order.side {
        Side::Buy => order.quantity.m as int,
        Side::Sell => -(order.quantity.m as int),
    };
    let new_qty = tracked_qty_m(s, order.symbol@) + delta;
    div_m(mul_m(abs_m(new_qty), price.m as int), equity.m as int)
}

/// Fraction of the start-of-day equity lost by `equity`.
pub open spec fn daily_loss_m(start: Dec, equity: Dec) -> int {
    div_m(start.m - equity.m, start.m as int)
}

/// Live risk manager that validates every order before it reaches the
/// broker.
#[derive(Debug)]
pub struct RiskManager {
    config: RiskConfig,
    recent_orders: Vec<i64>,
    positions: Vec<(Symbol, Dec)>,
    start_of_day_equity: Dec,
    circuit_breaker_tripped: bool,
    circuit_breaker_tripped_at: Option<i64>,
}

impl RiskManager {
    pub closed spec fn cfg(self) -> RiskConfig {
        self.config
    }

    pub closed spec fn recents(self) -> Seq<i64> {
        self.recent_orders@
    }

    pub closed spec fn pos_tab(self) -> Seq<(Symbol, Dec)> {
        self.positions@
    }

    pub closed spec fn start_equity(self) -> Dec {
        self.start_of_day_equity
    }

    pub closed spec fn tripped(self) -> bool {
        self.circuit_breaker_tripped
    }

    pub closed spec fn tripped_at(self) -> Option<i64> {
        self.circuit_breaker_tripped_at
    }

    pub open spec fn wf(self) -> bool {
        &&& self.cfg().wf()
        &&& -100_000_000_000_000_000_000_000_000_000 <= self.start_equity().m
            <= 100_000_000_000_000_000_000_000_000_000
        &&& keys_unique(self.pos_tab())
        &&& self.pos_tab().len() <= MAX_POSITIONS
        &&& forall|i: int| 0 <= i < self.pos_tab().len() ==> (#[trigger] self.pos_tab()[i].1).val_ok()
    }

    /// Create a risk manager with the given configuration and the
    /// starting equity used by the daily-loss circuit breaker.
    pub fn new(config: RiskConfig, starting_equity: Dec) -> (r: RiskManager)
        requires
            config.wf(),
            -100_000_000_000_000_000_000_000_000_000 <= starting_equity.m
                <= 100_000_000_000_000_000_000_000_000_000,
        ensures
            r.wf(),
            r.cfg() == config,
            r.recents().len() == 0,
            r.pos_tab().len() == 0,
            r.start_equity() == starting_equity,
            !r.tripped(),
            r.tripped_at() is None,
    {
        RiskManager {
            config,
            recent_orders: Vec::new(),
            positions: Vec::new(),
            start_of_day_equity: starting_equity,
            circuit_breaker_tripped: false,
            circuit_breaker_tripped_at: None,
        }
    }

    /// The rule this order falls to at `now`, with the checks run in
    /// their fixed order: circuit breaker, order rate, single-order
    /// notional, position concentration, total exposure.
    pub open spec fn verdict(self, order: Order, price: Dec, equity: Dec, now: i64) -> RiskVerdict {
        let cfg = self.cfg();
        if self.tripped() {
            RiskVerdict::BreakerTripped
        } else if self.start_equity().m > 0 && daily_loss_m(self.start_equity(), equity)
            >= cfg.daily_loss_circuit_breaker.m {
            RiskVerdict::BreakerTrips
        } else if pruned(self.recents(), window_cutoff(now, cfg)).len()
            >= cfg.max_orders_per_window {
            RiskVerdict::RateLimited
        } else if order_notional_m(order, price) > cfg.max_order_notional.m {
            RiskVerdict::NotionalExceeded
        } else if equity.m != 0 && concentration_m(self.pos_tab(), order, price, equity)
            > cfg.limits.position_concentration_limit.m {
            RiskVerdict::ConcentrationExceeded
        } else if exposure_sum_m(self.pos_tab(), price) + order_notional_m(order, price)
            > cfg.max_total_exposure.m {
            RiskVerdict::ExposureExceeded
        } else {
            RiskVerdict::Approved
        }
    }

    /// The recent-order history after a check at `now`: untouched when
    /// the breaker rejected the order, pruned to the window otherwise,
    /// with `now` recorded on approval.
    pub open spec fn recents_after(self, order: Order, price: Dec, equity: Dec, now: i64) -> Seq<
        i64,
    > {
        match self.verdict(order, price, equity, now) {
            RiskVerdict::BreakerTripped => self.recents(),
            RiskVerdict::BreakerTrips => self.recents(),
            RiskVerdict::Approved => pruned(self.recents(), window_cutoff(now, self.cfg())).push(
                now,
            ),
            _ => pruned(self.recents(), window_cutoff(now, self.cfg())),
        }
    }

    /// The reason text reported for a rejection.
    pub open spec fn reason_of(self, order: Order, price: Dec, equity: Dec, now: i64) -> Seq<
        char,
    > {
        let cfg = self.cfg();
        match self.verdict(order, price, equity, now) {
            RiskVerdict::BreakerTripped => "circuit breaker tripped - trading halted for the day"@,
            RiskVerdict::BreakerTrips => "daily loss "@ + chars_of_dec(
                daily_loss_m(self.start_equity(), equity),
            ) + " exceeds circuit breaker threshold "@ + chars_of_dec(
                cfg.daily_loss_circuit_breaker.m as int,
            ),
            RiskVerdict::RateLimited => "order rate limit: "@ + chars_of_u64(
                cfg.max_orders_per_window as nat,
            ) + " orders in "@ + chars_of_u64(cfg.order_window_seconds as nat) + " s window"@,
            RiskVerdict::NotionalExceeded => "order notional "@ + chars_of_dec(
                order_notional_m(order, price),
            ) + " exceeds limit "@ + chars_of_dec(cfg.max_order_notional.m as int),
            RiskVerdict::ConcentrationExceeded => "position concentration "@ + chars_of_dec(
                concentration_m(self.pos_tab(), order, price, equity),
            ) + " exceeds limit "@ + chars_of_dec(
                cfg.limits.position_concentration_limit.m as int,
            ),
            RiskVerdict::ExposureExceeded => "total exposure "@ + chars_of_dec(
                exposure_sum_m(self.pos_tab(), price) + order_notional_m(order, price),
            ) + " would exceed limit "@ + chars_of_dec(cfg.max_total_exposure.m as int),
            RiskVerdict::Approved => Seq::empty(),
        }
    }

    /// Validate an order against all risk rules at an explicit clock
    /// reading. In dry-run mode a would-be rejection is reported as
    /// approved, but state changes (breaker trip, pruning) still
    /// happen.
    pub fn check_order_at(&mut self, order: &Order, current_price: Dec, current_equity: Dec, now:
        i64) -> (r: RiskCheckResult)
        requires
            old(self).wf(),
            order.wf(),
            current_price.val_ok(),
            -100_000_000_000_000_000_000_000_000_000 <= current_equity.m
                <= 100_000_000_000_000_000_000_000_000_000,
        ensures
            final(self).wf(),
            final(self).cfg() == old(self).cfg(),
            final(self).pos_tab() == old(self).pos_tab(),
            final(self).start_equity() == old(self).start_equity(),
            final(self).recents() == old(self).recents_after(
                *order,
                current_price,
                current_equity,
                now,
            ),
            final(self).tripped() == (old(self).tripped() || old(self).verdict(
                *order,
                current_price,
                current_equity,
                now,
            ) == RiskVerdict::BreakerTrips),
            final(self).tripped_at() == if old(self).verdict(
                *order,
                current_price,
                current_equity,
                now,
            ) == RiskVerdict::BreakerTrips {
                Some(now)
            } else {
                old(self).tripped_at()
            },
            ({
                let v = old(self).verdict(*order, current_price, current_equity, now);
                if v == RiskVerdict::Approved || old(self).cfg().dry_run {
                    r is Approved
                } else {
                    match r {
                        RiskCheckResult::Rejected { reason } => reason@ == old(self).reason_of(
                            *order,
                            current_price,
                            current_equity,
                            now,
                        ),
                        RiskCheckResult::Approved => false,
                    }
                }
            }),
    {
        let result = self.run_checks(order, current_price, current_equity, now);
        match &result {
            RiskCheckResult::Rejected { reason } => {
                if self.config.dry_run {
                    return RiskCheckResult::Approved;
                }
            },
            RiskCheckResult::Approved => {},
        }
        result
    }

    /// Validate an order at the current wall-clock time.
    pub fn check_order(&mut self, order: &Order, current_price: Dec, current_equity: Dec) -> (r:
        RiskCheckResult)
        requires
            old(self).wf(),
            order.wf(),
            current_price.val_ok(),
            -100_000_000_000_000_000_000_000_000_000 <= current_equity.m
                <= 100_000_000_000_000_000_000_000_000_000,
        ensures
            final(self).wf(),
            final(self).cfg() == old(self).cfg(),
            final(self).pos_tab() == old(self).pos_tab(),
            final(self).start_equity() == old(self).start_equity(),
            exists|now: i64|
                {
                    &&& final(self).recents() == old(self).recents_after(
                        *order,
                        current_price,
                        current_equity,
                        now,
                    )
                    &&& final(self).tripped() == (old(self).tripped() || old(self).verdict(
                        *order,
                        current_price,
                        current_equity,
                        now,
                    ) == RiskVerdict::BreakerTrips)
                    &&& final(self).tripped_at() == (if old(self).verdict(
                        *order,
                        current_price,
                        current_equity,
                        now,
                    ) == RiskVerdict::BreakerTrips {
                        Some(now)
                    } else {
                        old(self).tripped_at()
                    })
                    &&& ({
                        let v = #[trigger] old(self).verdict(
                            *order,
                            current_price,
                            current_equity,
                            now,
                        );
                        if v == RiskVerdict::Approved || old(self).cfg().dry_run {
                            r is Approved
                        } else {
                            match r {
                                RiskCheckResult::Rejected { reason } => reason@ == old(
                                    self,
                                ).reason_of(*order, current_price, current_equity, now),
                                RiskCheckResult::Approved => false,
                            }
                        }
                    })
                },
    {
        let now = host::now_millis();
        self.check_order_at(order, current_price, current_equity, now)
    }

    /// Run the ordered checks, short-circuiting on the first
    /// rejection; approved orders record their timestamp.
    fn run_checks(&mut self, order: &Order, current_price: Dec, current_equity: Dec, now: i64) -> (r:
        RiskCheckResult)
        requires
            old(self).wf(),
            order.wf(),
            current_price.val_ok(),
            -100_000_000_000_000_000_000_000_000_000 <= current_equity.m
                <= 100_000_000_000_000_000_000_000_000_000,
        ensures
            final(self).wf(),
            final(self).cfg() == old(self).cfg(),
            final(self).pos_tab() == old(self).pos_tab(),
            final(self).start_equity() == old(self).start_equity(),
            final(self).recents() == old(self).recents_after(
                *order,
                current_price,
                current_equity,
                now,
            ),
            final(self).tripped() == (old(self).tripped() || old(self).verdict(
                *order,
                current_price,
                current_equity,
                now,
            ) == RiskVerdict::BreakerTrips),
            final(self).tripped_at() == if old(self).verdict(
                *order,
                current_price,
                current_equity,
                now,
            ) == RiskVerdict::BreakerTrips {
                Some(now)
            } else {
                old(self).tripped_at()
            },
            ({
                let v = old(self).verdict(*order, current_price, current_equity, now);
                match r {
                    RiskCheckResult::Approved => v == RiskVerdict::Approved,
                    RiskCheckResult::Rejected { reason } => v != RiskVerdict::Approved && reason@
                        == old(self).reason_of(*order, current_price, current_equity, now),
                }
            }),
    {
        // 1) Circuit breaker.
        if self.circuit_breaker_tripped {
            return RiskCheckResult::Rejected {
                reason: "circuit breaker tripped - trading halted for the day".to_owned(),
            };
        }
        if self.start_of_day_equity.m > 0 {
            let loss = self.start_of_day_equity.sub(current_equity).div(
                self.start_of_day_equity,
            );
            if loss.m >= self.config.daily_loss_circuit_breaker.m {
                self.circuit_breaker_tripped = true;
                self.circuit_breaker_tripped_at = Some(now);
                return RiskCheckResult::Rejected {
                    reason: "daily loss ".to_owned().concat(dec_text(loss).as_str()).concat(
                        " exceeds circuit breaker threshold ",
                    ).concat(dec_text(self.config.daily_loss_circuit_breaker).as_str()),
                };
            }
        }

        // 2) Order rate limit: prune old entries, then count.
        self.prune_recent(now);
        if self.recent_orders.len() >= self.config.max_orders_per_window as usize {
            return RiskCheckResult::Rejected {
                reason: "order rate limit: ".to_owned().concat(
                    u64_text(self.config.max_orders_per_window as u64).as_str(),
                ).concat(" orders in ").concat(
                    u64_text(self.config.order_window_seconds).as_str(),
                ).concat(" s window"),
            };
        }

        // 3) Single-order notional limit.
        proof {
            crate::decimal::lemma_mul_bound(
                order.quantity.m as int,
                current_price.m as int,
                VAL_LIMIT as int,
                VAL_LIMIT as int,
            );
            crate::decimal::lemma_tdiv_shrinks(
                order.quantity.m * current_price.m,
                SCALE as int,
            );
        }
        let notional = order.quantity.mul(current_price);
        if notional.m > self.config.max_order_notional.m {
            return RiskCheckResult::Rejected {
                reason: "order notional ".to_owned().concat(dec_text(notional).as_str()).concat(
                    " exceeds limit ",
                ).concat(dec_text(self.config.max_order_notional).as_str()),
            };
        }

        // 4) Position concentration.
        if current_equity.m != 0 {
            let current_qty: Dec = match tab_find(&self.positions, &order.symbol) {
                Some(i) => {
                    proof {
                        crate::symtab::lemma_tab_at(self.positions@, order.symbol@, i as int);
                    }
                    self.positions[i].1
                },
                None => Dec::zero(),
            };
            let delta = match order.side {
                Side::Buy => order.quantity,
                Side::Sell => order.quantity.neg(),
            };
            let new_qty = current_qty.add(delta);
            proof {
                crate::decimal::lemma_mul_bound(
                    abs_m(new_qty.m as int),
                    current_price.m as int,
                    2 * VAL_LIMIT as int,
                    VAL_LIMIT as int,
                );
                crate::decimal::lemma_tdiv_abs(
                    abs_m(new_qty.m as int) * current_price.m,
                    SCALE as int,
                );
                vstd::arithmetic::div_mod::lemma_div_is_ordered(
                    abs_m(abs_m(new_qty.m as int) * current_price.m as int),
                    2 * VAL_LIMIT * VAL_LIMIT,
                    SCALE as int,
                );
            }
            let position_value = new_qty.abs().mul(current_price);
            let concentration = position_value.div(current_equity);
            if concentration.m > self.config.limits.position_concentration_limit.m {
                return RiskCheckResult::Rejected {
                    reason: "position concentration ".to_owned().concat(
                        dec_text(concentration).as_str(),
                    ).concat(" exceeds limit ").concat(
                        dec_text(self.config.limits.position_concentration_limit).as_str(),
                    ),
                };
            }
        }

        // 5) Total exposure.
        let existing = self.exposure_sum(current_price);
        let new_exposure = existing.add(notional);
        if new_exposure.m > self.config.max_total_exposure.m {
            return RiskCheckResult::Rejected {
                reason: "total exposure ".to_owned().concat(dec_text(new_exposure).as_str()).concat(
                    " would exceed limit ",
                ).concat(dec_text(self.config.max_total_exposure).as_str()),
            };
        }

        // All checks passed: record the order for future rate checks.
        self.recent_orders.push(now);
        RiskCheckResult::Approved
    }

    /// Drop recent-order timestamps older than the rolling window.
    fn prune_recent(&mut self, now: i64)
        ensures
            final(self).recents() == pruned(
                old(self).recents(),
                window_cutoff(now, old(self).cfg()),
            ),
            final(self).cfg() == old(self).cfg(),
            final(self).pos_tab() == old(self).pos_tab(),
            final(self).start_equity() == old(self).start_equity(),
            final(self).tripped() == old(self).tripped(),
            final(self).tripped_at() == old(self).tripped_at(),
            old(self).wf() ==> final(self).wf(),
    {
        let cutoff: i128 = (now as i128) - (self.config.order_window_seconds as i128) * 1000;
        let ghost s = self.recent_orders@;
        let ghost gcut = window_cutoff(now, self.config);
        let mut kept: Vec<i64> = Vec::new();
        let mut i: usize = 0;
        proof {
            assert(pruned(s.subrange(0, 0), gcut) =~= Seq::<i64>::empty());
        }
        while i < self.recent_orders.len()
            invariant
                i <= s.len(),
                self.recent_orders@ == s,
                kept@ == pruned(s.subrange(0, i as int), gcut),
                cutoff == gcut,
                self.config.order_window_seconds <= 31536000 || true,
            decreases s.len() - i,
        {
            proof {
                assert(s.subrange(0, i as int + 1).drop_last() =~= s.subrange(0, i as int));
                assert(s.subrange(0, i as int + 1).last() == s[i as int]);
            }
            let t = self.recent_orders[i];
            if (t as i128) >= cutoff {
                kept.push(t);
            }
            i += 1;
        }
        proof {
            assert(s.subrange(0, s.len() as int) =~= s);
        }
        self.recent_orders = kept;
    }

    /// Sum of `|quantity| * price` over all tracked positions.
    fn exposure_sum(&self, current_price: Dec) -> (r: Dec)
        requires
            self.wf(),
            current_price.val_ok(),
        ensures
            r.m == exposure_sum_m(self.pos_tab(), current_price),
            abs_m(r.m as int) <= self.pos_tab().len() * AMT_LIMIT,
    {
        let ghost s = self.positions@;
        let mut acc = Dec::zero();
        let mut i: usize = 0;
        proof {
            assert(exposure_sum_m(s.subrange(0, 0), current_price) == 0);
        }
        while i < self.positions.len()
            invariant
                i <= s.len(),
                self.positions@ == s,
                self.wf(),
                current_price.val_ok(),
                acc.m == exposure_sum_m(s.subrange(0, i as int), current_price),
                -(i as int) * AMT_LIMIT <= acc.m <= (i as int) * AMT_LIMIT,
                s.len() <= MAX_POSITIONS,
            decreases s.len() - i,
        {
            proof {
                assert(s.subrange(0, i as int + 1).drop_last() =~= s.subrange(0, i as int));
                assert(s.subrange(0, i as int + 1).last() == s[i as int]);
                assert(s[i as int].1.val_ok());
                crate::decimal::lemma_mul_bound(
                    abs_m(s[i as int].1.m as int),
                    current_price.m as int,
                    VAL_LIMIT as int,
                    VAL_LIMIT as int,
                );
                crate::decimal::lemma_tdiv_shrinks(
                    abs_m(s[i as int].1.m as int) * current_price.m,
                    SCALE as int,
                );
            }
            let q = self.positions[i].1;
            acc = acc.add(q.abs().mul(current_price));
            i += 1;
        }
        proof {
            assert(s.subrange(0, s.len() as int) =~= s);
        }
        acc
    }

    /// Update internal position tracking after a fill.
    pub fn update_position(&mut self, symbol: &Symbol, side: Side, quantity: Dec)
        requires
            old(self).wf(),
            0 <= quantity.m <= VAL_LIMIT,
            abs_m(tracked_qty_m(old(self).pos_tab(), symbol@)) + quantity.m <= VAL_LIMIT,
            tab_get(old(self).pos_tab(), symbol@) is Some || old(self).pos_tab().len()
                < MAX_POSITIONS,
        ensures
            final(self).wf(),
            final(self).cfg() == old(self).cfg(),
            final(self).recents() == old(self).recents(),
            final(self).start_equity() == old(self).start_equity(),
            final(self).tripped() == old(self).tripped(),
            tracked_qty_m(final(self).pos_tab(), symbol@) == tracked_qty_m(
                old(self).pos_tab(),
                symbol@,
            ) + (match side {
                Side::Buy => quantity.m as int,
                Side::Sell => -(quantity.m as int),
            }),
            forall|o: SymbolV|
                o != symbol@ ==> tab_get(final(self).pos_tab(), o) == tab_get(
                    old(self).pos_tab(),
                    o,
                ),
    {
        let current: Dec = match tab_find(&self.positions, symbol) {
            Some(i) => {
                proof {
                    crate::symtab::lemma_tab_at(self.positions@, symbol@, i as int);
                }
                self.positions[i].1
            },
            None => Dec::zero(),
        };
        let updated = match side {
            Side::Buy => current.add(quantity),
            Side::Sell => current.sub(quantity),
        };
        let ghost s0 = self.positions@;
        tab_insert(&mut self.positions, symbol.clone(), updated);
        proof {
            assert forall|i: int| 0 <= i < self.positions@.len() implies (
            #[trigger] self.positions@[i].1).val_ok() by {
                if self.positions@[i] != (*symbol, updated) {
                    let e = self.positions@[i];
                    assert(s0.contains(e));
                    let j = choose|j: int| 0 <= j < s0.len() && s0[j] == e;
                    assert(s0[j].1.val_ok());
                }
            }
        }
    }

    /// Whether a position entry exists for this symbol.
    pub fn has_position(&self, symbol: &Symbol) -> (r: bool)
        requires
            self.wf(),
        ensures
            r == (tab_get(self.pos_tab(), symbol@) is Some),
    {
        match tab_find(&self.positions, symbol) {
            Some(i) => {
                proof {
                    crate::symtab::lemma_tab_at(self.positions@, symbol@, i as int);
                }
                true
            },
            None => false,
        }
    }

    /// Number of tracked positions.
    pub fn position_count(&self) -> (r: usize)
        ensures
            r == self.pos_tab().len(),
    {
        self.positions.len()
    }

    /// The net position quantity currently tracked for a symbol.
    pub fn position_quantity(&self, symbol: &Symbol) -> (r: Dec)
        requires
            self.wf(),
        ensures
            r.m == tracked_qty_m(self.pos_tab(), symbol@),
    {
        match tab_find(&self.positions, symbol) {
            Some(i) => {
                proof {
                    crate::symtab::lemma_tab_at(self.positions@, symbol@, i as int);
                }
                self.positions[i].1
            },
            None => Dec::zero(),
        }
    }

    /// Reset the daily session: new start-of-day equity, breaker
    /// cleared, rate-limit history emptied.
    pub fn reset_daily(&mut self, equity: Dec)
        requires
            old(self).wf(),
            -100_000_000_000_000_000_000_000_000_000 <= equity.m
                <= 100_000_000_000_000_000_000_000_000_000,
        ensures
            final(self).wf(),
            final(self).cfg() == old(self).cfg(),
            final(self).pos_tab() == old(self).pos_tab(),
            final(self).start_equity() == equity,
            !final(self).tripped(),
            final(self).tripped_at() is None,
            final(self).recents().len() == 0,
    {
        self.start_of_day_equity = equity;
        self.circuit_breaker_tripped = false;
        self.circuit_breaker_tripped_at = None;
        self.recent_orders = Vec::new();
    }

    /// Whether the circuit breaker is currently tripped.
    pub fn is_circuit_breaker_tripped(&self) -> (r: bool)
        ensures
            r == self.tripped(),
    {
        self.circuit_breaker_tripped
    }

    /// When the circuit breaker was tripped, if at all.
    pub fn circuit_breaker_tripped_at(&self) -> (r: Option<i64>)
        ensures
            r == self.tripped_at(),
    {
        self.circuit_breaker_tripped_at
    }

    /// The current risk configuration.
    pub fn config(&self) -> (r: &RiskConfig)
        ensures
            *r == self.cfg(),
    {
        &self.config
    }
}

/// Characters of a fixed-point mantissa's rendering.
pub open spec fn chars_of_dec(m: int) -> Seq<char> {
    dec_text_bytes(m).map_values(|b: u8| b as char)
}

/// Characters of an integer's rendering.
pub open spec fn chars_of_u64(n: nat) -> Seq<char> {
    digits10(n).map_values(|b: u8| b as char)
}

/// Once the circuit breaker has tripped, every subsequent order is
/// rejected - whatever its size, price or the current equity - until
/// `reset_daily` is called; and `reset_daily` does clear it.
pub proof fn lemma_breaker_latches(m: RiskManager, order: Order, price: Dec, equity: Dec, now: i64)
    requires
        m.tripped(),
    ensures
        m.verdict(order, price, equity, now) == RiskVerdict::BreakerTripped,
        m.verdict(order, price, equity, now) != RiskVerdict::Approved,
{
}

} // verus!
