//! Portfolio-level risk metrics, alerts and the continuous risk
//! monitor.

use vstd::prelude::*;

use crate::backtest::{max_dd_exec, returns_ok, sorted_m, sum_m, PerformanceMetrics};
use crate::decimal::tdiv;
use crate::decimal::{abs_m, div_m, mul_m, Dec, AMT_LIMIT, SCALE, VAL_LIMIT};
use crate::host;
use crate::market::Symbol;
use crate::portfolio::{DailyReturn, Portfolio, Position, RiskLimits, MAX_POSITIONS};

verus! {

/// Severity of a risk alert, ordered from informational to critical.
#[derive(Debug, Clone, Copy, PartialEq, Eq, PartialOrd, Ord, Hash, Structural)]
pub enum RiskSeverity {
    Info,
    Warning,
    Critical,
}

/// Discriminant for the kind of risk alert.
#[derive(Debug)]
pub enum RiskAlertKind {
    DailyLossExceeded { current_loss_pct: Dec, limit_pct: Dec },
    DrawdownExceeded { current_drawdown_pct: Dec, limit_pct: Dec },
    ConcentrationExceeded { symbol: String, weight_pct: Dec, limit_pct: Dec },
    LeverageExceeded { current_leverage: Dec, limit: Dec },
    VarExceeded { var_pct: Dec, limit_pct: Dec },
    GrossExposureExceeded { gross_exposure: Dec, limit: Dec },
    Custom { name: String, message: String },
}

/// A single risk alert emitted by the monitor.
#[derive(Debug)]
pub struct RiskAlert {
    pub id: u128,
    pub timestamp: i64,
    pub severity: RiskSeverity,
    pub kind: RiskAlertKind,
    pub message: String,
    /// Whether a human operator has acknowledged the alert.
    pub acknowledged: bool,
}

impl RiskAlert {
    pub fn new(severity: RiskSeverity, kind: RiskAlertKind, message: String) -> (r: RiskAlert)
        ensures
            r.severity == severity,
            r.message@ == message@,
            !r.acknowledged,
    {
        RiskAlert {
            id: host::new_id(),
            timestamp: host::now_millis(),
            severity,
            kind,
            message,
            acknowledged: false,
        }
    }
}

/// Per-position risk breakdown.
#[derive(Debug)]
pub struct PositionRisk {
    pub symbol: Symbol,
    /// Signed weight as a fraction of equity (negative = short).
    pub weight: Dec,
    /// Magnitude of the weight.
    pub weight_abs: Dec,
    pub unrealized_pnl: Dec,
    /// Approximate contribution to portfolio VaR.
    pub var_contribution: Dec,
}

impl Clone for PositionRisk {
    fn clone(&self) -> (res: PositionRisk)
        ensures
            res == *self,
    {
        PositionRisk {
            symbol: self.symbol.clone(),
            weight: self.weight,
            weight_abs: self.weight_abs,
            unrealized_pnl: self.unrealized_pnl,
            var_contribution: self.var_contribution,
        }
    }
}

/// A point-in-time snapshot of portfolio-level risk metrics.
#[derive(Debug)]
pub struct PortfolioRiskSnapshot {
    pub id: u128,
    pub timestamp: i64,
    /// Sum of absolute position weights.
    pub gross_exposure: Dec,
    /// Sum of signed position weights.
    pub net_exposure: Dec,
    /// Gross exposure relative to equity.
    pub leverage: Dec,
    pub num_positions: usize,
    /// Current drawdown from the equity peak (fraction of the peak).
    pub current_drawdown: Dec,
    /// Maximum drawdown over the supplied history.
    pub max_drawdown: Dec,
    pub var_95: Option<Dec>,
    pub cvar_95: Option<Dec>,
    /// The latest daily return.
    pub daily_pnl_pct: Dec,
    pub position_risks: Vec<PositionRisk>,
}

impl Clone for PortfolioRiskSnapshot {
    fn clone(&self) -> (res: PortfolioRiskSnapshot)
        ensures
            res.gross_exposure == self.gross_exposure,
            res.net_exposure == self.net_exposure,
            res.leverage == self.leverage,
            res.num_positions == self.num_positions,
            res.current_drawdown == self.current_drawdown,
            res.max_drawdown == self.max_drawdown,
            res.var_95 == self.var_95,
            res.cvar_95 == self.cvar_95,
            res.daily_pnl_pct == self.daily_pnl_pct,
            res.position_risks@ == self.position_risks@,
    {
        let mut position_risks: Vec<PositionRisk> = Vec::new();
        let mut i: usize = 0;
        while i < self.position_risks.len()
            invariant
                i <= self.position_risks@.len(),
                position_risks@ =~= self.position_risks@.subrange(0, i as int),
            decreases self.position_risks@.len() - i,
        {
            position_risks.push(self.position_risks[i].clone());
            i += 1;
        }
        proof {
            assert(position_risks@ =~= self.position_risks@);
        }
        PortfolioRiskSnapshot {
            id: self.id,
            timestamp: self.timestamp,
            gross_exposure: self.gross_exposure,
            net_exposure: self.net_exposure,
            leverage: self.leverage,
            num_positions: self.num_positions,
            current_drawdown: self.current_drawdown,
            max_drawdown: self.max_drawdown,
            var_95: self.var_95,
            cvar_95: self.cvar_95,
            daily_pnl_pct: self.daily_pnl_pct,
            position_risks,
        }
    }
}

/// The signed weight mantissa of one position against an equity.
pub open spec fn weight_m(p: Position, safe_equity: int) -> int {
    let signed_mv = if p.quantity.m > 0 {
        p.market_value.m as int
    } else if p.quantity.m < 0 {
        -(p.market_value.m as int)
    } else {
        0
    };
    div_m(signed_mv, safe_equity)
}

/// Sum of signed position weights.
pub open spec fn net_weight_sum(s: Seq<Position>, safe_equity: int) -> int
    decreases s.len(),
{
    if s.len() == 0 {
        0
    } else {
        net_weight_sum(s.drop_last(), safe_equity) + weight_m(s.last(), safe_equity)
    }
}

/// Sum of absolute position weights.
pub open spec fn gross_weight_sum(s: Seq<Position>, safe_equity: int) -> int
    decreases s.len(),
{
    if s.len() == 0 {
        0
    } else {
        gross_weight_sum(s.drop_last(), safe_equity) + abs_m(weight_m(s.last(), safe_equity))
    }
}

/// Stateless calculator for portfolio risk metrics.
pub struct RiskMetricsCalculator;

impl RiskMetricsCalculator {
    /// Compute a full risk snapshot from the current portfolio, its
    /// daily-return history, and the equity peak. Weights are taken
    /// against the current equity (or one, when equity is not
    /// positive); Value-at-Risk needs at least twenty observations.
    pub fn compute(
        portfolio: &Portfolio,
        daily_returns: &Vec<DailyReturn>,
        equity_peak: Dec,
    ) -> (r: PortfolioRiskSnapshot)
        requires
            portfolio.wf(),
            returns_ok(daily_returns@),
            daily_returns@.len() < 1000000,
            0 <= equity_peak.m <= AMT_LIMIT,
        ensures
            r.num_positions == portfolio.positions@.len(),
            ({
                let safe = if portfolio.total_equity.m > 0 {
                    portfolio.total_equity.m as int
                } else {
                    SCALE as int
                };
                &&& r.gross_exposure.m == gross_weight_sum(portfolio.positions@, safe)
                &&& r.net_exposure.m == net_weight_sum(portfolio.positions@, safe)
                &&& r.leverage == r.gross_exposure
            }),
            r.current_drawdown.m == if equity_peak.m > 0 {
                let dd = div_m(equity_peak.m - portfolio.total_equity.m, equity_peak.m as int);
                if dd > 0 {
                    dd
                } else {
                    0
                }
            } else {
                0
            },
            r.var_95 is Some <==> daily_returns@.len() >= 20,
            r.cvar_95 is Some <==> daily_returns@.len() >= 20,
            daily_returns@.len() >= 20 ==> exists|sorted: Seq<Dec>|
                {
                    &&& #[trigger] sorted_m(sorted)
                    &&& sorted.to_multiset() == daily_returns@.map_values(
                        |d: DailyReturn| d.daily_return,
                    ).to_multiset()
                    &&& sorted.len() == daily_returns@.len()
                    &&& r.var_95 == Some(Dec { m: (-sorted[sorted.len() as int / 20].m) as i128 })
                    &&& r.cvar_95 == Some(
                        Dec {
                            m: (-tdiv(
                                sum_m(sorted.take(sorted.len() as int / 20 + 1)),
                                sorted.len() as int / 20 + 1,
                            )) as i128,
                        },
                    )
                },
            daily_returns@.len() >= 20 ==> (match (r.var_95, r.cvar_95) {
                (Some(v), Some(c)) => c.m >= v.m,
                _ => false,
            }),
            r.daily_pnl_pct.m == if daily_returns@.len() > 0 {
                daily_returns@.last().daily_return.m as int
            } else {
                0
            },
            r.position_risks@.len() == portfolio.positions@.len(),
    {
        let equity = portfolio.total_equity;
        proof {
            crate::portfolio::lemma_sum_mv_bound(portfolio.positions@);
            assert(portfolio.positions@.len() <= MAX_POSITIONS);
            assert(-AMT_LIMIT - 1000 * AMT_LIMIT <= equity.m <= AMT_LIMIT + 1000 * AMT_LIMIT);
        }
        let safe_equity: Dec = if equity.m > 0 {
            equity
        } else {
            Dec::one()
        };

        let ghost s = portfolio.positions@;
        let mut position_risks: Vec<PositionRisk> = Vec::new();
        let mut gross: i128 = 0;
        let mut net: i128 = 0;
        let mut i: usize = 0;
        proof {
            assert(net_weight_sum(s.subrange(0, 0), safe_equity.m as int) == 0);
            assert(gross_weight_sum(s.subrange(0, 0), safe_equity.m as int) == 0);
        }
        while i < portfolio.positions.len()
            invariant
                i <= s.len(),
                portfolio.positions@ == s,
                portfolio.wf(),
                safe_equity.m == if portfolio.total_equity.m > 0 {
                    portfolio.total_equity.m as int
                } else {
                    SCALE as int
                },
                0 < safe_equity.m <= 1001 * AMT_LIMIT,
                position_risks@.len() == i,
                gross == gross_weight_sum(s.subrange(0, i as int), safe_equity.m as int),
                net == net_weight_sum(s.subrange(0, i as int), safe_equity.m as int),
                -(i as int) * 10_000_000_000_000_000_000_000_000_000_000 <= net <= (i as int)
                    * 10_000_000_000_000_000_000_000_000_000_000,
                0 <= gross <= (i as int) * 10_000_000_000_000_000_000_000_000_000_000,
            decreases s.len() - i,
        {
            proof {
                assert(s.subrange(0, i as int + 1).drop_last() =~= s.subrange(0, i as int));
                assert(s.subrange(0, i as int + 1).last() == s[i as int]);
                assert(s[i as int].wf());
                crate::decimal::lemma_tdiv_shrinks(
                    s[i as int].market_value.m * SCALE,
                    safe_equity.m as int,
                );
                crate::decimal::lemma_tdiv_shrinks(
                    -(s[i as int].market_value.m as int) * SCALE,
                    safe_equity.m as int,
                );
            }
            let p = &portfolio.positions[i];
            let signed_mv: Dec = if p.quantity.m > 0 {
                p.market_value
            } else if p.quantity.m < 0 {
                proof {
                    assert(p.market_value.m > i128::MIN);
                }
                p.market_value.neg()
            } else {
                Dec::zero()
            };
            let weight = signed_mv.div(safe_equity);
            let weight_abs = weight.abs();
            gross = gross + weight_abs.m;
            net = net + weight.m;
            position_risks.push(
                PositionRisk {
                    symbol: p.symbol.clone(),
                    weight,
                    weight_abs,
                    unrealized_pnl: p.unrealized_pnl,
                    var_contribution: Dec::zero(),
                },
            );
            i += 1;
        }
        proof {
            assert(s.subrange(0, s.len() as int) =~= s);
        }

        // Drawdown from the supplied peak.
        proof {
            crate::portfolio::lemma_sum_mv_bound(portfolio.positions@);
        }
        let current_drawdown: Dec = if equity_peak.m > 0 {
            proof {
                crate::decimal::lemma_tdiv_shrinks(
                    (equity_peak.m - equity.m) * SCALE,
                    equity_peak.m as int,
                );
            }
            let dd = equity_peak.sub(equity).div(equity_peak);
            if dd.m > 0 {
                dd
            } else {
                Dec::zero()
            }
        } else {
            Dec::zero()
        };
        let max_drawdown = Dec::from_raw(max_dd_exec(portfolio.initial_capital, daily_returns));

        // VaR / CVaR.
        let (var_95, cvar_95) = PerformanceMetrics::calculate_var_cvar_95(daily_returns);

        // Approximate per-position VaR contributions.
        let mut k: usize = 0;
        let n = position_risks.len();
        match var_95 {
            Some(total_var) => {
                while k < n
                    invariant
                        k <= position_risks@.len(),
                        position_risks@.len() == n,
                    decreases n - k,
                {
                    let wa = position_risks[k].weight_abs;
                    let contribution: Dec = if -1_000_000_000_000_000_000 <= wa.m && wa.m
                        <= 1_000_000_000_000_000_000 && -1_000_000_000_000_000_000 <= total_var.m
                        && total_var.m <= 1_000_000_000_000_000_000 {
                        proof {
                            crate::decimal::lemma_mul_bound(
                                wa.m as int,
                                total_var.m as int,
                                1_000_000_000_000_000_000,
                                1_000_000_000_000_000_000,
                            );
                        }
                        wa.mul(total_var)
                    } else {
                        Dec::zero()
                    };
                    let mut pr = position_risks[k].clone();
                    pr.var_contribution = contribution;
                    position_risks.set(k, pr);
                    k += 1;
                }
            },
            None => {},
        }

        let daily_pnl_pct: Dec = if daily_returns.len() > 0 {
            daily_returns[daily_returns.len() - 1].daily_return
        } else {
            Dec::zero()
        };

        PortfolioRiskSnapshot {
            id: host::new_id(),
            timestamp: host::now_millis(),
            gross_exposure: Dec::from_raw(gross),
            net_exposure: Dec::from_raw(net),
            leverage: Dec::from_raw(gross),
            num_positions: n,
            current_drawdown,
            max_drawdown,
            var_95,
            cvar_95,
            daily_pnl_pct,
            position_risks,
        }
    }
}


/// Outside type: the sending half of a crossbeam channel.
#[verifier::external_type_specification]
#[verifier::external_body]
#[verifier::reject_recursive_types(T)]
pub struct ExSender<T>(crossbeam_channel::Sender<T>);

/// Relies on crossbeam_channel::Sender::try_send: best-effort,
/// non-blocking delivery of one alert; a full or disconnected channel
/// drops it. Nothing is promised of the channel's state.
#[verifier::external_body]
fn send_alert(tx: &crossbeam_channel::Sender<RiskAlert>, alert: RiskAlert) {
    let _ = tx.try_send(alert);
}

/// Configuration for the risk monitor.
#[derive(Debug)]
pub struct RiskMonitorConfig {
    pub risk_limits: RiskLimits,
    /// Fraction of a limit at which a warning fires (e.g. 0.80).
    pub warning_threshold_pct: Dec,
    /// Maximum gross exposure as a fraction of equity; `None` means
    /// unlimited.
    pub max_gross_exposure: Option<Dec>,
    /// Maximum portfolio VaR (95%, one day) as a fraction.
    pub max_var_95: Option<Dec>,
}

impl Clone for RiskMonitorConfig {
    fn clone(&self) -> (res: RiskMonitorConfig)
        ensures
            res == *self,
    {
        RiskMonitorConfig {
            risk_limits: self.risk_limits,
            warning_threshold_pct: self.warning_threshold_pct,
            max_gross_exposure: self.max_gross_exposure,
            max_var_95: self.max_var_95,
        }
    }
}

impl Default for RiskMonitorConfig {
    /// Warnings at 80% of each limit, 300% gross exposure cap, 5% VaR
    /// cap.
    fn default() -> (r: RiskMonitorConfig)
        ensures
            r.warning_threshold_pct.m == 800000,
            r.max_gross_exposure == Some(Dec { m: 3000000i128 }),
            r.max_var_95 == Some(Dec { m: 50000i128 }),
            r.wf(),
    {
        RiskMonitorConfig {
            risk_limits: RiskLimits::default(),
            warning_threshold_pct: Dec::from_raw(800000),
            max_gross_exposure: Some(Dec::from_int(3)),
            max_var_95: Some(Dec::from_raw(50000)),
        }
    }
}

impl RiskMonitorConfig {
    pub open spec fn wf(self) -> bool {
        &&& 0 <= self.warning_threshold_pct.m <= SCALE
        &&& self.risk_limits.max_daily_loss.val_ok()
        &&& self.risk_limits.max_drawdown.val_ok()
        &&& self.risk_limits.position_concentration_limit.val_ok()
        &&& self.risk_limits.max_portfolio_leverage.val_ok()
        &&& (match self.max_gross_exposure {
            Some(g) => g.val_ok(),
            None => true,
        })
        &&& (match self.max_var_95 {
            Some(v) => v.val_ok(),
            None => true,
        })
    }
}

/// Real-time risk monitor: recomputes metrics on every update, checks
/// the configured limits, and emits alerts on its channel.
pub struct RiskMonitor {
    config: RiskMonitorConfig,
    alert_tx: crossbeam_channel::Sender<RiskAlert>,
    equity_peak: Dec,
    daily_returns: Vec<DailyReturn>,
    last_snapshot: Option<PortfolioRiskSnapshot>,
}

impl RiskMonitor {
    pub closed spec fn cfg(self) -> RiskMonitorConfig {
        self.config
    }

    pub closed spec fn peak(self) -> Dec {
        self.equity_peak
    }

    pub closed spec fn returns_seq(self) -> Seq<DailyReturn> {
        self.daily_returns@
    }

    pub closed spec fn has_snapshot(self) -> bool {
        self.last_snapshot is Some
    }

    pub open spec fn wf(self) -> bool {
        &&& self.cfg().wf()
        &&& 0 <= self.peak().m <= AMT_LIMIT
        &&& returns_ok(self.returns_seq())
        &&& self.returns_seq().len() < 1000000
    }

    /// Create a monitor that emits alerts on the given channel.
    pub fn new(config: RiskMonitorConfig, alert_tx: crossbeam_channel::Sender<RiskAlert>) -> (r:
        RiskMonitor)
        requires
            config.wf(),
        ensures
            r.wf(),
            r.cfg() == config,
            r.peak().m == 0,
            r.returns_seq().len() == 0,
            !r.has_snapshot(),
    {
        RiskMonitor {
            config,
            alert_tx,
            equity_peak: Dec::zero(),
            daily_returns: Vec::new(),
            last_snapshot: None,
        }
    }

    /// Replace the daily-return history.
    pub fn set_daily_returns(&mut self, history: Vec<DailyReturn>)
        requires
            old(self).wf(),
            returns_ok(history@),
            history@.len() < 1000000,
        ensures
            final(self).wf(),
            final(self).returns_seq() == history@,
            final(self).cfg() == old(self).cfg(),
            final(self).peak() == old(self).peak(),
    {
        self.daily_returns = history;
    }

    /// Append one daily-return observation; the oldest is dropped
    /// once a million are held.
    pub fn push_daily_return(&mut self, dr: DailyReturn)
        requires
            old(self).wf(),
            -100 * SCALE <= dr.daily_return.m <= 100 * SCALE,
            -AMT_LIMIT <= dr.portfolio_value.m <= AMT_LIMIT,
        ensures
            final(self).wf(),
            final(self).returns_seq().len() <= old(self).returns_seq().len() + 1,
            final(self).returns_seq().len() > 0,
            final(self).returns_seq().last() == dr,
            final(self).cfg() == old(self).cfg(),
            final(self).peak() == old(self).peak(),
    {
        if self.daily_returns.len() >= 999999 {
            self.daily_returns.remove(0);
        }
        self.daily_returns.push(dr);
    }

    /// Set the equity high-water mark.
    pub fn set_equity_peak(&mut self, peak: Dec)
        requires
            old(self).wf(),
            0 <= peak.m <= AMT_LIMIT,
        ensures
            final(self).wf(),
            final(self).peak() == peak,
            final(self).cfg() == old(self).cfg(),
            final(self).returns_seq() == old(self).returns_seq(),
    {
        self.equity_peak = peak;
    }

    /// The current equity high-water mark.
    pub fn equity_peak(&self) -> (r: Dec)
        ensures
            r == self.peak(),
    {
        self.equity_peak
    }

    /// The most recently computed snapshot, if any.
    pub fn last_snapshot(&self) -> (r: Option<&PortfolioRiskSnapshot>)
        ensures
            (r is Some) == self.has_snapshot(),
    {
        match &self.last_snapshot {
            Some(snap) => Some(snap),
            None => None,
        }
    }

    /// Recompute risk metrics for the portfolio, raise the equity
    /// peak if exceeded, emit limit alerts, and remember and return
    /// the snapshot.
    pub fn update(&mut self, portfolio: &Portfolio) -> (r: PortfolioRiskSnapshot)
        requires
            old(self).wf(),
            portfolio.wf(),
            -AMT_LIMIT <= portfolio.total_equity.m <= AMT_LIMIT,
        ensures
            final(self).wf(),
            final(self).cfg() == old(self).cfg(),
            final(self).peak().m == if portfolio.total_equity.m > old(self).peak().m {
                portfolio.total_equity.m as int
            } else {
                old(self).peak().m as int
            },
            final(self).has_snapshot(),
            r.num_positions == portfolio.positions@.len(),
            r.var_95 is Some <==> old(self).returns_seq().len() >= 20,
    {
        if portfolio.total_equity.m > self.equity_peak.m {
            self.equity_peak = portfolio.total_equity;
        }

        let snapshot = RiskMetricsCalculator::compute(
            portfolio,
            &self.daily_returns,
            self.equity_peak,
        );

        self.check_limits(&snapshot);

        let copy = snapshot.clone();
        self.last_snapshot = Some(copy);
        snapshot
    }

    /// Check every configured limit against a snapshot, emitting a
    /// critical alert at a breached limit and a warning near one.
    fn check_limits(&self, snap: &PortfolioRiskSnapshot)
        requires
            self.wf(),
    {
        proof {
            use_limits_wf(self.config);
        }
        // Daily loss.
        if snap.daily_pnl_pct.m > i128::MIN && -AMT_LIMIT <= snap.daily_pnl_pct.m
            && snap.daily_pnl_pct.m <= AMT_LIMIT {
            let loss = snap.daily_pnl_pct.neg();
            if loss.m > 0 {
                let limit = self.config.risk_limits.max_daily_loss;
                if loss.m >= limit.m {
                    send_alert(
                        &self.alert_tx,
                        RiskAlert::new(
                            RiskSeverity::Critical,
                            RiskAlertKind::DailyLossExceeded {
                                current_loss_pct: loss,
                                limit_pct: limit,
                            },
                            "daily loss exceeds the configured limit".to_owned(),
                        ),
                    );
                } else if self.warn_level(limit, loss) {
                    send_alert(
                        &self.alert_tx,
                        RiskAlert::new(
                            RiskSeverity::Warning,
                            RiskAlertKind::DailyLossExceeded {
                                current_loss_pct: loss,
                                limit_pct: limit,
                            },
                            "daily loss is approaching the configured limit".to_owned(),
                        ),
                    );
                }
            }
        }

        // Drawdown.
        if -AMT_LIMIT <= snap.current_drawdown.m && snap.current_drawdown.m <= AMT_LIMIT {
            let dd = snap.current_drawdown;
            let limit = self.config.risk_limits.max_drawdown;
            if dd.m >= limit.m {
                send_alert(
                    &self.alert_tx,
                    RiskAlert::new(
                        RiskSeverity::Critical,
                        RiskAlertKind::DrawdownExceeded {
                            current_drawdown_pct: dd,
                            limit_pct: limit,
                        },
                        "drawdown exceeds the configured limit".to_owned(),
                    ),
                );
            } else if self.warn_level(limit, dd) {
                send_alert(
                    &self.alert_tx,
                    RiskAlert::new(
                        RiskSeverity::Warning,
                        RiskAlertKind::DrawdownExceeded {
                            current_drawdown_pct: dd,
                            limit_pct: limit,
                        },
                        "drawdown is approaching the configured limit".to_owned(),
                    ),
                );
            }
        }

        // Concentration, per position.
        let limit = self.config.risk_limits.position_concentration_limit;
        let mut i: usize = 0;
        while i < snap.position_risks.len()
            invariant
                self.wf(),
                limit.val_ok(),
            decreases snap.position_risks@.len() - i,
        {
            let pr = &snap.position_risks[i];
            if -AMT_LIMIT <= pr.weight_abs.m && pr.weight_abs.m <= AMT_LIMIT {
                if pr.weight_abs.m >= limit.m {
                    send_alert(
                        &self.alert_tx,
                        RiskAlert::new(
                            RiskSeverity::Critical,
                            RiskAlertKind::ConcentrationExceeded {
                                symbol: pr.symbol.symbol.clone(),
                                weight_pct: pr.weight_abs,
                                limit_pct: limit,
                            },
                            "position concentration exceeds the configured limit".to_owned(),
                        ),
                    );
                } else if self.warn_level(limit, pr.weight_abs) {
                    send_alert(
                        &self.alert_tx,
                        RiskAlert::new(
                            RiskSeverity::Warning,
                            RiskAlertKind::ConcentrationExceeded {
                                symbol: pr.symbol.symbol.clone(),
                                weight_pct: pr.weight_abs,
                                limit_pct: limit,
                            },
                            "position concentration is approaching the configured limit".to_owned(),
                        ),
                    );
                }
            }
            i += 1;
        }

        // Leverage.
        if -AMT_LIMIT <= snap.leverage.m && snap.leverage.m <= AMT_LIMIT {
            let lv = snap.leverage;
            let limit = self.config.risk_limits.max_portfolio_leverage;
            if lv.m >= limit.m {
                send_alert(
                    &self.alert_tx,
                    RiskAlert::new(
                        RiskSeverity::Critical,
                        RiskAlertKind::LeverageExceeded { current_leverage: lv, limit },
                        "leverage exceeds the configured limit".to_owned(),
                    ),
                );
            } else if self.warn_level(limit, lv) {
                send_alert(
                    &self.alert_tx,
                    RiskAlert::new(
                        RiskSeverity::Warning,
                        RiskAlertKind::LeverageExceeded { current_leverage: lv, limit },
                        "leverage is approaching the configured limit".to_owned(),
                    ),
                );
            }
        }

        // Gross exposure.
        match self.config.max_gross_exposure {
            Some(limit) => {
                if -AMT_LIMIT <= snap.gross_exposure.m && snap.gross_exposure.m <= AMT_LIMIT {
                    let ge = snap.gross_exposure;
                    if ge.m >= limit.m {
                        send_alert(
                            &self.alert_tx,
                            RiskAlert::new(
                                RiskSeverity::Critical,
                                RiskAlertKind::GrossExposureExceeded { gross_exposure: ge, limit },
                                "gross exposure exceeds the configured limit".to_owned(),
                            ),
                        );
                    } else if self.warn_level(limit, ge) {
                        send_alert(
                            &self.alert_tx,
                            RiskAlert::new(
                                RiskSeverity::Warning,
                                RiskAlertKind::GrossExposureExceeded { gross_exposure: ge, limit },
                                "gross exposure is approaching the configured limit".to_owned(),
                            ),
                        );
                    }
                }
            },
            None => {},
        }

        // Value-at-Risk.
        match (self.config.max_var_95, snap.var_95) {
            (Some(limit), Some(var)) => {
                if -AMT_LIMIT <= var.m && var.m <= AMT_LIMIT {
                    if var.m >= limit.m {
                        send_alert(
                            &self.alert_tx,
                            RiskAlert::new(
                                RiskSeverity::Critical,
                                RiskAlertKind::VarExceeded { var_pct: var, limit_pct: limit },
                                "value-at-risk exceeds the configured limit".to_owned(),
                            ),
                        );
                    } else if self.warn_level(limit, var) {
                        send_alert(
                            &self.alert_tx,
                            RiskAlert::new(
                                RiskSeverity::Warning,
                                RiskAlertKind::VarExceeded { var_pct: var, limit_pct: limit },
                                "value-at-risk is approaching the configured limit".to_owned(),
                            ),
                        );
                    }
                }
            },
            _ => {},
        }
    }

    /// Whether a value is at or past the warning fraction of a limit.
    fn warn_level(&self, limit: Dec, value: Dec) -> (r: bool)
        requires
            self.cfg().wf(),
            limit.val_ok(),
            -AMT_LIMIT <= value.m <= AMT_LIMIT,
        ensures
            r == (value.m >= mul_m(
                limit.m as int,
                self.cfg().warning_threshold_pct.m as int,
            )),
    {
        proof {
            crate::decimal::lemma_mul_bound(
                limit.m as int,
                self.config.warning_threshold_pct.m as int,
                VAL_LIMIT as int,
                SCALE as int,
            );
        }
        let threshold = limit.mul(self.config.warning_threshold_pct);
        value.m >= threshold.m
    }
}

/// The limits in a well-formed monitor configuration are bounded.
proof fn use_limits_wf(config: RiskMonitorConfig)
    requires
        config.wf(),
    ensures
        config.risk_limits.max_daily_loss.val_ok(),
        config.risk_limits.max_drawdown.val_ok(),
        config.risk_limits.position_concentration_limit.val_ok(),
        config.risk_limits.max_portfolio_leverage.val_ok(),
{
}

} // verus!
