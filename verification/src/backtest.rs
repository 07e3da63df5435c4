//! Backtest request/response types and performance metrics computed
//! from a portfolio's daily-return history.

use vstd::prelude::*;
use vstd::multiset::Multiset;

use crate::decimal::{
    abs_m, div_m, is_floor_sqrt, mul_m, tdiv, Dec, AMT_LIMIT, SCALE, VAL_LIMIT,
};
use crate::host;
use crate::market::{Resolution, Symbol};
use crate::orders::Side;
use crate::portfolio::{DailyReturn, Portfolio};
use crate::strategy::{StrategyConfig, StrategyMetrics};

verus! {

/// Unique backtest identifier.
pub type BacktestId = u128;

/// Slippage model for order execution.
#[derive(Debug, Clone, Copy, PartialEq, Eq, Structural)]
pub enum SlippageModel {
    Disabled,
    Fixed { basis_points: u32 },
    Linear { basis_points: u32 },
    SquareRoot { factor: Dec },
    VolumeWeighted { min_bps: u32, max_bps: u32 },
}

/// Latency model for order execution.
#[derive(Debug, Clone, Copy, PartialEq, Eq, Structural)]
pub enum LatencyModel {
    Disabled,
    Fixed { milliseconds: u64 },
    Random { min_ms: u64, max_ms: u64 },
}

/// Market impact model.
#[derive(Debug, Clone, Copy, PartialEq, Eq, Structural)]
pub enum MarketImpactModel {
    Disabled,
    Linear { factor: Dec },
    SquareRoot { factor: Dec },
    Logarithmic { factor: Dec },
}

/// Execution settings for realistic trading simulation.
#[derive(Debug, Clone, Copy, PartialEq, Eq, Structural)]
pub struct ExecutionSettings {
    pub commission_per_share: Dec,
    pub commission_percentage: Dec,
    pub minimum_commission: Dec,
    pub slippage_model: SlippageModel,
    pub latency_model: LatencyModel,
    pub market_impact_model: MarketImpactModel,
}

impl Default for ExecutionSettings {
    /// $0.001 per share, 0.05%, $1.00 minimum, 5 bps linear slippage,
    /// 100 ms fixed latency.
    fn default() -> (r: ExecutionSettings)
        ensures
            r.commission_per_share.m == 1000,
            r.commission_percentage.m == 500,
            r.minimum_commission.m == SCALE,
            r.slippage_model == (SlippageModel::Linear { basis_points: 5u32 }),
            r.latency_model == (LatencyModel::Fixed { milliseconds: 100u64 }),
    {
        ExecutionSettings {
            commission_per_share: Dec::from_raw(1000),
            commission_percentage: Dec::from_raw(500),
            minimum_commission: Dec::one(),
            slippage_model: SlippageModel::Linear { basis_points: 5 },
            latency_model: LatencyModel::Fixed { milliseconds: 100 },
            market_impact_model: MarketImpactModel::SquareRoot { factor: Dec::from_raw(100) },
        }
    }
}

/// Data settings for a backtest.
#[derive(Debug)]
pub struct DataSettings {
    pub data_source: String,
    pub adjust_for_splits: bool,
    pub adjust_for_dividends: bool,
    pub fill_gaps: bool,
    pub survivor_bias_free: bool,
    pub max_bars_in_memory: usize,
}

impl Clone for DataSettings {
    fn clone(&self) -> (res: DataSettings)
        ensures
            res.data_source@ == self.data_source@,
            res.adjust_for_splits == self.adjust_for_splits,
            res.adjust_for_dividends == self.adjust_for_dividends,
            res.fill_gaps == self.fill_gaps,
            res.survivor_bias_free == self.survivor_bias_free,
            res.max_bars_in_memory == self.max_bars_in_memory,
    {
        DataSettings {
            data_source: self.data_source.clone(),
            adjust_for_splits: self.adjust_for_splits,
            adjust_for_dividends: self.adjust_for_dividends,
            fill_gaps: self.fill_gaps,
            survivor_bias_free: self.survivor_bias_free,
            max_bars_in_memory: self.max_bars_in_memory,
        }
    }
}

impl Default for DataSettings {
    fn default() -> (r: DataSettings)
        ensures
            r.data_source@ == "default"@,
            r.adjust_for_splits,
            r.adjust_for_dividends,
            !r.fill_gaps,
            r.survivor_bias_free,
            r.max_bars_in_memory == 10000,
    {
        DataSettings {
            data_source: "default".to_owned(),
            adjust_for_splits: true,
            adjust_for_dividends: true,
            fill_gaps: false,
            survivor_bias_free: true,
            max_bars_in_memory: 10000,
        }
    }
}

/// Backtest execution status.
#[derive(Debug, Clone, Copy, PartialEq, Eq, Structural)]
pub enum BacktestStatus {
    Pending,
    Running,
    Completed,
    Failed,
    Cancelled,
}

/// Backtest configuration and parameters.
#[derive(Debug)]
pub struct BacktestConfig {
    pub id: BacktestId,
    pub name: String,
    pub description: String,
    pub start_date: i64,
    pub end_date: i64,
    pub initial_capital: Dec,
    pub symbols: Vec<Symbol>,
    pub resolution: Resolution,
    pub strategy_config: StrategyConfig,
    pub execution_settings: ExecutionSettings,
    pub data_settings: DataSettings,
    pub created_at: i64,
}

impl Clone for BacktestConfig {
    fn clone(&self) -> (res: BacktestConfig)
        ensures
            res.id == self.id,
            res.name@ == self.name@,
            res.start_date == self.start_date,
            res.end_date == self.end_date,
            res.initial_capital == self.initial_capital,
            res.symbols@ == self.symbols@,
            res.resolution == self.resolution,
    {
        let mut symbols: Vec<Symbol> = Vec::new();
        let mut k: usize = 0;
        while k < self.symbols.len()
            invariant
                k <= self.symbols@.len(),
                symbols@ =~= self.symbols@.subrange(0, k as int),
            decreases self.symbols@.len() - k,
        {
            symbols.push(self.symbols[k].clone());
            k += 1;
        }
        proof {
            assert(symbols@ =~= self.symbols@);
        }
        BacktestConfig {
            id: self.id,
            name: self.name.clone(),
            description: self.description.clone(),
            start_date: self.start_date,
            end_date: self.end_date,
            initial_capital: self.initial_capital,
            symbols,
            resolution: self.resolution,
            strategy_config: self.strategy_config.clone(),
            execution_settings: self.execution_settings,
            data_settings: self.data_settings.clone(),
            created_at: self.created_at,
        }
    }
}

impl BacktestConfig {
    /// A one-year backtest ending now, with $100,000 capital.
    pub fn new(name: String, strategy_config: StrategyConfig) -> (r: BacktestConfig)
        ensures
            r.name@ == name@,
            r.initial_capital.m == 100000 * SCALE,
            r.symbols@.len() == 0,
            r.resolution == Resolution::Day,
    {
        let now = host::now_millis();
        let year_ms: i64 = 31536000000;
        let start = if now > i64::MIN + year_ms {
            now - year_ms
        } else {
            now
        };
        BacktestConfig {
            id: host::new_id(),
            name,
            description: String::new(),
            start_date: start,
            end_date: now,
            initial_capital: Dec::from_int(100000),
            symbols: Vec::new(),
            resolution: Resolution::Day,
            strategy_config,
            execution_settings: ExecutionSettings::default(),
            data_settings: DataSettings::default(),
            created_at: now,
        }
    }

    pub fn with_symbols(self, symbols: Vec<Symbol>) -> (r: BacktestConfig)
        ensures
            r.symbols@ == symbols@,
            r.initial_capital == self.initial_capital,
            r.start_date == self.start_date,
            r.end_date == self.end_date,
    {
        BacktestConfig { symbols, ..self }
    }

    pub fn with_date_range(self, start: i64, end: i64) -> (r: BacktestConfig)
        ensures
            r.start_date == start,
            r.end_date == end,
            r.symbols@ == self.symbols@,
            r.initial_capital == self.initial_capital,
    {
        BacktestConfig { start_date: start, end_date: end, ..self }
    }

    pub fn with_capital(self, capital: Dec) -> (r: BacktestConfig)
        ensures
            r.initial_capital == capital,
            r.symbols@ == self.symbols@,
            r.start_date == self.start_date,
            r.end_date == self.end_date,
    {
        BacktestConfig { initial_capital: capital, ..self }
    }

    pub fn with_resolution(self, resolution: Resolution) -> (r: BacktestConfig)
        ensures
            r.resolution == resolution,
            r.symbols@ == self.symbols@,
            r.initial_capital == self.initial_capital,
    {
        BacktestConfig { resolution, ..self }
    }
}

/// Point on the equity curve.
#[derive(Debug, Clone, Copy, PartialEq, Eq, Structural)]
pub struct EquityCurvePoint {
    pub timestamp: i64,
    pub portfolio_value: Dec,
    pub cash: Dec,
    pub positions_value: Dec,
    pub total_pnl: Dec,
    pub daily_return: Option<Dec>,
    pub cumulative_return: Dec,
    pub drawdown: Dec,
}

/// Trade record for analysis.
#[derive(Debug)]
pub struct TradeRecord {
    pub id: u128,
    pub symbol: Symbol,
    pub entry_time: i64,
    pub exit_time: Option<i64>,
    pub entry_price: Dec,
    pub exit_price: Option<Dec>,
    pub quantity: Dec,
    pub side: Side,
    pub pnl: Option<Dec>,
    pub commission: Dec,
    pub duration_hours: Option<Dec>,
    pub strategy_id: String,
    pub tags: Vec<String>,
}

impl Clone for TradeRecord {
    fn clone(&self) -> (res: TradeRecord)
        ensures
            res.id == self.id,
            res.pnl == self.pnl,
            res.quantity == self.quantity,
            res.side == self.side,
    {
        let mut tags: Vec<String> = Vec::new();
        let mut i: usize = 0;
        while i < self.tags.len()
            decreases self.tags@.len() - i,
        {
            tags.push(self.tags[i].clone());
            i += 1;
        }
        TradeRecord {
            id: self.id,
            symbol: self.symbol.clone(),
            entry_time: self.entry_time,
            exit_time: self.exit_time,
            entry_price: self.entry_price,
            exit_price: self.exit_price,
            quantity: self.quantity,
            side: self.side,
            pnl: self.pnl,
            commission: self.commission,
            duration_hours: self.duration_hours,
            strategy_id: self.strategy_id.clone(),
            tags,
        }
    }
}

/// Every return observation within sensible bounds: the return a
/// fraction of magnitude at most 100, the portfolio value an amount.
pub open spec fn returns_ok(s: Seq<DailyReturn>) -> bool {
    forall|i: int|
        0 <= i < s.len() ==> -100 * SCALE <= (#[trigger] s[i]).daily_return.m <= 100 * SCALE
            && (-100_000_000_000_000_000_000_000_000_000 <= s[i].portfolio_value.m
            <= 100_000_000_000_000_000_000_000_000_000)
}

/// Sum of return mantissas.
pub open spec fn sum_returns(s: Seq<DailyReturn>) -> int
    decreases s.len(),
{
    if s.len() == 0 {
        0
    } else {
        sum_returns(s.drop_last()) + s.last().daily_return.m
    }
}

/// Maximum drawdown over a value history: the largest peak-to-trough
/// fall as a fraction of the peak.
pub open spec fn max_drawdown_m(initial: Dec, s: Seq<DailyReturn>) -> int
    decreases s.len(),
{
    max_dd_rec(initial.m as int, 0, s)
}

/// Helper: fold over the history tracking the running peak and the
/// worst drawdown so far.
pub open spec fn max_dd_rec(peak: int, worst: int, s: Seq<DailyReturn>) -> int
    decreases s.len(),
{
    if s.len() == 0 {
        worst
    } else {
        let v = s.first().portfolio_value.m as int;
        let peak2 = if v > peak {
            v
        } else {
            peak
        };
        let dd = if peak2 > 0 {
            div_m(peak2 - v, peak2)
        } else {
            0
        };
        let worst2 = if dd > worst {
            dd
        } else {
            worst
        };
        max_dd_rec(peak2, worst2, s.drop_first())
    }
}

/// Mantissas sorted ascending.
/// Sum of the mantissas of a value sequence.
pub open spec fn sum_m(s: Seq<Dec>) -> int
    decreases s.len(),
{
    if s.len() == 0 {
        0
    } else {
        sum_m(s.drop_last()) + s.last().m
    }
}

/// A truncating mean of a sum bounded by `n * b` is itself at most `b`.
proof fn lemma_tdiv_le_of_bound(a: int, n: int, b: int)
    requires
        n >= 1,
        a <= n * b,
    ensures
        tdiv(a, n) <= b,
{
    if a == 0 {
        assert(b >= 0) by (nonlinear_arith)
            requires
                n >= 1,
                0 <= n * b,
        ;
    } else if a > 0 {
        assert(b > 0) by (nonlinear_arith)
            requires
                n >= 1,
                0 < a <= n * b,
        ;
        vstd::arithmetic::div_mod::lemma_div_is_ordered(a, n * b, n);
        vstd::arithmetic::div_mod::lemma_div_multiples_vanish(b, n);
        assert(n * b == b * n) by (nonlinear_arith);
    } else {
        if b >= 0 {
            vstd::arithmetic::div_mod::lemma_div_pos_is_pos(-a, n);
        } else {
            assert(n * (-b) <= -a) by (nonlinear_arith)
                requires
                    a <= n * b,
            ;
            vstd::arithmetic::div_mod::lemma_div_is_ordered(n * (-b), -a, n);
            vstd::arithmetic::div_mod::lemma_div_multiples_vanish(-b, n);
            assert(n * (-b) == (-b) * n) by (nonlinear_arith);
        }
    }
}

pub open spec fn sorted_m(s: Seq<Dec>) -> bool {
    forall|i: int, j: int| 0 <= i < j < s.len() ==> (#[trigger] s[i]).m <= (#[trigger] s[j]).m
}

/// Sort values ascending; the result is a permutation of the input.
pub fn sort_decs(v: Vec<Dec>) -> (r: Vec<Dec>)
    ensures
        sorted_m(r@),
        r@.to_multiset() == v@.to_multiset(),
        r@.len() == v@.len(),
{
    broadcast use vstd::seq_lib::group_to_multiset_ensures;

    let mut work = v;
    let mut out: Vec<Dec> = Vec::new();
    proof {
        assert(out@.to_multiset().add(work@.to_multiset()) =~= work@.to_multiset());
    }
    while work.len() > 0
        invariant
            sorted_m(out@),
            out@.to_multiset().add(work@.to_multiset()) == v@.to_multiset(),
            out@.len() + work@.len() == v@.len(),
            forall|a: int, b: int|
                0 <= a < out@.len() && 0 <= b < work@.len() ==> (#[trigger] out@[a]).m <= (
                #[trigger] work@[b]).m,
        decreases work@.len(),
    {
        // Select the minimum of the remaining values.
        let mut mi: usize = 0;
        let mut k: usize = 1;
        while k < work.len()
            invariant
                mi < k <= work@.len(),
                work@.len() > 0,
                forall|t: int| 0 <= t < k ==> work@[mi as int].m <= (#[trigger] work@[t]).m,
            decreases work@.len() - k,
        {
            if work[k].m < work[mi].m {
                mi = k;
            }
            k += 1;
        }
        let ghost w0 = work@;
        let ghost o0 = out@;
        let mn = work.remove(mi);
        out.push(mn);
        proof {
            assert(w0[mi as int] == mn);
            assert(w0.contains(mn));
            assert(work@ == w0.remove(mi as int));
            vstd::seq_lib::to_multiset_remove(w0, mi as int);
            assert(out@ == o0.push(mn));
            vstd::seq_lib::to_multiset_build(o0, mn);
            vstd::seq_lib::to_multiset_contains(w0, mn);
            assert(w0.to_multiset().contains(mn));
            assert(out@.to_multiset().add(work@.to_multiset()) =~= o0.to_multiset().add(
                w0.to_multiset(),
            ));
            assert forall|a: int, b: int|
                0 <= a < out@.len() && 0 <= b < work@.len() implies (#[trigger] out@[a]).m <= (
            #[trigger] work@[b]).m by {
                let wb = work@[b];
                if b < mi as int {
                    assert(work@[b] == w0[b]);
                } else {
                    assert(work@[b] == w0[b + 1]);
                }
                if a < o0.len() {
                    assert(out@[a] == o0[a]);
                    assert(w0.contains(wb)) by {
                        if b < mi as int {
                        } else {
                        }
                    }
                } else {
                    assert(out@[a] == mn);
                }
            }
            assert(sorted_m(out@)) by {
                assert forall|a: int, b: int| 0 <= a < b < out@.len() implies (
                #[trigger] out@[a]).m <= (#[trigger] out@[b]).m by {
                    if b < o0.len() {
                        assert(out@[a] == o0[a] && out@[b] == o0[b]);
                    } else {
                        assert(out@[b] == mn);
                        assert(out@[a] == o0[a]);
                        assert(w0[mi as int] == mn);
                    }
                }
            }
        }
    }
    proof {
        vstd::seq_lib::to_multiset_len(work@);
        vstd::multiset::lemma_multiset_empty_len(work@.to_multiset());
        assert(work@.to_multiset() =~= Multiset::<Dec>::empty());
        assert(out@.to_multiset().add(work@.to_multiset()) =~= out@.to_multiset());
    }
    out
}

/// Performance metrics for backtest evaluation.
#[derive(Debug, Clone, Copy, PartialEq, Eq, Structural)]
pub struct PerformanceMetrics {
    pub total_return: Dec,
    pub annualized_return: Dec,
    pub volatility: Dec,
    pub sharpe_ratio: Option<Dec>,
    pub sortino_ratio: Option<Dec>,
    pub calmar_ratio: Option<Dec>,
    pub max_drawdown: Dec,
    pub max_drawdown_duration_days: Option<u32>,
    pub var_95: Option<Dec>,
    pub cvar_95: Option<Dec>,
    pub beta: Option<Dec>,
    pub alpha: Option<Dec>,
    pub information_ratio: Option<Dec>,
    pub skewness: Option<Dec>,
    pub kurtosis: Option<Dec>,
    pub win_rate: Dec,
    pub profit_factor: Option<Dec>,
    pub average_win: Dec,
    pub average_loss: Dec,
    pub largest_win: Dec,
    pub largest_loss: Dec,
    pub total_trades: u64,
    pub total_commissions: Dec,
}

impl PerformanceMetrics {
    /// Compute all portfolio-level metrics. Value-at-Risk and its
    /// conditional variant require at least twenty observations and
    /// are `None` below that; with enough history the reported VaR is
    /// the negated 5th-percentile daily return and the CVaR the
    /// negated mean of the tail at or below it.
    pub fn calculate(portfolio: &Portfolio) -> (r: PerformanceMetrics)
        requires
            portfolio.wf(),
            returns_ok(portfolio.daily_returns@),
            portfolio.daily_returns@.len() < 1000000,
        ensures
            r.total_return.m == portfolio.total_return_m(),
            r.max_drawdown.m == max_drawdown_m(
                portfolio.initial_capital,
                portfolio.daily_returns@,
            ),
            r.var_95 is Some <==> portfolio.daily_returns@.len() >= 20,
            r.cvar_95 is Some <==> portfolio.daily_returns@.len() >= 20,
            portfolio.daily_returns@.len() >= 20 ==> exists|sorted: Seq<Dec>|
                {
                    &&& #[trigger] sorted_m(sorted)
                    &&& sorted.to_multiset() == portfolio.daily_returns@.map_values(
                        |d: DailyReturn| d.daily_return,
                    ).to_multiset()
                    &&& sorted.len() == portfolio.daily_returns@.len()
                    &&& r.var_95 == Some(
                        Dec { m: (-sorted[sorted.len() as int / 20].m) as i128 },
                    )
                    &&& r.cvar_95 == Some(
                        Dec {
                            m: (-tdiv(
                                sum_m(sorted.take(sorted.len() as int / 20 + 1)),
                                sorted.len() as int / 20 + 1,
                            )) as i128,
                        },
                    )
                },
            portfolio.daily_returns@.len() >= 20 ==> (match (r.var_95, r.cvar_95) {
                (Some(v), Some(c)) => c.m >= v.m,
                _ => false,
            }),
            r.beta is None,
            r.alpha is None,
            r.information_ratio is None,
            portfolio.daily_returns@.len() < 3 ==> r.skewness is None,
            portfolio.daily_returns@.len() < 4 ==> r.kurtosis is None,
            r.win_rate.m == 0,
            r.total_trades == 0,
            r.total_commissions == portfolio.total_commissions,
    {
        let daily_returns = &portfolio.daily_returns;
        let (var_95, cvar_95) = Self::calculate_var_cvar_95(daily_returns);
        PerformanceMetrics {
            total_return: portfolio.get_total_return(),
            annualized_return: Self::calculate_annualized_return(daily_returns),
            volatility: Self::calculate_volatility(daily_returns),
            sharpe_ratio: Self::calculate_sharpe(daily_returns, Dec::from_raw(20000)),
            sortino_ratio: Self::calculate_sortino_ratio(daily_returns, Dec::from_raw(20000)),
            calmar_ratio: Self::calculate_calmar_ratio(
                daily_returns,
                Dec::from_raw(
                    max_dd_exec(portfolio.initial_capital, daily_returns),
                ),
            ),
            max_drawdown: Dec::from_raw(max_dd_exec(portfolio.initial_capital, daily_returns)),
            max_drawdown_duration_days: Self::calculate_max_drawdown_duration(daily_returns),
            var_95,
            cvar_95,
            beta: None,
            alpha: None,
            information_ratio: None,
            skewness: Self::calculate_skewness(daily_returns),
            kurtosis: Self::calculate_kurtosis(daily_returns),
            win_rate: Dec::zero(),
            profit_factor: None,
            average_win: Dec::zero(),
            average_loss: Dec::zero(),
            largest_win: Dec::zero(),
            largest_loss: Dec::zero(),
            total_trades: 0,
            total_commissions: portfolio.total_commissions,
        }
    }

    /// Simple annualization: total return divided by years of history
    /// (252 trading days per year).
    fn calculate_annualized_return(daily_returns: &Vec<DailyReturn>) -> (r: Dec)
        requires
            returns_ok(daily_returns@),
            daily_returns@.len() < 1000000,
        ensures
            daily_returns@.len() == 0 ==> r.m == 0,
    {
        if daily_returns.len() == 0 {
            return Dec::zero();
        }
        let total_return = daily_returns[daily_returns.len() - 1].cumulative_return;
        let years = Dec::from_int(daily_returns.len() as i64).div(Dec::from_int(252));
        if years.m > 0 && -i128::MAX / SCALE <= total_return.m && total_return.m <= i128::MAX
            / SCALE {
            total_return.div(years)
        } else {
            Dec::zero()
        }
    }

    /// Annualized standard deviation of daily returns.
    fn calculate_volatility(daily_returns: &Vec<DailyReturn>) -> (r: Dec)
        requires
            returns_ok(daily_returns@),
            daily_returns@.len() < 1000000,
        ensures
            daily_returns@.len() < 2 ==> r.m == 0,
            r.m >= 0,
    {
        if daily_returns.len() < 2 {
            return Dec::zero();
        }
        let n = daily_returns.len();
        let mean = Self::mean_return(daily_returns);
        let variance = Self::variance_around(daily_returns, mean);
        let std_dev = variance.sqrt();
        proof {
            assert(std_dev.m * std_dev.m <= variance.m * SCALE);
            assert(std_dev.m <= 100_000_000_000_000_000) by (nonlinear_arith)
                requires
                    std_dev.m >= 0,
                    std_dev.m * std_dev.m <= variance.m * SCALE,
                    0 <= variance.m <= 10_000_000_000_000_000_000_000_000_000,
            ;
        }
        let ann = Dec::from_int(252).sqrt();
        proof {
            assert(ann.m >= 0);
            assert(ann.m <= 20_000_000) by (nonlinear_arith)
                requires
                    ann.m >= 0,
                    ann.m * ann.m <= 252 * SCALE * SCALE,
            ;
            crate::decimal::lemma_mul_bound(
                std_dev.m as int,
                ann.m as int,
                100_000_000_000_000_000,
                20_000_000,
            );
            crate::decimal::lemma_tdiv_abs(std_dev.m * ann.m, SCALE as int);
        }
        std_dev.mul(ann)
    }

    /// Mean daily return.
    fn mean_return(daily_returns: &Vec<DailyReturn>) -> (r: Dec)
        requires
            returns_ok(daily_returns@),
            1 <= daily_returns@.len() < 1000000,
        ensures
            r.m == tdiv_pub(sum_returns(daily_returns@), daily_returns@.len() as int),
            -100 * SCALE <= r.m <= 100 * SCALE,
    {
        let ghost s = daily_returns@;
        let mut acc: i128 = 0;
        let mut i: usize = 0;
        proof {
            assert(s.subrange(0, 0) =~= Seq::<DailyReturn>::empty());
        }
        while i < daily_returns.len()
            invariant
                i <= s.len(),
                daily_returns@ == s,
                returns_ok(s),
                s.len() < 1000000,
                acc == sum_returns(s.subrange(0, i as int)),
                -(i as int) * 100 * SCALE <= acc <= (i as int) * 100 * SCALE,
            decreases s.len() - i,
        {
            proof {
                assert(s.subrange(0, i as int + 1).drop_last() =~= s.subrange(0, i as int));
                assert(s.subrange(0, i as int + 1).last() == s[i as int]);
                assert(s[i as int] == daily_returns@[i as int]);
            }
            acc = acc + daily_returns[i].daily_return.m;
            i += 1;
        }
        proof {
            assert(s.subrange(0, s.len() as int) =~= s);
            crate::decimal::lemma_tdiv_abs(acc as int, s.len() as int);
            vstd::arithmetic::div_mod::lemma_div_is_ordered(
                abs_m(acc as int),
                s.len() * 100 * SCALE,
                s.len() as int,
            );
            vstd::arithmetic::div_mod::lemma_div_multiples_vanish(
                100 * SCALE as int,
                s.len() as int,
            );
            assert(s.len() * 100 * SCALE == s.len() * (100 * SCALE));
        }
        let n: i128 = daily_returns.len() as i128;
        match acc.checked_div(n) {
            Some(q) => Dec::from_raw(q),
            None => Dec::zero(),
        }
    }

    /// Sample variance of daily returns around `mean` (denominator
    /// `n - 1`).
    fn variance_around(daily_returns: &Vec<DailyReturn>, mean: Dec) -> (r: Dec)
        requires
            returns_ok(daily_returns@),
            2 <= daily_returns@.len() < 1000000,
            -100 * SCALE <= mean.m <= 100 * SCALE,
        ensures
            0 <= r.m <= 10_000_000_000_000_000_000_000_000_000,
    {
        let ghost s = daily_returns@;
        let mut acc: i128 = 0;
        let mut i: usize = 0;
        while i < daily_returns.len()
            invariant
                i <= s.len(),
                daily_returns@ == s,
                returns_ok(s),
                s.len() < 1000000,
                -100 * SCALE <= mean.m <= 100 * SCALE,
                0 <= acc <= (i as int) * 40_000_000_000,
            decreases s.len() - i,
        {
            proof {
                assert(s[i as int] == daily_returns@[i as int]);
                let d = (daily_returns@[i as int].daily_return.m - mean.m) as int;
                crate::decimal::lemma_mul_bound(d, d, 200_000_000int, 200_000_000int);
                assert(d * d >= 0) by (nonlinear_arith);
                crate::decimal::lemma_tdiv_abs(d * d, SCALE as int);
                vstd::arithmetic::div_mod::lemma_div_is_ordered(
                    abs_m(d * d),
                    40_000_000_000_000_000int,
                    SCALE as int,
                );
                vstd::arithmetic::div_mod::lemma_div_multiples_vanish(
                    40_000_000_000int,
                    SCALE as int,
                );
                assert(40_000_000_000_000_000int == SCALE * 40_000_000_000int);
            }
            let diff = daily_returns[i].daily_return.sub(mean);
            let sq = diff.mul(diff);
            acc = acc + sq.m;
            i += 1;
        }
        let n: i128 = daily_returns.len() as i128;
        match acc.checked_div(n - 1) {
            Some(q) => {
                proof {
                    crate::decimal::lemma_tdiv_abs(acc as int, n - 1 as int);
                    vstd::arithmetic::div_mod::lemma_div_is_ordered(
                        acc as int,
                        (n - 1) * 10_000_000_000_000_000_000_000_000_000,
                        n - 1 as int,
                    );
                    vstd::arithmetic::div_mod::lemma_div_multiples_vanish(
                        10_000_000_000_000_000_000_000_000_000,
                        n - 1 as int,
                    );
                    assert((n - 1) * 10_000_000_000_000_000_000_000_000_000 == (n - 1)
                        * 10_000_000_000_000_000_000_000_000_000int);
                    assert(acc <= (n - 1) * 10_000_000_000_000_000_000_000_000_000)
                        by (nonlinear_arith)
                        requires
                            0 <= acc <= (n as int) * 40_000_000_000,
                            2 <= n < 1000000,
                    ;
                    vstd::arithmetic::div_mod::lemma_div_pos_is_pos(acc as int, n - 1 as int);
                }
                Dec::from_raw(q)
            },
            None => Dec::zero(),
        }
    }

    /// Annualized Sharpe ratio of excess returns over the given
    /// annual risk-free rate; `None` with fewer than two observations
    /// or zero volatility.
    fn calculate_sharpe(daily_returns: &Vec<DailyReturn>, risk_free_rate: Dec) -> (r: Option<Dec>)
        requires
            returns_ok(daily_returns@),
            daily_returns@.len() < 1000000,
            0 <= risk_free_rate.m <= SCALE,
        ensures
            daily_returns@.len() < 2 ==> r is None,
    {
        if daily_returns.len() < 2 {
            return None;
        }
        let mean = Self::mean_return(daily_returns);
        let daily_rf = risk_free_rate.div(Dec::from_int(252));
        proof {
            crate::decimal::lemma_tdiv_shrinks(risk_free_rate.m * SCALE, 252 * SCALE as int);
        }
        let excess = mean.sub(daily_rf);
        let variance = Self::variance_around(daily_returns, mean);
        let std_dev = variance.sqrt();
        proof {
            assert(std_dev.m <= 100_000_000_000_000_000) by (nonlinear_arith)
                requires
                    std_dev.m >= 0,
                    std_dev.m * std_dev.m <= variance.m * SCALE,
                    0 <= variance.m <= 10_000_000_000_000_000_000_000_000_000,
            ;
        }
        if std_dev.m > 0 {
            let ann = Dec::from_int(252).sqrt();
            proof {
                assert(ann.m <= 20_000_000) by (nonlinear_arith)
                    requires
                        ann.m >= 0,
                        ann.m * ann.m <= 252 * SCALE * SCALE,
                ;
                crate::decimal::lemma_tdiv_shrinks(excess.m * SCALE, std_dev.m as int);
                crate::decimal::lemma_mul_bound(
                    div_m(excess.m as int, std_dev.m as int),
                    ann.m as int,
                    201_000_000 * SCALE as int,
                    20_000_000,
                );
            }
            Some(excess.div(std_dev).mul(ann))
        } else {
            None
        }
    }

    /// Sortino ratio: annualized return over downside deviation;
    /// `None` for an empty history or zero downside deviation, a
    /// large sentinel when there is no downside at all.
    fn calculate_sortino_ratio(daily_returns: &Vec<DailyReturn>, risk_free_rate: Dec) -> (r:
        Option<Dec>)
        requires
            returns_ok(daily_returns@),
            daily_returns@.len() < 1000000,
            0 <= risk_free_rate.m <= SCALE,
        ensures
            daily_returns@.len() == 0 ==> r is None,
    {
        if daily_returns.len() == 0 {
            return None;
        }
        let annual_return = Self::calculate_annualized_return(daily_returns);
        let daily_rf = risk_free_rate.div(Dec::from_int(252));
        proof {
            crate::decimal::lemma_tdiv_shrinks(risk_free_rate.m * SCALE, 252 * SCALE as int);
        }

        // Downside deviation over returns below the daily risk-free
        // rate.
        let mut acc: i128 = 0;
        let mut count: i128 = 0;
        let mut i: usize = 0;
        while i < daily_returns.len()
            invariant
                i <= daily_returns@.len(),
                returns_ok(daily_returns@),
                daily_returns@.len() < 1000000,
                -SCALE <= daily_rf.m <= SCALE,
                0 <= acc <= count * 40_804_000_000,
                0 <= count <= i as int,
            decreases daily_returns@.len() - i,
        {
            proof {
                let d = (daily_returns@[i as int].daily_return.m - daily_rf.m) as int;
                crate::decimal::lemma_mul_bound(d, d, 202_000_000int, 202_000_000int);
                assert(d * d >= 0) by (nonlinear_arith);
                crate::decimal::lemma_tdiv_abs(d * d, SCALE as int);
                vstd::arithmetic::div_mod::lemma_div_is_ordered(
                    abs_m(d * d),
                    40_804_000_000_000_000int,
                    SCALE as int,
                );
                vstd::arithmetic::div_mod::lemma_div_multiples_vanish(
                    40_804_000_000int,
                    SCALE as int,
                );
                assert(40_804_000_000_000_000int == SCALE * 40_804_000_000int);
            }
            let excess = daily_returns[i].daily_return.sub(daily_rf);
            if excess.m < 0 {
                let sq = excess.mul(excess);
                acc = acc + sq.m;
                count = count + 1;
            }
            i += 1;
        }

        if count == 0 {
            return Some(Dec::from_int(9999));
        }
        let downside_variance = match acc.checked_div(count) {
            Some(q) => Dec::from_raw(q),
            None => Dec::zero(),
        };
        proof {
            crate::decimal::lemma_tdiv_abs(acc as int, count as int);
            vstd::arithmetic::div_mod::lemma_div_is_ordered(
                acc as int,
                count * 40_804_000_000,
                count as int,
            );
            vstd::arithmetic::div_mod::lemma_div_multiples_vanish(40_804_000_000int, count as int);
            assert(count * 40_804_000_000 == 40_804_000_000 * count) by (nonlinear_arith);
            vstd::arithmetic::div_mod::lemma_div_pos_is_pos(acc as int, count as int);
        }
        let downside_std = downside_variance.sqrt();
        proof {
            assert(downside_std.m <= 100_000_000_000_000_000) by (nonlinear_arith)
                requires
                    downside_std.m >= 0,
                    downside_std.m * downside_std.m <= downside_variance.m * SCALE,
                    0 <= downside_variance.m <= 10_000_000_000_000_000_000_000_000_000,
            ;
        }
        let ann = Dec::from_int(252).sqrt();
        proof {
            assert(ann.m <= 20_000_000) by (nonlinear_arith)
                requires
                    ann.m >= 0,
                    ann.m * ann.m <= 252 * SCALE * SCALE,
            ;
            crate::decimal::lemma_mul_bound(
                downside_std.m as int,
                ann.m as int,
                100_000_000_000_000_000,
                20_000_000,
            );
            crate::decimal::lemma_tdiv_abs(downside_std.m * ann.m, SCALE as int);
        }
        let annualized_downside = downside_std.mul(ann);
        if annualized_downside.m > 0 && -100_000_000_000_000_000_000_000_000_000_000
            <= annual_return.m && annual_return.m <= 100_000_000_000_000_000_000_000_000_000_000 {
            let excess_annual = annual_return.sub(risk_free_rate);
            proof {
                crate::decimal::lemma_tdiv_shrinks(
                    excess_annual.m * SCALE,
                    annualized_downside.m as int,
                );
            }
            Some(excess_annual.div(annualized_downside))
        } else {
            None
        }
    }

    /// Calmar ratio: annualized return over maximum drawdown; `None`
    /// when there was no drawdown.
    fn calculate_calmar_ratio(daily_returns: &Vec<DailyReturn>, max_drawdown: Dec) -> (r: Option<
        Dec,
    >)
        requires
            returns_ok(daily_returns@),
            daily_returns@.len() < 1000000,
        ensures
            max_drawdown.m <= 0 ==> r is None,
    {
        if max_drawdown.m <= 0 {
            return None;
        }
        let annual_return = Self::calculate_annualized_return(daily_returns);
        if -i128::MAX / SCALE <= annual_return.m && annual_return.m <= i128::MAX / SCALE {
            proof {
                vstd::arithmetic::div_mod::lemma_div_pos_is_pos(i128::MAX as int, SCALE as int);
                crate::decimal::lemma_div_mul_le(i128::MAX as int, SCALE as int);
                assert(annual_return.m * SCALE <= (i128::MAX / SCALE) * SCALE)
                    by (nonlinear_arith)
                    requires
                        annual_return.m <= i128::MAX / SCALE,
                        SCALE >= 1,
                ;
                assert(-((i128::MAX / SCALE) * SCALE) <= annual_return.m * SCALE)
                    by (nonlinear_arith)
                    requires
                        -(i128::MAX / SCALE) <= annual_return.m,
                        SCALE >= 1,
                ;
            }
            Some(annual_return.div(max_drawdown))
        } else {
            None
        }
    }

    /// Longest run of days spent below the running equity peak.
    fn calculate_max_drawdown_duration(daily_returns: &Vec<DailyReturn>) -> (r: Option<u32>)
        ensures
            daily_returns@.len() == 0 ==> r is None,
    {
        if daily_returns.len() == 0 {
            return None;
        }
        let mut peak = daily_returns[0].portfolio_value;
        let mut max_duration: u32 = 0;
        let mut current_duration: u32 = 0;
        let mut i: usize = 0;
        while i < daily_returns.len()
            invariant
                i <= daily_returns@.len(),
                current_duration <= i,
                max_duration <= i,
                i <= u32::MAX,
            decreases daily_returns@.len() - i,
        {
            proof {
                assert(daily_returns@.len() <= usize::MAX);
            }
            if i >= 4294967295usize {
                return if max_duration > 0 {
                    Some(max_duration)
                } else {
                    None
                };
            }
            let v = daily_returns[i].portfolio_value;
            if v.m > peak.m {
                peak = v;
                current_duration = 0;
            } else {
                current_duration = current_duration + 1;
                if current_duration > max_duration {
                    max_duration = current_duration;
                }
            }
            i += 1;
        }
        if max_duration > 0 {
            Some(max_duration)
        } else {
            None
        }
    }

    /// 95% VaR and CVaR from the daily-return history: `None` below
    /// twenty observations; otherwise VaR is the negated 5th
    /// percentile and CVaR the negated mean of the tail up to it.
    pub fn calculate_var_cvar_95(daily_returns: &Vec<DailyReturn>) -> (r: (
        Option<Dec>,
        Option<Dec>,
    ))
        requires
            returns_ok(daily_returns@),
            daily_returns@.len() < 1000000,
        ensures
            r.0 is Some <==> daily_returns@.len() >= 20,
            r.1 is Some <==> daily_returns@.len() >= 20,
            daily_returns@.len() >= 20 ==> exists|sorted: Seq<Dec>|
                {
                    &&& #[trigger] sorted_m(sorted)
                    &&& sorted.to_multiset() == daily_returns@.map_values(
                        |d: DailyReturn| d.daily_return,
                    ).to_multiset()
                    &&& sorted.len() == daily_returns@.len()
                    &&& r.0 == Some(Dec { m: (-sorted[sorted.len() as int / 20].m) as i128 })
                    &&& r.1 == Some(
                        Dec {
                            m: (-tdiv(
                                sum_m(sorted.take(sorted.len() as int / 20 + 1)),
                                sorted.len() as int / 20 + 1,
                            )) as i128,
                        },
                    )
                },
            daily_returns@.len() >= 20 ==> (match (r.0, r.1) {
                (Some(v), Some(c)) => c.m >= v.m,
                _ => false,
            }),
    {
        broadcast use vstd::seq_lib::group_to_multiset_ensures;

        if daily_returns.len() < 20 {
            return (None, None);
        }
        let mut rets: Vec<Dec> = Vec::new();
        let mut i: usize = 0;
        proof {
            assert(rets@ =~= daily_returns@.subrange(0, 0).map_values(
                |d: DailyReturn| d.daily_return,
            ));
        }
        while i < daily_returns.len()
            invariant
                i <= daily_returns@.len(),
                returns_ok(daily_returns@),
                rets@ == daily_returns@.subrange(0, i as int).map_values(
                    |d: DailyReturn| d.daily_return,
                ),
            decreases daily_returns@.len() - i,
        {
            rets.push(daily_returns[i].daily_return);
            proof {
                assert(rets@ =~= daily_returns@.subrange(0, i as int + 1).map_values(
                    |d: DailyReturn| d.daily_return,
                ));
            }
            i += 1;
        }
        proof {
            assert(daily_returns@.subrange(0, daily_returns@.len() as int) =~= daily_returns@);
        }
        let ghost rv = rets@;
        let sorted = sort_decs(rets);
        let idx = sorted.len() / 20;
        proof {
            assert(sorted@.len() == daily_returns@.len());
            assert(0 <= idx < sorted@.len());
            assert forall|k: int| 0 <= k < sorted@.len() implies -100 * SCALE <= (
            #[trigger] sorted@[k]).m <= 100 * SCALE by {
                assert(sorted@.to_multiset().contains(sorted@[k]));
                assert(rv.to_multiset().contains(sorted@[k]));
                assert(rv.contains(sorted@[k]));
                let w = choose|w: int| 0 <= w < rv.len() && rv[w] == sorted@[k];
                assert(daily_returns@[w].daily_return == rv[w]);
            }
        }
        let var = Dec::from_raw(-sorted[idx].m);

        // CVaR: mean of the tail up to and including the index.
        let mut acc: i128 = 0;
        let mut k: usize = 0;
        proof {
            assert(sorted@.take(0).len() == 0);
        }
        while k <= idx
            invariant
                k <= idx + 1,
                idx < sorted@.len(),
                sorted_m(sorted@),
                forall|t: int|
                    0 <= t < sorted@.len() ==> -100 * SCALE <= (#[trigger] sorted@[t]).m <= 100
                        * SCALE,
                sorted@.len() < 1000000,
                -(k as int) * 100 * SCALE <= acc <= (k as int) * 100 * SCALE,
                acc == sum_m(sorted@.take(k as int)),
                acc <= (k as int) * sorted@[idx as int].m,
            decreases idx - k + 1,
        {
            proof {
                assert(sorted@.take(k as int + 1).drop_last() =~= sorted@.take(k as int));
                assert(sorted@.take(k as int + 1).last() == sorted@[k as int]);
                assert(sorted@[k as int].m <= sorted@[idx as int].m);
                assert((k as int) * sorted@[idx as int].m + sorted@[idx as int].m == (k as int + 1)
                    * sorted@[idx as int].m) by (nonlinear_arith);
            }
            acc = acc + sorted[k].m;
            k += 1;
        }
        let tail_len: i128 = (idx + 1) as i128;
        proof {
            lemma_tdiv_le_of_bound(acc as int, tail_len as int, sorted@[idx as int].m as int);
            crate::decimal::lemma_tdiv_shrinks(acc as int, tail_len as int);
        }
        let cvar = match acc.checked_div(tail_len) {
            Some(q) => {
                if q > i128::MIN {
                    Dec::from_raw(-q)
                } else {
                    Dec::zero()
                }
            },
            None => Dec::zero(),
        };
        proof {
            let ghost witness = sorted@;
            assert(sorted_m(witness));
            assert(witness.take(idx as int + 1) =~= sorted@.take(idx as int + 1));
        }
        (Some(var), Some(cvar))
    }

    /// Skewness of the return distribution; `None` below three
    /// observations or at zero dispersion.
    fn calculate_skewness(daily_returns: &Vec<DailyReturn>) -> (r: Option<Dec>)
        requires
            returns_ok(daily_returns@),
            daily_returns@.len() < 1000000,
        ensures
            daily_returns@.len() < 3 ==> r is None,
    {
        if daily_returns.len() < 3 {
            return None;
        }
        let mean = Self::mean_return(daily_returns);
        let variance = Self::variance_around(daily_returns, mean);
        let std_dev = variance.sqrt();
        if std_dev.m <= 0 {
            return None;
        }
        let mut acc: i128 = 0;
        let mut i: usize = 0;
        while i < daily_returns.len()
            invariant
                i <= daily_returns@.len(),
                returns_ok(daily_returns@),
                daily_returns@.len() < 1000000,
                -100 * SCALE <= mean.m <= 100 * SCALE,
                std_dev.m > 0,
                -(i as int) * 1_000_000_000_000_000_000_000_000 <= acc <= (i as int)
                    * 1_000_000_000_000_000_000_000_000,
            decreases daily_returns@.len() - i,
        {
            let diff = daily_returns[i].daily_return.sub(mean);
            proof {
                crate::decimal::lemma_tdiv_shrinks(diff.m * SCALE, std_dev.m as int);
            }
            let st = diff.div(std_dev);
            // Standardized values beyond 1000000 are rejected as
            // degenerate.
            if st.m < -1_000_000_000_000 || st.m > 1_000_000_000_000 {
                return None;
            }
            proof {
                crate::decimal::lemma_mul_bound(
                    st.m as int,
                    st.m as int,
                    1_000_000_000_000,
                    1_000_000_000_000,
                );
                crate::decimal::lemma_tdiv_abs(st.m * st.m, SCALE as int);
                vstd::arithmetic::div_mod::lemma_div_is_ordered(
                    abs_m(st.m * st.m as int),
                    1_000_000_000_000_000_000_000_000,
                    SCALE as int,
                );
                vstd::arithmetic::div_mod::lemma_div_multiples_vanish(
                    1_000_000_000_000_000_000,
                    SCALE as int,
                );
                assert(1_000_000_000_000_000_000_000_000int == SCALE * 1_000_000_000_000_000_000);
            }
            let st2 = st.mul(st);
            proof {
                crate::decimal::lemma_mul_bound(
                    st2.m as int,
                    st.m as int,
                    1_000_000_000_000_000_000,
                    1_000_000_000_000,
                );
                crate::decimal::lemma_tdiv_abs(st2.m * st.m, SCALE as int);
                vstd::arithmetic::div_mod::lemma_div_is_ordered(
                    abs_m(st2.m * st.m as int),
                    1_000_000_000_000_000_000_000_000_000_000,
                    SCALE as int,
                );
                vstd::arithmetic::div_mod::lemma_div_multiples_vanish(
                    1_000_000_000_000_000_000_000_000,
                    SCALE as int,
                );
                assert(1_000_000_000_000_000_000_000_000_000_000int == SCALE
                    * 1_000_000_000_000_000_000_000_000);
            }
            let st3 = st2.mul(st);
            acc = acc + st3.m;
            i += 1;
        }
        let n: i128 = daily_returns.len() as i128;
        match acc.checked_div(n) {
            Some(q) => Some(Dec::from_raw(q)),
            None => None,
        }
    }

    /// Excess kurtosis of the return distribution; `None` below four
    /// observations or at zero dispersion.
    fn calculate_kurtosis(daily_returns: &Vec<DailyReturn>) -> (r: Option<Dec>)
        requires
            returns_ok(daily_returns@),
            daily_returns@.len() < 1000000,
        ensures
            daily_returns@.len() < 4 ==> r is None,
    {
        if daily_returns.len() < 4 {
            return None;
        }
        let mean = Self::mean_return(daily_returns);
        let variance = Self::variance_around(daily_returns, mean);
        let std_dev = variance.sqrt();
        if std_dev.m <= 0 {
            return None;
        }
        let mut acc: i128 = 0;
        let mut i: usize = 0;
        while i < daily_returns.len()
            invariant
                i <= daily_returns@.len(),
                returns_ok(daily_returns@),
                daily_returns@.len() < 1000000,
                -100 * SCALE <= mean.m <= 100 * SCALE,
                std_dev.m > 0,
                0 <= acc <= (i as int) * 1_000_000_000_000_000_000_000_000_000_000,
            decreases daily_returns@.len() - i,
        {
            let diff = daily_returns[i].daily_return.sub(mean);
            proof {
                crate::decimal::lemma_tdiv_shrinks(diff.m * SCALE, std_dev.m as int);
            }
            let st = diff.div(std_dev);
            if st.m < -1_000_000_000_000 || st.m > 1_000_000_000_000 {
                return None;
            }
            proof {
                crate::decimal::lemma_mul_bound(
                    st.m as int,
                    st.m as int,
                    1_000_000_000_000,
                    1_000_000_000_000,
                );
                crate::decimal::lemma_tdiv_abs(st.m * st.m, SCALE as int);
                vstd::arithmetic::div_mod::lemma_div_is_ordered(
                    abs_m(st.m * st.m as int),
                    1_000_000_000_000_000_000_000_000,
                    SCALE as int,
                );
                vstd::arithmetic::div_mod::lemma_div_multiples_vanish(
                    1_000_000_000_000_000_000,
                    SCALE as int,
                );
                assert(1_000_000_000_000_000_000_000_000int == SCALE * 1_000_000_000_000_000_000);
                let d = st.m as int;
                assert(d * d >= 0) by (nonlinear_arith);
                crate::decimal::lemma_tdiv_abs(d * d, SCALE as int);
            }
            let st2 = st.mul(st);
            proof {
                crate::decimal::lemma_mul_bound(
                    st2.m as int,
                    st2.m as int,
                    1_000_000_000_000_000_000,
                    1_000_000_000_000_000_000,
                );
                crate::decimal::lemma_tdiv_abs(st2.m * st2.m, SCALE as int);
                vstd::arithmetic::div_mod::lemma_div_is_ordered(
                    abs_m(st2.m * st2.m as int),
                    1_000_000_000_000_000_000_000_000_000_000_000_000,
                    SCALE as int,
                );
                vstd::arithmetic::div_mod::lemma_div_multiples_vanish(
                    1_000_000_000_000_000_000_000_000_000_000,
                    SCALE as int,
                );
                assert(1_000_000_000_000_000_000_000_000_000_000_000_000int == SCALE
                    * 1_000_000_000_000_000_000_000_000_000_000);
                let d2 = st2.m as int;
                assert(d2 * d2 >= 0) by (nonlinear_arith);
                crate::decimal::lemma_tdiv_abs(d2 * d2, SCALE as int);
            }
            let st4 = st2.mul(st2);
            acc = acc + st4.m;
            i += 1;
        }
        let n: i128 = daily_returns.len() as i128;
        match acc.checked_div(n) {
            Some(q) => {
                if q >= -i128::MAX + 3 * SCALE {
                    Some(Dec::from_raw(q - 3 * SCALE))
                } else {
                    None
                }
            },
            None => None,
        }
    }
}

/// Truncating division (public mirror for contracts).
pub open spec fn tdiv_pub(x: int, d: int) -> int {
    crate::decimal::tdiv(x, d)
}

/// Maximum drawdown, executable.
pub fn max_dd_exec(initial: Dec, daily_returns: &Vec<DailyReturn>) -> (r: i128)
    requires
        0 <= initial.m <= VAL_LIMIT,
        returns_ok(daily_returns@),
    ensures
        r == max_drawdown_m(initial, daily_returns@),
{
    let ghost s = daily_returns@;
    let mut peak: i128 = initial.m;
    let mut worst: i128 = 0;
    let mut i: usize = 0;
    proof {
        assert(s.skip(0) =~= s);
    }
    while i < daily_returns.len()
        invariant
            i <= s.len(),
            daily_returns@ == s,
            returns_ok(s),
            0 <= peak <= 100_000_000_000_000_000_000_000_000_000,
            -i128::MAX <= worst <= i128::MAX,
            max_dd_rec(initial.m as int, 0, s) == max_dd_rec(
                peak as int,
                worst as int,
                s.skip(i as int),
            ),
        decreases s.len() - i,
    {
        proof {
            assert(s.skip(i as int).first() == s[i as int]);
            assert(s.skip(i as int).drop_first() =~= s.skip(i as int + 1));
        }
        let v = daily_returns[i].portfolio_value;
        if v.m > peak {
            peak = v.m;
        }
        let dd: i128 = if peak > 0 {
            proof {
                crate::decimal::lemma_tdiv_shrinks((peak - v.m) * SCALE, peak as int);
            }
            Dec::from_raw(peak - v.m).div(Dec::from_raw(peak)).m
        } else {
            0
        };
        if dd > worst {
            worst = dd;
        }
        i += 1;
    }
    proof {
        assert(s.skip(s.len() as int) =~= Seq::<DailyReturn>::empty());
    }
    worst
}

/// Backtest result with computed metrics.
#[derive(Debug)]
pub struct BacktestResult {
    pub id: BacktestId,
    pub config: BacktestConfig,
    pub status: BacktestStatus,
    pub start_time: i64,
    pub end_time: Option<i64>,
    pub duration_seconds: Option<u64>,
    pub final_portfolio: Option<Portfolio>,
    pub strategy_metrics: Option<StrategyMetrics>,
    pub performance_metrics: Option<PerformanceMetrics>,
    pub equity_curve: Vec<EquityCurvePoint>,
    pub trade_log: Vec<TradeRecord>,
    pub error_message: Option<String>,
}

impl BacktestResult {
    pub fn new(config: BacktestConfig) -> (r: BacktestResult)
        ensures
            r.id == config.id,
            r.status == BacktestStatus::Pending,
            r.final_portfolio is None,
            r.strategy_metrics is None,
            r.performance_metrics is None,
            r.equity_curve@.len() == 0,
            r.trade_log@.len() == 0,
            r.error_message is None,
    {
        BacktestResult {
            id: config.id,
            config,
            status: BacktestStatus::Pending,
            start_time: host::now_millis(),
            end_time: None,
            duration_seconds: None,
            final_portfolio: None,
            strategy_metrics: None,
            performance_metrics: None,
            equity_curve: Vec::new(),
            trade_log: Vec::new(),
            error_message: None,
        }
    }

    /// Mark the run as started.
    pub fn mark_started(&mut self)
        ensures
            final(self).status == BacktestStatus::Running,
            final(self).id == old(self).id,
    {
        self.status = BacktestStatus::Running;
        self.start_time = host::now_millis();
    }

    /// Mark the run completed, computing performance metrics from the
    /// final portfolio.
    pub fn mark_completed(&mut self, portfolio: Portfolio, metrics: StrategyMetrics)
        requires
            portfolio.wf(),
            returns_ok(portfolio.daily_returns@),
            portfolio.daily_returns@.len() < 1000000,
        ensures
            final(self).status == BacktestStatus::Completed,
            final(self).end_time is Some,
            final(self).final_portfolio is Some,
            final(self).strategy_metrics is Some,
            final(self).performance_metrics is Some,
            ({
                let pm = final(self).performance_metrics->0;
                &&& pm.total_return.m == portfolio.total_return_m()
                &&& (pm.var_95 is Some <==> portfolio.daily_returns@.len() >= 20)
                &&& (pm.cvar_95 is Some <==> portfolio.daily_returns@.len() >= 20)
            }),
            final(self).final_portfolio == Some(portfolio),
            final(self).id == old(self).id,
    {
        let end_time = host::now_millis();
        self.status = BacktestStatus::Completed;
        self.end_time = Some(end_time);
        let span: i128 = (end_time as i128) - (self.start_time as i128);
        self.duration_seconds = Some(
            if span > 0 {
                (span / 1000) as u64
            } else {
                0
            },
        );
        self.performance_metrics = Some(PerformanceMetrics::calculate(&portfolio));
        self.final_portfolio = Some(portfolio);
        self.strategy_metrics = Some(metrics);
    }

    /// Mark the run failed with an error message.
    pub fn mark_failed(&mut self, error: String)
        ensures
            final(self).status == BacktestStatus::Failed,
            final(self).error_message is Some,
            final(self).error_message->0@ == error@,
            final(self).id == old(self).id,
    {
        self.status = BacktestStatus::Failed;
        self.end_time = Some(host::now_millis());
        self.error_message = Some(error);
    }
}

} // verus!
