//! Tests of risk metrics, the monitor, alerts, the data layer and the
//! error taxonomy.

use glowback::cache::CacheManager;
use glowback::decimal::Dec;
use glowback::errors::{GbError, OrderError};
use glowback::loaders::{DataFormat, DataLoaderUtils};
use glowback::market::{AssetClass, Bar, Resolution, Symbol};
use glowback::portfolio::{DailyReturn, Portfolio, Position};
use glowback::riskmetrics::{
    RiskAlert, RiskAlertKind, RiskMetricsCalculator, RiskMonitor, RiskMonitorConfig, RiskSeverity,
};

fn sym(ticker: &str) -> Symbol {
    Symbol::new(ticker, "TEST", AssetClass::Equity)
}

fn make_portfolio(positions: Vec<(Symbol, Dec, Dec, Dec)>) -> Portfolio {
    let mut p = Portfolio::new("test".to_string(), Dec::from_int(100_000));
    for (symbol, qty, avg_price, market_price) in positions {
        let mut pos = Position::new(symbol.clone());
        pos.quantity = qty;
        pos.average_price = avg_price;
        pos.update_market_price(market_price);
        p.positions.push(pos);
    }
    // Recompute equity
    let mut market_value = Dec::zero();
    for pos in p.positions.iter() {
        market_value = Dec::from_raw(market_value.m + pos.market_value.m);
    }
    p.total_equity = Dec::from_raw(p.cash.m + market_value.m);
    p
}

fn make_returns(values_millionths: &[i128]) -> Vec<DailyReturn> {
    let base: i64 = 1700000000000;
    values_millionths
        .iter()
        .enumerate()
        .map(|(i, &v)| DailyReturn {
            date: base + (i as i64) * 86400000,
            portfolio_value: Dec::from_int(100_000),
            daily_return: Dec::from_raw(v),
            cumulative_return: Dec::zero(),
        })
        .collect()
}

#[test]
fn empty_portfolio_produces_zero_exposure() {
    let portfolio = Portfolio::new("test".to_string(), Dec::from_int(100_000));
    let snap = RiskMetricsCalculator::compute(&portfolio, &Vec::new(), Dec::from_int(100_000));

    assert_eq!(snap.gross_exposure, Dec::zero());
    assert_eq!(snap.net_exposure, Dec::zero());
    assert_eq!(snap.leverage, Dec::zero());
    assert_eq!(snap.num_positions, 0);
    assert_eq!(snap.current_drawdown, Dec::zero());
}

#[test]
fn single_long_position_metrics() {
    // 100 shares at $100 = $10,000 market value, $100k cash
    let portfolio = make_portfolio(vec![(
        sym("AAPL"),
        Dec::from_int(100),
        Dec::from_int(95),
        Dec::from_int(100),
    )]);
    let snap = RiskMetricsCalculator::compute(&portfolio, &Vec::new(), Dec::from_int(110_000));

    assert_eq!(snap.num_positions, 1);
    assert!(snap.gross_exposure.m > 0);
    assert_eq!(snap.gross_exposure, snap.net_exposure); // single long
}

#[test]
fn drawdown_computation() {
    let portfolio = Portfolio::new("test".to_string(), Dec::from_int(100_000));
    let peak = Dec::from_int(120_000);
    // Equity dropped to 100k from 120k peak
    let snap = RiskMetricsCalculator::compute(&portfolio, &Vec::new(), peak);
    let expected_dd = Dec::from_int(20_000).div(Dec::from_int(120_000));
    assert_eq!(snap.current_drawdown, expected_dd);
}

#[test]
fn var_needs_enough_data() {
    let portfolio = Portfolio::new("test".to_string(), Dec::from_int(100_000));
    let few_returns = make_returns(&[10_000, -5_000, 2_000]);
    let snap = RiskMetricsCalculator::compute(&portfolio, &few_returns, Dec::from_int(100_000));
    assert!(snap.var_95.is_none());
    assert!(snap.cvar_95.is_none());
}

#[test]
fn var_computed_with_enough_data() {
    let portfolio = Portfolio::new("test".to_string(), Dec::from_int(100_000));
    let returns = make_returns(&[10_000; 30]); // 30 days of +1%
    let snap = RiskMetricsCalculator::compute(&portfolio, &returns, Dec::from_int(100_000));
    assert!(snap.var_95.is_some());
    assert!(snap.cvar_95.is_some());
    // All returns identical: the 5th percentile is +1%, so VaR (the
    // negated percentile) is -1%.
    assert_eq!(snap.var_95.unwrap(), Dec::from_raw(-10_000));
}

#[test]
fn max_drawdown_from_history() {
    let base: i64 = 1700000000000;
    let day = 86400000;
    let returns = vec![
        DailyReturn {
            date: base,
            portfolio_value: Dec::from_int(100_000),
            daily_return: Dec::zero(),
            cumulative_return: Dec::zero(),
        },
        DailyReturn {
            date: base + day,
            portfolio_value: Dec::from_int(110_000),
            daily_return: Dec::from_raw(100_000),
            cumulative_return: Dec::from_raw(100_000),
        },
        DailyReturn {
            date: base + 2 * day,
            portfolio_value: Dec::from_int(99_000),
            daily_return: Dec::from_raw(-100_000),
            cumulative_return: Dec::from_raw(-10_000),
        },
        DailyReturn {
            date: base + 3 * day,
            portfolio_value: Dec::from_int(105_000),
            daily_return: Dec::from_raw(60_000),
            cumulative_return: Dec::from_raw(50_000),
        },
    ];
    let portfolio = Portfolio::new("test".to_string(), Dec::from_int(100_000));
    let snap = RiskMetricsCalculator::compute(&portfolio, &returns, Dec::from_int(110_000));
    // Peak was 110k, trough was 99k: drawdown is 11/110 = 10%
    let expected = Dec::from_int(11_000).div(Dec::from_int(110_000));
    assert_eq!(snap.max_drawdown, expected);
}

#[test]
fn position_risks_populated() {
    let portfolio = make_portfolio(vec![
        (
            sym("AAPL"),
            Dec::from_int(50),
            Dec::from_int(100),
            Dec::from_int(105),
        ),
        (
            sym("GOOG"),
            Dec::from_int(20),
            Dec::from_int(200),
            Dec::from_int(190),
        ),
    ]);
    let snap = RiskMetricsCalculator::compute(&portfolio, &Vec::new(), Dec::from_int(100_000));
    assert_eq!(snap.position_risks.len(), 2);
    // All weights should be positive for long positions
    for pr in snap.position_risks.iter() {
        assert!(pr.weight.m > 0);
    }
}

#[test]
fn severity_ordering() {
    assert!(RiskSeverity::Info < RiskSeverity::Warning);
    assert!(RiskSeverity::Warning < RiskSeverity::Critical);
}

#[test]
fn alert_creation() {
    let alert = RiskAlert::new(
        RiskSeverity::Warning,
        RiskAlertKind::DrawdownExceeded {
            current_drawdown_pct: Dec::from_int(15),
            limit_pct: Dec::from_int(10),
        },
        "Drawdown of 15% exceeds 10% limit".to_string(),
    );
    assert_eq!(alert.severity, RiskSeverity::Warning);
    assert!(!alert.acknowledged);
}

#[test]
fn no_alerts_on_empty_portfolio() {
    let (tx, rx) = crossbeam_channel::unbounded();
    let mut monitor = RiskMonitor::new(RiskMonitorConfig::default(), tx);
    let portfolio = Portfolio::new("test".to_string(), Dec::from_int(100_000));
    let snap = monitor.update(&portfolio);

    assert_eq!(snap.num_positions, 0);
    assert!(rx.try_recv().is_err()); // No alerts
}

#[test]
fn drawdown_alert_fires() {
    let (tx, rx) = crossbeam_channel::unbounded();
    let mut config = RiskMonitorConfig::default();
    config.risk_limits.max_drawdown = Dec::from_raw(100_000); // 10% limit
    let mut monitor = RiskMonitor::new(config, tx);
    monitor.set_equity_peak(Dec::from_int(120_000)); // Peak was 120k

    // Current equity is 100k: 16.7% drawdown fires a critical alert.
    let portfolio = Portfolio::new("test".to_string(), Dec::from_int(100_000));
    monitor.update(&portfolio);

    let alert = rx.try_recv().expect("expected drawdown alert");
    assert_eq!(alert.severity, RiskSeverity::Critical);
    assert!(matches!(alert.kind, RiskAlertKind::DrawdownExceeded { .. }));
}

#[test]
fn drawdown_warning_fires() {
    let (tx, rx) = crossbeam_channel::unbounded();
    let mut config = RiskMonitorConfig::default();
    config.risk_limits.max_drawdown = Dec::from_raw(200_000); // 20% limit
    config.warning_threshold_pct = Dec::from_raw(800_000); // warn at 80%
    let mut monitor = RiskMonitor::new(config, tx);
    monitor.set_equity_peak(Dec::from_int(110_000)); // Peak was 110k

    // Equity 92k: drawdown 18/110 = 16.4%, which is 82% of the limit.
    let portfolio = Portfolio::new("test".to_string(), Dec::from_int(92_000));
    monitor.update(&portfolio);

    let alert = rx.try_recv().expect("expected drawdown warning");
    assert_eq!(alert.severity, RiskSeverity::Warning);
}

#[test]
fn concentration_alert_fires() {
    let (tx, rx) = crossbeam_channel::unbounded();
    let mut config = RiskMonitorConfig::default();
    config.risk_limits.position_concentration_limit = Dec::from_raw(250_000); // 25%
    let mut monitor = RiskMonitor::new(config, tx);

    // Position is 50k / 150k equity, about 33%, which exceeds 25%.
    let portfolio = make_portfolio(vec![(
        sym("AAPL"),
        Dec::from_int(500),
        Dec::from_int(100),
        Dec::from_int(100),
    )]);
    monitor.update(&portfolio);

    let alert = rx.try_recv().expect("expected concentration alert");
    assert!(matches!(
        alert.kind,
        RiskAlertKind::ConcentrationExceeded { .. }
    ));
}

#[test]
fn daily_loss_alert_with_returns() {
    let (tx, rx) = crossbeam_channel::unbounded();
    let mut config = RiskMonitorConfig::default();
    config.risk_limits.max_daily_loss = Dec::from_raw(30_000); // 3%
    let mut monitor = RiskMonitor::new(config, tx);

    // Simulate a -4% daily loss
    let dr = DailyReturn {
        date: 1700000000000,
        portfolio_value: Dec::from_int(96_000),
        daily_return: Dec::from_raw(-40_000),
        cumulative_return: Dec::from_raw(-40_000),
    };
    monitor.push_daily_return(dr);

    let portfolio = Portfolio::new("test".to_string(), Dec::from_int(96_000));
    monitor.update(&portfolio);

    let alert = rx.try_recv().expect("expected daily loss alert");
    assert_eq!(alert.severity, RiskSeverity::Critical);
    assert!(matches!(alert.kind, RiskAlertKind::DailyLossExceeded { .. }));
}

#[test]
fn equity_peak_auto_updated() {
    let (tx, _rx) = crossbeam_channel::unbounded();
    let mut monitor = RiskMonitor::new(RiskMonitorConfig::default(), tx);
    assert_eq!(monitor.equity_peak(), Dec::zero());

    let portfolio = Portfolio::new("test".to_string(), Dec::from_int(100_000));
    monitor.update(&portfolio);
    assert_eq!(monitor.equity_peak(), Dec::from_int(100_000));

    // Simulate equity increase
    let p2 = Portfolio::new("test".to_string(), Dec::from_int(110_000));
    monitor.update(&p2);
    assert_eq!(monitor.equity_peak(), Dec::from_int(110_000));
}

#[test]
fn last_snapshot_updates() {
    let (tx, _rx) = crossbeam_channel::unbounded();
    let mut monitor = RiskMonitor::new(RiskMonitorConfig::default(), tx);
    assert!(monitor.last_snapshot().is_none());

    let portfolio = Portfolio::new("test".to_string(), Dec::from_int(100_000));
    monitor.update(&portfolio);
    assert!(monitor.last_snapshot().is_some());
}

#[test]
fn test_error_display() {
    let error = OrderError::InsufficientFunds {
        required: Dec::from_int(1000),
        available: Dec::from_int(500),
    };

    assert!(error.message().contains("Insufficient funds"));
    assert!(error.message().contains("1000"));
    assert!(error.message().contains("500"));
}

#[test]
fn test_error_conversion() {
    let order_error = OrderError::Invalid {
        message: "test".to_string(),
    };
    let gb_error: GbError = order_error.into();

    match gb_error {
        GbError::Order(_) => (),
        _ => panic!("Expected Order error"),
    }
}

#[test]
fn test_cache_basic_operations() {
    let mut cache = CacheManager::new();
    let symbol = sym("AAPL");
    let bars = vec![Bar::new(
        symbol.clone(),
        1700000000000,
        Dec::from_int(100),
        Dec::from_int(105),
        Dec::from_int(99),
        Dec::from_int(102),
        Dec::from_int(1000),
        Resolution::Day,
    )];

    // Miss before storing.
    assert!(cache
        .get_bars(&symbol, 1700000000000, 1700000000000, Resolution::Day)
        .is_none());

    cache.store_bars(symbol.clone(), bars, Resolution::Day);

    // Hit after storing.
    let got = cache
        .get_bars(&symbol, 1700000000000, 1700000000000, Resolution::Day)
        .expect("expected cache hit");
    assert_eq!(got.len(), 1);
    assert_eq!(got[0].close, Dec::from_int(102));

    let stats = cache.get_stats();
    assert_eq!(stats.hits, 1);
    assert_eq!(stats.misses, 1);
    assert_eq!(stats.stores, 1);
}

#[test]
fn detect_format_by_extension() {
    assert_eq!(
        DataLoaderUtils::detect_format("data/AAPL_1d.csv"),
        Some(DataFormat::Csv)
    );
    assert_eq!(
        DataLoaderUtils::detect_format("data/AAPL_1d.PARQUET"),
        Some(DataFormat::Parquet)
    );
    assert_eq!(
        DataLoaderUtils::detect_format("x.jsonl"),
        Some(DataFormat::JsonLines)
    );
    assert_eq!(DataLoaderUtils::detect_format("noext"), None);
}

#[test]
fn symbol_from_path_uppercases_stem() {
    let s = DataLoaderUtils::symbol_from_path("data/aapl_1d.csv", "NASDAQ", AssetClass::Equity);
    assert_eq!(s.symbol, "AAPL");
    assert_eq!(s.exchange, "NASDAQ");
    let b = DataLoaderUtils::symbol_from_path("data/BRK.B_1d.csv", "NYSE", AssetClass::Equity);
    assert_eq!(b.symbol, "BRK.B");
    let p = DataLoaderUtils::symbol_from_path("msft.csv", "NASDAQ", AssetClass::Equity);
    assert_eq!(p.symbol, "MSFT");
    let u = DataLoaderUtils::symbol_from_path("caf\u{e9}.csv", "NASDAQ", AssetClass::Equity);
    assert_eq!(u.symbol, "UNKNOWN");
}

#[test]
fn validate_bars_flags_inconsistencies() {
    let symbol = sym("AAPL");
    let good = Bar::new(
        symbol.clone(),
        1700000000000,
        Dec::from_int(100),
        Dec::from_int(105),
        Dec::from_int(99),
        Dec::from_int(102),
        Dec::from_int(1000),
        Resolution::Day,
    );
    assert!(DataLoaderUtils::validate_bars(&vec![good.clone()]).is_empty());

    let mut bad = good.clone();
    bad.high = Dec::from_int(90); // high below low
    assert!(!DataLoaderUtils::validate_bars(&vec![bad]).is_empty());

    assert!(!DataLoaderUtils::validate_bars(&Vec::new()).is_empty());
}

#[test]
fn cvar_is_tail_mean_and_at_least_var() {
    let portfolio = Portfolio::new("test".to_string(), Dec::from_int(100_000));
    let vals: Vec<i128> = (1..=20).map(|i| -1_000 * i as i128).collect();
    let returns = make_returns(&vals);
    let snap = RiskMetricsCalculator::compute(&portfolio, &returns, Dec::from_int(100_000));
    // Sorted ascending the returns run -2% .. -0.1%; the 5th
    // percentile index is 20 / 20 = 1, so VaR negates -1.9%.
    assert_eq!(snap.var_95.unwrap(), Dec::from_raw(19_000));
    // CVaR negates the mean of the two worst returns, -1.95%.
    assert_eq!(snap.cvar_95.unwrap(), Dec::from_raw(19_500));
    assert!(snap.cvar_95.unwrap().m >= snap.var_95.unwrap().m);
}
