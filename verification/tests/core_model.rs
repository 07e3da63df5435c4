//! Tests of the decimal model, the order state machine, portfolio
//! accounting, execution, and the backtest engines.

use glowback::backtest::BacktestConfig;
use glowback::catalog::{DataCatalog, SymbolInfo};
use glowback::data::DataManager;
use glowback::decimal::{Dec, SCALE};
use glowback::engine::{BacktestEngine, Engine};
use glowback::execution::{ExecutionConfig, ExecutionEngine};
use glowback::market::{AssetClass, Bar, Resolution, Symbol};
use glowback::orders::{Fill, Order, OrderStatus, OrderType, Side};
use glowback::portfolio::Portfolio;
use glowback::providers::{str_replace, CsvDataProvider, DataProvider, SampleDataProvider};
use glowback::sources::{DataSourceConfig, DataSourceType, DataSources};
use glowback::storage::StorageManager;
use glowback::strategy::{BuyAndHoldStrategy, Strategy, StrategyConfig};
use glowback::text::{dec_text, u64_text};

fn sym(ticker: &str) -> Symbol {
    Symbol::new(ticker, "NASDAQ", AssetClass::Equity)
}

fn bar(symbol: &Symbol, low: i64, high: i64, close: i64, ts: i64) -> Bar {
    Bar::new(
        symbol.clone(),
        ts,
        Dec::from_int(close),
        Dec::from_int(high),
        Dec::from_int(low),
        Dec::from_int(close),
        Dec::from_int(1000),
        Resolution::Day,
    )
}

/// The order quantity ledger always balances, and the status machine
/// never regresses out of a terminal state.
#[test]
fn order_lifecycle_invariant() {
    let mut order = Order::market_order(sym("AAPL"), Side::Buy, Dec::from_int(10), "s".to_string());
    assert_eq!(
        order.filled_quantity.m + order.remaining_quantity.m,
        order.quantity.m
    );

    order.fill(Dec::from_int(4), Dec::from_int(50));
    assert_eq!(order.status, OrderStatus::PartiallyFilled);
    assert_eq!(order.filled_quantity, Dec::from_int(4));
    assert_eq!(order.remaining_quantity, Dec::from_int(6));
    assert_eq!(
        order.filled_quantity.m + order.remaining_quantity.m,
        order.quantity.m
    );

    // Over-filling is capped at the remaining quantity.
    order.fill(Dec::from_int(10), Dec::from_int(60));
    assert_eq!(order.status, OrderStatus::Filled);
    assert_eq!(order.filled_quantity, Dec::from_int(10));
    assert_eq!(order.remaining_quantity, Dec::zero());

    // A terminal order never regresses.
    order.cancel();
    assert_eq!(order.status, OrderStatus::Filled);
}

/// After fills and price updates, total equity is exactly cash plus
/// the sum of position market values.
#[test]
fn portfolio_equity_identity() {
    let mut portfolio = Portfolio::new("acct".to_string(), Dec::from_int(100_000));
    let fill = Fill::new(
        1,
        sym("AAPL"),
        Side::Buy,
        Dec::from_int(10),
        Dec::from_int(150),
        Dec::from_int(1),
        "s".to_string(),
    );
    portfolio.apply_fill(&fill);
    // Cash moved by -(10 * 150 + 1).
    assert_eq!(portfolio.cash, Dec::from_int(100_000 - 1501));

    let prices = vec![(sym("AAPL"), Dec::from_int(160))];
    portfolio.update_market_prices(&prices);

    let mut mv = 0i128;
    for p in portfolio.positions.iter() {
        mv += p.market_value.m;
    }
    assert_eq!(portfolio.total_equity.m, portfolio.cash.m + mv);
    assert_eq!(portfolio.total_equity, Dec::from_int(100_000 - 1501 + 1600));

    // Selling everything removes the flat position.
    let sell = Fill::new(
        2,
        sym("AAPL"),
        Side::Sell,
        Dec::from_int(10),
        Dec::from_int(160),
        Dec::from_int(1),
        "s".to_string(),
    );
    portfolio.apply_fill(&sell);
    assert!(portfolio.positions.is_empty());
    assert_eq!(portfolio.total_equity.m, portfolio.cash.m);
}

/// A buy limit outside the bar's range never fills; one inside fills
/// at exactly the limit price.
#[test]
fn limit_order_fill_rules() {
    let symbol = sym("AAPL");
    let mut engine = ExecutionEngine::new(ExecutionConfig::default());
    engine.set_slippage(Dec::zero());
    engine.set_latency(0);
    engine.update_market_data(symbol.clone(), bar(&symbol, 98, 107, 100, 1700000000000));

    let out_of_range = Order::limit_order(
        symbol.clone(),
        Side::Buy,
        Dec::from_int(10),
        Dec::from_int(145),
        "s".to_string(),
    );
    let attempt = engine.execute_order(&out_of_range, 1700000000000).unwrap();
    assert!(attempt.is_none());

    let in_range = Order::limit_order(
        symbol.clone(),
        Side::Buy,
        Dec::from_int(10),
        Dec::from_int(100),
        "s".to_string(),
    );
    let fill = engine
        .execute_order(&in_range, 1700000000000)
        .unwrap()
        .expect("limit inside the bar range must fill");
    assert_eq!(fill.price, Dec::from_int(100));
    // Commission: 0.001 * 10 + 0.005% of 1000 = 0.06, floored at the
    // $1 minimum.
    assert_eq!(fill.commission, Dec::one());
}

/// Stop orders trigger on touch and fill at the close.
#[test]
fn stop_order_fill_rules() {
    let symbol = sym("AAPL");
    let mut engine = ExecutionEngine::new(ExecutionConfig::default());
    engine.set_slippage(Dec::zero());
    engine.set_latency(0);
    engine.update_market_data(symbol.clone(), bar(&symbol, 98, 107, 100, 1700000000000));

    let untriggered = Order::stop_order(
        symbol.clone(),
        Side::Buy,
        Dec::from_int(1),
        Dec::from_int(200),
        "s".to_string(),
    );
    assert!(engine
        .execute_order(&untriggered, 1700000000000)
        .unwrap()
        .is_none());

    let triggered = Order::stop_order(
        symbol.clone(),
        Side::Buy,
        Dec::from_int(1),
        Dec::from_int(105),
        "s".to_string(),
    );
    let fill = engine
        .execute_order(&triggered, 1700000000001)
        .unwrap()
        .expect("touched stop must fill");
    assert_eq!(fill.price, Dec::from_int(100));
}

/// Buy-and-hold over ten simulated days: one order is placed and
/// filled, equity stays positive, and there is one daily return per
/// simulated day.
#[test]
fn buy_and_hold_round_trip() {
    let symbol = sym("AAPL");
    let mut strategy_config = StrategyConfig::new("buy_and_hold".to_string(), "BH".to_string());
    strategy_config.add_symbol(symbol.clone());

    let mut strategy = BuyAndHoldStrategy::new();
    strategy.initialize(&strategy_config).unwrap();

    let start: i64 = 1700000000000;
    let config = BacktestConfig::new("bh".to_string(), strategy_config)
        .with_symbols(vec![symbol.clone()])
        .with_date_range(start, start + 9 * 86400000)
        .with_capital(Dec::from_int(100_000));

    let mut data_manager: DataManager<SampleDataProvider> = DataManager::new();
    data_manager.add_provider(SampleDataProvider::new());

    let mut engine = Engine::new(config, data_manager, strategy).unwrap();
    let result = engine.run().unwrap();

    let portfolio = result.final_portfolio.as_ref().unwrap();
    assert_eq!(portfolio.daily_returns.len(), 10);
    assert!(portfolio.total_equity.m > 0);
    let metrics = result.strategy_metrics.as_ref().unwrap();
    assert_eq!(metrics.total_trades, 1);
    assert!(!portfolio.positions.is_empty());
}

fn create_test_config() -> BacktestConfig {
    let strategy_config =
        StrategyConfig::new("test_strategy".to_string(), "Test Strategy".to_string());

    let start: i64 = 1700000000000;
    BacktestConfig::new("Test Backtest".to_string(), strategy_config)
        .with_date_range(start, start + 30 * 86400000)
        .with_capital(Dec::from_int(100000))
        .with_resolution(Resolution::Day)
        .with_symbols(vec![Symbol::equity("AAPL"), Symbol::equity("GOOGL")])
}

#[test]
fn test_engine_creation() {
    let config = create_test_config();
    let engine: Result<BacktestEngine<SampleDataProvider>, _> = BacktestEngine::new(config);

    assert!(engine.is_ok());
    let engine = engine.unwrap();
    assert_eq!(engine.get_config().name, "Test Backtest");
    assert_eq!(engine.get_config().initial_capital, Dec::from_int(100000));
}

#[test]
fn test_data_loading() {
    let config = create_test_config();
    let mut engine: BacktestEngine<SampleDataProvider> = BacktestEngine::new(config).unwrap();

    let symbols = vec![Symbol::equity("AAPL"), Symbol::equity("GOOGL")];
    let result = engine.load_market_data(symbols);

    assert!(result.is_ok());
}

#[test]
fn test_backtest_execution() {
    let config = create_test_config();
    let mut engine: BacktestEngine<SampleDataProvider> = BacktestEngine::new(config).unwrap();

    // Load some test data
    let symbols = vec![Symbol::equity("AAPL")];
    engine.load_market_data(symbols).unwrap();

    // Run the backtest
    let result = engine.run();

    assert!(result.is_ok());
    let backtest_result = result.unwrap();

    // Check that the result is properly structured
    assert_eq!(backtest_result.config.name, "Test Backtest");
    assert!(backtest_result.final_portfolio.is_some());
    assert!(backtest_result.performance_metrics.is_some());
    assert!(backtest_result.strategy_metrics.is_some());

    // Verify the portfolio was initialized correctly
    let portfolio = backtest_result.final_portfolio.as_ref().unwrap();
    assert_eq!(portfolio.account_id, "demo_portfolio");
    assert_eq!(portfolio.cash, Dec::from_int(100000));
}

#[test]
fn test_performance_metrics_calculation() {
    let config = create_test_config();
    let mut engine: BacktestEngine<SampleDataProvider> = BacktestEngine::new(config).unwrap();

    let result = engine.run().unwrap();
    let metrics = result.performance_metrics.unwrap();

    // Check that basic metrics are calculated
    assert_eq!(metrics.total_return, Dec::zero());
    assert_eq!(metrics.annualized_return, Dec::zero());
    assert_eq!(metrics.volatility, Dec::zero());
    assert!(metrics.sharpe_ratio.is_none());
    assert_eq!(metrics.max_drawdown, Dec::zero());

    // Advanced metrics are properly initialized even for an empty
    // portfolio.
    assert!(metrics.sortino_ratio.is_none() || metrics.sortino_ratio.is_some());
    assert!(metrics.calmar_ratio.is_none() || metrics.calmar_ratio.is_some());
}

#[test]
fn test_strategy_metrics() {
    let config = create_test_config();
    let mut engine: BacktestEngine<SampleDataProvider> = BacktestEngine::new(config).unwrap();

    let result = engine.run().unwrap();
    let strategy_metrics = result.strategy_metrics.unwrap();

    // Check that strategy metrics are properly initialized
    assert_eq!(strategy_metrics.strategy_id, "placeholder_strategy");
    assert_eq!(strategy_metrics.total_trades, 0);
    assert_eq!(strategy_metrics.winning_trades, 0);
    assert_eq!(strategy_metrics.losing_trades, 0);
    assert_eq!(strategy_metrics.win_rate, Dec::zero());
}

#[test]
fn test_engine_with_multiple_symbols() {
    let config = create_test_config();
    let mut engine: BacktestEngine<SampleDataProvider> = BacktestEngine::new(config).unwrap();

    let symbols = vec![
        Symbol::equity("AAPL"),
        Symbol::equity("GOOGL"),
        Symbol::equity("MSFT"),
        Symbol::equity("TSLA"),
    ];

    let load_result = engine.load_market_data(symbols);
    assert!(load_result.is_ok());

    let backtest_result = engine.run();
    assert!(backtest_result.is_ok());

    let result = backtest_result.unwrap();
    assert_eq!(result.config.symbols.len(), 2); // the config carries its own two symbols
}

#[test]
fn test_error_handling() {
    // Test with invalid configuration
    let config = create_test_config();
    let start = config.start_date;
    let config = config.with_date_range(start, start - 86400000); // Invalid date range

    let engine: Result<BacktestEngine<SampleDataProvider>, _> = BacktestEngine::new(config);
    assert!(engine.is_ok()); // Engine creation should still work
}

#[test]
fn decimal_rendering_is_exact() {
    assert_eq!(u64_text(12345), "12345");
    assert_eq!(dec_text(Dec::from_int(1000)), "1000");
    assert_eq!(dec_text(Dec::from_raw(-3_500_000)), "-3.500000");
    assert_eq!(dec_text(Dec::from_raw(50_000)), "0.050000");
}

#[test]
fn decimal_arithmetic_is_exact() {
    let a = Dec::from_int(150);
    let b = Dec::from_raw(500); // 0.0005
    assert_eq!(a.mul(b), Dec::from_raw(75_000)); // 0.075
    assert_eq!(Dec::from_int(9).sqrt(), Dec::from_int(3));
    assert_eq!(Dec::from_int(10).div(Dec::from_int(4)), Dec::from_raw(2_500_000));
}

#[test]
fn data_source_configs_carry_parameters() {
    let av = DataSources::alpha_vantage("demo-key");
    assert_eq!(av.name, "alpha_vantage");
    assert!(matches!(av.source_type, DataSourceType::Http));
    assert_eq!(av.connection_params[1].0, "api_key");

    let local = DataSourceConfig::local("sample", "./data");
    assert_eq!(local.connection_params[0].1, "./data");
    assert_eq!(local.priority, 1);

    let db = DataSourceConfig::database("db", "postgres://localhost");
    assert_eq!(db.priority, 3);

    assert_eq!(DataSources::yahoo_finance().connection_params.len(), 1);
    assert_eq!(DataSources::polygon_io("k").connection_params.len(), 2);
    assert_eq!(DataSources::csv_files("/tmp/x").name, "csv_files");
    assert_eq!(DataSources::sample_data().name, "sample");
}

#[test]
fn storage_and_csv_paths() {
    let storage = StorageManager::new("/data");
    let path = storage.get_storage_path(&sym("AAPL"), Resolution::Day);
    assert_eq!(path, "/data/NASDAQ/AAPL_1d.parquet");

    let provider = CsvDataProvider::new("/csv");
    let path = provider.get_file_path(&sym("AAPL"), Resolution::Day);
    assert_eq!(path, "/csv/AAPL_1d.csv");

    let custom = CsvDataProvider::new("/csv").with_pattern("{exchange}-{symbol}.csv");
    let path = custom.get_file_path(&sym("AAPL"), Resolution::Day);
    assert_eq!(path, "/csv/NASDAQ-AAPL.csv");

    assert_eq!(str_replace("a{x}b{x}", "{x}", "1"), "a1b1");
}

#[test]
fn sample_provider_generates_ordered_bounded_bars() {
    let mut provider = SampleDataProvider::new();
    let start: i64 = 1700000000000;
    let bars = provider
        .fetch_bars(&sym("AAPL"), start, start + 5 * 86400000, Resolution::Day)
        .unwrap();
    assert_eq!(bars.len(), 6);
    for w in bars.windows(2) {
        assert!(w[0].timestamp < w[1].timestamp);
    }
    for b in bars.iter() {
        assert!(b.low.m <= b.high.m);
        assert!(b.close.m > 0);
    }

    assert!(provider
        .fetch_bars(&sym("ZZZZ"), start, start + 86400000, Resolution::Day)
        .is_err());
}

#[test]
fn catalog_tracks_symbol_data() {
    let mut catalog = DataCatalog::new();
    assert!(catalog.get_symbol_info(&sym("AAPL")).is_none());
    catalog.register_symbol_data(SymbolInfo {
        symbol: sym("AAPL"),
        first_date: 1,
        last_date: 9,
        resolution: Resolution::Day,
        record_count: 42,
        last_updated: 0,
    });
    let info = catalog.get_symbol_info(&sym("AAPL")).unwrap();
    assert_eq!(info.record_count, 42);
    assert_eq!(catalog.list_available_symbols().len(), 1);
    let stats = catalog.get_catalog_stats();
    assert_eq!(stats.total_symbols, 1);
    assert_eq!(stats.earliest_date, Some(1));
    assert_eq!(stats.latest_date, Some(9));
}

#[test]
fn market_order_pays_half_spread() {
    let symbol = sym("AAPL");
    let mut engine = ExecutionEngine::new(ExecutionConfig::default());
    engine.set_slippage(Dec::zero());
    engine.set_latency(0);
    // Range 10 wide: spread is 0.5% of 10 = 0.05, half-spread 0.025.
    engine.update_market_data(symbol.clone(), bar(&symbol, 95, 105, 100, 1700000000000));
    let order = Order::market_order(symbol.clone(), Side::Buy, Dec::from_int(1), "s".to_string());
    let fill = engine
        .execute_order(&order, 1700000000000)
        .unwrap()
        .unwrap();
    assert_eq!(fill.price, Dec::from_raw(100_025_000));
}

#[test]
fn symbol_constructors() {
    let e = Symbol::equity("AAPL");
    assert_eq!(e.exchange, "NASDAQ");
    assert_eq!(e.asset_class, AssetClass::Equity);
    let c = Symbol::crypto("BTC-USD");
    assert_eq!(c.exchange, "BINANCE");
    assert_eq!(c.asset_class, AssetClass::Crypto);
    assert_eq!(Resolution::Day.to_seconds(), Some(86400));
    assert_eq!(Resolution::Tick.to_seconds(), None);
    assert_eq!(Side::Buy.opposite(), Side::Sell);
    assert_eq!(Side::Sell.sign(), -1);
}

#[test]
fn order_types_round_trip() {
    let o = Order::new(
        sym("AAPL"),
        Side::Sell,
        Dec::from_int(3),
        OrderType::StopLimit {
            stop_price: Dec::from_int(90),
            limit_price: Dec::from_int(88),
        },
        "s".to_string(),
    );
    assert!(o.is_sell());
    assert!(!o.is_buy());
    assert!(o.is_active());
    assert!(!o.is_filled());
}

/// A market order is never silently unfillable: even a degenerate
/// all-zero bar fills it, at a zero price.
#[test]
fn market_order_fills_on_degenerate_bar() {
    let symbol = sym("AAPL");
    let mut engine = ExecutionEngine::new(ExecutionConfig::default());
    engine.set_slippage(Dec::zero());
    engine.set_latency(0);
    engine.update_market_data(symbol.clone(), bar(&symbol, 0, 0, 0, 1700000000000));
    let order = Order::market_order(symbol.clone(), Side::Buy, Dec::from_int(10), "s".to_string());
    let fill = engine
        .execute_order(&order, 1700000000000)
        .unwrap()
        .expect("market order must fill on any bar");
    assert_eq!(fill.price, Dec::zero());
}
