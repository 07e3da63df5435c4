//! Tests of the paper broker, the risk manager, the live engine and
//! the market simulator.

use glowback::broker::ConnectionStatus;
use glowback::decimal::{Dec, SCALE};
use glowback::live::{LiveEngine, LiveEngineConfig, LiveEngineEvent, TradingMode};
use glowback::market::{AssetClass, Bar, MarketEvent, Resolution, Symbol};
use glowback::orders::{Fill, Order, OrderStatus, Side};
use glowback::paper::{PaperBroker, PaperBrokerConfig};
use glowback::portfolio::RiskLimits;
use glowback::risk::{RiskConfig, RiskManager};
use glowback::simulator::MarketSimulator;
use glowback::strategy::{BuyAndHoldStrategy, StrategyConfig};

fn test_symbol() -> Symbol {
    Symbol::new("AAPL", "NASDAQ", AssetClass::Equity)
}

fn make_bar_at(symbol: Symbol, close: Dec, ts: i64) -> MarketEvent {
    MarketEvent::Bar(Bar {
        symbol,
        timestamp: ts,
        open: close,
        high: close,
        low: close,
        close,
        volume: Dec::from_int(1000),
        resolution: Resolution::Day,
    })
}

fn make_bar(symbol: Symbol, close: Dec) -> MarketEvent {
    make_bar_at(symbol, close, 1700000000000)
}

#[test]
fn test_paper_broker_connect_disconnect() {
    let mut broker = PaperBroker::with_defaults();
    assert_eq!(broker.connection_status(), ConnectionStatus::Disconnected);

    PaperBroker::connect(&mut broker).unwrap();
    assert_eq!(broker.connection_status(), ConnectionStatus::Connected);

    PaperBroker::disconnect(&mut broker).unwrap();
    assert_eq!(broker.connection_status(), ConnectionStatus::Disconnected);
}

#[test]
fn test_paper_broker_submit_requires_connection() {
    let mut broker = PaperBroker::with_defaults();
    let order = Order::market_order(test_symbol(), Side::Buy, Dec::from_int(10), "s".to_string());
    let result = PaperBroker::submit_order(&mut broker, order);
    assert!(result.is_err());
}

#[test]
fn test_paper_broker_market_order_fill() {
    let mut broker = PaperBroker::with_defaults();
    PaperBroker::connect(&mut broker).unwrap();

    // Seed a price
    let bar = make_bar(test_symbol(), Dec::from_int(150));
    broker.process_market_event(&bar);

    // Submit a market buy
    let order = Order::market_order(test_symbol(), Side::Buy, Dec::from_int(10), "s".to_string());
    let oid = PaperBroker::submit_order(&mut broker, order).unwrap();

    let status = PaperBroker::get_order_status(&broker, oid).unwrap();
    assert_eq!(status, OrderStatus::Filled);

    // Check position
    let pos = PaperBroker::get_position(&broker, &test_symbol()).unwrap();
    assert!(pos.is_some());
    assert_eq!(pos.unwrap().quantity, Dec::from_int(10));

    // Check balance decreased
    let bal = PaperBroker::get_account_balance(&broker).unwrap();
    assert!(bal.cash.m < Dec::from_int(100_000).m);
}

#[test]
fn test_paper_broker_limit_order_pending_then_filled() {
    let mut broker = PaperBroker::with_defaults();
    PaperBroker::connect(&mut broker).unwrap();

    // Seed price at 150
    broker.process_market_event(&make_bar(test_symbol(), Dec::from_int(150)));

    // Limit buy at 145 - should NOT fill immediately
    let order = Order::limit_order(
        test_symbol(),
        Side::Buy,
        Dec::from_int(10),
        Dec::from_int(145),
        "s".to_string(),
    );
    let oid = PaperBroker::submit_order(&mut broker, order).unwrap();

    let status = PaperBroker::get_order_status(&broker, oid).unwrap();
    assert_eq!(status, OrderStatus::Submitted);

    // Price drops to 144 - should fill
    broker.process_market_event(&make_bar(test_symbol(), Dec::from_int(144)));
    let status = PaperBroker::get_order_status(&broker, oid).unwrap();
    assert_eq!(status, OrderStatus::Filled);
}

#[test]
fn test_paper_broker_cancel_order() {
    let mut broker = PaperBroker::with_defaults();
    PaperBroker::connect(&mut broker).unwrap();
    broker.process_market_event(&make_bar(test_symbol(), Dec::from_int(150)));

    let order = Order::limit_order(
        test_symbol(),
        Side::Buy,
        Dec::from_int(10),
        Dec::from_int(100),
        "s".to_string(),
    );
    let oid = PaperBroker::submit_order(&mut broker, order).unwrap();

    PaperBroker::cancel_order(&mut broker, oid).unwrap();
    let status = PaperBroker::get_order_status(&broker, oid).unwrap();
    assert_eq!(status, OrderStatus::Canceled);
}

#[test]
fn test_paper_broker_get_positions_filters_flat() {
    let mut broker = PaperBroker::with_defaults();
    PaperBroker::connect(&mut broker).unwrap();
    broker.process_market_event(&make_bar(test_symbol(), Dec::from_int(150)));

    // Buy then sell same quantity
    let buy = Order::market_order(test_symbol(), Side::Buy, Dec::from_int(10), "s".to_string());
    PaperBroker::submit_order(&mut broker, buy).unwrap();

    let sell = Order::market_order(test_symbol(), Side::Sell, Dec::from_int(10), "s".to_string());
    PaperBroker::submit_order(&mut broker, sell).unwrap();

    let positions = PaperBroker::get_positions(&broker).unwrap();
    assert!(positions.is_empty());
}

#[test]
fn test_paper_broker_insufficient_funds() {
    let config = PaperBrokerConfig {
        initial_cash: Dec::from_int(100),
        ..PaperBrokerConfig::default()
    };
    let mut broker = PaperBroker::new(config);
    PaperBroker::connect(&mut broker).unwrap();
    broker.process_market_event(&make_bar(test_symbol(), Dec::from_int(150)));

    // Try to buy 10 shares at ~$150 with only $100 cash
    let order = Order::market_order(test_symbol(), Side::Buy, Dec::from_int(10), "s".to_string());
    let oid = PaperBroker::submit_order(&mut broker, order).unwrap();

    let status = PaperBroker::get_order_status(&broker, oid).unwrap();
    assert_eq!(status, OrderStatus::Rejected);
    assert_eq!(broker.cash(), Dec::from_int(100));
    assert_eq!(broker.get_fills().len(), 0);
}

#[test]
fn test_paper_broker_fills_recorded() {
    let mut broker = PaperBroker::with_defaults();
    PaperBroker::connect(&mut broker).unwrap();
    broker.process_market_event(&make_bar(test_symbol(), Dec::from_int(150)));

    let order = Order::market_order(test_symbol(), Side::Buy, Dec::from_int(5), "s".to_string());
    PaperBroker::submit_order(&mut broker, order).unwrap();

    assert_eq!(broker.get_fills().len(), 1);
    let fill = &broker.get_fills()[0];
    assert_eq!(fill.quantity, Dec::from_int(5));
    assert_eq!(fill.side, Side::Buy);
}

#[test]
fn test_paper_broker_subscribe_unsubscribe() {
    let mut broker = PaperBroker::with_defaults();
    PaperBroker::connect(&mut broker).unwrap();

    let sym = test_symbol();
    PaperBroker::subscribe_market_data(&mut broker, &vec![sym.clone()]).unwrap();
    assert!(broker.subscribed_symbols().contains(&sym));

    PaperBroker::unsubscribe_market_data(&mut broker, &vec![sym.clone()]).unwrap();
    assert!(!broker.subscribed_symbols().contains(&sym));
}

fn default_risk_manager() -> RiskManager {
    RiskManager::new(RiskConfig::default(), Dec::from_int(100_000))
}

#[test]
fn test_order_passes_basic_checks() {
    let mut rm = default_risk_manager();
    let order = Order::market_order(test_symbol(), Side::Buy, Dec::from_int(10), "test".to_string());
    let result = rm.check_order(&order, Dec::from_int(150), Dec::from_int(100_000));
    assert!(result.is_approved());
}

#[test]
fn test_max_order_notional_rejection() {
    let mut rm = default_risk_manager();
    // 1000 shares * $150 = $150k > default $100k limit
    let order =
        Order::market_order(test_symbol(), Side::Buy, Dec::from_int(1000), "test".to_string());
    let result = rm.check_order(&order, Dec::from_int(150), Dec::from_int(100_000));
    assert!(!result.is_approved());
}

#[test]
fn test_circuit_breaker_trips_on_daily_loss() {
    let config = RiskConfig {
        daily_loss_circuit_breaker: Dec::from_raw(50_000),
        ..RiskConfig::default()
    };
    let mut rm = RiskManager::new(config, Dec::from_int(100_000));

    let order = Order::market_order(test_symbol(), Side::Buy, Dec::from_int(1), "test".to_string());
    // Current equity = 94k -> 6% loss -> trips the 5% breaker
    let result = rm.check_order(&order, Dec::from_int(150), Dec::from_int(94_000));
    assert!(!result.is_approved());
    assert!(rm.is_circuit_breaker_tripped());
}

#[test]
fn test_circuit_breaker_reset() {
    let config = RiskConfig {
        daily_loss_circuit_breaker: Dec::from_raw(50_000),
        ..RiskConfig::default()
    };
    let mut rm = RiskManager::new(config, Dec::from_int(100_000));

    let order = Order::market_order(test_symbol(), Side::Buy, Dec::from_int(1), "test".to_string());
    let _ = rm.check_order(&order, Dec::from_int(150), Dec::from_int(94_000));
    assert!(rm.is_circuit_breaker_tripped());

    rm.reset_daily(Dec::from_int(95_000));
    assert!(!rm.is_circuit_breaker_tripped());

    // Now it should pass
    let result = rm.check_order(&order, Dec::from_int(150), Dec::from_int(95_000));
    assert!(result.is_approved());
}

#[test]
fn test_order_rate_limit() {
    let config = RiskConfig {
        max_orders_per_window: 3,
        order_window_seconds: 60,
        ..RiskConfig::default()
    };
    let mut rm = RiskManager::new(config, Dec::from_int(100_000));

    let order = Order::market_order(test_symbol(), Side::Buy, Dec::from_int(1), "test".to_string());

    // First 3 should pass
    assert!(rm
        .check_order(&order, Dec::from_int(150), Dec::from_int(100_000))
        .is_approved());
    assert!(rm
        .check_order(&order, Dec::from_int(150), Dec::from_int(100_000))
        .is_approved());
    assert!(rm
        .check_order(&order, Dec::from_int(150), Dec::from_int(100_000))
        .is_approved());

    // 4th should be rejected
    assert!(!rm
        .check_order(&order, Dec::from_int(150), Dec::from_int(100_000))
        .is_approved());
}

#[test]
fn test_position_concentration_limit() {
    let config = RiskConfig {
        limits: RiskLimits {
            position_concentration_limit: Dec::from_raw(250_000),
            ..RiskLimits::default()
        },
        max_order_notional: Dec::from_int(1_000_000),
        max_total_exposure: Dec::from_int(1_000_000),
        ..RiskConfig::default()
    };
    let mut rm = RiskManager::new(config, Dec::from_int(100_000));

    // 200 shares * $150 = $30k -> 30% of $100k -> exceeds 25%
    let order =
        Order::market_order(test_symbol(), Side::Buy, Dec::from_int(200), "test".to_string());
    let result = rm.check_order(&order, Dec::from_int(150), Dec::from_int(100_000));
    assert!(!result.is_approved());
}

#[test]
fn test_dry_run_mode_allows_rejected_orders() {
    let config = RiskConfig {
        max_order_notional: Dec::from_int(1_000),
        dry_run: true,
        ..RiskConfig::default()
    };
    let mut rm = RiskManager::new(config, Dec::from_int(100_000));

    // Would normally be rejected ($15k notional > $1k limit)
    let order =
        Order::market_order(test_symbol(), Side::Buy, Dec::from_int(100), "test".to_string());
    let result = rm.check_order(&order, Dec::from_int(150), Dec::from_int(100_000));
    // dry-run -> approved anyway
    assert!(result.is_approved());
}

#[test]
fn test_total_exposure_limit() {
    let config = RiskConfig {
        max_total_exposure: Dec::from_int(50_000),
        max_order_notional: Dec::from_int(1_000_000),
        limits: RiskLimits {
            position_concentration_limit: Dec::from_int(1),
            ..RiskLimits::default()
        },
        ..RiskConfig::default()
    };
    let mut rm = RiskManager::new(config, Dec::from_int(100_000));

    // 400 shares * $150 = $60k > $50k exposure limit
    let order =
        Order::market_order(test_symbol(), Side::Buy, Dec::from_int(400), "test".to_string());
    let result = rm.check_order(&order, Dec::from_int(150), Dec::from_int(100_000));
    assert!(!result.is_approved());
}

#[test]
fn test_update_position_tracking() {
    let mut rm = default_risk_manager();
    let sym = test_symbol();

    rm.update_position(&sym, Side::Buy, Dec::from_int(100));
    assert_eq!(rm.position_quantity(&sym), Dec::from_int(100));

    rm.update_position(&sym, Side::Sell, Dec::from_int(40));
    assert_eq!(rm.position_quantity(&sym), Dec::from_int(60));
}

#[test]
fn test_market_simulator_basic() {
    let mut simulator = MarketSimulator::new();

    let symbol = Symbol::new("AAPL", "NASDAQ", AssetClass::Equity);
    let bars = vec![Bar::new(
        symbol.clone(),
        1700000000000,
        Dec::from_int(100),
        Dec::from_int(105),
        Dec::from_int(99),
        Dec::from_int(102),
        Dec::from_int(1000),
        Resolution::Day,
    )];

    simulator.add_data_feed(symbol.clone(), bars).unwrap();
    simulator.initialize().unwrap();

    let events = simulator.next_events().unwrap();
    assert_eq!(events.len(), 1);
    assert_eq!(events[0].symbol, symbol);
}

#[test]
fn test_market_simulator_multi_symbol() {
    let mut simulator = MarketSimulator::new();

    let symbol1 = Symbol::new("AAPL", "NASDAQ", AssetClass::Equity);
    let symbol2 = Symbol::new("GOOGL", "NASDAQ", AssetClass::Equity);

    let time = 1700000000000;
    let bars1 = vec![Bar::new(
        symbol1.clone(),
        time,
        Dec::from_int(100),
        Dec::from_int(105),
        Dec::from_int(99),
        Dec::from_int(102),
        Dec::from_int(1000),
        Resolution::Day,
    )];
    let bars2 = vec![Bar::new(
        symbol2.clone(),
        time,
        Dec::from_int(200),
        Dec::from_int(205),
        Dec::from_int(199),
        Dec::from_int(202),
        Dec::from_int(2000),
        Resolution::Day,
    )];

    simulator.add_data_feed(symbol1.clone(), bars1).unwrap();
    simulator.add_data_feed(symbol2.clone(), bars2).unwrap();
    simulator.initialize().unwrap();

    let events = simulator.next_events().unwrap();
    assert_eq!(events.len(), 2);

    let stats = simulator.get_stats();
    assert_eq!(stats.total_symbols, 2);
    assert_eq!(stats.total_events, 2);
}

/// Successive event batches never come out of time order, and all
/// events at one instant arrive together.
#[test]
fn simulator_groups_instants_in_order() {
    let mut simulator = MarketSimulator::new();
    let a = Symbol::new("AAA", "X", AssetClass::Equity);
    let b = Symbol::new("BBB", "X", AssetClass::Equity);
    let mk = |sym: &Symbol, ts: i64| {
        Bar::new(
            sym.clone(),
            ts,
            Dec::from_int(1),
            Dec::from_int(2),
            Dec::from_int(1),
            Dec::from_int(2),
            Dec::from_int(10),
            Resolution::Day,
        )
    };
    simulator
        .add_data_feed(a.clone(), vec![mk(&a, 2000), mk(&a, 1000)])
        .unwrap();
    simulator
        .add_data_feed(b.clone(), vec![mk(&b, 1000)])
        .unwrap();
    simulator.initialize().unwrap();

    let first = simulator.next_events().unwrap();
    assert_eq!(first.len(), 2);
    assert!(first.iter().all(|e| e.timestamp == 1000));
    // Tie at one instant is ordered by ticker.
    assert_eq!(first[0].symbol.symbol, "AAA");
    assert_eq!(first[1].symbol.symbol, "BBB");

    let second = simulator.next_events().unwrap();
    assert_eq!(second.len(), 1);
    assert_eq!(second[0].timestamp, 2000);

    let done = simulator.next_events().unwrap();
    assert!(done.is_empty());
    assert!(simulator.is_complete());
}

fn default_engine() -> LiveEngine<PaperBroker, BuyAndHoldStrategy> {
    let broker = PaperBroker::new(PaperBrokerConfig {
        initial_cash: Dec::from_int(100_000),
        ..PaperBrokerConfig::default()
    });
    let strategy = BuyAndHoldStrategy::new();

    let mut strategy_config =
        StrategyConfig::new("test_live".to_string(), "Test Live Strategy".to_string());
    strategy_config.add_symbol(test_symbol());

    let config = LiveEngineConfig {
        mode: TradingMode::Sandbox,
        strategy_config,
        risk_config: RiskConfig {
            // Relax limits for the buy-and-hold strategy which uses
            // 95% of cash.
            max_order_notional: Dec::from_int(1_000_000),
            max_total_exposure: Dec::from_int(1_000_000),
            limits: RiskLimits {
                position_concentration_limit: Dec::from_int(1),
                ..RiskLimits::default()
            },
            ..RiskConfig::default()
        },
        initial_capital: Dec::from_int(100_000),
    };

    LiveEngine::new(broker, strategy, config)
}

#[test]
fn test_engine_start_stop() {
    let mut engine = default_engine();
    assert!(!engine.is_running());

    engine.start().unwrap();
    assert!(engine.is_running());
    assert_eq!(engine.mode(), TradingMode::Sandbox);

    let events = engine.drain_events();
    assert!(events
        .iter()
        .any(|e| matches!(e, LiveEngineEvent::Started { .. })));

    engine.stop("test").unwrap();
    assert!(!engine.is_running());

    let events = engine.drain_events();
    assert!(events
        .iter()
        .any(|e| matches!(e, LiveEngineEvent::Stopped { .. })));
}

#[test]
fn test_engine_rejects_event_when_stopped() {
    let mut engine = default_engine();
    let result = engine.on_market_event(make_bar(test_symbol(), Dec::from_int(150)));
    assert!(result.is_err());
}

#[test]
fn test_engine_processes_market_event() {
    let mut engine = default_engine();
    engine.start().unwrap();
    engine.drain_events(); // clear started event

    // Seed price on the paper broker
    engine
        .broker_mut()
        .process_market_event(&make_bar(test_symbol(), Dec::from_int(150)));

    // Feed event to engine
    engine
        .on_market_event(make_bar(test_symbol(), Dec::from_int(150)))
        .unwrap();

    // Buy-and-hold should have placed an order
    let events = engine.drain_events();
    assert!(
        events
            .iter()
            .any(|e| matches!(e, LiveEngineEvent::OrderSubmitted { .. })),
        "expected OrderSubmitted event, got: {events:?}"
    );
}

#[test]
fn test_engine_day_end() {
    let mut engine = default_engine();
    engine.start().unwrap();
    engine.drain_events();

    // day_end should not fail even without market data
    engine.on_day_end().unwrap();
}

#[test]
fn test_engine_circuit_breaker_propagates() {
    let risk_config = RiskConfig {
        daily_loss_circuit_breaker: Dec::from_raw(10_000),
        ..RiskConfig::default()
    };

    let broker = PaperBroker::with_defaults();
    let strategy = BuyAndHoldStrategy::new();

    let mut strategy_config = StrategyConfig::new("cb_test".to_string(), "CB Test".to_string());
    strategy_config.add_symbol(test_symbol());

    let config = LiveEngineConfig {
        mode: TradingMode::Sandbox,
        strategy_config,
        risk_config,
        initial_capital: Dec::from_int(100_000),
    };

    let mut engine = LiveEngine::new(broker, strategy, config);
    engine.start().unwrap();
    engine.drain_events();

    // Simulate a portfolio loss by mutating equity directly
    engine.context.portfolio.cash = Dec::from_int(98_000);
    engine.context.portfolio.total_equity = Dec::from_int(98_000);

    // Seed broker price
    engine
        .broker_mut()
        .process_market_event(&make_bar(test_symbol(), Dec::from_int(150)));

    // Feed event - strategy will try to place an order
    engine
        .on_market_event(make_bar(test_symbol(), Dec::from_int(150)))
        .unwrap();

    let events = engine.drain_events();
    let has_cb = events
        .iter()
        .any(|e| matches!(e, LiveEngineEvent::CircuitBreakerTripped { .. }));
    let has_risk_reject = events
        .iter()
        .any(|e| matches!(e, LiveEngineEvent::OrderRejectedByRisk { .. }));

    assert!(
        has_cb || has_risk_reject,
        "expected circuit breaker or risk rejection, got: {events:?}"
    );
}

/// Reading the account balance twice with no intervening fill or
/// price update yields identical results.
#[test]
fn balance_idempotent_without_updates() {
    let mut broker = PaperBroker::with_defaults();
    PaperBroker::connect(&mut broker).unwrap();
    broker.process_market_event(&make_bar(test_symbol(), Dec::from_int(150)));
    let order = Order::market_order(test_symbol(), Side::Buy, Dec::from_int(10), "s".to_string());
    PaperBroker::submit_order(&mut broker, order).unwrap();

    let first = PaperBroker::get_account_balance(&broker).unwrap();
    let second = PaperBroker::get_account_balance(&broker).unwrap();
    assert_eq!(first, second);
}

#[test]
fn engine_rejects_fill_and_day_end_when_stopped() {
    let mut engine = default_engine();
    let fill = Fill::new(
        1,
        test_symbol(),
        Side::Buy,
        Dec::from_int(10),
        Dec::from_int(150),
        Dec::one(),
        "test_live".to_string(),
    );
    assert!(engine.on_fill(fill).is_err());
    assert!(engine.on_day_end().is_err());
}

#[test]
fn drain_events_empties_the_queue_in_order() {
    let mut engine = default_engine();
    engine.start().unwrap();
    let events = engine.drain_events();
    assert!(matches!(events.first(), Some(LiveEngineEvent::Started { .. })));
    assert!(engine.drain_events().is_empty());
}
