use cryptobot::decimal::Dec;
use cryptobot::models::{Kline, MarketData};
use cryptobot::strategy::{Signal, SmaCrossoverStrategy, Strategy};

fn create_market_data(close_prices: Vec<&str>) -> MarketData {
    let klines = close_prices
        .into_iter()
        .enumerate()
        .map(|(i, price)| Kline {
            open_time: i as u64 * 3600000,
            open: price.to_owned(),
            high: price.to_owned(),
            low: price.to_owned(),
            close: price.to_owned(),
            volume: "100".to_owned(),
            close_time: (i as u64 + 1) * 3600000,
            quote_asset_volume: "10000".to_owned(),
            number_of_trades: 100,
            taker_buy_base_asset_volume: "50".to_owned(),
            taker_buy_quote_asset_volume: "5000".to_owned(),
        })
        .collect();

    MarketData {
        symbol: "BTCUSDT".to_owned(),
        current_price: Dec::from_int(100),
        klines,
        timestamp: 0,
    }
}

#[test]
fn test_golden_cross() {
    let strategy = SmaCrossoverStrategy::new(2, 4, 0);

    // Short MA below long MA on the previous candle (11 < 13), above it on
    // the current one (21 > 15.5)
    let market_data = create_market_data(vec!["20", "20", "10", "10", "12", "30"]);

    let signal = strategy.analyze(&market_data);
    assert!(matches!(signal, Signal::Buy { .. }));
    assert!(signal.strength() >= 500);
}

#[test]
fn test_gradual_rise_without_cross_holds() {
    // the short average sits above the long one already before the final
    // candle, so no cross fires on a steady rise
    let strategy = SmaCrossoverStrategy::new(2, 4, 0);
    let market_data = create_market_data(vec!["10", "10", "10", "10", "12", "14"]);
    let signal = strategy.analyze(&market_data);
    assert!(matches!(signal, Signal::Hold));
}

#[test]
fn test_death_cross() {
    let strategy = SmaCrossoverStrategy::new(2, 4, 0);

    // Short MA above long MA on the previous candle (19 > 17), below it on
    // the current one (10 < 15)
    let market_data = create_market_data(vec!["10", "10", "20", "20", "18", "2"]);

    let signal = strategy.analyze(&market_data);
    assert!(matches!(signal, Signal::Sell { .. }));
    assert!(signal.strength() >= 500);
}

#[test]
fn test_hold_signal() {
    let strategy = SmaCrossoverStrategy::new(2, 4, 0);

    // Create flat data - no crossover
    let market_data = create_market_data(vec!["10", "10", "10", "10", "10", "10"]);

    let signal = strategy.analyze(&market_data);
    assert!(matches!(signal, Signal::Hold));
}

#[test]
fn test_insufficient_data() {
    let strategy = SmaCrossoverStrategy::new(2, 4, 0);

    // Not enough data points
    let market_data = create_market_data(vec!["10", "11", "12"]);

    let signal = strategy.analyze(&market_data);
    assert!(matches!(signal, Signal::Hold));
}

#[test]
fn test_signal_actionable() {
    assert!(Signal::Buy { strength: 800 }.is_actionable(600));
    assert!(!Signal::Buy { strength: 500 }.is_actionable(600));
    assert!(!Signal::Hold.is_actionable(0));
}

#[test]
fn test_signal_strength_accessor() {
    assert_eq!(Signal::Buy { strength: 700 }.strength(), 700);
    assert_eq!(Signal::Sell { strength: 900 }.strength(), 900);
    assert_eq!(Signal::Hold.strength(), 0);
}

#[test]
fn test_required_history() {
    let strategy = SmaCrossoverStrategy::new(2, 4, 0);
    assert_eq!(strategy.required_history(), 5);
    let other = SmaCrossoverStrategy::new(10, 20, 500);
    assert_eq!(other.required_history(), 21);
}

#[test]
fn test_strength_saturates_at_full() {
    // one percent of separation already maps to full strength
    let strategy = SmaCrossoverStrategy::new(2, 4, 0);
    let market_data = create_market_data(vec!["20", "20", "10", "10", "12", "30"]);
    let signal = strategy.analyze(&market_data);
    assert!(matches!(signal, Signal::Buy { strength: 1000 }));
}

#[test]
fn test_strength_reflects_separation() {
    // a 0.05 percent separation adds 49 thousandths over the half floor
    let strategy = SmaCrossoverStrategy::new(2, 4, 0);
    let market_data = create_market_data(vec![
        "1000", "1000", "1000", "1000", "999", "1003",
    ]);
    let signal = strategy.analyze(&market_data);
    assert!(matches!(signal, Signal::Buy { strength: 549 }));
}

#[test]
fn test_min_strength_gate_blocks_weak_signal() {
    // same crossover, but a threshold above full strength suppresses it
    let strategy = SmaCrossoverStrategy::new(2, 4, 1001);
    let market_data = create_market_data(vec!["20", "20", "10", "10", "12", "30"]);
    let signal = strategy.analyze(&market_data);
    assert!(matches!(signal, Signal::Hold));
}

#[test]
fn test_strategy_name() {
    let strategy = SmaCrossoverStrategy::new(2, 4, 0);
    assert_eq!(strategy.name(), "SMA Crossover");
}
