use cryptobot::decimal::Dec;
use cryptobot::engine::{EngineError, OrderPlan, TradingEngine};
use cryptobot::models::{Balance, Kline, MarketData, OrderSide};
use cryptobot::risk::RiskManager;
use cryptobot::strategy::SmaCrossoverStrategy;

fn market_snapshot(symbol: &str, close_prices: Vec<&str>, current_price: i64) -> MarketData {
    let klines = close_prices
        .into_iter()
        .enumerate()
        .map(|(i, price)| Kline {
            open_time: i as u64 * 3600000,
            open: price.to_owned(),
            high: price.to_owned(),
            low: price.to_owned(),
            close: price.to_owned(),
            volume: "100".to_owned(),
            close_time: (i as u64 + 1) * 3600000,
            quote_asset_volume: "10000".to_owned(),
            number_of_trades: 100,
            taker_buy_base_asset_volume: "50".to_owned(),
            taker_buy_quote_asset_volume: "5000".to_owned(),
        })
        .collect();

    MarketData {
        symbol: symbol.to_owned(),
        current_price: Dec::from_int(current_price),
        klines,
        timestamp: 0,
    }
}

fn balance(asset: &str, free: &str) -> Balance {
    Balance { asset: asset.to_owned(), free: free.to_owned(), locked: "0".to_owned() }
}

fn engine(paper: bool) -> TradingEngine<SmaCrossoverStrategy> {
    TradingEngine::new(
        RiskManager::new(Dec::from_int(2), Dec::from_int(5), 3),
        SmaCrossoverStrategy::new(2, 4, 0),
        vec!["BTCUSDT".to_owned()],
        paper,
    )
}

#[test]
fn test_paper_trading_never_submits() {
    // a buy signal that passes risk places no live order in paper mode
    let eng = engine(true);
    let md = market_snapshot("BTCUSDT", vec!["20", "20", "10", "10", "12", "30"], 50);
    let balances = vec![balance("USDT", "1000")];
    let plan = eng.plan_symbol(&md, &balances).unwrap();
    assert!(matches!(plan, OrderPlan::Paper(_)));
}

#[test]
fn test_live_trading_submits() {
    let eng = engine(false);
    let md = market_snapshot("BTCUSDT", vec!["20", "20", "10", "10", "12", "30"], 50);
    let balances = vec![balance("USDT", "1000")];
    let plan = eng.plan_symbol(&md, &balances).unwrap();
    match plan {
        OrderPlan::Submit(order) => {
            assert_eq!(order.symbol, "BTCUSDT");
            assert!(matches!(order.side, OrderSide::Buy));
            assert!(order.quantity.gt(Dec::zero()));
        }
        other => panic!("expected a live order, got {:?}", other),
    }
}

#[test]
fn test_hold_plans_nothing() {
    let eng = engine(false);
    let md = market_snapshot("BTCUSDT", vec!["10", "10", "10", "10", "10", "10"], 10);
    let balances = vec![balance("USDT", "1000")];
    let plan = eng.plan_symbol(&md, &balances).unwrap();
    assert!(matches!(plan, OrderPlan::NoAction));
}

#[test]
fn test_buy_without_quote_balance_fails() {
    let eng = engine(false);
    let md = market_snapshot("BTCUSDT", vec!["20", "20", "10", "10", "12", "30"], 50);
    let balances = vec![balance("ETH", "5")];
    let result = eng.plan_symbol(&md, &balances);
    match result {
        Err(EngineError::QuoteBalanceMissing { asset }) => assert_eq!(asset, "USDT"),
        other => panic!("expected a missing quote balance, got {:?}", other),
    }
}

#[test]
fn test_sell_uses_base_balance() {
    let eng = engine(false);
    let md = market_snapshot("BTCUSDT", vec!["10", "10", "20", "20", "18", "2"], 10);
    // full-strength sell offers the whole free BTC balance
    let balances = vec![balance("BTC", "2"), balance("USDT", "1000")];
    let plan = eng.plan_symbol(&md, &balances).unwrap();
    match plan {
        OrderPlan::Submit(order) => {
            assert!(matches!(order.side, OrderSide::Sell));
            assert!(order.quantity.gt(Dec::zero()));
            assert!(order.quantity.le(Dec::from_int(2)));
        }
        other => panic!("expected a live sell, got {:?}", other),
    }
}

#[test]
fn test_sell_without_base_balance_plans_nothing() {
    let eng = engine(false);
    let md = market_snapshot("BTCUSDT", vec!["10", "10", "20", "20", "18", "2"], 10);
    let balances = vec![balance("USDT", "1000")];
    let plan = eng.plan_symbol(&md, &balances).unwrap();
    assert!(matches!(plan, OrderPlan::NoAction));
}

#[test]
fn test_order_rejected_by_risk_plans_nothing() {
    // after the daily loss limit is hit the validation gate rejects the buy
    let mut eng = engine(false);
    eng.risk_manager.record_trade_result(Dec::from_int(-6));
    let md = market_snapshot("BTCUSDT", vec!["20", "20", "10", "10", "12", "30"], 50);
    let balances = vec![balance("USDT", "1000")];
    let plan = eng.plan_symbol(&md, &balances).unwrap();
    assert!(matches!(plan, OrderPlan::NoAction));
}

#[test]
fn test_on_order_placed_updates_counters() {
    let mut eng = engine(false);
    eng.on_order_placed(OrderSide::Buy);
    assert_eq!(eng.risk_manager.open_positions_count(), 1);
    eng.on_order_placed(OrderSide::Buy);
    assert_eq!(eng.risk_manager.open_positions_count(), 2);
    eng.on_order_placed(OrderSide::Sell);
    assert_eq!(eng.risk_manager.open_positions_count(), 1);
}

#[test]
fn test_required_klines_floor() {
    let eng = engine(false);
    assert_eq!(eng.required_klines(), 50);
    let wide = TradingEngine::new(
        RiskManager::new(Dec::from_int(2), Dec::from_int(5), 3),
        SmaCrossoverStrategy::new(30, 99, 0),
        vec![],
        false,
    );
    assert_eq!(wide.required_klines(), 100);
}

#[test]
fn test_round_quantity_by_symbol_family() {
    let eng = engine(false);
    let q = Dec::new(123456789, 9);
    assert_eq!(eng.round_quantity(q, "BTCUSDT"), Dec::new(12346, 5));
    assert_eq!(eng.round_quantity(q, "ETHUSDT"), Dec::new(1235, 4));
    assert_eq!(eng.round_quantity(q, "XRPUSDT"), Dec::new(123, 3));
}
