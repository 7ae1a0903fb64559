use cryptobot::decimal::Dec;
use cryptobot::models::{Balance, OrderRequest, OrderSide, OrderType, TimeInForce};
use cryptobot::risk::{RiskError, RiskManager};

fn create_test_balance(free: &str) -> Balance {
    Balance { asset: "USDT".to_owned(), free: free.to_owned(), locked: "0".to_owned() }
}

#[test]
fn test_position_size_calculation() {
    let rm = RiskManager::new(Dec::from_int(2), Dec::from_int(5), 3);

    let size = rm.calculate_position_size(Dec::from_int(1000), Dec::from_int(2), Dec::from_int(50));
    assert_eq!(size, Dec::new(4, 1)); // 2% of 1000 = 20, 20/50 = 0.4
}

#[test]
fn test_position_size_capped_at_max() {
    let rm = RiskManager::new(Dec::from_int(2), Dec::from_int(5), 3);

    // Request 10% but max is 2%
    let size = rm.calculate_position_size(
        Dec::from_int(1000),
        Dec::from_int(10),
        Dec::from_int(50),
    );
    assert_eq!(size, Dec::new(4, 1)); // Capped at 2%
}

#[test]
fn test_validate_order_too_large() {
    let rm = RiskManager::new(Dec::from_int(2), Dec::from_int(5), 3);
    let balance = create_test_balance("1000");

    let order = OrderRequest::market("BTCUSDT", OrderSide::Buy, Dec::from_int(1));
    let result = rm.validate_order(&order, &balance, Dec::from_int(50000));

    assert!(matches!(result, Err(RiskError::PositionTooLarge { .. })));
}

#[test]
fn test_validate_order_valid() {
    let rm = RiskManager::new(Dec::from_int(2), Dec::from_int(5), 3);
    let balance = create_test_balance("1000");

    // 2% of 1000 = 20 USDT max, order is 0.0004 * 50000 = 20 USDT
    let order = OrderRequest::market("BTCUSDT", OrderSide::Buy, Dec::new(4, 4));
    let result = rm.validate_order(&order, &balance, Dec::from_int(50000));

    assert!(result.is_ok());
}

#[test]
fn test_daily_loss_tracking() {
    let mut rm = RiskManager::new(Dec::from_int(2), Dec::from_int(5), 3);

    assert!(rm.can_trade());

    rm.record_trade_result(Dec::from_int(-3));
    assert!(rm.can_trade());
    assert_eq!(rm.current_daily_loss(), Dec::from_int(3));

    rm.record_trade_result(Dec::from_int(-3));
    assert!(!rm.can_trade());
    assert_eq!(rm.current_daily_loss(), Dec::from_int(6));

    rm.reset_daily_stats();
    assert!(rm.can_trade());
}

#[test]
fn test_position_count_tracking() {
    let mut rm = RiskManager::new(Dec::from_int(2), Dec::from_int(5), 2);

    assert_eq!(rm.open_positions_count(), 0);
    assert!(rm.can_trade());

    rm.increment_positions();
    assert_eq!(rm.open_positions_count(), 1);
    assert!(rm.can_trade());

    rm.increment_positions();
    assert_eq!(rm.open_positions_count(), 2);
    assert!(!rm.can_trade());

    rm.decrement_positions();
    assert!(rm.can_trade());
}

#[test]
fn test_gains_do_not_reduce_daily_loss() {
    let mut rm = RiskManager::new(Dec::from_int(2), Dec::from_int(5), 3);
    rm.record_trade_result(Dec::from_int(-3));
    rm.record_trade_result(Dec::from_int(10));
    assert_eq!(rm.current_daily_loss(), Dec::from_int(3));
}

#[test]
fn test_validate_order_daily_loss_exceeded() {
    let mut rm = RiskManager::new(Dec::from_int(2), Dec::from_int(5), 3);
    rm.record_trade_result(Dec::from_int(-6));
    let balance = create_test_balance("1000");
    let order = OrderRequest::market("BTCUSDT", OrderSide::Buy, Dec::new(4, 4));
    let result = rm.validate_order(&order, &balance, Dec::from_int(50000));
    assert!(matches!(result, Err(RiskError::DailyLossExceeded { .. })));
}

#[test]
fn test_validate_order_max_positions() {
    let mut rm = RiskManager::new(Dec::from_int(2), Dec::from_int(5), 1);
    rm.increment_positions();
    let balance = create_test_balance("1000");
    let order = OrderRequest::market("BTCUSDT", OrderSide::Buy, Dec::new(4, 4));
    let result = rm.validate_order(&order, &balance, Dec::from_int(50000));
    assert!(matches!(result, Err(RiskError::MaxPositionsReached { max: 1 })));
}

#[test]
fn test_validate_order_insufficient_balance() {
    // a limit above one hundred percent lets the value check pass while the
    // balance check fails
    let rm = RiskManager::new(Dec::from_int(200), Dec::from_int(5), 3);
    let balance = create_test_balance("1000");
    let order = OrderRequest::market("BTCUSDT", OrderSide::Buy, Dec::new(3, 2)); // 0.03
    let result = rm.validate_order(&order, &balance, Dec::from_int(50000)); // value 1500
    assert!(matches!(result, Err(RiskError::InsufficientBalance { .. })));
}

#[test]
fn test_validate_order_non_positive_quantity() {
    let rm = RiskManager::new(Dec::from_int(2), Dec::from_int(5), 3);
    let balance = create_test_balance("1000");
    let order = OrderRequest::market("BTCUSDT", OrderSide::Sell, Dec::zero());
    let result = rm.validate_order(&order, &balance, Dec::from_int(50000));
    match result {
        Err(RiskError::InvalidOrder { reason }) => {
            assert_eq!(reason, "Quantity must be positive");
        }
        other => panic!("expected an invalid-order error, got {:?}", other),
    }
}

#[test]
fn test_validate_order_limit_needs_price() {
    let rm = RiskManager::new(Dec::from_int(2), Dec::from_int(5), 3);
    let balance = create_test_balance("1000");
    let order = OrderRequest {
        symbol: "BTCUSDT".to_owned(),
        side: OrderSide::Sell,
        order_type: OrderType::Limit,
        quantity: Dec::from_int(1),
        price: None,
        time_in_force: Some(TimeInForce::Gtc),
        stop_price: None,
    };
    let result = rm.validate_order(&order, &balance, Dec::from_int(50000));
    match result {
        Err(RiskError::InvalidOrder { reason }) => {
            assert_eq!(reason, "Limit orders must have a price");
        }
        other => panic!("expected an invalid-order error, got {:?}", other),
    }
}

#[test]
fn test_validate_monotone_in_max_position_pct() {
    // the same order passes under the looser limit and fails under the
    // tighter one, never the other way around
    let tight = RiskManager::new(Dec::from_int(1), Dec::from_int(5), 3);
    let loose = RiskManager::new(Dec::from_int(4), Dec::from_int(5), 3);
    let balance = create_test_balance("1000");
    let order = OrderRequest::market("BTCUSDT", OrderSide::Buy, Dec::new(4, 4)); // value 20
    assert!(tight.validate_order(&order, &balance, Dec::from_int(50000)).is_err());
    assert!(loose.validate_order(&order, &balance, Dec::from_int(50000)).is_ok());
}

#[test]
fn test_position_size_never_exceeds_cap() {
    let rm = RiskManager::new(Dec::from_int(2), Dec::from_int(5), 3);
    let cap = rm.calculate_position_size(
        Dec::from_int(1000),
        Dec::from_int(2),
        Dec::from_int(50),
    );
    for risk in [0i64, 1, 2, 3, 10, 100] {
        let size = rm.calculate_position_size(
            Dec::from_int(1000),
            Dec::from_int(risk),
            Dec::from_int(50),
        );
        assert!(size.le(cap));
    }
}
