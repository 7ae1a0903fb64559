use cryptobot::decimal::Dec;
use cryptobot::indicators::{calculate_ema, calculate_rsi, calculate_sma};

fn dec_prices(vals: Vec<i64>) -> Vec<Dec> {
    vals.into_iter().map(Dec::from_int).collect()
}

#[test]
fn test_calculate_sma() {
    let prices = dec_prices(vec![10, 11, 12, 13, 14]);
    let sma = calculate_sma(&prices, 3);
    assert_eq!(sma, Some(Dec::from_int(13))); // (12 + 13 + 14) / 3 = 13
}

#[test]
fn test_calculate_sma_insufficient_data() {
    let prices = dec_prices(vec![10, 11]);
    let sma = calculate_sma(&prices, 3);
    assert!(sma.is_none());
}

#[test]
fn test_sma_inexact_mean_floors() {
    let prices = dec_prices(vec![10, 10, 12, 14]);
    // mean of the last 4 is 11.5
    assert_eq!(calculate_sma(&prices, 4), Some(Dec::new(115, 1)));
    // mean of the last 3 is 12
    assert_eq!(calculate_sma(&prices, 3), Some(Dec::from_int(12)));
}

#[test]
fn test_ema_seed_equals_sma() {
    let prices = dec_prices(vec![10, 11, 12]);
    assert_eq!(calculate_ema(&prices, 3), calculate_sma(&prices, 3));
}

#[test]
fn test_ema_recurrence() {
    // seed: SMA(10, 11, 12) = 11; multiplier 2 / 4 = 0.5
    // 13: 11 + (13 - 11) * 0.5 = 12; 14: 12 + (14 - 12) * 0.5 = 13
    let prices = dec_prices(vec![10, 11, 12, 13, 14]);
    assert_eq!(calculate_ema(&prices, 3), Some(Dec::from_int(13)));
}

#[test]
fn test_ema_insufficient_data() {
    let prices = dec_prices(vec![10, 11]);
    assert!(calculate_ema(&prices, 3).is_none());
}

#[test]
fn test_calculate_rsi() {
    // Create a simple uptrend
    let prices: Vec<Dec> = (0..20).map(|i| Dec::from_int(100 + i)).collect();
    let rsi = calculate_rsi(&prices, 14);
    assert!(rsi.is_some());
    assert!(rsi.unwrap().gt(Dec::from_int(50))); // Should be bullish
}

#[test]
fn test_rsi_all_gains_is_100() {
    let prices = dec_prices(vec![10, 11, 12, 13]);
    assert_eq!(calculate_rsi(&prices, 3), Some(Dec::from_int(100)));
}

#[test]
fn test_rsi_exact_mixed() {
    // deltas +2, -1 over period 2: avg gain 1, avg loss 0.5, RS = 2,
    // RSI = 100 - 100 / 3 rounded down at the ninth decimal place
    let prices = dec_prices(vec![10, 12, 11]);
    let rsi = calculate_rsi(&prices, 2).unwrap();
    assert_eq!(rsi.units, 66_666_666_667);
}

#[test]
fn test_rsi_insufficient_data() {
    let prices = dec_prices(vec![10, 11, 12]);
    assert!(calculate_rsi(&prices, 3).is_none());
    assert!(calculate_rsi(&prices, 2).is_some());
}

#[test]
fn test_rsi_within_bounds() {
    let prices = dec_prices(vec![10, 8, 13, 9, 14, 7]);
    let rsi = calculate_rsi(&prices, 4).unwrap();
    assert!(rsi.ge(Dec::zero()));
    assert!(rsi.le(Dec::from_int(100)));
}
