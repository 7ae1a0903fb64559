use cryptobot::models::Balance;
use cryptobot::signing::{build_query, build_signed_query, now_millis, sign, u64_to_string};

#[test]
fn test_timestamp() {
    let ts = now_millis();
    assert!(ts > 1700000000000); // Should be after Nov 2023
}

#[test]
fn test_sign_known_vector() {
    // HMAC-SHA256 test vector from RFC 4231, case 2
    let sig = sign("Jefe", "what do ya want for nothing?");
    assert_eq!(sig, "5bdcc146bf60754e6a042426089575c75a003f089d2739839dec58b964ec3843");
}

#[test]
fn test_u64_to_string() {
    assert_eq!(u64_to_string(0), "0");
    assert_eq!(u64_to_string(7), "7");
    assert_eq!(u64_to_string(1234567890), "1234567890");
    assert_eq!(u64_to_string(u64::MAX), "18446744073709551615");
}

#[test]
fn test_build_query_orders_parameters() {
    let params = vec![
        ("symbol".to_owned(), "BTCUSDT".to_owned()),
        ("side".to_owned(), "BUY".to_owned()),
    ];
    let q = build_query(&params, 1499827319559);
    assert_eq!(q, "symbol=BTCUSDT&side=BUY&timestamp=1499827319559");
}

#[test]
fn test_build_query_timestamp_only() {
    let params: Vec<(String, String)> = vec![];
    assert_eq!(build_query(&params, 42), "timestamp=42");
}

#[test]
fn test_build_signed_query_shape() {
    let params = vec![("symbol".to_owned(), "BTCUSDT".to_owned())];
    let q = build_signed_query(&params, "testkey");
    assert!(q.starts_with("symbol=BTCUSDT&timestamp="));
    let sig_at = q.find("&signature=").expect("signature parameter");
    // a 64-digit lowercase hex signature ends the query
    let sig = &q[sig_at + "&signature=".len()..];
    assert_eq!(sig.len(), 64);
    assert!(sig.chars().all(|c| c.is_ascii_hexdigit() && !c.is_ascii_uppercase()));
}

#[test]
fn test_balance_parsing_total() {
    let b = Balance {
        asset: "BTC".to_owned(),
        free: "1.5".to_owned(),
        locked: "0.25".to_owned(),
    };
    assert_eq!(b.total(), cryptobot::decimal::Dec::new(175, 2));
    assert_eq!(b.free_decimal(), cryptobot::decimal::Dec::new(15, 1));
    assert_eq!(b.locked_decimal(), cryptobot::decimal::Dec::new(25, 2));
}
