use cryptobot::decimal::Dec;

#[test]
fn test_round_quantity() {
    // rounding at the per-symbol decimal places
    let quantity = Dec::new(123456789, 9); // 0.123456789

    // BTC precision = 5
    assert_eq!(quantity.round_dp(5), Dec::new(12346, 5));

    // ETH precision = 4
    assert_eq!(quantity.round_dp(4), Dec::new(1235, 4));

    // Other precision = 3
    assert_eq!(quantity.round_dp(3), Dec::new(123, 3));
}

#[test]
fn test_parse_whole_number() {
    assert_eq!(Dec::parse("50000"), Some(Dec::from_int(50000)));
    assert_eq!(Dec::parse("0"), Some(Dec::zero()));
}

#[test]
fn test_parse_fraction() {
    assert_eq!(Dec::parse("0.4"), Some(Dec::new(4, 1)));
    assert_eq!(Dec::parse("123.456"), Some(Dec::new(123456, 3)));
    assert_eq!(Dec::parse("-2.5"), Some(Dec::new(-25, 1)));
}

#[test]
fn test_parse_rejects_malformed() {
    assert_eq!(Dec::parse(""), None);
    assert_eq!(Dec::parse("abc"), None);
    assert_eq!(Dec::parse("1."), None);
    assert_eq!(Dec::parse(".5"), None);
    assert_eq!(Dec::parse("1.2.3"), None);
    assert_eq!(Dec::parse("1.0000000001"), None); // ten fraction digits
    assert_eq!(Dec::parse("100000000000"), None); // too large
    assert_eq!(Dec::parse_or_zero("junk"), Dec::zero());
    assert_eq!(Dec::parse_or_zero("7.25"), Dec::new(725, 2));
}

#[test]
fn test_to_decimal_string() {
    assert_eq!(Dec::from_int(50000).to_decimal_string(), "50000");
    assert_eq!(Dec::zero().to_decimal_string(), "0");
    assert_eq!(Dec::new(4, 1).to_decimal_string(), "0.4");
    assert_eq!(Dec::new(-25, 1).to_decimal_string(), "-2.5");
    assert_eq!(Dec::new(1500, 3).to_decimal_string(), "1.5");
    assert_eq!(Dec::new(123456789, 9).to_decimal_string(), "0.123456789");
    assert_eq!(Dec::new(10001, 4).to_decimal_string(), "1.0001");
}

#[test]
fn test_parse_round_trips_rendering() {
    for s in ["0", "1", "0.5", "12345.6789", "-3.25", "999999999.999999999"] {
        let d = Dec::parse(s).unwrap();
        assert_eq!(d.to_decimal_string(), s);
    }
}

#[test]
fn test_arithmetic() {
    let a = Dec::new(15, 1); // 1.5
    let b = Dec::new(25, 1); // 2.5
    assert_eq!(a.add(b), Dec::from_int(4));
    assert_eq!(b.sub(a), Dec::from_int(1));
    assert_eq!(a.mul(b), Dec::new(375, 2)); // 3.75
    assert_eq!(b.div(a), Dec::new(1666666666, 9));
    assert_eq!(Dec::from_int(-3).abs(), Dec::from_int(3));
    assert_eq!(a.min(b), a);
    assert!(a.lt(b));
    assert!(b.ge(a));
}
