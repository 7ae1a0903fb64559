use cryptobot::config::Environment;
use cryptobot::stream::{route_stream_frame, BinanceWebSocket, WsMessage};
use cryptobot::models::WsTickerUpdate;

#[test]
fn test_environment_urls() {
    assert_eq!(Environment::Testnet.base_url(), "https://testnet.binance.vision");
    assert_eq!(Environment::Mainnet.base_url(), "https://api.binance.com");
}

#[test]
fn test_ws_urls() {
    assert_eq!(Environment::Testnet.ws_url(), "wss://testnet.binance.vision/ws");
    assert_eq!(Environment::Mainnet.ws_url(), "wss://stream.binance.com:9443/ws");
}

#[test]
fn test_environment_from_name() {
    assert_eq!(Environment::from_name("mainnet"), Environment::Mainnet);
    assert_eq!(Environment::from_name("production"), Environment::Mainnet);
    assert_eq!(Environment::from_name("prod"), Environment::Mainnet);
    assert_eq!(Environment::from_name("testnet"), Environment::Testnet);
    assert_eq!(Environment::from_name("anything else"), Environment::Testnet);
}

#[test]
fn test_websocket_creation() {
    let ws = BinanceWebSocket::new(Environment::Testnet);
    assert_eq!(ws.environment, Environment::Testnet);
}

fn ticker_update() -> WsTickerUpdate {
    WsTickerUpdate {
        event_type: "24hrTicker".to_owned(),
        event_time: 1,
        symbol: "BTCUSDT".to_owned(),
        close_price: "50000.1".to_owned(),
    }
}

#[test]
fn test_route_ticker_frame() {
    let routed = route_stream_frame("btcusdt@ticker", ticker_update());
    match routed {
        Some(WsMessage::Ticker(u)) => assert_eq!(u.symbol, "BTCUSDT"),
        other => panic!("expected a ticker message, got {:?}", other),
    }
}

#[test]
fn test_route_other_frame_dropped() {
    assert!(route_stream_frame("btcusdt@depth", ticker_update()).is_none());
}
