// Unit tests for the per-venue connector types.

use aggregator_core::servers::{GrpcServer, RestServer, WebSocketServer};
use aggregator_core::venues::{Binance, Bybit, BybitConfig, Kraken, KrakenConfig};

#[test]
fn test_binance_creation() {
    let binance = Binance::new();
    // Test that creation doesn't panic
    assert_eq!(
        std::mem::size_of_val(&binance),
        std::mem::size_of::<Binance>()
    );
}

#[test]
fn test_binance_default() {
    let binance1 = Binance::new();
    let binance2 = Binance::default();

    // Both should be equivalent (empty structs)
    assert_eq!(
        std::mem::size_of_val(&binance1),
        std::mem::size_of_val(&binance2)
    );
}

#[test]
fn test_binance_format_symbol() {
    let binance = Binance::new();
    assert_eq!(binance.format_symbol("btc", "usdt"), "BTCUSDT");
}

#[test]
fn test_bybit_creation() {
    let bybit = Bybit::new();
    assert_eq!(std::mem::size_of_val(&bybit), std::mem::size_of::<Bybit>());
}

#[test]
fn test_bybit_with_config() {
    let config = BybitConfig::default();
    let bybit = Bybit::with_config(config);
    assert_eq!(std::mem::size_of_val(&bybit), std::mem::size_of::<Bybit>());
}

#[test]
fn test_bybit_config_default() {
    let config = BybitConfig::default();
    assert_eq!(
        config.websocket_url,
        "wss://stream.bybit.com/v5/public/linear"
    );
    assert_eq!(config.rest_url, "https://api.bybit.com/v5/market/orderbook");
    assert_eq!(config.reconnect_interval, 5000);
    assert_eq!(config.ping_interval, 20000);
}

#[test]
fn test_bybit_config_access() {
    let bybit = Bybit::new();
    // Test that we can access the config field
    assert!(!bybit.config.websocket_url.is_empty());
    assert!(!bybit.config.rest_url.is_empty());
}

#[test]
fn test_bybit_format_symbol() {
    let bybit = Bybit::new();
    assert_eq!(bybit.format_symbol("eth", "usdt"), "ETHUSDT");
}

#[test]
fn test_kraken_creation() {
    let kraken = Kraken::new();
    assert_eq!(std::mem::size_of_val(&kraken), std::mem::size_of::<Kraken>());
}

#[test]
fn test_kraken_with_config() {
    let config = KrakenConfig::default();
    let kraken = Kraken::with_config(config);
    assert_eq!(std::mem::size_of_val(&kraken), std::mem::size_of::<Kraken>());
}

#[test]
fn test_kraken_config_default() {
    let config = KrakenConfig::default();
    assert_eq!(config.websocket_url, "wss://ws.kraken.com");
    assert_eq!(config.reconnect_interval, 5000);
    assert_eq!(config.ping_interval, 20000);
}

#[test]
fn test_kraken_config_access() {
    let kraken = Kraken::new();
    // Test that we can access the config field
    assert!(!kraken.config.websocket_url.is_empty());
    assert_eq!(kraken.config.reconnect_interval, 5000);
}

#[test]
fn test_kraken_format_symbol() {
    let kraken = Kraken::new();
    assert_eq!(kraken.format_symbol("btc", "usd"), "BTC/USD");
}

#[test]
fn test_server_descriptions() {
    let grpc = GrpcServer::new("0.0.0.0".to_string(), 50051);
    assert_eq!(grpc.port, 50051);
    let rest = RestServer::new("0.0.0.0".to_string(), 8080);
    assert_eq!(rest.host, "0.0.0.0");
    let ws = WebSocketServer::new("0.0.0.0".to_string(), 8081, 1000);
    assert_eq!(ws.max_connections, 1000);
}

#[test]
fn test_bybit_subscription_topic() {
    let bybit = Bybit::new();
    assert_eq!(bybit.subscription_topic("BTCUSDT"), "orderbook.50.BTCUSDT");
}
