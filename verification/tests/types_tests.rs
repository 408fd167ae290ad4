// Unit tests for the core data types.

use aggregator_core::types::{
    ArbitrageOpportunity, Ask, Bid, Exchange, HealthStatus, MarketType, Metrics,
    OrderBookDepth, PriceLevel, PriceLevelUpdate, Summary, TradingPair,
};

#[test]
fn test_exchange_display_and_fromstr() {
    for ex in Exchange::all() {
        let s = ex.to_string();
        let parsed = Exchange::from_str(&s).unwrap();
        assert_eq!(ex, parsed);
    }
    assert!(Exchange::from_str("unknown").is_err());
}

#[test]
fn test_exchange_fromstr_ignores_case() {
    assert_eq!(Exchange::from_str("BINANCE").unwrap(), Exchange::Binance);
    assert_eq!(Exchange::from_str("Kraken").unwrap(), Exchange::Kraken);
}

#[test]
fn test_trading_pair_new_and_display() {
    let pair = TradingPair::new("btc", "usd");
    assert_eq!(pair.base, "BTC");
    assert_eq!(pair.quote, "USD");
    assert_eq!(pair.to_string(), "BTC/USD");
}

#[test]
fn test_trading_pair_fromstr() {
    let pair = TradingPair::from_str("ETH/EUR").unwrap();
    assert_eq!(pair.base, "ETH");
    assert_eq!(pair.quote, "EUR");
    assert!(TradingPair::from_str("BADFORMAT").is_err());
}

#[test]
fn test_trading_pair_fromstr_rejects_two_separators() {
    assert!(TradingPair::from_str("A/B/C").is_err());
}

#[test]
fn test_trading_pair_round_trip() {
    let pair = TradingPair::new("SOL", "USDT");
    let parsed = TradingPair::from_str(&pair.to_string()).unwrap();
    assert_eq!(parsed, pair);
}

#[test]
fn test_order_book_depth_default() {
    let d = OrderBookDepth::default();
    assert_eq!(d.levels, 20);
    assert_eq!(d.market_type, MarketType::Spot);
}

#[test]
fn test_bid_and_ask_defaults() {
    let b = Bid::default();
    assert_eq!(b.price, 0);
    assert_eq!(b.quantity, 0);
    let a = Ask::default();
    assert_eq!(a.price, u64::MAX);
    assert_eq!(a.quantity, 0);
}

#[test]
fn test_price_level() {
    let now: i64 = 1700000000000;
    let pl = PriceLevel {
        price: 1234,
        quantity: 15,
        exchange: Exchange::Binance,
        timestamp: now,
    };
    assert_eq!(pl.price, 1234);
    assert_eq!(pl.quantity, 15);
    assert_eq!(pl.exchange, Exchange::Binance);
    assert_eq!(pl.timestamp, now);
}

#[test]
fn test_price_level_update() {
    let id: u128 = 42;
    let now: i64 = 1700000000000;
    let plu = PriceLevelUpdate {
        id,
        symbol: "BTCUSD".to_string(),
        exchange: Exchange::Kraken,
        bids: vec![Bid::default()],
        asks: vec![Ask::default()],
        timestamp: now,
    };
    assert_eq!(plu.id, id);
    assert_eq!(plu.symbol, "BTCUSD");
    assert_eq!(plu.exchange, Exchange::Kraken);
    assert_eq!(plu.bids.len(), 1);
    assert_eq!(plu.asks.len(), 1);
    assert_eq!(plu.timestamp, now);
}

#[test]
fn test_summary() {
    let now: i64 = 1700000000000;
    let s = Summary {
        symbol: "ETHUSD".to_string(),
        spread: 5,
        bids: vec![PriceLevel {
            price: 100,
            quantity: 2,
            exchange: Exchange::OKX,
            timestamp: now,
        }],
        asks: vec![],
        timestamp: now,
    };
    assert_eq!(s.symbol, "ETHUSD");
    assert_eq!(s.spread, 5);
    assert_eq!(s.bids.len(), 1);
    assert_eq!(s.asks.len(), 0);
    assert_eq!(s.timestamp, now);
}

#[test]
fn test_arbitrage_opportunity() {
    let now: i64 = 1700000000000;
    let arb = ArbitrageOpportunity {
        buy_exchange: Exchange::Binance,
        sell_exchange: Exchange::Bitstamp,
        symbol: "BTCUSD".to_string(),
        buy_price: 100,
        sell_price: 105,
        profit_percentage: 5_000_000,
        volume: 1,
        timestamp: now,
    };
    assert_eq!(arb.buy_exchange, Exchange::Binance);
    assert_eq!(arb.sell_exchange, Exchange::Bitstamp);
    assert_eq!(arb.symbol, "BTCUSD");
    assert_eq!(arb.buy_price, 100);
    assert_eq!(arb.sell_price, 105);
    assert_eq!(arb.profit_percentage, 5_000_000);
    assert_eq!(arb.volume, 1);
    assert_eq!(arb.timestamp, now);
}

#[test]
fn test_health_status() {
    let now: i64 = 1700000000000;
    let hs = HealthStatus {
        exchange: Exchange::Bybit,
        is_healthy: true,
        last_update: now,
        error_message: None,
    };
    assert_eq!(hs.exchange, Exchange::Bybit);
    assert!(hs.is_healthy);
    assert_eq!(hs.last_update, now);
    assert!(hs.error_message.is_none());
}

#[test]
fn test_metrics() {
    let now: i64 = 1700000000000;
    let m = Metrics {
        exchange: Exchange::Coinbase,
        symbol: "BTCUSD".to_string(),
        updates_per_second: 10,
        latency_ms: 50,
        error_count: 2,
        last_update: now,
    };
    assert_eq!(m.exchange, Exchange::Coinbase);
    assert_eq!(m.symbol, "BTCUSD");
    assert_eq!(m.updates_per_second, 10);
    assert_eq!(m.latency_ms, 50);
    assert_eq!(m.error_count, 2);
    assert_eq!(m.last_update, now);
}
