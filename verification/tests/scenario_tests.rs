// Cross-venue arbitrage scenarios.  Prices are in whole quote units
// (scale zero); quantities are scaled by a thousand, so the volume
// threshold of ten stands for one hundredth of a unit.

use aggregator_core::arbitrage::ArbitrageDetector;
use aggregator_core::types::{Exchange, PriceLevel, Summary, TradingPair};

fn level(price: u64, quantity: u64, exchange: Exchange) -> PriceLevel {
    PriceLevel {
        price,
        quantity,
        exchange,
        timestamp: 0,
    }
}

fn summary(symbol: &str, bids: Vec<PriceLevel>, asks: Vec<PriceLevel>) -> Summary {
    Summary {
        symbol: symbol.to_string(),
        spread: 0,
        bids,
        asks,
        timestamp: 0,
    }
}

fn two_venue_entry(
    a_bid: (u64, u64),
    a_ask: (u64, u64),
    b_bid: (u64, u64),
    b_ask: (u64, u64),
) -> (TradingPair, Vec<Summary>) {
    let venue_a = summary(
        "BTCUSDT",
        vec![level(a_bid.0, a_bid.1, Exchange::Binance)],
        vec![level(a_ask.0, a_ask.1, Exchange::Binance)],
    );
    let venue_b = summary(
        "BTCUSDT",
        vec![level(b_bid.0, b_bid.1, Exchange::Bybit)],
        vec![level(b_ask.0, b_ask.1, Exchange::Bybit)],
    );
    (TradingPair::new("BTC", "USDT"), vec![venue_a, venue_b])
}

#[test]
fn test_cross_venue_arbitrage_both_thresholds_met() {
    // Venue A asks 49951, venue B bids 50100: buy on A, sell on B.
    let detector = ArbitrageDetector::new(100_000, 10);
    let entries = vec![two_venue_entry(
        (49950, 1000),
        (49951, 1000),
        (50100, 1000),
        (50101, 1000),
    )];
    let opportunities = detector.detect_opportunities(&entries, 7);
    assert_eq!(opportunities.len(), 1);
    let o = &opportunities[0];
    assert_eq!(o.buy_exchange, Exchange::Binance);
    assert_eq!(o.sell_exchange, Exchange::Bybit);
    assert_eq!(o.buy_price, 49951);
    assert_eq!(o.sell_price, 50100);
    assert_eq!(o.volume, 1000);
    assert_eq!(o.symbol, "BTC/USDT");
    assert_eq!(o.timestamp, 7);
    // (50100 - 49951) / 49951 * 100 percent, in micro-percent.
    assert_eq!(o.profit_percentage, 298292);
    // The stored micro-percent value is within 1e-6 percent of the
    // real-valued profit percentage.
    let exact = (50100.0 - 49951.0) / 49951.0 * 100.0;
    let stored = o.profit_percentage as f64 / 1.0e6;
    assert!((stored - exact).abs() < 1.0e-6);
}

#[test]
fn test_volume_gate_rejects() {
    // As above, but venue A offers only 0.005 units: volume 5 < 10.
    let detector = ArbitrageDetector::new(100_000, 10);
    let entries = vec![two_venue_entry(
        (49950, 1000),
        (49951, 5),
        (50100, 1000),
        (50101, 1000),
    )];
    let opportunities = detector.detect_opportunities(&entries, 7);
    assert!(opportunities.is_empty());
}

#[test]
fn test_profit_gate_rejects() {
    // 40 / 50000 * 100 = 0.08 percent, below the 0.1 percent threshold.
    let detector = ArbitrageDetector::new(100_000, 10);
    let entries = vec![two_venue_entry(
        (49990, 1000),
        (50000, 1000),
        (50040, 1000),
        (50041, 1000),
    )];
    let opportunities = detector.detect_opportunities(&entries, 7);
    assert!(opportunities.is_empty());
}

#[test]
fn test_same_venue_cross_rejected() {
    // A crossed book within one venue is no two-venue opportunity.
    let detector = ArbitrageDetector::new(0, 0);
    let pair = TradingPair::new("BTC", "USDT");
    let crossed = summary(
        "BTCUSDT",
        vec![level(50100, 1000, Exchange::Binance)],
        vec![level(50000, 1000, Exchange::Binance)],
    );
    let other = summary("BTCUSDT", vec![], vec![]);
    let entries = vec![(pair, vec![crossed, other])];
    let opportunities = detector.detect_opportunities(&entries, 0);
    assert!(opportunities.is_empty());
}

#[test]
fn test_single_summary_is_skipped() {
    // Fewer than two contributing venues never fires.
    let detector = ArbitrageDetector::new(0, 0);
    let pair = TradingPair::new("BTC", "USDT");
    let lone = summary(
        "BTCUSDT",
        vec![level(50100, 1000, Exchange::Binance)],
        vec![level(50000, 1000, Exchange::Bybit)],
    );
    let entries = vec![(pair, vec![lone])];
    let opportunities = detector.detect_opportunities(&entries, 0);
    assert!(opportunities.is_empty());
}

#[test]
fn test_detector_placeholders_empty() {
    let detector = ArbitrageDetector::default();
    let entries = vec![two_venue_entry(
        (49950, 1000),
        (49951, 1000),
        (50100, 1000),
        (50101, 1000),
    )];
    assert!(detector.detect_triangular_arbitrage(&entries).is_empty());
    assert!(detector.detect_negative_cycles(&entries).is_empty());
}
