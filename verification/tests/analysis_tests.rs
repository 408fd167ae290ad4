// The pairwise analysis engine.  Prices in whole quote units,
// quantities scaled by a thousand.

use aggregator_core::analysis::DefaultAnalysisEngine;
use aggregator_core::types::{Exchange, PriceLevel, Summary};

fn level(price: u64, quantity: u64, exchange: Exchange) -> PriceLevel {
    PriceLevel {
        price,
        quantity,
        exchange,
        timestamp: 0,
    }
}

fn summary(symbol: &str, bids: Vec<PriceLevel>, asks: Vec<PriceLevel>) -> Summary {
    Summary {
        symbol: symbol.to_string(),
        spread: 0,
        bids,
        asks,
        timestamp: 0,
    }
}

#[test]
fn test_analysis_engine_arbitrage_detection() {
    let engine = DefaultAnalysisEngine::new();

    let summary1 = summary(
        "BTCUSDT",
        vec![level(50100, 1000, Exchange::Binance)],
        vec![level(50200, 1000, Exchange::Binance)],
    );
    let summary2 = summary(
        "BTCUSDT",
        vec![level(50300, 1000, Exchange::Bybit)],
        vec![level(50400, 1000, Exchange::Bybit)],
    );

    let opportunities = engine.analyze_summaries(&vec![summary1, summary2], 0);

    assert!(
        !opportunities.is_empty(),
        "Should find arbitrage opportunities"
    );
    let opp = &opportunities[0];
    assert_eq!(opp.symbol, "BTCUSDT");
    assert!(opp.profit_percentage > 0);
    // Buy at 50200 on Binance, sell at 50300 on Bybit.
    assert_eq!(opp.buy_exchange, Exchange::Binance);
    assert_eq!(opp.sell_exchange, Exchange::Bybit);
    assert_eq!(opp.buy_price, 50200);
    assert_eq!(opp.sell_price, 50300);
}

#[test]
fn test_analysis_engine_respects_symbols() {
    // Summaries of different symbols are never compared.
    let engine = DefaultAnalysisEngine::new();
    let s1 = summary(
        "BTCUSDT",
        vec![],
        vec![level(100, 1000, Exchange::Binance)],
    );
    let s2 = summary(
        "ETHUSDT",
        vec![level(200, 1000, Exchange::Bybit)],
        vec![],
    );
    let opportunities = engine.analyze_summaries(&vec![s1, s2], 0);
    assert!(opportunities.is_empty());
}

#[test]
fn test_analysis_engine_threshold_strict() {
    // Exactly one tenth of a percent does not clear the strict gate.
    let engine = DefaultAnalysisEngine::new();
    let s1 = summary(
        "BTCUSDT",
        vec![],
        vec![level(100000, 1000, Exchange::Binance)],
    );
    let s2 = summary(
        "BTCUSDT",
        vec![level(100100, 1000, Exchange::Bybit)],
        vec![],
    );
    let opportunities = engine.analyze_summaries(&vec![s1, s2], 0);
    assert!(opportunities.is_empty());
}

#[test]
fn test_spread_calculation() {
    let engine = DefaultAnalysisEngine::new();

    let s = summary(
        "BTCUSDT",
        vec![level(50000, 1000, Exchange::Binance)],
        vec![level(50100, 1000, Exchange::Binance)],
    );

    let spread = engine.calculate_spread(&s);
    assert_eq!(spread, Some(100));

    let empty = summary("BTCUSDT", vec![], vec![]);
    assert_eq!(engine.calculate_spread(&empty), None);
}

#[test]
fn test_volume_weighted_price() {
    let engine = DefaultAnalysisEngine::new();

    let s = summary(
        "BTCUSDT",
        vec![
            level(50000, 1000, Exchange::Binance),
            level(49900, 2000, Exchange::Binance),
        ],
        vec![
            level(50100, 1000, Exchange::Binance),
            level(50200, 2000, Exchange::Binance),
        ],
    );

    let vwap = engine.calculate_volume_weighted_price(&s).unwrap();
    // (50000*1000 + 49900*2000 + 50100*1000 + 50200*2000) / 6000
    assert_eq!(vwap, 50050);

    let empty = summary("BTCUSDT", vec![], vec![]);
    assert_eq!(engine.calculate_volume_weighted_price(&empty), None);
}
