// The aggregator state, the merged book, and the health monitor.

use aggregator_core::aggregator::Aggregator;
use aggregator_core::config::Config;
use aggregator_core::merge::MergedBook;
use aggregator_core::types::{Ask, Bid, Exchange, PriceLevelUpdate, TradingPair};

fn update(
    exchange: Exchange,
    bids: Vec<(u64, u64)>,
    asks: Vec<(u64, u64)>,
    timestamp: i64,
) -> PriceLevelUpdate {
    PriceLevelUpdate {
        id: 0,
        symbol: "BTC/USDT".to_string(),
        exchange,
        bids: bids
            .into_iter()
            .map(|(p, q)| Bid {
                price: p,
                quantity: q,
                exchange,
                timestamp,
            })
            .collect(),
        asks: asks
            .into_iter()
            .map(|(p, q)| Ask {
                price: p,
                quantity: q,
                exchange,
                timestamp,
            })
            .collect(),
        timestamp,
    }
}

#[test]
fn test_merged_book_emits_on_top_change() {
    let mut book = MergedBook::new("BTC/USDT".to_string(), 10, 5);
    let s = book
        .apply(&update(Exchange::Binance, vec![(100, 1)], vec![(101, 1)], 10), true)
        .expect("first update changes the empty top");
    assert_eq!(s.symbol, "BTC/USDT");
    assert_eq!(s.spread, 1);
    assert_eq!(s.bids.len(), 1);
    assert_eq!(s.asks.len(), 1);
    assert_eq!(s.timestamp, 10);

    // The same levels again change nothing and emit nothing.
    let again = book.apply(
        &update(Exchange::Binance, vec![(100, 1)], vec![(101, 1)], 11),
        false,
    );
    assert!(again.is_none());
}

#[test]
fn test_merged_book_merges_venues() {
    let mut book = MergedBook::new("BTC/USDT".to_string(), 10, 5);
    book.apply(&update(Exchange::Binance, vec![(100, 1)], vec![(102, 1)], 1), true);
    let s = book
        .apply(&update(Exchange::Kraken, vec![(101, 2)], vec![(103, 2)], 2), true)
        .expect("a better bid changes the top");
    // The Kraken bid is best; the Binance ask is best.
    assert_eq!(s.bids[0].price, 101);
    assert_eq!(s.bids[0].exchange, Exchange::Kraken);
    assert_eq!(s.asks[0].price, 102);
    assert_eq!(s.asks[0].exchange, Exchange::Binance);
    assert_eq!(s.spread, 1);
}

#[test]
fn test_merged_book_snapshot_replaces_venue() {
    let mut book = MergedBook::new("BTC/USDT".to_string(), 10, 5);
    book.apply(&update(Exchange::Binance, vec![(100, 1), (99, 1)], vec![], 1), true);
    // A resync snapshot discards the venue's old levels first.
    let s = book
        .apply(&update(Exchange::Binance, vec![(98, 5)], vec![], 2), true)
        .expect("the top changed");
    assert_eq!(s.bids.len(), 1);
    assert_eq!(s.bids[0].price, 98);
}

#[test]
fn test_merged_book_timestamps_monotone() {
    // Summaries of one symbol never go backwards in time, even when an
    // update carries an older receive time.
    let mut book = MergedBook::new("BTC/USDT".to_string(), 10, 5);
    let s1 = book
        .apply(&update(Exchange::Binance, vec![(100, 1)], vec![], 50), true)
        .unwrap();
    let s2 = book
        .apply(&update(Exchange::Kraken, vec![(101, 1)], vec![], 40), true)
        .unwrap();
    let s3 = book
        .apply(&update(Exchange::Bybit, vec![(102, 1)], vec![], 60), true)
        .unwrap();
    assert_eq!(s1.timestamp, 50);
    assert_eq!(s2.timestamp, 50);
    assert_eq!(s3.timestamp, 60);
    assert!(s1.timestamp <= s2.timestamp && s2.timestamp <= s3.timestamp);
}

#[test]
fn test_aggregator_summary_table() {
    let mut agg = Aggregator::new(Config::default());
    let pair = TradingPair::new("BTC", "USDT");
    assert!(agg.get_summary(&pair).is_none());

    let u = update(Exchange::Binance, vec![(100, 1)], vec![(101, 2)], 5);
    let summary = Aggregator::process_price_level_update(&u);
    assert_eq!(summary.spread, 1);
    assert_eq!(summary.bids.len(), 1);
    assert_eq!(summary.asks.len(), 1);

    agg.insert_summary(pair.clone(), summary);
    let got = agg.get_summary(&pair).unwrap();
    assert_eq!(got.symbol, "BTC/USDT");
    assert_eq!(got.spread, 1);

    let other = TradingPair::new("ETH", "USDT");
    assert!(agg.get_summary(&other).is_none());
    assert_eq!(agg.get_all_summaries().len(), 1);
}

#[test]
fn test_aggregator_health_staleness() {
    // A venue without updates for longer than the staleness window is
    // marked unhealthy; fresh venues are untouched.
    let mut agg = Aggregator::new(Config::default());
    agg.initialize_health_status(0);
    agg.record_update_success(Exchange::Binance, 1000);
    agg.record_update_success(Exchange::Kraken, 40_000);

    agg.mark_stale(41_000, 30_000);

    let binance = agg.get_health_status(&Exchange::Binance).unwrap();
    assert!(!binance.is_healthy);
    assert_eq!(binance.error_message.as_deref(), Some("No recent updates"));

    let kraken = agg.get_health_status(&Exchange::Kraken).unwrap();
    assert!(kraken.is_healthy);
    assert!(kraken.error_message.is_none());
}

#[test]
fn test_aggregator_failure_and_metrics() {
    let mut agg = Aggregator::new(Config::default());
    agg.record_update_failure(Exchange::Bybit, "bad frame".to_string());
    let h = agg.get_health_status(&Exchange::Bybit).unwrap();
    assert!(!h.is_healthy);
    assert_eq!(h.error_message.as_deref(), Some("bad frame"));
    let m = agg.get_metrics(&Exchange::Bybit).unwrap();
    assert_eq!(m.error_count, 1);
}

#[test]
fn test_aggregator_update_rate_sampling() {
    // Three updates over a two-second window make one update per second,
    // rounded toward zero.
    let mut agg = Aggregator::new(Config::default());
    agg.record_update_success(Exchange::Binance, 1);
    agg.record_update_success(Exchange::Binance, 2);
    agg.record_update_success(Exchange::Binance, 3);
    agg.sample_metrics(2000);
    let m = agg.get_metrics(&Exchange::Binance).unwrap();
    assert_eq!(m.updates_per_second, 1);
    // The window restarts after a sample.
    agg.sample_metrics(2000);
    let m = agg.get_metrics(&Exchange::Binance).unwrap();
    assert_eq!(m.updates_per_second, 0);
}

#[test]
fn test_aggregator_initial_health() {
    let agg = Aggregator::new(Config::default());
    for ex in Exchange::all() {
        let h = agg.get_health_status(&ex).unwrap();
        assert!(!h.is_healthy);
        assert_eq!(h.exchange, ex);
    }
    assert_eq!(agg.get_all_health_statuses().len(), 7);
    assert_eq!(agg.get_all_metrics().len(), 7);
}

#[test]
fn test_aggregator_latency_recording() {
    let mut agg = Aggregator::new(Config::default());
    agg.record_latency(Exchange::Kraken, 35);
    let m = agg.get_metrics(&Exchange::Kraken).unwrap();
    assert_eq!(m.latency_ms, 35);
}
