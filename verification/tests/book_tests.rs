// Order-book behaviour on both backends.

use aggregator_core::book::BTreeOrderBook;
use aggregator_core::hashbook::HashMapOrderBook;
use aggregator_core::types::{Ask, Bid, Exchange};

fn bid(price: u64, quantity: u64) -> Bid {
    Bid {
        price,
        quantity,
        exchange: Exchange::Binance,
        timestamp: 0,
    }
}

fn ask(price: u64, quantity: u64) -> Ask {
    Ask {
        price,
        quantity,
        exchange: Exchange::Binance,
        timestamp: 0,
    }
}

#[test]
fn test_btree_orderbook_basic_operations() {
    let mut orderbook = BTreeOrderBook::new();

    orderbook.update_bids(vec![bid(100, 10), bid(99, 5)], 10);

    let best_bid = orderbook.get_best_bid().unwrap();
    assert_eq!(best_bid.price, 100);

    orderbook.update_asks(vec![ask(101, 8), ask(102, 3)], 10);

    let best_ask = orderbook.get_best_ask().unwrap();
    assert_eq!(best_ask.price, 101);

    assert_eq!(orderbook.get_spread(), Some(1));
    assert_eq!(orderbook.bid_depth(), 2);
    assert_eq!(orderbook.ask_depth(), 2);
}

#[test]
fn test_btree_orderbook_update_existing() {
    // Last write at a price wins within and across batches.
    let mut orderbook = BTreeOrderBook::new();
    orderbook.update_bids(vec![bid(100, 10)], 10);
    orderbook.update_bids(vec![bid(100, 20)], 10);

    assert_eq!(orderbook.bid_depth(), 1);
    assert_eq!(orderbook.get_best_bid().unwrap().quantity, 20);

    orderbook.update_bids(vec![bid(100, 7), bid(100, 9)], 10);
    assert_eq!(orderbook.bid_depth(), 1);
    assert_eq!(orderbook.get_best_bid().unwrap().quantity, 9);
}

#[test]
fn test_btree_orderbook_remove_zero_quantity() {
    // A zero quantity deletes the level at that price.
    let mut orderbook = BTreeOrderBook::new();
    orderbook.update_bids(vec![bid(100, 10)], 10);
    assert_eq!(orderbook.bid_depth(), 1);

    orderbook.update_bids(vec![bid(100, 0)], 10);
    assert_eq!(orderbook.bid_depth(), 0);
    assert!(orderbook.get_best_bid().is_none());
}

#[test]
fn test_btree_trim_to_depth() {
    // With a depth bound of three, only the three best bid prices stay.
    let mut orderbook = BTreeOrderBook::new();
    let bids: Vec<Bid> = [100u64, 99, 98, 97, 96]
        .iter()
        .map(|&p| bid(p, 10))
        .collect();
    orderbook.update_bids(bids, 3);

    assert_eq!(orderbook.bid_depth(), 3);
    let top = orderbook.get_best_n_bids(3);
    let prices: Vec<u64> = top.iter().map(|b| b.price).collect();
    assert_eq!(prices, vec![100, 99, 98]);
}

#[test]
fn test_btree_ask_trim_drops_highest() {
    let mut orderbook = BTreeOrderBook::new();
    let asks: Vec<Ask> = [100u64, 101, 102, 103, 104]
        .iter()
        .map(|&p| ask(p, 10))
        .collect();
    orderbook.update_asks(asks, 3);

    assert_eq!(orderbook.ask_depth(), 3);
    let top = orderbook.get_best_n_asks(5);
    let prices: Vec<u64> = top.iter().map(|a| a.price).collect();
    assert_eq!(prices, vec![100, 101, 102]);
}

#[test]
fn test_btree_per_venue_levels() {
    // The same price on two venues is two levels, ordered by venue index.
    let mut orderbook = BTreeOrderBook::new();
    let b1 = Bid {
        price: 100,
        quantity: 1,
        exchange: Exchange::Kraken,
        timestamp: 0,
    };
    let b2 = Bid {
        price: 100,
        quantity: 2,
        exchange: Exchange::Binance,
        timestamp: 0,
    };
    orderbook.update_bids(vec![b1, b2], 10);
    assert_eq!(orderbook.bid_depth(), 2);
    let top = orderbook.get_best_n_bids(2);
    assert_eq!(top[0].exchange, Exchange::Binance);
    assert_eq!(top[1].exchange, Exchange::Kraken);
}

#[test]
fn test_btree_clear_and_sides() {
    let mut orderbook = BTreeOrderBook::new();
    orderbook.update_bids(vec![bid(100, 1)], 10);
    orderbook.update_asks(vec![ask(101, 1)], 10);

    let bid_side = orderbook.bid_side();
    assert_eq!(bid_side.bid_depth(), 1);
    let ask_side = orderbook.ask_side();
    assert_eq!(ask_side.ask_depth(), 1);

    orderbook.clear();
    assert_eq!(orderbook.bid_depth(), 0);
    assert_eq!(orderbook.ask_depth(), 0);
    assert_eq!(orderbook.get_spread(), None);
}

#[test]
fn test_hashmap_orderbook_basic_operations() {
    let mut orderbook = HashMapOrderBook::new();

    orderbook.update_bids(vec![bid(100, 10), bid(99, 5)], 10);
    assert_eq!(orderbook.get_best_bid().unwrap().price, 100);

    orderbook.update_asks(vec![ask(101, 8), ask(102, 3)], 10);
    assert_eq!(orderbook.get_best_ask().unwrap().price, 101);

    assert_eq!(orderbook.get_spread(), Some(1));
    assert_eq!(orderbook.bid_depth(), 2);
    assert_eq!(orderbook.ask_depth(), 2);
}

#[test]
fn test_hashmap_orderbook_matches_btree() {
    // Both backends answer the same queries on the same input.
    let mut tree = BTreeOrderBook::new();
    let mut hash = HashMapOrderBook::new();
    let batch = vec![bid(100, 10), bid(102, 4), bid(101, 6), bid(102, 0), bid(99, 1)];
    tree.update_bids(batch.clone(), 3);
    hash.update_bids(batch, 3);

    assert_eq!(tree.bid_depth(), hash.bid_depth());
    let t = tree.get_best_n_bids(3);
    let h = hash.get_best_n_bids(3);
    let tp: Vec<(u64, u64)> = t.iter().map(|b| (b.price, b.quantity)).collect();
    let hp: Vec<(u64, u64)> = h.iter().map(|b| (b.price, b.quantity)).collect();
    assert_eq!(tp, hp);
    assert_eq!(tp, vec![(101, 6), (100, 10), (99, 1)]);
}

#[test]
fn test_hashmap_orderbook_zero_quantity_removes() {
    let mut orderbook = HashMapOrderBook::new();
    orderbook.update_asks(vec![ask(101, 5)], 10);
    assert_eq!(orderbook.ask_depth(), 1);
    orderbook.update_asks(vec![ask(101, 0)], 10);
    assert_eq!(orderbook.ask_depth(), 0);
    assert!(orderbook.get_best_ask().is_none());
}
