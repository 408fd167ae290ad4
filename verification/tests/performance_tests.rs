// Size checks on the connector types.

use aggregator_core::venues::{Binance, Bybit, Kraken};

#[test]
fn test_memory_usage() {
    let binance = Binance::new();
    let bybit = Bybit::new();
    let kraken = Kraken::new();

    println!("Binance size: {} bytes", std::mem::size_of_val(&binance));
    println!("Bybit size: {} bytes", std::mem::size_of_val(&bybit));
    println!("Kraken size: {} bytes", std::mem::size_of_val(&kraken));

    // These should be relatively small structs
    assert!(
        std::mem::size_of_val(&binance) < 1024,
        "Binance should be small"
    );
    assert!(std::mem::size_of_val(&bybit) < 1024, "Bybit should be small");
    assert!(
        std::mem::size_of_val(&kraken) < 1024,
        "Kraken should be small"
    );
}
