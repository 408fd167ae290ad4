// Sharing connector values across tasks.

use aggregator_core::venues::{Binance, Bybit, Kraken};
use std::sync::Arc;

#[test]
fn test_arc_wrapped_exchanges() {
    let binance = Arc::new(Binance::new());
    let bybit = Arc::new(Bybit::new());
    let kraken = Arc::new(Kraken::new());

    // Test that exchanges can be wrapped in Arc for sharing across threads
    let binance_clone = Arc::clone(&binance);
    let bybit_clone = Arc::clone(&bybit);
    let kraken_clone = Arc::clone(&kraken);

    // These should be the same instances
    assert!(Arc::ptr_eq(&binance, &binance_clone));
    assert!(Arc::ptr_eq(&bybit, &bybit_clone));
    assert!(Arc::ptr_eq(&kraken, &kraken_clone));
}
