// Unit tests for the venue stubs.

use aggregator_core::venues::{Bitstamp, Coinbase};

#[test]
fn test_bitstamp_creation() {
    let bitstamp = Bitstamp::new();
    assert_eq!(
        std::mem::size_of_val(&bitstamp),
        std::mem::size_of::<Bitstamp>()
    );
}

#[test]
fn test_bitstamp_default() {
    let bitstamp1 = Bitstamp::new();
    let bitstamp2 = Bitstamp::default();

    assert_eq!(
        std::mem::size_of_val(&bitstamp1),
        std::mem::size_of_val(&bitstamp2)
    );
}

#[test]
fn test_coinbase_creation() {
    let coinbase = Coinbase::new();
    assert_eq!(
        std::mem::size_of_val(&coinbase),
        std::mem::size_of::<Coinbase>()
    );
}

#[test]
fn test_coinbase_default() {
    let coinbase1 = Coinbase::new();
    let coinbase2 = Coinbase::default();

    assert_eq!(
        std::mem::size_of_val(&coinbase1),
        std::mem::size_of_val(&coinbase2)
    );
}
