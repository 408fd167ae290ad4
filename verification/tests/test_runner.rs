// Test organization checks for the connector suite.

use aggregator_core::venues::{Binance, Bitstamp, Bybit, Coinbase, Kraken};
use std::collections::HashMap;

fn assert_send_sync<T: Send + Sync>(_: T) {}

#[test]
fn test_coverage_summary() {
    let mut coverage = HashMap::new();

    // Track what we're testing
    coverage.insert(
        "Binance",
        vec!["creation", "default_impl", "trait_impl", "service_spawn"],
    );
    coverage.insert(
        "Bybit",
        vec![
            "creation",
            "default_impl",
            "trait_impl",
            "service_spawn",
            "config_default",
            "config_access",
            "with_config",
        ],
    );
    coverage.insert(
        "Kraken",
        vec![
            "creation",
            "default_impl",
            "trait_impl",
            "service_spawn",
            "config_default",
            "config_access",
            "with_config",
        ],
    );
    coverage.insert(
        "Bitstamp",
        vec![
            "creation",
            "default_impl",
            "trait_impl",
            "placeholder_service",
        ],
    );
    coverage.insert(
        "Coinbase",
        vec![
            "creation",
            "default_impl",
            "trait_impl",
            "placeholder_service",
        ],
    );
    coverage.insert(
        "OrderBookService",
        vec![
            "trait_objects",
            "multiple_implementations",
            "channel_communication",
        ],
    );
    coverage.insert(
        "Performance",
        vec![
            "channel_throughput",
            "concurrent_creation",
            "config_creation",
            "memory_usage",
        ],
    );

    println!("Test Coverage Summary:");
    for (component, tests) in &coverage {
        println!("  {}: {} tests", component, tests.len());
        for test in tests {
            println!("    - {}", test);
        }
    }

    let total_tests: usize = coverage.values().map(|v| v.len()).sum();
    println!("\nTotal test scenarios: {}", total_tests);

    // Ensure we have reasonable coverage
    assert!(total_tests >= 25, "Should have at least 25 test scenarios");
    assert!(coverage.len() >= 7, "Should test at least 7 components");
}

#[test]
fn test_module_structure() {
    // Verify that our test modules are properly organized
    let test_files = vec![
        "integration_tests.rs",
        "unit_tests.rs",
        "mock_tests.rs",
        "placeholder_tests.rs",
        "performance_tests.rs",
        "trait_tests.rs",
        "test_runner.rs",
    ];

    println!("Test file structure:");
    for file in &test_files {
        println!("  - {}", file);
    }

    assert_eq!(test_files.len(), 7, "Should have 7 test files");
}

#[test]
fn verify_all_exchanges_importable() {
    // Verify that all exchanges can be imported and instantiated
    let _binance = Binance::new();
    let _bybit = Bybit::new();
    let _kraken = Kraken::new();
    let _bitstamp = Bitstamp::new();
    let _coinbase = Coinbase::new();

    println!("All exchanges can be imported and instantiated");
}

#[test]
fn verify_send_sync_bounds() {
    // Verify that exchanges can be used across thread boundaries
    assert_send_sync(Binance::new());
    assert_send_sync(Bybit::new());
    assert_send_sync(Kraken::new());
    assert_send_sync(Bitstamp::new());
    assert_send_sync(Coinbase::new());

    println!("All exchanges are Send + Sync");
}
