//! Cross-exchange order-book aggregation core.
//!
//! The crate maintains per-venue order books from sequenced delta streams,
//! merges them into per-symbol views, and scans the merged views for
//! two-venue arbitrage opportunities.  Prices and quantities are fixed-point
//! integers whose scale is chosen by the caller; timestamps are integer
//! milliseconds.

use vstd::prelude::*;

pub mod aggregator;
pub mod analysis;
pub mod arbitrage;
pub mod book;
pub mod clock;
pub mod config;
pub mod connector;
pub mod decimal;
pub mod error;
pub mod hashbook;
pub mod merge;
pub mod servers;
pub mod side;
pub mod text;
pub mod types;
pub mod venues;

pub use aggregator::Aggregator;
pub use analysis::DefaultAnalysisEngine;
pub use arbitrage::ArbitrageDetector;
pub use book::BTreeAskSide;
pub use book::BTreeBidSide;
pub use book::BTreeOrderBook;
pub use config::Config;
pub use config::ExchangeConfig;
pub use config::OrderBookConfig;
pub use error::AggregatorError;
pub use error::ConfigError;
pub use error::ExchangeError;
pub use error::HttpError;
pub use error::WebSocketError;
pub use hashbook::HashMapOrderBook;
pub use merge::MergedBook;
pub use servers::GrpcServer;
pub use servers::RestServer;
pub use servers::WebSocketServer;
pub use types::ArbitrageOpportunity;
pub use types::Ask;
pub use types::Bid;
pub use types::Exchange;
pub use types::HealthStatus;
pub use types::MarketType;
pub use types::Metrics;
pub use types::OrderBookDepth;
pub use types::PriceLevel;
pub use types::PriceLevelUpdate;
pub use types::Summary;
pub use types::TradingPair;
pub use venues::Binance;
pub use venues::Bitstamp;
pub use venues::Bybit;
pub use venues::BybitConfig;
pub use venues::Coinbase;
pub use venues::Kraken;
pub use venues::KrakenConfig;

verus! {

} // verus!
