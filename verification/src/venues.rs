//! Per-venue connector types: endpoints, intervals and the venue's
//! symbol format.

use vstd::prelude::*;
use vstd::string::StringExecFns;

use crate::text::ascii_upper;
use crate::text::upper_chars;

verus! {

/// Connector for the Binance depth stream and snapshot endpoint.
pub struct Binance;

impl Binance {
    /// A Binance connector.
    pub fn new() -> Binance {
        Binance
    }

    /// Binance joins the pair without a separator, upper-case.
    pub fn format_symbol(&self, base: &str, quote: &str) -> (r: String)
        ensures
            r@ == upper_chars(base@) + upper_chars(quote@),
    {
        ascii_upper(base).concat(ascii_upper(quote).as_str())
    }
}

impl Default for Binance {
    /// A Binance connector.
    fn default() -> Binance {
        Binance::new()
    }
}

/// Connector stub for Bitstamp; the venue slot exists so that its
/// absence does not block startup.
pub struct Bitstamp;

impl Bitstamp {
    /// A Bitstamp connector.
    pub fn new() -> Bitstamp {
        Bitstamp
    }
}

impl Default for Bitstamp {
    /// A Bitstamp connector.
    fn default() -> Bitstamp {
        Bitstamp::new()
    }
}

/// Connector stub for Coinbase; the venue slot exists so that its
/// absence does not block startup.
pub struct Coinbase;

impl Coinbase {
    /// A Coinbase connector.
    pub fn new() -> Coinbase {
        Coinbase
    }
}

impl Default for Coinbase {
    /// A Coinbase connector.
    fn default() -> Coinbase {
        Coinbase::new()
    }
}

/// Endpoints and intervals of the Bybit connector.
#[derive(Debug, Clone)]
pub struct BybitConfig {
    pub websocket_url: String,
    pub rest_url: String,
    pub reconnect_interval: u64,
    pub ping_interval: u64,
}

impl Default for BybitConfig {
    /// The public linear-perpetuals endpoints, five-second reconnect,
    /// twenty-second ping.
    fn default() -> (r: BybitConfig)
        ensures
            r.websocket_url@ == "wss://stream.bybit.com/v5/public/linear"@,
            r.rest_url@ == "https://api.bybit.com/v5/market/orderbook"@,
            r.reconnect_interval == 5000,
            r.ping_interval == 20000,
    {
        BybitConfig {
            websocket_url: String::from_str("wss://stream.bybit.com/v5/public/linear"),
            rest_url: String::from_str("https://api.bybit.com/v5/market/orderbook"),
            reconnect_interval: 5000,
            ping_interval: 20000,
        }
    }
}

/// Connector for the Bybit order-book stream.
pub struct Bybit {
    pub config: BybitConfig,
}

impl Bybit {
    /// A Bybit connector with the default endpoints.
    pub fn new() -> (r: Bybit)
        ensures
            r.config.websocket_url@ == "wss://stream.bybit.com/v5/public/linear"@,
            r.config.rest_url@ == "https://api.bybit.com/v5/market/orderbook"@,
            r.config.reconnect_interval == 5000,
            r.config.ping_interval == 20000,
    {
        Bybit { config: BybitConfig::default() }
    }

    /// A Bybit connector with the given endpoints.
    pub fn with_config(config: BybitConfig) -> (r: Bybit)
        ensures
            r.config == config,
    {
        Bybit { config }
    }

    /// Bybit joins the pair without a separator, upper-case.
    pub fn format_symbol(&self, base: &str, quote: &str) -> (r: String)
        ensures
            r@ == upper_chars(base@) + upper_chars(quote@),
    {
        ascii_upper(base).concat(ascii_upper(quote).as_str())
    }

    /// The order-book topic of the subscribe frame for a symbol, at a
    /// depth of fifty levels.
    pub fn subscription_topic(&self, symbol: &str) -> (r: String)
        ensures
            r@ == "orderbook.50."@ + symbol@,
    {
        String::from_str("orderbook.50.").concat(symbol)
    }
}

impl Default for Bybit {
    /// A Bybit connector with the default endpoints.
    fn default() -> Bybit {
        Bybit::new()
    }
}

/// Endpoint and intervals of the Kraken connector.
#[derive(Debug, Clone)]
pub struct KrakenConfig {
    pub websocket_url: String,
    pub reconnect_interval: u64,
    pub ping_interval: u64,
}

impl Default for KrakenConfig {
    /// The public websocket endpoint, five-second reconnect,
    /// twenty-second ping.
    fn default() -> (r: KrakenConfig)
        ensures
            r.websocket_url@ == "wss://ws.kraken.com"@,
            r.reconnect_interval == 5000,
            r.ping_interval == 20000,
    {
        KrakenConfig {
            websocket_url: String::from_str("wss://ws.kraken.com"),
            reconnect_interval: 5000,
            ping_interval: 20000,
        }
    }
}

/// Connector for the Kraken book stream.
pub struct Kraken {
    pub config: KrakenConfig,
}

impl Kraken {
    /// A Kraken connector with the default endpoint.
    pub fn new() -> (r: Kraken)
        ensures
            r.config.websocket_url@ == "wss://ws.kraken.com"@,
            r.config.reconnect_interval == 5000,
            r.config.ping_interval == 20000,
    {
        Kraken { config: KrakenConfig::default() }
    }

    /// A Kraken connector with the given endpoint.
    pub fn with_config(config: KrakenConfig) -> (r: Kraken)
        ensures
            r.config == config,
    {
        Kraken { config }
    }

    /// Kraken separates the pair with a slash, upper-case.
    pub fn format_symbol(&self, base: &str, quote: &str) -> (r: String)
        ensures
            r@ == upper_chars(base@) + "/"@ + upper_chars(quote@),
    {
        ascii_upper(base).concat("/").concat(ascii_upper(quote).as_str())
    }
}

impl Default for Kraken {
    /// A Kraken connector with the default endpoint.
    fn default() -> Kraken {
        Kraken::new()
    }
}

} // verus!
