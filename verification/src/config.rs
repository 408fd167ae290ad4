//! Configuration of the aggregator: venues, trading pairs, order book,
//! servers, logging and metrics.

use vstd::prelude::*;
use vstd::string::StringExecFns;

pub use crate::error::ConfigError;
use crate::types::Exchange;
use crate::types::MarketType;
use crate::types::TradingPair;
use crate::types::EXCHANGE_COUNT;

verus! {

/// Rate limiting of one venue's REST API.
#[derive(Debug, Clone, Copy, PartialEq, Eq, Structural)]
pub struct RateLimitConfig {
    pub requests_per_second: u32,
    pub burst_size: u32,
}

impl Default for RateLimitConfig {
    /// Ten requests per second with a burst of twenty.
    fn default() -> (r: RateLimitConfig)
        ensures
            r.requests_per_second == 10,
            r.burst_size == 20,
    {
        RateLimitConfig { requests_per_second: 10, burst_size: 20 }
    }
}

/// Websocket behaviour of one venue connection, intervals in
/// milliseconds.
#[derive(Debug, Clone, Copy, PartialEq, Eq, Structural)]
pub struct WebSocketConfig {
    pub reconnect_interval: u64,
    pub ping_interval: u64,
    pub max_reconnect_attempts: u32,
    pub buffer_size: usize,
}

impl Default for WebSocketConfig {
    /// Five-second reconnect, thirty-second ping, ten attempts, a
    /// thousand buffered frames.
    fn default() -> (r: WebSocketConfig)
        ensures
            r.reconnect_interval == 5000,
            r.ping_interval == 30000,
            r.max_reconnect_attempts == 10,
            r.buffer_size == 1000,
    {
        WebSocketConfig {
            reconnect_interval: 5000,
            ping_interval: 30000,
            max_reconnect_attempts: 10,
            buffer_size: 1000,
        }
    }
}

/// One venue's configuration.
#[derive(Debug, Clone)]
pub struct ExchangeConfig {
    pub enabled: bool,
    pub api_key: Option<String>,
    pub api_secret: Option<String>,
    pub passphrase: Option<String>,
    pub sandbox: bool,
    pub rate_limit: RateLimitConfig,
    pub websocket: WebSocketConfig,
}

impl Default for ExchangeConfig {
    /// Enabled, without credentials, against the live venue.
    fn default() -> (r: ExchangeConfig)
        ensures
            r.enabled == true,
            r.api_key is None,
            r.api_secret is None,
            r.passphrase is None,
            r.sandbox == false,
            r.rate_limit.requests_per_second == 10,
            r.rate_limit.burst_size == 20,
            r.websocket.reconnect_interval == 5000,
            r.websocket.ping_interval == 30000,
            r.websocket.max_reconnect_attempts == 10,
            r.websocket.buffer_size == 1000,
    {
        ExchangeConfig {
            enabled: true,
            api_key: None,
            api_secret: None,
            passphrase: None,
            sandbox: false,
            rate_limit: RateLimitConfig::default(),
            websocket: WebSocketConfig::default(),
        }
    }
}

/// Depth bound and cadence of the order books.
#[derive(Debug, Clone, Copy, PartialEq, Eq, Structural)]
pub struct OrderBookConfig {
    pub max_depth: usize,
    pub market_type: MarketType,
    pub update_interval: u64,
    pub cleanup_interval: u64,
    pub implementation: OrderBookImplementation,
}

impl Default for OrderBookConfig {
    /// Twenty levels of the spot book on the ordered-container backend.
    fn default() -> (r: OrderBookConfig)
        ensures
            r.max_depth == 20,
            r.market_type == MarketType::Spot,
            r.update_interval == 100,
            r.cleanup_interval == 60000,
            r.implementation == OrderBookImplementation::BTreeSet,
    {
        OrderBookConfig {
            max_depth: 20,
            market_type: MarketType::Spot,
            update_interval: 100,
            cleanup_interval: 60000,
            implementation: OrderBookImplementation::BTreeSet,
        }
    }
}

/// The order-book backend the aggregator runs on.
#[derive(Debug, Clone, Copy, PartialEq, Eq, Structural)]
pub enum OrderBookImplementation {
    BTreeSet,
    AvlTree,
    RbTree,
    HashMap,
}

/// gRPC server endpoint.
#[derive(Debug, Clone)]
pub struct GrpcConfig {
    pub enabled: bool,
    pub host: String,
    pub port: u16,
    pub tls: Option<TlsConfig>,
}

impl Default for GrpcConfig {
    /// Enabled on every interface, port 50051, without TLS.
    fn default() -> (r: GrpcConfig)
        ensures
            r.enabled == true,
            r.host@ == "0.0.0.0"@,
            r.port == 50051,
            r.tls is None,
    {
        GrpcConfig {
            enabled: true,
            host: String::from_str("0.0.0.0"),
            port: 50051,
            tls: None,
        }
    }
}

/// REST server endpoint.
#[derive(Debug, Clone)]
pub struct RestConfig {
    pub enabled: bool,
    pub host: String,
    pub port: u16,
    pub cors: CorsConfig,
}

impl Default for RestConfig {
    /// Enabled on every interface, port 8080, permissive CORS.
    fn default() -> (r: RestConfig)
        ensures
            r.enabled == true,
            r.host@ == "0.0.0.0"@,
            r.port == 8080,
    {
        RestConfig {
            enabled: true,
            host: String::from_str("0.0.0.0"),
            port: 8080,
            cors: CorsConfig::default(),
        }
    }
}

/// Websocket fan-out server endpoint.
#[derive(Debug, Clone)]
pub struct WebSocketServerConfig {
    pub enabled: bool,
    pub host: String,
    pub port: u16,
    pub max_connections: usize,
}

impl Default for WebSocketServerConfig {
    /// Enabled on every interface, port 8081, a thousand clients.
    fn default() -> (r: WebSocketServerConfig)
        ensures
            r.enabled == true,
            r.host@ == "0.0.0.0"@,
            r.port == 8081,
            r.max_connections == 1000,
    {
        WebSocketServerConfig {
            enabled: true,
            host: String::from_str("0.0.0.0"),
            port: 8081,
            max_connections: 1000,
        }
    }
}

/// TLS material for a server endpoint.
#[derive(Debug, Clone)]
pub struct TlsConfig {
    pub cert_path: String,
    pub key_path: String,
}

/// Cross-origin policy of the REST server.
#[derive(Debug, Clone)]
pub struct CorsConfig {
    pub allowed_origins: Vec<String>,
    pub allowed_methods: Vec<String>,
    pub allowed_headers: Vec<String>,
}

impl Default for CorsConfig {
    /// Any origin, GET and POST, any header.
    fn default() -> (r: CorsConfig)
        ensures
            r.allowed_origins@.len() == 1,
            r.allowed_methods@.len() == 2,
            r.allowed_headers@.len() == 1,
    {
        let mut origins: Vec<String> = Vec::new();
        origins.push(String::from_str("*"));
        let mut methods: Vec<String> = Vec::new();
        methods.push(String::from_str("GET"));
        methods.push(String::from_str("POST"));
        let mut headers: Vec<String> = Vec::new();
        headers.push(String::from_str("*"));
        CorsConfig {
            allowed_origins: origins,
            allowed_methods: methods,
            allowed_headers: headers,
        }
    }
}

/// Fan-out servers of the aggregator.
#[derive(Debug, Clone)]
pub struct ServerConfig {
    pub grpc: GrpcConfig,
    pub rest: RestConfig,
    pub websocket: WebSocketServerConfig,
}

impl Default for ServerConfig {
    /// Every server on its default endpoint.
    fn default() -> (r: ServerConfig)
        ensures
            r.grpc.port == 50051,
            r.rest.port == 8080,
            r.websocket.port == 8081,
    {
        ServerConfig {
            grpc: GrpcConfig::default(),
            rest: RestConfig::default(),
            websocket: WebSocketServerConfig::default(),
        }
    }
}

/// Log output of the aggregator.
#[derive(Debug, Clone)]
pub struct LoggingConfig {
    pub level: String,
    pub format: String,
    pub output: String,
    pub file_path: Option<String>,
    pub max_file_size: u64,
    pub max_files: u32,
}

impl Default for LoggingConfig {
    /// JSON at info level on standard output, hundred-megabyte files,
    /// ten kept.
    fn default() -> (r: LoggingConfig)
        ensures
            r.level@ == "info"@,
            r.format@ == "json"@,
            r.output@ == "stdout"@,
            r.file_path is None,
            r.max_file_size == 104857600,
            r.max_files == 10,
    {
        LoggingConfig {
            level: String::from_str("info"),
            format: String::from_str("json"),
            output: String::from_str("stdout"),
            file_path: None,
            max_file_size: 104857600,
            max_files: 10,
        }
    }
}

/// Metrics exposition of the aggregator.
#[derive(Debug, Clone)]
pub struct MetricsConfig {
    pub enabled: bool,
    pub prometheus: PrometheusConfig,
}

impl Default for MetricsConfig {
    /// Enabled with the default scrape endpoint.
    fn default() -> (r: MetricsConfig)
        ensures
            r.enabled == true,
            r.prometheus.port == 9090,
    {
        MetricsConfig { enabled: true, prometheus: PrometheusConfig::default() }
    }
}

/// Scrape endpoint for metrics.
#[derive(Debug, Clone)]
pub struct PrometheusConfig {
    pub enabled: bool,
    pub host: String,
    pub port: u16,
    pub path: String,
}

impl Default for PrometheusConfig {
    /// Enabled on every interface, port 9090, at `/metrics`.
    fn default() -> (r: PrometheusConfig)
        ensures
            r.enabled == true,
            r.host@ == "0.0.0.0"@,
            r.port == 9090,
            r.path@ == "/metrics"@,
    {
        PrometheusConfig {
            enabled: true,
            host: String::from_str("0.0.0.0"),
            port: 9090,
            path: String::from_str("/metrics"),
        }
    }
}

/// The whole configuration: one entry per venue, the subscribed pairs,
/// and the order-book, server, logging and metrics blocks.
#[derive(Debug, Clone)]
pub struct Config {
    pub exchanges: Vec<(Exchange, ExchangeConfig)>,
    pub trading_pairs: Vec<TradingPair>,
    pub orderbook: OrderBookConfig,
    pub server: ServerConfig,
    pub logging: LoggingConfig,
    pub metrics: MetricsConfig,
}

/// The venues of the enabled entries, in entry order.
pub open spec fn enabled_of(entries: Seq<(Exchange, ExchangeConfig)>) -> Seq<Exchange>
    decreases entries.len(),
{
    if entries.len() == 0 {
        Seq::empty()
    } else if entries[0].1.enabled {
        seq![entries[0].0] + enabled_of(entries.drop_first())
    } else {
        enabled_of(entries.drop_first())
    }
}

/// Selecting enabled venues distributes over concatenation.
proof fn lemma_enabled_of_append(a: Seq<(Exchange, ExchangeConfig)>, b: Seq<(Exchange, ExchangeConfig)>)
    ensures
        enabled_of(a + b) == enabled_of(a) + enabled_of(b),
    decreases a.len(),
{
    if a.len() == 0 {
        assert(a + b =~= b);
        assert(enabled_of(a) + enabled_of(b) =~= enabled_of(b));
    } else {
        assert((a + b).drop_first() =~= a.drop_first() + b);
        lemma_enabled_of_append(a.drop_first(), b);
        if a[0].1.enabled {
            assert(seq![a[0].0] + (enabled_of(a.drop_first()) + enabled_of(b)) =~= (seq![a[0].0]
                + enabled_of(a.drop_first())) + enabled_of(b));
        }
    }
}

impl Config {
    /// The venues whose entry is enabled, in entry order.
    pub fn enabled_exchanges(&self) -> (r: Vec<Exchange>)
        ensures
            r@ == enabled_of(self.exchanges@),
    {
        let mut out: Vec<Exchange> = Vec::new();
        let mut i: usize = 0;
        while i < self.exchanges.len()
            invariant
                0 <= i <= self.exchanges@.len(),
                out@ == enabled_of(self.exchanges@.take(i as int)),
            decreases self.exchanges@.len() - i,
        {
            proof {
                assert(self.exchanges@.take(i + 1) =~= self.exchanges@.take(i as int)
                    + seq![self.exchanges@[i as int]]);
                lemma_enabled_of_append(
                    self.exchanges@.take(i as int),
                    seq![self.exchanges@[i as int]],
                );
                assert(seq![self.exchanges@[i as int]].drop_first()
                    =~= Seq::<(Exchange, ExchangeConfig)>::empty());
                assert(enabled_of(Seq::<(Exchange, ExchangeConfig)>::empty())
                    =~= Seq::<Exchange>::empty());
                assert(seq![self.exchanges@[i as int]][0] == self.exchanges@[i as int]);
                if self.exchanges@[i as int].1.enabled {
                    assert(enabled_of(seq![self.exchanges@[i as int]])
                        =~= seq![self.exchanges@[i as int].0]);
                } else {
                    assert(enabled_of(seq![self.exchanges@[i as int]])
                        =~= Seq::<Exchange>::empty());
                    assert(out@ + Seq::<Exchange>::empty() =~= out@);
                }
            }
            if self.exchanges[i].1.enabled {
                out.push(self.exchanges[i].0);
            }
            i = i + 1;
        }
        proof {
            assert(self.exchanges@.take(self.exchanges@.len() as int) =~= self.exchanges@);
        }
        out
    }
}

impl Default for Config {
    /// Every known venue enabled with defaults, three majors against
    /// USDT, and every block on its default.
    fn default() -> (r: Config)
        ensures
            r.exchanges@.len() == EXCHANGE_COUNT,
            forall|i: int| 0 <= i < r.exchanges@.len() ==> (#[trigger] r.exchanges@[i]).0
                .venue_index() == i && r.exchanges@[i].1.enabled,
            r.trading_pairs@.len() == 3,
            r.orderbook.max_depth == 20,
            r.orderbook.market_type == MarketType::Spot,
    {
        let all = Exchange::all();
        let mut exchanges: Vec<(Exchange, ExchangeConfig)> = Vec::new();
        let mut i: usize = 0;
        while i < all.len()
            invariant
                0 <= i <= all@.len(),
                exchanges@.len() == i,
                forall|j: int| 0 <= j < all@.len() ==> #[trigger] all@[j].venue_index() == j,
                forall|j: int| 0 <= j < i ==> (#[trigger] exchanges@[j]).0 == all@[j]
                    && exchanges@[j].1.enabled,
            decreases all@.len() - i,
        {
            exchanges.push((all[i], ExchangeConfig::default()));
            i = i + 1;
        }
        let mut trading_pairs: Vec<TradingPair> = Vec::new();
        trading_pairs.push(TradingPair::new("BTC", "USDT"));
        trading_pairs.push(TradingPair::new("ETH", "USDT"));
        trading_pairs.push(TradingPair::new("BNB", "USDT"));
        Config {
            exchanges,
            trading_pairs,
            orderbook: OrderBookConfig::default(),
            server: ServerConfig::default(),
            logging: LoggingConfig::default(),
            metrics: MetricsConfig::default(),
        }
    }
}

} // verus!
