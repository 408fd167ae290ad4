//! Error kinds of the aggregation pipeline, with recoverability and
//! category classification.

use vstd::prelude::*;
use vstd::string::StringExecFns;

verus! {

/// Configuration-file errors.
#[derive(Debug, Clone)]
pub enum ConfigError {
    FileNotFound(String),
}

/// Errors raised by HTTP snapshot fetches.
#[derive(Debug, Clone)]
pub enum HttpError {
    /// The request itself failed.
    Request { message: String },
    /// The response body could not be understood.
    InvalidResponse { message: String },
    /// The response carried an unexpected status code.
    StatusCode { code: u16, message: String },
}

/// Errors raised on a websocket connection.
#[derive(Debug, Clone)]
pub enum WebSocketError {
    Connection { message: String },
    Protocol { message: String },
    Send { message: String },
    Receive { message: String },
    Handshake { message: String },
}

/// Errors raised by one venue's API.
#[derive(Debug, Clone)]
pub enum ExchangeError {
    Connection { exchange: String, message: String },
    Authentication { exchange: String, message: String },
    RateLimit { exchange: String, message: String },
    InvalidSymbol { exchange: String, symbol: String, message: String },
    ApiError { exchange: String, code: String, message: String },
}

/// The main error type of the aggregator.
#[derive(Debug, Clone)]
pub enum AggregatorError {
    Config(ConfigError),
    Serialization { message: String },
    ChannelSend { message: String },
    ChannelReceive { message: String },
    ExchangeError { exchange: String, message: String },
    OrderBookError { operation: String, message: String },
    NetworkError { message: String },
    HttpRequestError { status_code: u16, message: String },
    WebSocketError { message: String },
    Parsing { data_type: String, message: String },
    Timeout { operation: String, duration_ms: u64 },
    Io { message: String },
    UrlParsing { message: String },
    Uuid { message: String },
    Validation { field: String, message: String },
    Database { operation: String, message: String },
    Authentication { message: String },
    RateLimit { resource: String, message: String },
    Internal { message: String },
    NotFound { resource: String, id: String },
    AlreadyExists { resource: String, id: String },
    Shutdown { message: String },
}

impl AggregatorError {
    /// Whether retrying the failed operation can succeed.
    pub open spec fn spec_is_recoverable(&self) -> bool {
        match self {
            AggregatorError::NetworkError { .. } => true,
            AggregatorError::WebSocketError { .. } => true,
            AggregatorError::Timeout { .. } => true,
            AggregatorError::RateLimit { .. } => true,
            AggregatorError::ChannelSend { .. } => true,
            AggregatorError::ChannelReceive { .. } => true,
            _ => false,
        }
    }

    /// Network, websocket, timeout, rate-limit and channel errors are
    /// transient; everything else is terminal.
    pub fn is_recoverable(&self) -> (r: bool)
        ensures
            r == self.spec_is_recoverable(),
    {
        match self {
            AggregatorError::NetworkError { .. } => true,
            AggregatorError::WebSocketError { .. } => true,
            AggregatorError::Timeout { .. } => true,
            AggregatorError::RateLimit { .. } => true,
            AggregatorError::ChannelSend { .. } => true,
            AggregatorError::ChannelReceive { .. } => true,
            _ => false,
        }
    }

    /// Category label of the error kind.
    pub open spec fn spec_category(&self) -> Seq<char> {
        match self {
            AggregatorError::Config(..) => "configuration"@,
            AggregatorError::Serialization { .. } => "serialization"@,
            AggregatorError::ChannelSend { .. } => "channel"@,
            AggregatorError::ChannelReceive { .. } => "channel"@,
            AggregatorError::ExchangeError { .. } => "exchange"@,
            AggregatorError::OrderBookError { .. } => "orderbook"@,
            AggregatorError::NetworkError { .. } => "network"@,
            AggregatorError::HttpRequestError { .. } => "http"@,
            AggregatorError::WebSocketError { .. } => "websocket"@,
            AggregatorError::Parsing { .. } => "parsing"@,
            AggregatorError::Timeout { .. } => "timeout"@,
            AggregatorError::Io { .. } => "io"@,
            AggregatorError::UrlParsing { .. } => "url"@,
            AggregatorError::Uuid { .. } => "uuid"@,
            AggregatorError::Validation { .. } => "validation"@,
            AggregatorError::Database { .. } => "database"@,
            AggregatorError::Authentication { .. } => "authentication"@,
            AggregatorError::RateLimit { .. } => "rate_limit"@,
            AggregatorError::Internal { .. } => "internal"@,
            AggregatorError::NotFound { .. } => "not_found"@,
            AggregatorError::AlreadyExists { .. } => "already_exists"@,
            AggregatorError::Shutdown { .. } => "shutdown"@,
        }
    }

    /// Short category label for metrics and logs.
    pub fn category(&self) -> (r: &'static str)
        ensures
            r@ == self.spec_category(),
    {
        match self {
            AggregatorError::Config(..) => "configuration",
            AggregatorError::Serialization { .. } => "serialization",
            AggregatorError::ChannelSend { .. } => "channel",
            AggregatorError::ChannelReceive { .. } => "channel",
            AggregatorError::ExchangeError { .. } => "exchange",
            AggregatorError::OrderBookError { .. } => "orderbook",
            AggregatorError::NetworkError { .. } => "network",
            AggregatorError::HttpRequestError { .. } => "http",
            AggregatorError::WebSocketError { .. } => "websocket",
            AggregatorError::Parsing { .. } => "parsing",
            AggregatorError::Timeout { .. } => "timeout",
            AggregatorError::Io { .. } => "io",
            AggregatorError::UrlParsing { .. } => "url",
            AggregatorError::Uuid { .. } => "uuid",
            AggregatorError::Validation { .. } => "validation",
            AggregatorError::Database { .. } => "database",
            AggregatorError::Authentication { .. } => "authentication",
            AggregatorError::RateLimit { .. } => "rate_limit",
            AggregatorError::Internal { .. } => "internal",
            AggregatorError::NotFound { .. } => "not_found",
            AggregatorError::AlreadyExists { .. } => "already_exists",
            AggregatorError::Shutdown { .. } => "shutdown",
        }
    }

    /// Builds a parsing error for the named data type.
    pub fn parsing(data_type: &str, message: &str) -> (r: AggregatorError)
        ensures
            r matches AggregatorError::Parsing { data_type: d, message: m }
                && d@ == data_type@ && m@ == message@,
    {
        AggregatorError::Parsing {
            data_type: data_type.to_owned(),
            message: message.to_owned(),
        }
    }

    /// Builds a venue error.
    pub fn exchange(exchange: &str, message: &str) -> (r: AggregatorError)
        ensures
            r matches AggregatorError::ExchangeError { exchange: e, message: m }
                && e@ == exchange@ && m@ == message@,
    {
        AggregatorError::ExchangeError {
            exchange: exchange.to_owned(),
            message: message.to_owned(),
        }
    }

    /// Builds a network error.
    pub fn network(message: &str) -> (r: AggregatorError)
        ensures
            r matches AggregatorError::NetworkError { message: m } && m@ == message@,
    {
        AggregatorError::NetworkError { message: message.to_owned() }
    }

    /// Builds a timeout error for the named operation.
    pub fn timeout(operation: &str, duration_ms: u64) -> (r: AggregatorError)
        ensures
            r matches AggregatorError::Timeout { operation: o, duration_ms: d }
                && o@ == operation@ && d == duration_ms,
    {
        AggregatorError::Timeout { operation: operation.to_owned(), duration_ms }
    }

    /// Builds a validation error for the named field.
    pub fn validation(field: &str, message: &str) -> (r: AggregatorError)
        ensures
            r matches AggregatorError::Validation { field: f, message: m }
                && f@ == field@ && m@ == message@,
    {
        AggregatorError::Validation { field: field.to_owned(), message: message.to_owned() }
    }

    /// Builds a not-found error for the named resource.
    pub fn not_found(resource: &str, id: &str) -> (r: AggregatorError)
        ensures
            r matches AggregatorError::NotFound { resource: rs, id: i }
                && rs@ == resource@ && i@ == id@,
    {
        AggregatorError::NotFound { resource: resource.to_owned(), id: id.to_owned() }
    }
}

/// Maps an HTTP error onto the main error type: request failures become
/// network errors, bad bodies become parsing errors, bad statuses keep
/// their code.
pub fn from_http_error(err: HttpError) -> (r: AggregatorError)
    ensures
        err matches HttpError::Request { message } ==> (r matches
            AggregatorError::NetworkError { message: m } && m == message),
        err matches HttpError::InvalidResponse { message } ==> (r matches
            AggregatorError::Parsing { data_type: d, message: m } && m == message
            && d@ == "HTTP Response"@),
        err matches HttpError::StatusCode { code, message } ==> (r matches
            AggregatorError::HttpRequestError { status_code: c, message: m }
            && c == code && m == message),
{
    match err {
        HttpError::Request { message } => AggregatorError::NetworkError { message },
        HttpError::InvalidResponse { message } => AggregatorError::Parsing {
            data_type: "HTTP Response".to_owned(),
            message,
        },
        HttpError::StatusCode { code, message } => AggregatorError::HttpRequestError {
            status_code: code,
            message,
        },
    }
}

/// Maps a websocket error onto the main error type, keeping its message.
pub fn from_websocket_error(err: WebSocketError) -> (r: AggregatorError)
    ensures
        r matches AggregatorError::WebSocketError { message: m } && m == match err {
            WebSocketError::Connection { message } => message,
            WebSocketError::Protocol { message } => message,
            WebSocketError::Send { message } => message,
            WebSocketError::Receive { message } => message,
            WebSocketError::Handshake { message } => message,
        },
{
    match err {
        WebSocketError::Connection { message } => AggregatorError::WebSocketError { message },
        WebSocketError::Protocol { message } => AggregatorError::WebSocketError { message },
        WebSocketError::Send { message } => AggregatorError::WebSocketError { message },
        WebSocketError::Receive { message } => AggregatorError::WebSocketError { message },
        WebSocketError::Handshake { message } => AggregatorError::WebSocketError { message },
    }
}

/// Maps a venue error onto the main error type: connection and API errors
/// stay venue errors, authentication and rate limits keep their kind, and
/// an invalid symbol becomes a validation error.
pub fn from_exchange_error(err: ExchangeError) -> (r: AggregatorError)
    ensures
        err matches ExchangeError::Connection { exchange, message } ==> (r matches
            AggregatorError::ExchangeError { exchange: e, message: m }
            && e == exchange && m == message),
        err matches ExchangeError::Authentication { exchange, message } ==> (r matches
            AggregatorError::Authentication { message: m }
            && m@ == exchange@ + ": "@ + message@),
        err matches ExchangeError::RateLimit { exchange, message } ==> (r matches
            AggregatorError::RateLimit { resource, message: m }
            && resource == exchange && m == message),
        err matches ExchangeError::InvalidSymbol { exchange, symbol, message } ==> (r matches
            AggregatorError::Validation { field, message: m }
            && field@ == exchange@ + " symbol"@ && m@ == symbol@ + ": "@ + message@),
        err matches ExchangeError::ApiError { exchange, code, message } ==> (r matches
            AggregatorError::ExchangeError { exchange: e, message: m }
            && e == exchange && m@ == code@ + ": "@ + message@),
{
    match err {
        ExchangeError::Connection { exchange, message } => AggregatorError::ExchangeError {
            exchange,
            message,
        },
        ExchangeError::Authentication { exchange, message } => AggregatorError::Authentication {
            message: exchange.concat(": ").concat(message.as_str()),
        },
        ExchangeError::RateLimit { exchange, message } => AggregatorError::RateLimit {
            resource: exchange,
            message,
        },
        ExchangeError::InvalidSymbol { exchange, symbol, message } => AggregatorError::Validation {
            field: exchange.concat(" symbol"),
            message: symbol.concat(": ").concat(message.as_str()),
        },
        ExchangeError::ApiError { exchange, code, message } => AggregatorError::ExchangeError {
            exchange,
            message: code.concat(": ").concat(message.as_str()),
        },
    }
}

/// Wraps a configuration error.
pub fn from_config_error(err: ConfigError) -> (r: AggregatorError)
    ensures
        r matches AggregatorError::Config(e) && e == err,
{
    AggregatorError::Config(err)
}

} // verus!
