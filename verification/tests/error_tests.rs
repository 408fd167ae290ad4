// Error classification and conversion.

use aggregator_core::error::{
    AggregatorError, ConfigError, ExchangeError, HttpError, WebSocketError,
};
use aggregator_core::error::{
    from_config_error, from_exchange_error, from_http_error, from_websocket_error,
};

#[test]
fn test_error_recoverability() {
    assert!(AggregatorError::network("down").is_recoverable());
    assert!(AggregatorError::timeout("connect", 5000).is_recoverable());
    assert!(AggregatorError::WebSocketError {
        message: "closed".to_string()
    }
    .is_recoverable());
    assert!(!AggregatorError::parsing("Frame", "bad json").is_recoverable());
    assert!(!AggregatorError::validation("symbol", "empty").is_recoverable());
    assert!(!AggregatorError::not_found("Summary", "BTC/USDT").is_recoverable());
}

#[test]
fn test_error_categories() {
    assert_eq!(AggregatorError::network("x").category(), "network");
    assert_eq!(AggregatorError::parsing("T", "x").category(), "parsing");
    assert_eq!(AggregatorError::timeout("op", 1).category(), "timeout");
    assert_eq!(AggregatorError::validation("f", "m").category(), "validation");
    assert_eq!(AggregatorError::not_found("r", "i").category(), "not_found");
    assert_eq!(AggregatorError::exchange("kraken", "m").category(), "exchange");
    assert_eq!(
        from_config_error(ConfigError::FileNotFound("cfg.json".to_string())).category(),
        "configuration"
    );
}

#[test]
fn test_http_error_conversion() {
    let e = from_http_error(HttpError::StatusCode {
        code: 503,
        message: "unavailable".to_string(),
    });
    match e {
        AggregatorError::HttpRequestError {
            status_code,
            message,
        } => {
            assert_eq!(status_code, 503);
            assert_eq!(message, "unavailable");
        }
        _ => panic!("expected an HTTP request error"),
    }

    let e = from_http_error(HttpError::Request {
        message: "refused".to_string(),
    });
    assert_eq!(e.category(), "network");
}

#[test]
fn test_websocket_error_conversion() {
    let e = from_websocket_error(WebSocketError::Handshake {
        message: "denied".to_string(),
    });
    match e {
        AggregatorError::WebSocketError { message } => assert_eq!(message, "denied"),
        _ => panic!("expected a websocket error"),
    }
}

#[test]
fn test_exchange_error_conversion() {
    let e = from_exchange_error(ExchangeError::Authentication {
        exchange: "kraken".to_string(),
        message: "bad key".to_string(),
    });
    match e {
        AggregatorError::Authentication { message } => {
            assert_eq!(message, "kraken: bad key");
        }
        _ => panic!("expected an authentication error"),
    }

    let e = from_exchange_error(ExchangeError::RateLimit {
        exchange: "bybit".to_string(),
        message: "slow down".to_string(),
    });
    assert_eq!(e.category(), "rate_limit");
}
