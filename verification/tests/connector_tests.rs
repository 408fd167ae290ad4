// The connector protocol state machine and the message kernels.

use aggregator_core::connector::{
    step, ConnectorAction, ConnectorEvent, ConnectorState, DepthSnapshotMsg, DepthStep,
    DepthUpdateMsg, RawLevel, Scales,
};
use aggregator_core::decimal::parse_scaled_decimal;
use aggregator_core::types::Exchange;

fn raw(price: &str, quantity: &str) -> RawLevel {
    RawLevel {
        price: price.to_string(),
        quantity: quantity.to_string(),
    }
}

const SCALES: Scales = Scales {
    price: 2,
    quantity: 3,
};

#[test]
fn test_parse_scaled_decimal_values() {
    assert_eq!(parse_scaled_decimal("49951.25", 2), Some(4995125));
    assert_eq!(parse_scaled_decimal("0.005", 3), Some(5));
    assert_eq!(parse_scaled_decimal("100", 0), Some(100));
    assert_eq!(parse_scaled_decimal("1.5", 3), Some(1500));
    // Fraction digits beyond the scale truncate toward zero.
    assert_eq!(parse_scaled_decimal("1.2345", 2), Some(123));
}

#[test]
fn test_parse_scaled_decimal_rejects_malformed() {
    assert_eq!(parse_scaled_decimal("", 2), None);
    assert_eq!(parse_scaled_decimal(".5", 2), None);
    assert_eq!(parse_scaled_decimal("5.", 2), None);
    assert_eq!(parse_scaled_decimal("1.2.3", 2), None);
    assert_eq!(parse_scaled_decimal("12a", 2), None);
    assert_eq!(parse_scaled_decimal("-1", 2), None);
    // Twenty integer digits leave the supported range.
    assert_eq!(parse_scaled_decimal("12345678901234567890", 0), None);
}

#[test]
fn test_snapshot_then_delta_with_gap() {
    // Snapshot 1000, delta (1001, 1005) applies, delta (1007, 1010)
    // breaks the sequence and forces a resync.
    let (s, a) = step(ConnectorState::Syncing, ConnectorEvent::Snapshot(1000));
    assert_eq!(a, ConnectorAction::EmitSnapshot);
    assert_eq!(s, ConnectorState::Draining(1000));

    let (s, a) = step(s, ConnectorEvent::Delta { first: 1001, last: 1005 });
    assert_eq!(a, ConnectorAction::EmitDelta);
    assert_eq!(s, ConnectorState::Streaming(1005));

    let (s, a) = step(s, ConnectorEvent::Delta { first: 1007, last: 1010 });
    assert_eq!(a, ConnectorAction::Resync);
    assert_eq!(s, ConnectorState::Degraded);
}

#[test]
fn test_stale_buffered_deltas_dropped() {
    let (s, a) = step(
        ConnectorState::Draining(1000),
        ConnectorEvent::Delta { first: 900, last: 1000 },
    );
    assert_eq!(a, ConnectorAction::DropDelta);
    assert_eq!(s, ConnectorState::Draining(1000));
}

#[test]
fn test_buffered_delta_past_snapshot_forces_resync() {
    // The first non-stale delta must cover the snapshot's successor.
    let (s, a) = step(
        ConnectorState::Draining(1000),
        ConnectorEvent::Delta { first: 1003, last: 1010 },
    );
    assert_eq!(a, ConnectorAction::Resync);
    assert_eq!(s, ConnectorState::Syncing);
}

#[test]
fn test_connect_cycle() {
    let (s, a) = step(ConnectorState::Disconnected, ConnectorEvent::Start);
    assert_eq!((s, a), (ConnectorState::Connecting, ConnectorAction::Connect));
    let (s, a) = step(s, ConnectorEvent::Connected);
    assert_eq!((s, a), (ConnectorState::Subscribing, ConnectorAction::Subscribe));
    let (s, a) = step(s, ConnectorEvent::SubscribeAck);
    assert_eq!((s, a), (ConnectorState::Syncing, ConnectorAction::FetchSnapshot));
    let (s, a) = step(s, ConnectorEvent::SocketError);
    assert_eq!((s, a), (ConnectorState::Degraded, ConnectorAction::Resync));
    let (s, a) = step(s, ConnectorEvent::ReconnectDue);
    assert_eq!((s, a), (ConnectorState::Connecting, ConnectorAction::Connect));
}

#[test]
fn test_shutdown_stops_every_state() {
    let states = [
        ConnectorState::Disconnected,
        ConnectorState::Connecting,
        ConnectorState::Subscribing,
        ConnectorState::Syncing,
        ConnectorState::Draining(5),
        ConnectorState::Streaming(9),
        ConnectorState::Degraded,
    ];
    for s in states {
        let (_, a) = step(s, ConnectorEvent::Shutdown);
        assert_eq!(a, ConnectorAction::Stop);
    }
}

#[test]
fn test_process_depth_update_emits_in_sequence() {
    let msg = DepthUpdateMsg {
        symbol: "BTCUSDT".to_string(),
        first_update_id: 1001,
        final_update_id: 1005,
        bids: vec![raw("499.51", "1.5")],
        asks: vec![raw("499.52", "0.5")],
    };
    let r = aggregator_core::connector::process_depth_update(
        &msg,
        1000,
        SCALES,
        Exchange::Binance,
        42,
        123,
    )
    .unwrap();
    match r {
        DepthStep::Emit(u, new_last) => {
            assert_eq!(new_last, 1005);
            assert_eq!(u.symbol, "BTCUSDT");
            assert_eq!(u.id, 42);
            assert_eq!(u.timestamp, 123);
            assert_eq!(u.bids.len(), 1);
            assert_eq!(u.bids[0].price, 49951);
            assert_eq!(u.bids[0].quantity, 1500);
            assert_eq!(u.asks[0].price, 49952);
            assert_eq!(u.asks[0].quantity, 500);
        }
        DepthStep::Ignored => panic!("update should be emitted"),
    }
}

#[test]
fn test_process_depth_update_ignores_stale() {
    let msg = DepthUpdateMsg {
        symbol: "BTCUSDT".to_string(),
        first_update_id: 900,
        final_update_id: 1000,
        bids: vec![],
        asks: vec![],
    };
    let r = aggregator_core::connector::process_depth_update(
        &msg,
        1000,
        SCALES,
        Exchange::Binance,
        0,
        0,
    )
    .unwrap();
    assert!(matches!(r, DepthStep::Ignored));
}

#[test]
fn test_process_depth_update_rejects_gap() {
    let msg = DepthUpdateMsg {
        symbol: "BTCUSDT".to_string(),
        first_update_id: 1007,
        final_update_id: 1010,
        bids: vec![],
        asks: vec![],
    };
    let r = aggregator_core::connector::process_depth_update(
        &msg,
        1005,
        SCALES,
        Exchange::Binance,
        0,
        0,
    );
    assert!(r.is_err());
}

#[test]
fn test_process_depth_update_rejects_malformed_level() {
    let msg = DepthUpdateMsg {
        symbol: "BTCUSDT".to_string(),
        first_update_id: 1001,
        final_update_id: 1002,
        bids: vec![raw("oops", "1")],
        asks: vec![],
    };
    let r = aggregator_core::connector::process_depth_update(
        &msg,
        1000,
        SCALES,
        Exchange::Binance,
        0,
        0,
    );
    match r {
        Err(aggregator_core::AggregatorError::Parsing { .. }) => {}
        _ => panic!("expected a parsing error"),
    }
}

#[test]
fn test_process_snapshot() {
    let msg = DepthSnapshotMsg {
        last_update_id: 1000,
        bids: vec![raw("100.00", "2")],
        asks: vec![raw("101.00", "3")],
    };
    let (u, last) = aggregator_core::connector::process_snapshot(
        &msg,
        "BTCUSDT",
        SCALES,
        Exchange::Kraken,
        9,
        55,
    )
    .unwrap();
    assert_eq!(last, 1000);
    assert_eq!(u.symbol, "BTCUSDT");
    assert_eq!(u.exchange, Exchange::Kraken);
    assert_eq!(u.bids[0].price, 10000);
    assert_eq!(u.bids[0].quantity, 2000);
    assert_eq!(u.asks[0].price, 10100);
    assert_eq!(u.asks[0].quantity, 3000);
}
