//! Exchange connectors: the sequenced-stream protocol state machine and
//! the per-venue message kernels that turn parsed wire data into
//! `PriceLevelUpdate` batches.
//!
//! The state machine consumes events (connection results, snapshots,
//! deltas, errors) and decides the next state and action.  A delta whose
//! first sequence number does not continue the stream forces a resync:
//! the connector abandons the stream and the next emitted update from
//! that venue is a snapshot.

use vstd::prelude::*;

use crate::decimal::parse_scaled_decimal;
use crate::decimal::spec_parse_scaled;
use crate::error::AggregatorError;
use crate::types::Ask;
use crate::types::Bid;
use crate::types::Exchange;
use crate::types::PriceLevelUpdate;

verus! {

/// Protocol state of one connector.
#[derive(Debug, Clone, Copy, PartialEq, Eq, Structural)]
pub enum ConnectorState {
    /// No connection; waiting to (re)connect.
    Disconnected,
    /// Websocket handshake in flight.
    Connecting,
    /// Subscribe frame sent, waiting for the acknowledgement.
    Subscribing,
    /// Subscribed; fetching the REST snapshot while buffering deltas.
    Syncing,
    /// Snapshot emitted with the given sequence; draining buffered deltas
    /// until one overlaps the snapshot.
    Draining(u64),
    /// In sequence; the payload is the last applied sequence number.
    Streaming(u64),
    /// A failure was observed; the stream is abandoned until reconnect.
    Degraded,
}

/// One observation a connector reacts to.
#[derive(Debug, Clone, Copy, PartialEq, Eq, Structural)]
pub enum ConnectorEvent {
    /// The connector is asked to start.
    Start,
    /// The reconnect backoff elapsed.
    ReconnectDue,
    /// The websocket handshake succeeded.
    Connected,
    /// The websocket handshake failed.
    ConnectFailed,
    /// The venue acknowledged the subscription.
    SubscribeAck,
    /// A REST snapshot arrived with its last sequence number.
    Snapshot(u64),
    /// The REST snapshot fetch failed.
    SnapshotFetchFailed,
    /// A delta arrived covering `first ..= last` sequence numbers.
    Delta { first: u64, last: u64 },
    /// The socket failed while reading or writing.
    SocketError,
    /// The venue closed the connection.
    CloseFrame,
    /// No heartbeat arrived within the ping interval.
    HeartbeatMissed,
    /// The aggregator is shutting down.
    Shutdown,
}

/// What the connector does on a transition.
#[derive(Debug, Clone, Copy, PartialEq, Eq, Structural)]
pub enum ConnectorAction {
    /// Nothing to do.
    Idle,
    /// Open the websocket.
    Connect,
    /// Send the subscribe frame.
    Subscribe,
    /// Fetch a REST snapshot.
    FetchSnapshot,
    /// Emit the snapshot as the first update of the stream.
    EmitSnapshot,
    /// Emit the delta downstream.
    EmitDelta,
    /// Discard the delta (it precedes the snapshot).
    DropDelta,
    /// Abandon the stream and start a full resync.
    Resync,
    /// Wait for the backoff, then reconnect.
    Reconnect,
    /// Terminate the connector.
    Stop,
}

/// The transition relation of the connector protocol.
pub open spec fn spec_step(s: ConnectorState, e: ConnectorEvent) -> (ConnectorState, ConnectorAction) {
    match e {
        ConnectorEvent::Shutdown => (ConnectorState::Disconnected, ConnectorAction::Stop),
        ConnectorEvent::SocketError | ConnectorEvent::CloseFrame
            | ConnectorEvent::HeartbeatMissed => (
            ConnectorState::Degraded,
            ConnectorAction::Resync,
        ),
        ConnectorEvent::Start | ConnectorEvent::ReconnectDue => match s {
            ConnectorState::Disconnected | ConnectorState::Degraded => (
                ConnectorState::Connecting,
                ConnectorAction::Connect,
            ),
            _ => (s, ConnectorAction::Idle),
        },
        ConnectorEvent::Connected => match s {
            ConnectorState::Connecting => (ConnectorState::Subscribing, ConnectorAction::Subscribe),
            _ => (s, ConnectorAction::Idle),
        },
        ConnectorEvent::ConnectFailed => match s {
            ConnectorState::Connecting => (
                ConnectorState::Disconnected,
                ConnectorAction::Reconnect,
            ),
            _ => (s, ConnectorAction::Idle),
        },
        ConnectorEvent::SubscribeAck => match s {
            ConnectorState::Subscribing => (ConnectorState::Syncing, ConnectorAction::FetchSnapshot),
            _ => (s, ConnectorAction::Idle),
        },
        ConnectorEvent::Snapshot(u) => match s {
            ConnectorState::Syncing => (ConnectorState::Draining(u), ConnectorAction::EmitSnapshot),
            _ => (s, ConnectorAction::Idle),
        },
        ConnectorEvent::SnapshotFetchFailed => match s {
            ConnectorState::Syncing => (ConnectorState::Syncing, ConnectorAction::FetchSnapshot),
            _ => (s, ConnectorAction::Idle),
        },
        ConnectorEvent::Delta { first, last } => match s {
            ConnectorState::Draining(u) => if last <= u {
                (ConnectorState::Draining(u), ConnectorAction::DropDelta)
            } else if first <= u + 1 && u < last {
                (ConnectorState::Streaming(last), ConnectorAction::EmitDelta)
            } else {
                (ConnectorState::Syncing, ConnectorAction::Resync)
            },
            ConnectorState::Streaming(prev) => if prev < u64::MAX && first == prev + 1 {
                (ConnectorState::Streaming(last), ConnectorAction::EmitDelta)
            } else {
                (ConnectorState::Degraded, ConnectorAction::Resync)
            },
            _ => (s, ConnectorAction::Idle),
        },
    }
}

/// One step of the connector protocol.
pub fn step(s: ConnectorState, e: ConnectorEvent) -> (r: (ConnectorState, ConnectorAction))
    ensures
        r == spec_step(s, e),
{
    match e {
        ConnectorEvent::Shutdown => (ConnectorState::Disconnected, ConnectorAction::Stop),
        ConnectorEvent::SocketError | ConnectorEvent::CloseFrame
            | ConnectorEvent::HeartbeatMissed => (
            ConnectorState::Degraded,
            ConnectorAction::Resync,
        ),
        ConnectorEvent::Start | ConnectorEvent::ReconnectDue => match s {
            ConnectorState::Disconnected | ConnectorState::Degraded => (
                ConnectorState::Connecting,
                ConnectorAction::Connect,
            ),
            _ => (s, ConnectorAction::Idle),
        },
        ConnectorEvent::Connected => match s {
            ConnectorState::Connecting => (ConnectorState::Subscribing, ConnectorAction::Subscribe),
            _ => (s, ConnectorAction::Idle),
        },
        ConnectorEvent::ConnectFailed => match s {
            ConnectorState::Connecting => (
                ConnectorState::Disconnected,
                ConnectorAction::Reconnect,
            ),
            _ => (s, ConnectorAction::Idle),
        },
        ConnectorEvent::SubscribeAck => match s {
            ConnectorState::Subscribing => (ConnectorState::Syncing, ConnectorAction::FetchSnapshot),
            _ => (s, ConnectorAction::Idle),
        },
        ConnectorEvent::Snapshot(u) => match s {
            ConnectorState::Syncing => (ConnectorState::Draining(u), ConnectorAction::EmitSnapshot),
            _ => (s, ConnectorAction::Idle),
        },
        ConnectorEvent::SnapshotFetchFailed => match s {
            ConnectorState::Syncing => (ConnectorState::Syncing, ConnectorAction::FetchSnapshot),
            _ => (s, ConnectorAction::Idle),
        },
        ConnectorEvent::Delta { first, last } => match s {
            ConnectorState::Draining(u) => if last <= u {
                (ConnectorState::Draining(u), ConnectorAction::DropDelta)
            } else if first <= u + 1 && u < last {
                (ConnectorState::Streaming(last), ConnectorAction::EmitDelta)
            } else {
                (ConnectorState::Syncing, ConnectorAction::Resync)
            },
            ConnectorState::Streaming(prev) => if prev < u64::MAX && first == prev + 1 {
                (ConnectorState::Streaming(last), ConnectorAction::EmitDelta)
            } else {
                (ConnectorState::Degraded, ConnectorAction::Resync)
            },
            _ => (s, ConnectorAction::Idle),
        },
    }
}

/// A sequence gap forces a resync: a streaming connector that receives a
/// delta not continuing at `prev + 1` abandons the stream and emits
/// nothing from it.
pub proof fn lemma_gap_forces_resync(prev: u64, first: u64, last: u64)
    requires
        first != prev as int + 1,
    ensures
        spec_step(ConnectorState::Streaming(prev), ConnectorEvent::Delta { first, last }) == (
        ConnectorState::Degraded, ConnectorAction::Resync),
{
}

/// A snapshot is emitted only while syncing: after any failure the
/// stream restarts with a snapshot before any delta can be emitted.
pub proof fn lemma_snapshot_only_while_syncing(s: ConnectorState, e: ConnectorEvent)
    ensures
        spec_step(s, e).1 == ConnectorAction::EmitSnapshot ==> s == ConnectorState::Syncing
            && e matches ConnectorEvent::Snapshot(_),
        spec_step(s, e).1 == ConnectorAction::EmitDelta ==> (s matches ConnectorState::Draining(_)
            || s matches ConnectorState::Streaming(_)),
{
}

/// Shutdown stops the connector from every state.
pub proof fn lemma_shutdown_stops(s: ConnectorState)
    ensures
        spec_step(s, ConnectorEvent::Shutdown).1 == ConnectorAction::Stop,
{
}

/// One `[price, quantity]` entry of a venue message, both as decimal
/// text.
#[derive(Debug, Clone)]
pub struct RawLevel {
    pub price: String,
    pub quantity: String,
}

/// Both text fields denote fixed-point numbers at the given scales.
pub open spec fn raw_level_ok(l: RawLevel, price_scale: nat, qty_scale: nat) -> bool {
    &&& spec_parse_scaled(l.price@, price_scale) matches Some(p) && 0 <= p <= u64::MAX
    &&& spec_parse_scaled(l.quantity@, qty_scale) matches Some(q) && 0 <= q <= u64::MAX
}

/// The bid the raw level denotes.
pub open spec fn spec_bid_of(l: RawLevel, price_scale: nat, qty_scale: nat, ex: Exchange, ts: i64) -> Bid {
    Bid {
        price: spec_parse_scaled(l.price@, price_scale)->Some_0 as u64,
        quantity: spec_parse_scaled(l.quantity@, qty_scale)->Some_0 as u64,
        exchange: ex,
        timestamp: ts,
    }
}

/// The ask the raw level denotes.
pub open spec fn spec_ask_of(l: RawLevel, price_scale: nat, qty_scale: nat, ex: Exchange, ts: i64) -> Ask {
    Ask {
        price: spec_parse_scaled(l.price@, price_scale)->Some_0 as u64,
        quantity: spec_parse_scaled(l.quantity@, qty_scale)->Some_0 as u64,
        exchange: ex,
        timestamp: ts,
    }
}

/// Fixed-point scales for prices and quantities of one subscription.
#[derive(Debug, Clone, Copy, PartialEq, Eq, Structural)]
pub struct Scales {
    pub price: usize,
    pub quantity: usize,
}

impl Scales {
    /// Scales usable by the decimal parser.
    pub open spec fn wf(self) -> bool {
        self.price <= 18 && self.quantity <= 18
    }
}

/// Parses one raw level into a `(price, quantity)` pair at the given
/// scales.  Fails with a parsing error exactly when either field is
/// malformed or out of range.
pub fn parse_price_level(level: &RawLevel, scales: Scales) -> (r: Result<
    (u64, u64),
    AggregatorError,
>)
    requires
        scales.wf(),
    ensures
        match r {
            Ok((p, q)) => {
                &&& raw_level_ok(*level, scales.price as nat, scales.quantity as nat)
                &&& p == spec_parse_scaled(level.price@, scales.price as nat)->Some_0
                &&& q == spec_parse_scaled(level.quantity@, scales.quantity as nat)->Some_0
            },
            Err(e) => {
                &&& !raw_level_ok(*level, scales.price as nat, scales.quantity as nat)
                &&& e matches AggregatorError::Parsing { .. }
            },
        },
{
    let p = match parse_scaled_decimal(level.price.as_str(), scales.price) {
        Some(p) => p,
        None => {
            return Err(AggregatorError::parsing("PriceLevel", "invalid price"));
        },
    };
    let q = match parse_scaled_decimal(level.quantity.as_str(), scales.quantity) {
        Some(q) => q,
        None => {
            return Err(AggregatorError::parsing("PriceLevel", "invalid quantity"));
        },
    };
    Ok((p, q))
}

/// Every raw level of the batch is well-formed at the scales.
pub open spec fn raw_levels_ok(ls: Seq<RawLevel>, price_scale: nat, qty_scale: nat) -> bool {
    forall|i: int| 0 <= i < ls.len() ==> raw_level_ok(#[trigger] ls[i], price_scale, qty_scale)
}

/// Parses a batch of raw bid levels.  Succeeds exactly when every level
/// is well-formed, and then yields the denoted bids in order.
pub fn parse_bids(
    levels: &Vec<RawLevel>,
    scales: Scales,
    exchange: Exchange,
    timestamp: i64,
) -> (r: Result<Vec<Bid>, AggregatorError>)
    requires
        scales.wf(),
    ensures
        match r {
            Ok(bids) => {
                &&& raw_levels_ok(levels@, scales.price as nat, scales.quantity as nat)
                &&& bids@.len() == levels@.len()
                &&& forall|i: int| 0 <= i < levels@.len() ==> #[trigger] bids@[i] == spec_bid_of(
                    levels@[i],
                    scales.price as nat,
                    scales.quantity as nat,
                    exchange,
                    timestamp,
                )
            },
            Err(e) => {
                &&& !raw_levels_ok(levels@, scales.price as nat, scales.quantity as nat)
                &&& e matches AggregatorError::Parsing { .. }
            },
        },
{
    let mut out: Vec<Bid> = Vec::new();
    let mut i: usize = 0;
    while i < levels.len()
        invariant
            0 <= i <= levels@.len(),
            scales.wf(),
            out@.len() == i,
            forall|j: int| 0 <= j < i ==> raw_level_ok(
                #[trigger] levels@[j],
                scales.price as nat,
                scales.quantity as nat,
            ),
            forall|j: int| 0 <= j < i ==> #[trigger] out@[j] == spec_bid_of(
                levels@[j],
                scales.price as nat,
                scales.quantity as nat,
                exchange,
                timestamp,
            ),
        decreases levels@.len() - i,
    {
        match parse_price_level(&levels[i], scales) {
            Ok((p, q)) => {
                out.push(Bid { price: p, quantity: q, exchange, timestamp });
            },
            Err(e) => {
                return Err(e);
            },
        }
        i = i + 1;
    }
    Ok(out)
}

/// Parses a batch of raw ask levels.  Succeeds exactly when every level
/// is well-formed, and then yields the denoted asks in order.
pub fn parse_asks(
    levels: &Vec<RawLevel>,
    scales: Scales,
    exchange: Exchange,
    timestamp: i64,
) -> (r: Result<Vec<Ask>, AggregatorError>)
    requires
        scales.wf(),
    ensures
        match r {
            Ok(asks) => {
                &&& raw_levels_ok(levels@, scales.price as nat, scales.quantity as nat)
                &&& asks@.len() == levels@.len()
                &&& forall|i: int| 0 <= i < levels@.len() ==> #[trigger] asks@[i] == spec_ask_of(
                    levels@[i],
                    scales.price as nat,
                    scales.quantity as nat,
                    exchange,
                    timestamp,
                )
            },
            Err(e) => {
                &&& !raw_levels_ok(levels@, scales.price as nat, scales.quantity as nat)
                &&& e matches AggregatorError::Parsing { .. }
            },
        },
{
    let mut out: Vec<Ask> = Vec::new();
    let mut i: usize = 0;
    while i < levels.len()
        invariant
            0 <= i <= levels@.len(),
            scales.wf(),
            out@.len() == i,
            forall|j: int| 0 <= j < i ==> raw_level_ok(
                #[trigger] levels@[j],
                scales.price as nat,
                scales.quantity as nat,
            ),
            forall|j: int| 0 <= j < i ==> #[trigger] out@[j] == spec_ask_of(
                levels@[j],
                scales.price as nat,
                scales.quantity as nat,
                exchange,
                timestamp,
            ),
        decreases levels@.len() - i,
    {
        match parse_price_level(&levels[i], scales) {
            Ok((p, q)) => {
                out.push(Ask { price: p, quantity: q, exchange, timestamp });
            },
            Err(e) => {
                return Err(e);
            },
        }
        i = i + 1;
    }
    Ok(out)
}

/// One parsed depth-update frame: sequence window and raw levels.
#[derive(Debug, Clone)]
pub struct DepthUpdateMsg {
    pub symbol: String,
    pub first_update_id: u64,
    pub final_update_id: u64,
    pub bids: Vec<RawLevel>,
    pub asks: Vec<RawLevel>,
}

/// One parsed REST depth snapshot: its sequence and raw levels.
#[derive(Debug, Clone)]
pub struct DepthSnapshotMsg {
    pub last_update_id: u64,
    pub bids: Vec<RawLevel>,
    pub asks: Vec<RawLevel>,
}

/// What processing a depth update yields.
pub enum DepthStep {
    /// The delta was stale and is ignored; the sequence is unchanged.
    Ignored,
    /// The delta continues the stream: the update to emit and the new
    /// last sequence number.
    Emit(PriceLevelUpdate, u64),
}

/// Processes one sequenced depth-update frame against the last applied
/// sequence number:
/// a frame whose window ends at or before the last sequence is ignored;
/// one that covers `last + 1` is parsed and emitted, advancing the
/// sequence; any other window is a gap and fails, forcing a resync.
/// A malformed level fails with a parsing error.
pub fn process_depth_update(
    msg: &DepthUpdateMsg,
    last_update_id: u64,
    scales: Scales,
    exchange: Exchange,
    id: u128,
    timestamp: i64,
) -> (r: Result<DepthStep, AggregatorError>)
    requires
        scales.wf(),
    ensures
        match r {
            Ok(step) => match step {
                DepthStep::Ignored => msg.final_update_id <= last_update_id,
                DepthStep::Emit(u, new_last) => {
                    &&& msg.final_update_id > last_update_id
                    &&& msg.first_update_id <= last_update_id as int + 1
                    &&& msg.final_update_id >= last_update_id as int + 1
                    &&& new_last == msg.final_update_id
                    &&& u.id == id
                    &&& u.symbol@ == msg.symbol@
                    &&& u.exchange == exchange
                    &&& u.timestamp == timestamp
                    &&& u.bids@.len() == msg.bids@.len()
                    &&& forall|i: int| 0 <= i < msg.bids@.len() ==> #[trigger] u.bids@[i]
                        == spec_bid_of(
                        msg.bids@[i],
                        scales.price as nat,
                        scales.quantity as nat,
                        exchange,
                        timestamp,
                    )
                    &&& u.asks@.len() == msg.asks@.len()
                    &&& forall|i: int| 0 <= i < msg.asks@.len() ==> #[trigger] u.asks@[i]
                        == spec_ask_of(
                        msg.asks@[i],
                        scales.price as nat,
                        scales.quantity as nat,
                        exchange,
                        timestamp,
                    )
                },
            },
            Err(e) => {
                &&& msg.final_update_id > last_update_id
                &&& (e matches AggregatorError::ExchangeError { .. } ==> !(msg.first_update_id
                    <= last_update_id as int + 1 && msg.final_update_id >= last_update_id as int
                    + 1))
                &&& (e matches AggregatorError::Parsing { .. } ==> ((msg.first_update_id
                    <= last_update_id as int + 1 && msg.final_update_id >= last_update_id as int
                    + 1) && !(raw_levels_ok(msg.bids@, scales.price as nat, scales.quantity as nat)
                    && raw_levels_ok(msg.asks@, scales.price as nat, scales.quantity as nat))))
                &&& (e matches AggregatorError::ExchangeError { .. } || e matches
                    AggregatorError::Parsing { .. })
            },
        },
{
    if msg.final_update_id <= last_update_id {
        return Ok(DepthStep::Ignored);
    }
    let next = last_update_id + 1;
    if msg.first_update_id <= next {
        let bids = match parse_bids(&msg.bids, scales, exchange, timestamp) {
            Ok(b) => b,
            Err(e) => {
                return Err(e);
            },
        };
        let asks = match parse_asks(&msg.asks, scales, exchange, timestamp) {
            Ok(a) => a,
            Err(e) => {
                return Err(e);
            },
        };
        Ok(
            DepthStep::Emit(
                PriceLevelUpdate {
                    id,
                    symbol: msg.symbol.clone(),
                    exchange,
                    bids,
                    asks,
                    timestamp,
                },
                msg.final_update_id,
            ),
        )
    } else {
        Err(AggregatorError::exchange("connector", "update sequence gap"))
    }
}

/// Processes a REST depth snapshot into the first update of the stream.
/// Succeeds exactly when every level parses, and then yields the update
/// and the snapshot's sequence number.
pub fn process_snapshot(
    msg: &DepthSnapshotMsg,
    symbol: &str,
    scales: Scales,
    exchange: Exchange,
    id: u128,
    timestamp: i64,
) -> (r: Result<(PriceLevelUpdate, u64), AggregatorError>)
    requires
        scales.wf(),
    ensures
        match r {
            Ok((u, new_last)) => {
                &&& new_last == msg.last_update_id
                &&& u.id == id
                &&& u.symbol@ == symbol@
                &&& u.exchange == exchange
                &&& u.timestamp == timestamp
                &&& u.bids@.len() == msg.bids@.len()
                &&& forall|i: int| 0 <= i < msg.bids@.len() ==> #[trigger] u.bids@[i]
                    == spec_bid_of(
                    msg.bids@[i],
                    scales.price as nat,
                    scales.quantity as nat,
                    exchange,
                    timestamp,
                )
                &&& u.asks@.len() == msg.asks@.len()
                &&& forall|i: int| 0 <= i < msg.asks@.len() ==> #[trigger] u.asks@[i]
                    == spec_ask_of(
                    msg.asks@[i],
                    scales.price as nat,
                    scales.quantity as nat,
                    exchange,
                    timestamp,
                )
            },
            Err(e) => {
                &&& !(raw_levels_ok(msg.bids@, scales.price as nat, scales.quantity as nat)
                    && raw_levels_ok(msg.asks@, scales.price as nat, scales.quantity as nat))
                &&& e matches AggregatorError::Parsing { .. }
            },
        },
{
    let bids = match parse_bids(&msg.bids, scales, exchange, timestamp) {
        Ok(b) => b,
        Err(e) => {
            return Err(e);
        },
    };
    let asks = match parse_asks(&msg.asks, scales, exchange, timestamp) {
        Ok(a) => a,
        Err(e) => {
            return Err(e);
        },
    };
    Ok(
        (
            PriceLevelUpdate { id, symbol: symbol.to_owned(), exchange, bids, asks, timestamp },
            msg.last_update_id,
        ),
    )
}

} // verus!
