//! The capability contract all three backends satisfy, and the shared
//! failure classification. Network I/O happens outside; a backend value
//! holds the decision state (endpoint rotation, connection lifecycle) and
//! the decoding of reply bodies into the canonical model.

use vstd::prelude::*;
use crate::endpoints::{conn_step, conn_transition, ConnEvent, ConnState, EndpointSelector};
use crate::errors::TransportError;
use crate::models::RawContractState;
use crate::pagination::{decode_transactions_reply, strictly_descending, tx_records_of,
    tx_reply_shape_ok, TransactionRecord};
use crate::reply::{decode_state_reply, valid_state_reply, absent_reply, reply_bytes};

verus! {

/// Immutable configuration fixed at construction.
#[derive(Clone, Copy, PartialEq, Eq, Structural, Debug)]
pub struct TransportConfig {
    /// How many endpoints (or overlay peers) are configured.
    pub endpoint_count: usize,
    /// Per-request deadline.
    pub timeout_ms: u64,
    /// Bounded internal retries for retryable errors.
    pub retry_count: u32,
    /// Consecutive failures after which the backend rotates.
    pub fail_threshold: usize,
}

impl TransportConfig {
    pub open spec fn wf(self) -> bool {
        self.endpoint_count >= 1 && self.fail_threshold >= 1
    }
}

/// How one transport-level exchange failed, before classification.
#[derive(Clone, Copy, PartialEq, Eq, Structural, Debug)]
pub enum TransportFailure {
    /// The endpoint could not be reached (connection refused, reset, TLS).
    ConnectionFailed,
    /// The per-request deadline passed.
    Deadline,
    /// An HTTP reply carried this status instead of a body.
    HttpStatus(u16),
    /// The protocol answered with an error object carrying this code.
    ProtocolFault(i64),
}

/// The shared mapping of transport failures into the error taxonomy:
/// unreachable endpoints and server-side HTTP failures are network errors,
/// missed deadlines are timeouts, and everything the protocol itself said
/// is authoritative.
pub open spec fn classify_spec(f: TransportFailure) -> TransportError {
    match f {
        TransportFailure::ConnectionFailed => TransportError::NetworkError,
        TransportFailure::Deadline => TransportError::TimeoutError,
        TransportFailure::HttpStatus(s) => if s >= 500 {
            TransportError::NetworkError
        } else {
            TransportError::ProtocolError
        },
        TransportFailure::ProtocolFault(_) => TransportError::ProtocolError,
    }
}

/// What every backend's state decoding must satisfy: success exactly on
/// valid replies, absence always mapped to `NotExists` (never an error),
/// and a successful result that re-encodes to the reply itself — the same
/// canonical outcome whichever backend decoded it.
pub open spec fn canonical_decode_contract(
    b: Seq<u8>,
    r: Result<RawContractState, TransportError>,
) -> bool {
    &&& (r matches Ok(_) <==> valid_state_reply(b))
    &&& (absent_reply(b) ==> r == Ok::<RawContractState, TransportError>(
        RawContractState::NotExists,
    ))
    &&& (r matches Ok(s) ==> s.wf() && reply_bytes(s) == b)
    &&& (r matches Ok(s) ==> ((s matches RawContractState::NotExists) <==> absent_reply(b)))
    &&& (r matches Err(e) ==> e == TransportError::DecodeError)
}

/// What every backend's transaction-history decoding must satisfy: success
/// exactly on well-shaped replies in strictly descending logical time, and
/// the decoded records are the reply's own, in the reply's own order.
pub open spec fn canonical_tx_contract(
    b: Seq<u8>,
    r: Result<Vec<TransactionRecord>, TransportError>,
) -> bool {
    &&& (r matches Ok(_) <==> tx_reply_shape_ok(b) && strictly_descending(tx_records_of(b)))
    &&& (r matches Ok(v) ==> v@ == tx_records_of(b))
    &&& (r matches Err(e) ==> e == TransportError::ProtocolError)
}

/// The polymorphic capability all three backends satisfy. Callers select a
/// backend at construction and use it only through this contract.
pub trait TransportBackend: Sized {
    /// The backend's invariant.
    spec fn wf(&self) -> bool;

    /// The rotation state over its configured endpoints or peers.
    spec fn selector_of(&self) -> EndpointSelector;

    /// Where the backend's channel stands in its lifecycle.
    spec fn conn_of(&self) -> ConnState;

    /// Drives the connection lifecycle: Idle → Connecting → Ready ⇄ Degraded
    /// → Closed, with Closed terminal and rotation state untouched.
    fn on_channel_event(&mut self, e: ConnEvent)
        requires
            old(self).wf(),
        ensures
            final(self).wf(),
            final(self).conn_of() == conn_step(old(self).conn_of(), e),
            final(self).selector_of() == old(self).selector_of(),
    ;

    /// Decodes one reply body into canonical state, identically across
    /// backends.
    fn decode_state_response(&self, body: &Vec<u8>) -> (r: Result<
        RawContractState,
        TransportError,
    >)
        requires
            self.wf(),
        ensures
            canonical_decode_contract(body@, r),
    ;

    /// Decodes one transaction-history reply body, identically across
    /// backends.
    fn decode_transactions_response(&self, body: &Vec<u8>) -> (r: Result<
        Vec<TransactionRecord>,
        TransportError,
    >)
        requires
            self.wf(),
        ensures
            canonical_tx_contract(body@, r),
    ;

    /// Maps a transport-level failure into the shared taxonomy.
    fn classify_failure(&self, f: TransportFailure) -> (e: TransportError)
        ensures
            e == classify_spec(f),
    ;

    /// Records a retryable failure against the active endpoint; at the
    /// configured threshold the backend rotates to the next one.
    fn note_retryable_failure(&mut self)
        requires
            old(self).wf(),
        ensures
            final(self).wf(),
            final(self).selector_of() == EndpointSelector::fail_step(old(self).selector_of()),
    ;

    /// Records a successful exchange: the failure streak clears and the
    /// active endpoint stays.
    fn note_success(&mut self)
        requires
            old(self).wf(),
        ensures
            final(self).wf(),
            final(self).selector_of().consecutive_failures == 0,
            final(self).selector_of().current == old(self).selector_of().current,
            final(self).selector_of().endpoint_count == old(self).selector_of().endpoint_count,
            final(self).selector_of().fail_threshold == old(self).selector_of().fail_threshold,
    ;

    /// Which endpoint the next request targets.
    fn active_endpoint(&self) -> (r: usize)
        requires
            self.wf(),
        ensures
            r == self.selector_of().current,
    ;
}

/// Datagram-oriented backend over an authenticated encrypted channel: it
/// rotates through overlay peers and reassembles multi-chunk replies
/// (see `adnl`); decoding and classification follow the shared contract.
pub struct AdnlTransport {
    pub peers: EndpointSelector,
    pub conn: ConnState,
    pub config: TransportConfig,
}

/// HTTP backend speaking a query language: it batches and paginates on the
/// wire; here it rotates endpoints on server failures and decodes replies
/// canonically. Subscriptions are synthesized by polling.
pub struct GraphQlTransport {
    pub endpoints: EndpointSelector,
    pub conn: ConnState,
    pub config: TransportConfig,
}

/// HTTP backend speaking single request-response calls: protocol error
/// objects are authoritative, connection-level failures are network errors.
/// Subscriptions are synthesized by polling.
pub struct JrpcTransport {
    pub endpoints: EndpointSelector,
    pub conn: ConnState,
    pub config: TransportConfig,
}

impl AdnlTransport {
    pub fn new(config: TransportConfig) -> (t: AdnlTransport)
        requires
            config.wf(),
        ensures
            t.wf(),
            t.selector_of().current == 0,
            t.selector_of().consecutive_failures == 0,
            t.selector_of().endpoint_count == config.endpoint_count,
            t.selector_of().fail_threshold == config.fail_threshold,
            t.conn_of() == ConnState::Idle,
    {
        AdnlTransport {
            peers: EndpointSelector::new(config.endpoint_count, config.fail_threshold),
            conn: ConnState::Idle,
            config,
        }
    }
}

impl TransportBackend for AdnlTransport {
    open spec fn wf(&self) -> bool {
        self.peers.wf()
    }

    open spec fn selector_of(&self) -> EndpointSelector {
        self.peers
    }

    open spec fn conn_of(&self) -> ConnState {
        self.conn
    }

    fn on_channel_event(&mut self, e: ConnEvent) {
        self.conn = conn_transition(self.conn, e);
    }

    fn decode_state_response(&self, body: &Vec<u8>) -> (r: Result<
        RawContractState,
        TransportError,
    >) {
        decode_state_reply(body)
    }

    fn decode_transactions_response(&self, body: &Vec<u8>) -> (r: Result<
        Vec<TransactionRecord>,
        TransportError,
    >) {
        decode_transactions_reply(body)
    }

    fn classify_failure(&self, f: TransportFailure) -> (e: TransportError) {
        classify_exec(f)
    }

    fn note_retryable_failure(&mut self) {
        self.peers.record_failure();
    }

    fn note_success(&mut self) {
        self.peers.record_success();
    }

    fn active_endpoint(&self) -> (r: usize) {
        self.peers.current_endpoint()
    }
}

impl GraphQlTransport {
    pub fn new(config: TransportConfig) -> (t: GraphQlTransport)
        requires
            config.wf(),
        ensures
            t.wf(),
            t.selector_of().current == 0,
            t.selector_of().consecutive_failures == 0,
            t.selector_of().endpoint_count == config.endpoint_count,
            t.selector_of().fail_threshold == config.fail_threshold,
            t.conn_of() == ConnState::Idle,
    {
        GraphQlTransport {
            endpoints: EndpointSelector::new(config.endpoint_count, config.fail_threshold),
            conn: ConnState::Idle,
            config,
        }
    }
}

impl TransportBackend for GraphQlTransport {
    open spec fn wf(&self) -> bool {
        self.endpoints.wf()
    }

    open spec fn selector_of(&self) -> EndpointSelector {
        self.endpoints
    }

    open spec fn conn_of(&self) -> ConnState {
        self.conn
    }

    fn on_channel_event(&mut self, e: ConnEvent) {
        self.conn = conn_transition(self.conn, e);
    }

    fn decode_state_response(&self, body: &Vec<u8>) -> (r: Result<
        RawContractState,
        TransportError,
    >) {
        decode_state_reply(body)
    }

    fn decode_transactions_response(&self, body: &Vec<u8>) -> (r: Result<
        Vec<TransactionRecord>,
        TransportError,
    >) {
        decode_transactions_reply(body)
    }

    fn classify_failure(&self, f: TransportFailure) -> (e: TransportError) {
        classify_exec(f)
    }

    fn note_retryable_failure(&mut self) {
        self.endpoints.record_failure();
    }

    fn note_success(&mut self) {
        self.endpoints.record_success();
    }

    fn active_endpoint(&self) -> (r: usize) {
        self.endpoints.current_endpoint()
    }
}

impl JrpcTransport {
    pub fn new(config: TransportConfig) -> (t: JrpcTransport)
        requires
            config.wf(),
        ensures
            t.wf(),
            t.selector_of().current == 0,
            t.selector_of().consecutive_failures == 0,
            t.selector_of().endpoint_count == config.endpoint_count,
            t.selector_of().fail_threshold == config.fail_threshold,
            t.conn_of() == ConnState::Idle,
    {
        JrpcTransport {
            endpoints: EndpointSelector::new(config.endpoint_count, config.fail_threshold),
            conn: ConnState::Idle,
            config,
        }
    }
}

impl TransportBackend for JrpcTransport {
    open spec fn wf(&self) -> bool {
        self.endpoints.wf()
    }

    open spec fn selector_of(&self) -> EndpointSelector {
        self.endpoints
    }

    open spec fn conn_of(&self) -> ConnState {
        self.conn
    }

    fn on_channel_event(&mut self, e: ConnEvent) {
        self.conn = conn_transition(self.conn, e);
    }

    fn decode_state_response(&self, body: &Vec<u8>) -> (r: Result<
        RawContractState,
        TransportError,
    >) {
        decode_state_reply(body)
    }

    fn decode_transactions_response(&self, body: &Vec<u8>) -> (r: Result<
        Vec<TransactionRecord>,
        TransportError,
    >) {
        decode_transactions_reply(body)
    }

    fn classify_failure(&self, f: TransportFailure) -> (e: TransportError) {
        classify_exec(f)
    }

    fn note_retryable_failure(&mut self) {
        self.endpoints.record_failure();
    }

    fn note_success(&mut self) {
        self.endpoints.record_success();
    }

    fn active_endpoint(&self) -> (r: usize) {
        self.endpoints.current_endpoint()
    }
}

/// The one executable form of the shared failure mapping.
pub fn classify_exec(f: TransportFailure) -> (e: TransportError)
    ensures
        e == classify_spec(f),
{
    match f {
        TransportFailure::ConnectionFailed => TransportError::NetworkError,
        TransportFailure::Deadline => TransportError::TimeoutError,
        TransportFailure::HttpStatus(s) => if s >= 500 {
            TransportError::NetworkError
        } else {
            TransportError::ProtocolError
        },
        TransportFailure::ProtocolFault(_) => TransportError::ProtocolError,
    }
}

} // verus!
