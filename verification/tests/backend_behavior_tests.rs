use nekoton_transport::adnl::{reassemble_chunks, DatagramChunk};
use nekoton_transport::endpoints::{conn_transition, ConnEvent, ConnState, EndpointSelector};
use nekoton_transport::errors::TransportError;
use nekoton_transport::subscription::PollSubscription;

#[test]
fn chunked_reply_is_reassembled_in_order() {
    let chunks = vec![
        DatagramChunk { index: 0, total: 3, payload: vec![1, 2] },
        DatagramChunk { index: 1, total: 3, payload: vec![3] },
        DatagramChunk { index: 2, total: 3, payload: vec![4, 5, 6] },
    ];
    assert_eq!(reassemble_chunks(&chunks), Ok(vec![1, 2, 3, 4, 5, 6]));
}

#[test]
fn misnumbered_chunk_is_a_protocol_error() {
    let chunks = vec![
        DatagramChunk { index: 0, total: 2, payload: vec![1] },
        DatagramChunk { index: 0, total: 2, payload: vec![2] },
    ];
    assert_eq!(reassemble_chunks(&chunks), Err(TransportError::ProtocolError));
}

#[test]
fn wrong_announced_total_is_a_protocol_error() {
    let chunks = vec![
        DatagramChunk { index: 0, total: 5, payload: vec![1] },
        DatagramChunk { index: 1, total: 5, payload: vec![2] },
    ];
    assert_eq!(reassemble_chunks(&chunks), Err(TransportError::ProtocolError));
}

#[test]
fn empty_chunk_sequence_is_a_protocol_error() {
    let chunks: Vec<DatagramChunk> = Vec::new();
    assert_eq!(reassemble_chunks(&chunks), Err(TransportError::ProtocolError));
}

#[test]
fn selector_rotates_cyclically_at_the_threshold() {
    let mut s = EndpointSelector::new(2, 2);
    s.record_failure();
    assert_eq!(s.current_endpoint(), 0);
    s.record_failure();
    assert_eq!(s.current_endpoint(), 1);
    s.record_failure();
    s.record_failure();
    assert_eq!(s.current_endpoint(), 0);
}

#[test]
fn success_clears_the_streak_without_rotating() {
    let mut s = EndpointSelector::new(3, 2);
    s.record_failure();
    s.record_success();
    s.record_failure();
    assert_eq!(s.current_endpoint(), 0);
    s.record_failure();
    assert_eq!(s.current_endpoint(), 1);
}

#[test]
fn connection_lifecycle_follows_the_allowed_transitions() {
    let s = ConnState::Idle;
    let s = conn_transition(s, ConnEvent::StartConnect);
    assert_eq!(s, ConnState::Connecting);
    let s = conn_transition(s, ConnEvent::Established);
    assert_eq!(s, ConnState::Ready);
    let s = conn_transition(s, ConnEvent::RepeatedFailure);
    assert_eq!(s, ConnState::Degraded);
    let s = conn_transition(s, ConnEvent::Recovered);
    assert_eq!(s, ConnState::Ready);
    let s = conn_transition(s, ConnEvent::Shutdown);
    assert_eq!(s, ConnState::Closed);
}

#[test]
fn closed_is_terminal() {
    for e in [
        ConnEvent::StartConnect,
        ConnEvent::Established,
        ConnEvent::RepeatedFailure,
        ConnEvent::Recovered,
        ConnEvent::Shutdown,
    ] {
        assert_eq!(conn_transition(ConnState::Closed, e), ConnState::Closed);
    }
}

#[test]
fn unlisted_events_leave_the_state_alone() {
    assert_eq!(conn_transition(ConnState::Idle, ConnEvent::Recovered), ConnState::Idle);
    assert_eq!(conn_transition(ConnState::Ready, ConnEvent::StartConnect), ConnState::Ready);
}

#[test]
fn poll_subscription_emits_only_on_change() {
    let mut sub = PollSubscription::new(100, 1000);
    // The first poll always notifies.
    assert!(sub.on_poll(5000));
    assert_eq!(sub.next_delay(), 100);
    // Unchanged polls back off exponentially up to the ceiling.
    assert!(!sub.on_poll(5000));
    assert_eq!(sub.next_delay(), 200);
    assert!(!sub.on_poll(5000));
    assert_eq!(sub.next_delay(), 400);
    assert!(!sub.on_poll(5000));
    assert!(!sub.on_poll(5000));
    assert_eq!(sub.next_delay(), 1000);
    assert!(!sub.on_poll(5000));
    assert_eq!(sub.next_delay(), 1000);
    // A change notifies and resets the cadence.
    assert!(sub.on_poll(5001));
    assert_eq!(sub.next_delay(), 100);
}

use nekoton_transport::backend::{JrpcTransport, TransportBackend, TransportConfig};

#[test]
fn backend_channel_lifecycle_is_driven_by_events() {
    let mut backend = JrpcTransport::new(TransportConfig {
        endpoint_count: 1,
        timeout_ms: 500,
        retry_count: 1,
        fail_threshold: 1,
    });
    assert_eq!(backend.conn, ConnState::Idle);
    backend.on_channel_event(ConnEvent::StartConnect);
    backend.on_channel_event(ConnEvent::Established);
    assert_eq!(backend.conn, ConnState::Ready);
    backend.on_channel_event(ConnEvent::RepeatedFailure);
    assert_eq!(backend.conn, ConnState::Degraded);
    backend.on_channel_event(ConnEvent::Shutdown);
    assert_eq!(backend.conn, ConnState::Closed);
    // Terminal: later events change nothing.
    backend.on_channel_event(ConnEvent::StartConnect);
    assert_eq!(backend.conn, ConnState::Closed);
}
