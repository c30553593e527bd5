use nekoton_transport::backend::{
    AdnlTransport, GraphQlTransport, JrpcTransport, TransportBackend, TransportConfig,
    TransportFailure, classify_exec,
};
use nekoton_transport::consistency::{ConsistencyGuard, Cursor};
use nekoton_transport::errors::TransportError;
use nekoton_transport::facade::{ExchangeOutcome, Transport};
use nekoton_transport::models::{
    Address, AccountRecord, ExistingContract, GenTimings, LastTransactionId, RawContractState,
    StorageState,
};
use nekoton_transport::reply::encode_state_reply;

fn config() -> TransportConfig {
    TransportConfig { endpoint_count: 2, timeout_ms: 1000, retry_count: 3, fail_threshold: 3 }
}

fn addr() -> Address {
    Address { workchain: 0, id_hi: 0xabc, id_lo: 0 }
}

fn state_with_gen_lt(gen_lt: u64) -> RawContractState {
    RawContractState::Exists(ExistingContract {
        account: AccountRecord {
            balance: 1_000_000_000,
            storage_state: StorageState::Active,
            code: None,
            data: None,
        },
        timings: GenTimings { gen_lt, gen_utime: 1000 },
        last_transaction_id: LastTransactionId { is_exact: true, lt: 10, hash_hi: 1, hash_lo: 2 },
    })
}

#[test]
fn lagging_replica_is_flagged_but_served() {
    let mut transport = Transport::new(JrpcTransport::new(config()));

    let fresh = encode_state_reply(&state_with_gen_lt(5000));
    let result = transport
        .handle_state_exchange(addr(), ExchangeOutcome::Reply(fresh))
        .expect("valid reply");
    assert!(!result.anomaly);
    match &result.state {
        RawContractState::Exists(e) => assert_eq!(e.timings.gen_lt, 5000),
        _ => panic!("expected an existing account"),
    }

    // A later answer from a lagging replica: returned as-is, flagged, and
    // the tracked cursor does not regress.
    let stale = encode_state_reply(&state_with_gen_lt(4000));
    let result = transport
        .handle_state_exchange(addr(), ExchangeOutcome::Reply(stale))
        .expect("valid reply");
    assert!(result.anomaly);
    match &result.state {
        RawContractState::Exists(e) => assert_eq!(e.timings.gen_lt, 4000),
        _ => panic!("expected an existing account"),
    }
    let cursor = transport.tracked_cursor(addr()).expect("cursor present");
    assert_eq!(cursor.gen_lt, 5000);
}

#[test]
fn not_exists_reply_is_not_an_anomaly() {
    let mut transport = Transport::new(GraphQlTransport::new(config()));
    let reply = encode_state_reply(&RawContractState::NotExists);
    let result = transport
        .handle_state_exchange(addr(), ExchangeOutcome::Reply(reply))
        .expect("valid reply");
    assert!(!result.anomaly);
    assert_eq!(result.state, RawContractState::NotExists);
}

#[test]
fn garbage_reply_is_a_decode_error() {
    let mut transport = Transport::new(AdnlTransport::new(config()));
    let result = transport.handle_state_exchange(addr(), ExchangeOutcome::Reply(vec![9, 9, 9]));
    assert_eq!(result.unwrap_err(), TransportError::DecodeError);
}

#[test]
fn failover_rotates_after_threshold_consecutive_network_errors() {
    let mut transport = Transport::new(JrpcTransport::new(config()));
    assert_eq!(transport.backend.active_endpoint(), 0);
    for _ in 0..3 {
        let r = transport
            .handle_state_exchange(addr(), ExchangeOutcome::Failed(TransportFailure::ConnectionFailed));
        assert_eq!(r.unwrap_err(), TransportError::NetworkError);
    }
    // After the threshold's worth of failures the next request targets the
    // next configured endpoint.
    assert_eq!(transport.backend.active_endpoint(), 1);
}

#[test]
fn early_failures_do_not_rotate() {
    let mut transport = Transport::new(JrpcTransport::new(config()));
    for _ in 0..2 {
        let _ = transport
            .handle_state_exchange(addr(), ExchangeOutcome::Failed(TransportFailure::Deadline));
    }
    assert_eq!(transport.backend.active_endpoint(), 0);
}

#[test]
fn protocol_faults_do_not_count_against_the_endpoint() {
    let mut transport = Transport::new(JrpcTransport::new(config()));
    for _ in 0..5 {
        let r = transport.handle_state_exchange(
            addr(),
            ExchangeOutcome::Failed(TransportFailure::ProtocolFault(-32601)),
        );
        assert_eq!(r.unwrap_err(), TransportError::ProtocolError);
    }
    assert_eq!(transport.backend.active_endpoint(), 0);
}

#[test]
fn failure_classification_follows_the_shared_taxonomy() {
    assert_eq!(classify_exec(TransportFailure::ConnectionFailed), TransportError::NetworkError);
    assert_eq!(classify_exec(TransportFailure::Deadline), TransportError::TimeoutError);
    assert_eq!(classify_exec(TransportFailure::HttpStatus(503)), TransportError::NetworkError);
    assert_eq!(classify_exec(TransportFailure::HttpStatus(404)), TransportError::ProtocolError);
    assert_eq!(classify_exec(TransportFailure::ProtocolFault(7)), TransportError::ProtocolError);
}

#[test]
fn send_acknowledgement_and_rejection() {
    let mut transport = Transport::new(JrpcTransport::new(config()));
    assert_eq!(transport.handle_send_exchange(ExchangeOutcome::Reply(vec![1])), Ok(()));
    assert_eq!(
        transport.handle_send_exchange(ExchangeOutcome::Reply(vec![0])),
        Err(TransportError::RejectedError)
    );
    assert_eq!(
        transport.handle_send_exchange(ExchangeOutcome::Reply(vec![5])),
        Err(TransportError::ProtocolError)
    );
    assert_eq!(
        transport.handle_send_exchange(ExchangeOutcome::Failed(TransportFailure::ConnectionFailed)),
        Err(TransportError::NetworkError)
    );
}

#[test]
fn guard_tracks_componentwise_maximum_per_address() {
    let mut guard = ConsistencyGuard::new();
    let a = addr();
    let b = Address { workchain: -1, id_hi: 7, id_lo: 7 };
    assert!(!guard.observe(a, Cursor { gen_lt: 100, tx_lt: 50 }));
    assert!(!guard.observe(b, Cursor { gen_lt: 1, tx_lt: 1 }));
    // Same genLt, older transaction lt: no anomaly, transaction lt kept.
    assert!(!guard.observe(a, Cursor { gen_lt: 100, tx_lt: 40 }));
    assert_eq!(guard.get_tracked(a), Some(Cursor { gen_lt: 100, tx_lt: 50 }));
    // Strictly older genLt: anomaly, nothing regresses.
    assert!(guard.observe(a, Cursor { gen_lt: 99, tx_lt: 60 }));
    assert_eq!(guard.get_tracked(a), Some(Cursor { gen_lt: 100, tx_lt: 60 }));
    // The other address was never disturbed.
    assert_eq!(guard.get_tracked(b), Some(Cursor { gen_lt: 1, tx_lt: 1 }));
}

#[test]
fn transaction_history_is_served_in_reported_order() {
    let mut transport = Transport::new(GraphQlTransport::new(config()));
    // count = 1, then one 40-byte record: lt 300, hash halves 7 and 8.
    let mut reply: Vec<u8> = Vec::new();
    reply.extend_from_slice(&[1, 0, 0, 0]);
    let mut lt = [0u8; 8];
    lt[0] = 44;
    lt[1] = 1; // 300 = 44 + 256
    reply.extend_from_slice(&lt);
    let mut hash_hi = [0u8; 16];
    hash_hi[0] = 7;
    reply.extend_from_slice(&hash_hi);
    let mut hash_lo = [0u8; 16];
    hash_lo[0] = 8;
    reply.extend_from_slice(&hash_lo);
    let records = transport
        .handle_transactions_exchange(ExchangeOutcome::Reply(reply))
        .expect("well-formed history");
    assert_eq!(records.len(), 1);
    assert_eq!(records[0].lt, 300);
    assert_eq!(records[0].hash_hi, 7);
    assert_eq!(records[0].hash_lo, 8);
}
