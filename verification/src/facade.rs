//! The transport facade: one chosen backend composed with the consistency
//! guard. Callers hand it the outcome of each wire exchange (the I/O itself
//! runs outside) and receive canonical state together with any anomaly
//! signal, under one contract for all three backends.

use vstd::prelude::*;
use crate::backend::{classify_spec, TransportBackend, TransportFailure};
use crate::pagination::{strictly_descending, tx_records_of, tx_reply_shape_ok, TransactionRecord};
use crate::consistency::{ConsistencyGuard, Cursor};
use crate::endpoints::EndpointSelector;
use crate::errors::TransportError;
use crate::models::{Address, ExistingContract, RawContractState};
use crate::reply::{reply_bytes, valid_state_reply};

verus! {

/// How one wire exchange ended: a reply body, or a transport failure.
pub enum ExchangeOutcome {
    Reply(Vec<u8>),
    Failed(TransportFailure),
}

/// A state query's result: the canonical state and the non-fatal rollback
/// signal attached when the serving node lagged the tracked cursor.
#[derive(Debug)]
pub struct StateResult {
    pub state: RawContractState,
    pub anomaly: bool,
}

/// The cursor an observation of an existing account carries.
pub open spec fn state_cursor(e: ExistingContract) -> Cursor {
    Cursor { gen_lt: e.timings.gen_lt, tx_lt: e.last_transaction_id.lt }
}

/// One backend instance behind the unified query surface.
pub struct Transport<B: TransportBackend> {
    pub backend: B,
    pub guard: ConsistencyGuard,
}

impl<B: TransportBackend> Transport<B> {
    pub open spec fn wf(self) -> bool {
        self.backend.wf() && self.guard.wf()
    }

    pub fn new(backend: B) -> (t: Transport<B>)
        requires
            backend.wf(),
        ensures
            t.wf(),
            t.backend == backend,
            forall|a: Address| t.guard.tracked_cursor(a) == Option::<Cursor>::None,
    {
        Transport { backend, guard: ConsistencyGuard::new() }
    }

    /// Completes one state query. A failure is classified into the shared
    /// taxonomy, counting against the active endpoint only when retryable.
    /// A reply is decoded canonically; an observation of an existing
    /// account is checked against the tracked cursor, which never
    /// regresses, and flagged — not failed — when the reply lags it.
    pub fn handle_state_exchange(&mut self, addr: Address, outcome: ExchangeOutcome) -> (r: Result<
        StateResult,
        TransportError,
    >)
        requires
            old(self).wf(),
        ensures
            final(self).wf(),
            (match outcome {
                ExchangeOutcome::Failed(f) => {
                    &&& r == Err::<StateResult, TransportError>(classify_spec(f))
                    &&& final(self).guard == old(self).guard
                    &&& (classify_spec(f).spec_is_retryable() ==> final(self).backend.selector_of()
                        == EndpointSelector::fail_step(old(self).backend.selector_of()))
                    &&& (!classify_spec(f).spec_is_retryable() ==> final(self).backend.selector_of() == old(self).backend.selector_of())
                },
                ExchangeOutcome::Reply(b) => {
                    &&& (!valid_state_reply(b@) ==> {
                        &&& r == Err::<StateResult, TransportError>(TransportError::DecodeError)
                        &&& final(self).guard == old(self).guard
                        &&& final(self).backend.selector_of() == old(self).backend.selector_of()
                    })
                    &&& (valid_state_reply(b@) ==> (r matches Ok(sr) && {
                        &&& sr.state.wf()
                        &&& reply_bytes(sr.state) == b@
                        &&& final(self).backend.selector_of().consecutive_failures == 0
                        &&& final(self).backend.selector_of().current == old(self).backend.selector_of().current
                        &&& (sr.state matches RawContractState::NotExists ==> !sr.anomaly && final(self).guard == old(self).guard)
                        &&& (sr.state matches RawContractState::Exists(e) ==> {
                            &&& sr.anomaly == ConsistencyGuard::spec_is_rollback(
                                old(self).guard.tracked_cursor(addr),
                                state_cursor(e),
                            )
                            &&& final(self).guard.tracked_cursor(addr) == Option::Some(
                                match old(self).guard.tracked_cursor(addr) {
                                    Option::Some(p) => ConsistencyGuard::advanced(
                                        p,
                                        state_cursor(e),
                                    ),
                                    Option::None => state_cursor(e),
                                },
                            )
                            &&& forall|other: Address|
                                other != addr ==> final(self).guard.tracked_cursor(other) == old(self).guard.tracked_cursor(other)
                        })
                    }))
                },
            }),
    {
        match outcome {
            ExchangeOutcome::Failed(f) => {
                let e = self.backend.classify_failure(f);
                if e.is_retryable() {
                    self.backend.note_retryable_failure();
                }
                Err(e)
            },
            ExchangeOutcome::Reply(b) => {
                match self.backend.decode_state_response(&b) {
                    Err(e) => Err(e),
                    Ok(state) => {
                        self.backend.note_success();
                        match state {
                            RawContractState::NotExists => Ok(
                                StateResult { state: RawContractState::NotExists, anomaly: false },
                            ),
                            RawContractState::Exists(ec) => {
                                let cursor = Cursor {
                                    gen_lt: ec.timings.gen_lt,
                                    tx_lt: ec.last_transaction_id.lt,
                                };
                                let anomaly = self.guard.observe(addr, cursor);
                                Ok(
                                    StateResult {
                                        state: RawContractState::Exists(ec),
                                        anomaly,
                                    },
                                )
                            },
                        }
                    },
                }
            },
        }
    }

    /// The submission acknowledgement reply: accepted-for-relay.
    pub open spec fn ack_reply(b: Seq<u8>) -> bool {
        b.len() == 1 && b[0] == 1
    }

    /// The submission refusal reply: syntactically refused before relay.
    pub open spec fn reject_reply(b: Seq<u8>) -> bool {
        b.len() == 1 && b[0] == 0
    }

    /// Completes one external-message submission. Acceptance means
    /// accepted-for-relay, not finality; a refusal is authoritative and
    /// surfaces as `RejectedError` without counting against the endpoint.
    pub fn handle_send_exchange(&mut self, outcome: ExchangeOutcome) -> (r: Result<
        (),
        TransportError,
    >)
        requires
            old(self).wf(),
        ensures
            final(self).wf(),
            final(self).guard == old(self).guard,
            outcome matches ExchangeOutcome::Failed(f) ==> {
                &&& r == Err::<(), TransportError>(classify_spec(f))
                &&& (classify_spec(f).spec_is_retryable() ==> final(self).backend.selector_of()
                    == EndpointSelector::fail_step(old(self).backend.selector_of()))
                &&& (!classify_spec(f).spec_is_retryable() ==> final(self).backend.selector_of()
                    == old(self).backend.selector_of())
            },
            outcome matches ExchangeOutcome::Reply(b) ==> {
                &&& final(self).backend.selector_of().consecutive_failures == 0
                &&& final(self).backend.selector_of().current == old(self).backend.selector_of().current
                &&& (Self::ack_reply(b@) ==> r == Ok::<(), TransportError>(()))
                &&& (Self::reject_reply(b@) ==> r == Err::<(), TransportError>(
                    TransportError::RejectedError,
                ))
                &&& (!Self::ack_reply(b@) && !Self::reject_reply(b@) ==> r == Err::<
                    (),
                    TransportError,
                >(TransportError::ProtocolError))
            },
    {
        match outcome {
            ExchangeOutcome::Failed(f) => {
                let e = self.backend.classify_failure(f);
                if e.is_retryable() {
                    self.backend.note_retryable_failure();
                }
                Err(e)
            },
            ExchangeOutcome::Reply(b) => {
                self.backend.note_success();
                if b.len() == 1 {
                    let code = b[0];
                    if code == 1 {
                        Ok(())
                    } else if code == 0 {
                        Err(TransportError::RejectedError)
                    } else {
                        Err(TransportError::ProtocolError)
                    }
                } else {
                    Err(TransportError::ProtocolError)
                }
            },
        }
    }

    /// Completes one transaction-history query: a page of records in
    /// strictly descending logical time, exactly as the node reported them.
    /// A reply out of order or out of shape is a protocol violation and is
    /// never silently repaired.
    pub fn handle_transactions_exchange(&mut self, outcome: ExchangeOutcome) -> (r: Result<
        Vec<TransactionRecord>,
        TransportError,
    >)
        requires
            old(self).wf(),
        ensures
            final(self).wf(),
            final(self).guard == old(self).guard,
            (match outcome {
                ExchangeOutcome::Failed(f) => {
                    &&& r == Err::<Vec<TransactionRecord>, TransportError>(classify_spec(f))
                    &&& (classify_spec(f).spec_is_retryable() ==> final(self).backend.selector_of()
                        == EndpointSelector::fail_step(old(self).backend.selector_of()))
                    &&& (!classify_spec(f).spec_is_retryable() ==> final(self).backend.selector_of()
                        == old(self).backend.selector_of())
                },
                ExchangeOutcome::Reply(b) => {
                    &&& (r matches Ok(_) <==> tx_reply_shape_ok(b@) && strictly_descending(
                        tx_records_of(b@),
                    ))
                    &&& (r matches Ok(v) ==> v@ == tx_records_of(b@) && final(self).backend.selector_of().consecutive_failures == 0 && final(self).backend.selector_of().current == old(self).backend.selector_of().current)
                    &&& (r matches Err(e) ==> e == TransportError::ProtocolError)
                },
            }),
    {
        match outcome {
            ExchangeOutcome::Failed(f) => {
                let e = self.backend.classify_failure(f);
                if e.is_retryable() {
                    self.backend.note_retryable_failure();
                }
                Err(e)
            },
            ExchangeOutcome::Reply(b) => {
                match self.backend.decode_transactions_response(&b) {
                    Err(e) => Err(e),
                    Ok(records) => {
                        self.backend.note_success();
                        Ok(records)
                    },
                }
            },
        }
    }

    /// Read access to the tracked cursor, for callers reconciling history.
    pub fn tracked_cursor(&self, addr: Address) -> (r: Option<Cursor>)
        ensures
            r == self.guard.tracked_cursor(addr),
    {
        self.guard.get_tracked(addr)
    }
}

} // verus!
