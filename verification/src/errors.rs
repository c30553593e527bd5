//! Shared error taxonomy. Every backend maps its protocol-specific failures
//! into these variants, so callers can tell "node unreachable" from "node
//! disagrees" without knowing which wire protocol was in use.

use vstd::prelude::*;

verus! {

/// The fatal error taxonomy. `RollbackAnomaly` is deliberately absent: it is
/// a non-fatal side signal carried next to a valid result, never an error.
#[derive(Clone, Copy, PartialEq, Eq, Structural, Debug)]
pub enum TransportError {
    /// The endpoint could not be reached or the connection broke.
    NetworkError,
    /// The per-request deadline passed without an answer.
    TimeoutError,
    /// The endpoint answered, but the response violates the protocol.
    ProtocolError,
    /// The endpoint refused the submitted message before relaying it.
    RejectedError,
    /// The response payload is not a valid canonical record.
    DecodeError,
}

impl TransportError {
    /// Only unreachable endpoints and missed deadlines are retried: those say
    /// nothing about the data. The rest are authoritative and surface at once.
    pub open spec fn spec_is_retryable(self) -> bool {
        self == TransportError::NetworkError || self == TransportError::TimeoutError
    }

    pub fn is_retryable(&self) -> (r: bool)
        ensures
            r == self.spec_is_retryable(),
    {
        match self {
            TransportError::NetworkError => true,
            TransportError::TimeoutError => true,
            _ => false,
        }
    }
}

} // verus!
