//! Endpoint rotation and the per-backend connection state machine.
//!
//! Every backend owns a selector over its configured endpoint (or peer)
//! list: after a fixed number of consecutive network failures against the
//! active endpoint, the next request targets the next one in the list.

use vstd::prelude::*;

verus! {

/// Rotation state over a fixed endpoint list. Immutable configuration
/// (`endpoint_count`, `fail_threshold`) is set at construction.
#[derive(Clone, Copy, PartialEq, Eq, Structural, Debug)]
pub struct EndpointSelector {
    /// How many endpoints the backend was configured with.
    pub endpoint_count: usize,
    /// Index of the endpoint the next request targets.
    pub current: usize,
    /// Consecutive network failures seen against the current endpoint.
    pub consecutive_failures: usize,
    /// Failures after which the selector rotates.
    pub fail_threshold: usize,
}

impl EndpointSelector {
    pub open spec fn wf(self) -> bool {
        &&& self.endpoint_count >= 1
        &&& self.current < self.endpoint_count
        &&& self.fail_threshold >= 1
        &&& self.consecutive_failures < self.fail_threshold
    }

    /// The selector one network failure turns `s` into.
    pub open spec fn fail_step(s: EndpointSelector) -> EndpointSelector {
        if s.consecutive_failures + 1 == s.fail_threshold {
            EndpointSelector {
                current: ((s.current + 1) % s.endpoint_count as int) as usize,
                consecutive_failures: 0,
                ..s
            }
        } else {
            EndpointSelector { consecutive_failures: (s.consecutive_failures + 1) as usize, ..s }
        }
    }

    /// `k` consecutive network failures, oldest first.
    pub open spec fn fail_many(s: EndpointSelector, k: nat) -> EndpointSelector
        decreases k,
    {
        if k == 0 {
            s
        } else {
            EndpointSelector::fail_step(EndpointSelector::fail_many(s, (k - 1) as nat))
        }
    }

    pub fn new(endpoint_count: usize, fail_threshold: usize) -> (s: EndpointSelector)
        requires
            endpoint_count >= 1,
            fail_threshold >= 1,
        ensures
            s.wf(),
            s.endpoint_count == endpoint_count,
            s.fail_threshold == fail_threshold,
            s.current == 0,
            s.consecutive_failures == 0,
    {
        EndpointSelector { endpoint_count, current: 0, consecutive_failures: 0, fail_threshold }
    }

    /// Index of the endpoint the next request targets.
    pub fn current_endpoint(&self) -> (r: usize)
        ensures
            r == self.current,
    {
        self.current
    }

    /// Records one network (or timeout) failure against the current
    /// endpoint; at the threshold the selector rotates to the next one.
    pub fn record_failure(&mut self)
        requires
            old(self).wf(),
        ensures
            final(self).wf(),
            *final(self) == EndpointSelector::fail_step(*old(self)),
    {
        if self.consecutive_failures + 1 == self.fail_threshold {
            self.current = (self.current + 1) % self.endpoint_count;
            self.consecutive_failures = 0;
        } else {
            self.consecutive_failures = self.consecutive_failures + 1;
        }
    }

    /// A successful exchange clears the failure streak without rotating.
    pub fn record_success(&mut self)
        requires
            old(self).wf(),
        ensures
            final(self).wf(),
            final(self).consecutive_failures == 0,
            final(self).current == old(self).current,
            final(self).endpoint_count == old(self).endpoint_count,
            final(self).fail_threshold == old(self).fail_threshold,
    {
        self.consecutive_failures = 0;
    }
}

/// Failover: starting with a clear failure streak, the threshold's worth of
/// consecutive network failures moves the target to the next configured
/// endpoint (cyclically), and no earlier failure does.
pub proof fn lemma_failover(s: EndpointSelector, k: nat)
    requires
        s.wf(),
        s.consecutive_failures == 0,
        k <= s.fail_threshold,
    ensures
        k < s.fail_threshold ==> EndpointSelector::fail_many(s, k) == (EndpointSelector {
            consecutive_failures: k as usize,
            ..s
        }),
        k == s.fail_threshold ==> EndpointSelector::fail_many(s, k) == (EndpointSelector {
            current: ((s.current + 1) % s.endpoint_count as int) as usize,
            consecutive_failures: 0,
            ..s
        }),
    decreases k,
{
    if k > 0 {
        lemma_failover(s, (k - 1) as nat);
    }
}

/// Lifecycle of one backend connection.
#[derive(Clone, Copy, PartialEq, Eq, Structural, Debug)]
pub enum ConnState {
    Idle,
    Connecting,
    Ready,
    Degraded,
    Closed,
}

/// What drives the lifecycle.
#[derive(Clone, Copy, PartialEq, Eq, Structural, Debug)]
pub enum ConnEvent {
    /// The backend starts establishing its channel.
    StartConnect,
    /// The channel came up.
    Established,
    /// Repeated timeout or network failure on the active channel.
    RepeatedFailure,
    /// Backend-specific recovery (peer or endpoint rotation) succeeded.
    Recovered,
    /// Explicit shutdown by the owner.
    Shutdown,
}

/// The allowed transitions: Idle → Connecting → Ready ⇄ Degraded → Closed,
/// with Closed terminal and every unlisted event leaving the state alone.
pub open spec fn conn_step(s: ConnState, e: ConnEvent) -> ConnState {
    match (s, e) {
        (ConnState::Closed, _) => ConnState::Closed,
        (_, ConnEvent::Shutdown) => ConnState::Closed,
        (ConnState::Idle, ConnEvent::StartConnect) => ConnState::Connecting,
        (ConnState::Connecting, ConnEvent::Established) => ConnState::Ready,
        (ConnState::Ready, ConnEvent::RepeatedFailure) => ConnState::Degraded,
        (ConnState::Degraded, ConnEvent::Recovered) => ConnState::Ready,
        _ => s,
    }
}

/// Executable transition, pinned to the spec step.
pub fn conn_transition(s: ConnState, e: ConnEvent) -> (r: ConnState)
    ensures
        r == conn_step(s, e),
{
    match (s, e) {
        (ConnState::Closed, _) => ConnState::Closed,
        (_, ConnEvent::Shutdown) => ConnState::Closed,
        (ConnState::Idle, ConnEvent::StartConnect) => ConnState::Connecting,
        (ConnState::Connecting, ConnEvent::Established) => ConnState::Ready,
        (ConnState::Ready, ConnEvent::RepeatedFailure) => ConnState::Degraded,
        (ConnState::Degraded, ConnEvent::Recovered) => ConnState::Ready,
        (_, _) => s,
    }
}

/// Closed is terminal: no event leaves it.
pub proof fn lemma_closed_terminal(e: ConnEvent)
    ensures
        conn_step(ConnState::Closed, e) == ConnState::Closed,
{
}

} // verus!
