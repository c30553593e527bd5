//! Synthesized subscription for poll-only backends: periodic state queries
//! with exponential backoff, emitting a notification only when the observed
//! genLt changed since the previous poll.

use vstd::prelude::*;

verus! {

/// State of one synthesized subscription.
#[derive(Clone, Copy, PartialEq, Eq, Structural, Debug)]
pub struct PollSubscription {
    /// genLt seen by the previous poll, if any.
    pub last_gen_lt: Option<u64>,
    /// Delay before the next poll.
    pub delay_ms: u64,
    /// Delay used right after a change was seen.
    pub min_delay_ms: u64,
    /// Backoff ceiling while nothing changes.
    pub max_delay_ms: u64,
}

impl PollSubscription {
    pub open spec fn wf(self) -> bool {
        &&& self.min_delay_ms >= 1
        &&& self.min_delay_ms <= self.delay_ms <= self.max_delay_ms
    }

    /// The delay after an unchanged poll: doubled, capped at the ceiling.
    pub open spec fn backed_off(self) -> u64 {
        if self.delay_ms <= self.max_delay_ms / 2 {
            (2 * self.delay_ms) as u64
        } else {
            self.max_delay_ms
        }
    }

    pub fn new(min_delay_ms: u64, max_delay_ms: u64) -> (s: PollSubscription)
        requires
            1 <= min_delay_ms <= max_delay_ms,
        ensures
            s.wf(),
            s.last_gen_lt == Option::<u64>::None,
            s.delay_ms == min_delay_ms,
            s.min_delay_ms == min_delay_ms,
            s.max_delay_ms == max_delay_ms,
    {
        PollSubscription { last_gen_lt: None, delay_ms: min_delay_ms, min_delay_ms, max_delay_ms }
    }

    /// Feeds one poll result in. A notification is emitted exactly when the
    /// observed genLt differs from the previous poll's (the first poll
    /// always emits); the next delay resets on change and backs off
    /// otherwise.
    pub fn on_poll(&mut self, observed_gen_lt: u64) -> (emit: bool)
        requires
            old(self).wf(),
        ensures
            final(self).wf(),
            emit == (old(self).last_gen_lt != Option::Some(observed_gen_lt)),
            final(self).last_gen_lt == Option::Some(observed_gen_lt),
            final(self).min_delay_ms == old(self).min_delay_ms,
            final(self).max_delay_ms == old(self).max_delay_ms,
            emit ==> final(self).delay_ms == old(self).min_delay_ms,
            !emit ==> final(self).delay_ms == old(self).backed_off(),
    {
        let changed = match self.last_gen_lt {
            Some(prev) => prev != observed_gen_lt,
            None => true,
        };
        self.last_gen_lt = Some(observed_gen_lt);
        if changed {
            self.delay_ms = self.min_delay_ms;
        } else {
            self.delay_ms = if self.delay_ms <= self.max_delay_ms / 2 {
                2 * self.delay_ms
            } else {
                self.max_delay_ms
            };
        }
        changed
    }

    /// The delay the loop must wait before its next poll.
    pub fn next_delay(&self) -> (r: u64)
        ensures
            r == self.delay_ms,
    {
        self.delay_ms
    }
}

} // verus!
