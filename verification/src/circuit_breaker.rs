//! A circuit breaker: after enough consecutive failures calls are
//! refused until a reset timeout has passed, then one trial is let
//! through.
use vstd::prelude::*;
use core::time::Duration;
use std::time::Instant;
use crate::clock::{duration_as_nanos, duration_nanos, monotonic_now, nanos_since};

verus! {

/// State of a circuit breaker.
#[derive(Clone, Copy, Debug, PartialEq, Eq, Structural)]
pub enum CircuitState {
    Closed,
    Open,
    HalfOpen,
}

/// The reset timeout has passed: `elapsed` nanoseconds since the last
/// failure are at least the timeout.
pub open spec fn timeout_reached(elapsed: u128, timeout_nanos: u128) -> bool {
    elapsed >= timeout_nanos
}

/// Refuses calls after `failure_threshold` failures until the reset
/// timeout has passed since the circuit opened. The timeout is held in
/// nanoseconds.
pub struct CircuitBreaker {
    state: CircuitState,
    failure_threshold: u32,
    failure_count: u32,
    last_failure_time: Option<Instant>,
    reset_timeout_nanos: u128,
}

impl CircuitBreaker {
    /// An open circuit knows when it opened.
    #[verifier::type_invariant]
    spec fn opened_at_failure(self) -> bool {
        self.state == CircuitState::Open ==> self.last_failure_time is Some
    }

    pub closed spec fn state(&self) -> CircuitState {
        self.state
    }

    pub closed spec fn failure_threshold(&self) -> u32 {
        self.failure_threshold
    }

    pub closed spec fn failures(&self) -> u32 {
        self.failure_count
    }

    pub closed spec fn last_failure(&self) -> Option<Instant> {
        self.last_failure_time
    }

    /// The reset timeout, in nanoseconds.
    pub closed spec fn reset_timeout_nanos(&self) -> u128 {
        self.reset_timeout_nanos
    }

    /// A closed circuit with no failures, and a reset timeout of
    /// `reset_timeout`, which is held as its number of nanoseconds.
    pub fn new(failure_threshold: u32, reset_timeout: Duration) -> (r: CircuitBreaker)
        ensures
            r.state() == CircuitState::Closed,
            r.failure_threshold() == failure_threshold,
            r.failures() == 0,
            r.last_failure() is None,
            r.reset_timeout_nanos() == duration_as_nanos(reset_timeout),
    {
        CircuitBreaker::with_timeout_nanos(failure_threshold, duration_nanos(&reset_timeout))
    }

    /// A closed circuit with no failures and a reset timeout of
    /// `reset_timeout_nanos` nanoseconds.
    pub fn with_timeout_nanos(failure_threshold: u32, reset_timeout_nanos: u128) -> (r: CircuitBreaker)
        ensures
            r.state() == CircuitState::Closed,
            r.failure_threshold() == failure_threshold,
            r.failures() == 0,
            r.last_failure() is None,
            r.reset_timeout_nanos() == reset_timeout_nanos,
    {
        CircuitBreaker {
            state: CircuitState::Closed,
            failure_threshold,
            failure_count: 0,
            last_failure_time: None,
            reset_timeout_nanos,
        }
    }

    /// The current state.
    pub fn current_state(&self) -> (r: CircuitState)
        ensures
            r == self.state(),
    {
        self.state
    }

    /// The number of failures counted since the last success.
    pub fn failure_count(&self) -> (r: u32)
        ensures
            r == self.failures(),
    {
        self.failure_count
    }

    /// Whether a call may go through, given the nanoseconds elapsed since
    /// the last failure: a closed or half-open circuit lets calls through;
    /// an open one lets one through, turning half-open, once the elapsed
    /// time has reached the reset timeout, and refuses before.
    pub fn allow_after(&mut self, elapsed_nanos: u128) -> (r: bool)
        ensures
            old(self).state() == CircuitState::Closed ==> r && final(self).state()
                == CircuitState::Closed,
            old(self).state() == CircuitState::HalfOpen ==> r && final(self).state()
                == CircuitState::HalfOpen,
            old(self).state() == CircuitState::Open ==> (r <==> timeout_reached(
                elapsed_nanos,
                old(self).reset_timeout_nanos(),
            )) && final(self).state() == (if r {
                CircuitState::HalfOpen
            } else {
                CircuitState::Open
            }),
            final(self).failures() == old(self).failures(),
            final(self).failure_threshold() == old(self).failure_threshold(),
            final(self).last_failure() == old(self).last_failure(),
            final(self).reset_timeout_nanos() == old(self).reset_timeout_nanos(),
    {
        match self.state {
            CircuitState::Closed => true,
            CircuitState::HalfOpen => true,
            CircuitState::Open => {
                if elapsed_nanos >= self.reset_timeout_nanos {
                    self.state = CircuitState::HalfOpen;
                    true
                } else {
                    false
                }
            },
        }
    }

    /// Whether a call may go through now (see `allow_after`): for an open
    /// circuit the monotonic clock gives the time elapsed since the last
    /// failure (`Instant::elapsed`), whose nanoseconds are compared with
    /// the reset timeout. Which duration the clock gives is its own; the
    /// contract says the comparison is made with the nanoseconds of a
    /// duration it gave.
    pub fn is_allowed(&mut self) -> (r: bool)
        ensures
            old(self).state() == CircuitState::Closed ==> r && final(self).state()
                == CircuitState::Closed,
            old(self).state() == CircuitState::HalfOpen ==> r && final(self).state()
                == CircuitState::HalfOpen,
            old(self).state() == CircuitState::Open ==> exists|elapsed: Duration|
                (r <==> #[trigger] timeout_reached(
                    duration_as_nanos(elapsed),
                    old(self).reset_timeout_nanos(),
                )) && final(self).state() == (
                if r {
                    CircuitState::HalfOpen
                } else {
                    CircuitState::Open
                }),
            final(self).failures() == old(self).failures(),
            final(self).failure_threshold() == old(self).failure_threshold(),
            final(self).last_failure() == old(self).last_failure(),
            final(self).reset_timeout_nanos() == old(self).reset_timeout_nanos(),
    {
        proof {
            use_type_invariant(&*self);
        }
        let elapsed = match &self.last_failure_time {
            Some(t) => nanos_since(t),
            None => 0,
        };
        self.allow_after(elapsed)
    }

    /// A success closes the circuit and clears the failure count.
    pub fn record_success(&mut self)
        ensures
            final(self).state() == CircuitState::Closed,
            final(self).failures() == 0,
            final(self).failure_threshold() == old(self).failure_threshold(),
            final(self).last_failure() == old(self).last_failure(),
            final(self).reset_timeout_nanos() == old(self).reset_timeout_nanos(),
    {
        self.state = CircuitState::Closed;
        self.failure_count = 0;
    }

    /// A failure is counted; once the count reaches the threshold the
    /// circuit opens and the time of this failure is kept.
    pub fn record_failure(&mut self)
        requires
            old(self).failures() < u32::MAX,
        ensures
            final(self).failures() == old(self).failures() + 1,
            final(self).failures() >= old(self).failure_threshold() ==> final(self).state()
                == CircuitState::Open && final(self).last_failure() is Some,
            final(self).failures() < old(self).failure_threshold() ==> final(self).state()
                == old(self).state() && final(self).last_failure() == old(self).last_failure(),
            final(self).failure_threshold() == old(self).failure_threshold(),
            final(self).reset_timeout_nanos() == old(self).reset_timeout_nanos(),
    {
        proof {
            use_type_invariant(&*self);
        }
        self.failure_count = self.failure_count + 1;
        if self.failure_count >= self.failure_threshold {
            let now = monotonic_now();
            self.last_failure_time = Some(now);
            self.state = CircuitState::Open;
        }
    }
}

} // verus!
