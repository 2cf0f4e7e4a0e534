//! A circuit breaker around a flaky collaborator.
//!
//! Failures are counted; at the threshold the circuit opens and requests
//! are refused until the reset timeout has passed, when one trial request
//! is let through. The caller reads the clock and passes the time in.

use vstd::prelude::*;

verus! {

/// Whether the protected collaborator is being called, blocked, or on
/// trial.
#[derive(Debug, Clone, Copy, PartialEq, Eq, Structural)]
pub enum CircuitState {
    /// Calls pass through.
    Closed,
    /// Calls are refused until the reset timeout passes.
    Open,
    /// One trial call decides whether to close again.
    HalfOpen,
}

/// Failure bookkeeping for one collaborator.
#[derive(Debug, Clone, Copy)]
pub struct CircuitBreaker {
    pub state: CircuitState,
    /// Failures that open the circuit.
    pub failure_threshold: u32,
    /// Seconds the circuit stays open.
    pub reset_timeout_secs: u64,
    /// Failures seen since the last success.
    pub failure_count: u32,
    /// When the circuit last opened, seconds since the epoch.
    pub opened_at_secs: u64,
}

impl CircuitBreaker {
    /// A closed breaker with the given threshold and reset timeout.
    pub fn new(failure_threshold: u32, reset_timeout_secs: u64) -> (r: CircuitBreaker)
        ensures
            r.state == CircuitState::Closed,
            r.failure_threshold == failure_threshold,
            r.reset_timeout_secs == reset_timeout_secs,
            r.failure_count == 0,
            r.opened_at_secs == 0,
    {
        CircuitBreaker {
            state: CircuitState::Closed,
            failure_threshold,
            reset_timeout_secs,
            failure_count: 0,
            opened_at_secs: 0,
        }
    }

    /// Whether a call may go through at time `now`: always while closed
    /// or on trial, and once the reset timeout has passed while open.
    pub fn allow_request(&self, now: u64) -> (r: bool)
        ensures
            r == match self.state {
                CircuitState::Closed => true,
                CircuitState::HalfOpen => true,
                CircuitState::Open => now >= self.opened_at_secs + self.reset_timeout_secs,
            },
    {
        match self.state {
            CircuitState::Closed => true,
            CircuitState::HalfOpen => true,
            CircuitState::Open => {
                now >= self.opened_at_secs && now - self.opened_at_secs >= self.reset_timeout_secs
            },
        }
    }

    /// Counts one failure at time `now`; at the threshold the circuit
    /// opens and remembers when.
    pub fn record_failure(&mut self, now: u64)
        ensures
            final(self).failure_threshold == old(self).failure_threshold,
            final(self).reset_timeout_secs == old(self).reset_timeout_secs,
            final(self).failure_count == if old(self).failure_count < u32::MAX {
                (old(self).failure_count + 1) as u32
            } else {
                u32::MAX
            },
            final(self).state == if final(self).failure_count >= old(self).failure_threshold {
                CircuitState::Open
            } else {
                old(self).state
            },
            final(self).opened_at_secs == if final(self).failure_count >= old(
                self,
            ).failure_threshold {
                now
            } else {
                old(self).opened_at_secs
            },
    {
        if self.failure_count < u32::MAX {
            self.failure_count = self.failure_count + 1;
        }
        if self.failure_count >= self.failure_threshold {
            self.state = CircuitState::Open;
            self.opened_at_secs = now;
        }
    }

    /// A success closes the circuit and clears the count.
    pub fn record_success(&mut self)
        ensures
            final(self).state == CircuitState::Closed,
            final(self).failure_count == 0,
            final(self).failure_threshold == old(self).failure_threshold,
            final(self).reset_timeout_secs == old(self).reset_timeout_secs,
            final(self).opened_at_secs == old(self).opened_at_secs,
    {
        self.state = CircuitState::Closed;
        self.failure_count = 0;
    }

    /// Puts an open circuit on trial once its timeout has passed.
    pub fn begin_trial(&mut self, now: u64)
        ensures
            final(self).failure_threshold == old(self).failure_threshold,
            final(self).reset_timeout_secs == old(self).reset_timeout_secs,
            final(self).failure_count == old(self).failure_count,
            final(self).opened_at_secs == old(self).opened_at_secs,
            final(self).state == if old(self).state == CircuitState::Open && now >= old(
                self,
            ).opened_at_secs + old(self).reset_timeout_secs {
                CircuitState::HalfOpen
            } else {
                old(self).state
            },
    {
        match self.state {
            CircuitState::Open => {
                if now >= self.opened_at_secs && now - self.opened_at_secs
                    >= self.reset_timeout_secs {
                    self.state = CircuitState::HalfOpen;
                }
            },
            _ => {},
        }
    }
}

} // verus!
