//! The decisions of one adapter's fetch: a failed network call is retried
//! while the backoff schedule offers a delay, and an answer that does not
//! parse ends the adapter's contribution at once.
use vstd::prelude::*;

use crate::post::FetchError;

verus! {

/// What one attempt at an upstream call came to.
#[derive(Clone, Copy, Debug, PartialEq, Eq, Structural)]
pub enum FetchEvent {
    /// The call did not reach the upstream or broke off.
    NetworkError,
    /// An answer arrived; `parsed` tells whether it had the expected shape.
    Answered { parsed: bool },
}

/// What to do after an attempt.
#[derive(Clone, Copy, Debug, PartialEq, Eq, Structural)]
pub enum FetchStep {
    /// Call again after this many milliseconds.
    Retry { delay_ms: u64 },
    /// The parsed answer is the adapter's result.
    Done,
    /// The adapter contributes nothing this cycle.
    Fail(FetchError),
}

/// The retry state of one adapter's fetch.
pub struct RetryState {
    /// Attempts made so far.
    pub attempts: u64,
}

impl RetryState {
    pub fn new() -> (r: RetryState)
        ensures
            r.attempts == 0,
    {
        RetryState { attempts: 0 }
    }

    /// The step after `event`, where `next_delay_ms` is the next delay of
    /// the backoff schedule, or `None` once the schedule is spent. Only a
    /// network error is retried.
    pub fn next_step(&mut self, event: FetchEvent, next_delay_ms: Option<u64>) -> (s: FetchStep)
        ensures
            final(self).attempts == if old(self).attempts < u64::MAX {
                old(self).attempts + 1
            } else {
                old(self).attempts as int
            },
            s == match event {
                FetchEvent::NetworkError => match next_delay_ms {
                    Some(d) => FetchStep::Retry { delay_ms: d },
                    None => FetchStep::Fail(FetchError::Network),
                },
                FetchEvent::Answered { parsed } => if parsed {
                    FetchStep::Done
                } else {
                    FetchStep::Fail(FetchError::Parse)
                },
            },
    {
        if self.attempts < u64::MAX {
            self.attempts = self.attempts + 1;
        }
        match event {
            FetchEvent::NetworkError => match next_delay_ms {
                Some(d) => FetchStep::Retry { delay_ms: d },
                None => FetchStep::Fail(FetchError::Network),
            },
            FetchEvent::Answered { parsed } => if parsed {
                FetchStep::Done
            } else {
                FetchStep::Fail(FetchError::Parse)
            },
        }
    }
}

} // verus!
