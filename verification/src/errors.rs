//! The error kinds of the concurrency core. Every fallible operation returns
//! one of these to its direct caller; there is no ambient error channel.

use vstd::prelude::*;

verus! {

/// What can go wrong in the concurrency core.
#[derive(Debug, PartialEq, Eq)]
pub enum CoreError {
    /// A spawned unit of work aborted instead of returning normally; carries a
    /// diagnostic payload. Surfaced only at `join`.
    ExecutionFailure(String),
    /// `send` with no live receiver, or `recv` on an empty queue with no live
    /// sender endpoints. A definitive signal, not a transient condition.
    ChannelClosed,
    /// `acquire` attempted after a prior holder failed mid-critical-section.
    LockPoisoned,
}

impl CoreError {
    /// A human-readable description of the error kind.
    pub fn message(&self) -> (r: String)
        ensures
            self matches CoreError::ExecutionFailure(m) ==> r@ == "task failed: "@ + m@,
            self is ChannelClosed ==> r@ == "channel closed"@,
            self is LockPoisoned ==> r@ == "lock poisoned"@,
    {
        match self {
            CoreError::ExecutionFailure(m) => {
                let mut r = "task failed: ".to_owned();
                r.append(m.as_str());
                r
            },
            CoreError::ChannelClosed => "channel closed".to_owned(),
            CoreError::LockPoisoned => "lock poisoned".to_owned(),
        }
    }
}

} // verus!
