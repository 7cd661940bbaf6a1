//! The decision at the heart of the non-blocking socket wrappers.
//!
//! A read or write on a non-blocking socket loops: attempt the operation;
//! on success hand the count back; on a would-block report, register the
//! socket with the event loop, park the coroutine until readiness fires,
//! and try again; on any other failure hand the error back. The attempt
//! itself, the registration, and the parking are I/O and live with the
//! event loop; the decision between them is here, verified: it is what
//! the loop does with every outcome.

use vstd::prelude::*;

verus! {

/// What one attempt of a non-blocking socket operation reported.
#[derive(Debug, Clone, Copy, PartialEq, Eq, Structural)]
pub enum IoAttempt {
    /// The operation transferred this many bytes.
    Done(usize),
    /// The operation would have to block.
    WouldBlock,
    /// The operation failed with this error code.
    Fault(i32),
}

/// What the retry loop does next.
#[derive(Debug, Clone, Copy, PartialEq, Eq, Structural)]
pub enum IoDecision {
    /// Return the transferred count to the caller.
    Finish(usize),
    /// Register for readiness, park the coroutine, and try again once
    /// woken.
    WaitRetry,
    /// Return the error to the caller.
    Fail(i32),
}

/// Decide what a non-blocking retry loop does with one attempt's
/// outcome: success and real errors end the loop; only a would-block
/// parks the coroutine for another try.
pub fn io_step(attempt: IoAttempt) -> (r: IoDecision)
    ensures
        r == match attempt {
            IoAttempt::Done(n) => IoDecision::Finish(n),
            IoAttempt::WouldBlock => IoDecision::WaitRetry,
            IoAttempt::Fault(e) => IoDecision::Fail(e),
        },
{
    match attempt {
        IoAttempt::Done(n) => IoDecision::Finish(n),
        IoAttempt::WouldBlock => IoDecision::WaitRetry,
        IoAttempt::Fault(e) => IoDecision::Fail(e),
    }
}

} // verus!
