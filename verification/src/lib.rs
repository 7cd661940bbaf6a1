//! A cooperative concurrency runtime, modelled and verified: stackful
//! coroutines with an explicit per-thread environment, a guarded-stack pool,
//! a lifecycle state machine with panic containment and forced unwind, and a
//! work-stealing, event-aware scheduler.

use vstd::prelude::*;

pub mod body;
pub mod builder;
pub mod context;
pub mod coroutine;
pub mod environment;
pub mod mpsc;
pub mod net;
pub mod options;
pub mod scheduler;
pub mod spinlock;
pub mod stack;
pub mod stack_pool;

verus! {

/// Why a lifecycle operation could not make progress.
#[derive(Debug, Clone, Copy, PartialEq, Eq, Structural)]
pub enum Error {
    /// The coroutine has already finished.
    Finished,
    /// The coroutine is waiting for a resumed child to yield back.
    Waiting,
    /// The coroutine panicked earlier; it may never be resumed again.
    Panicked,
    /// The coroutine panicked during this very call; carries the payload.
    Panicking(u64),
}

impl Error {
    /// A short human-readable description of the error.
    pub fn description(&self) -> (r: &'static str)
        ensures
            r@ == match *self {
                Error::Finished => "Finished"@,
                Error::Waiting => "Waiting"@,
                Error::Panicked => "Panicked"@,
                Error::Panicking(_) => "Panicking(..)"@,
            },
    {
        match self {
            Error::Finished => "Finished",
            Error::Waiting => "Waiting",
            Error::Panicked => "Panicked",
            Error::Panicking(_) => "Panicking(..)",
        }
    }
}

} // verus!
