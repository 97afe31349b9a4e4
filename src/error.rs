//! The errors that the pool reports to its callers.
use vstd::prelude::*;

verus! {

/// Building a pool failed.
#[derive(Clone, Copy, Debug, PartialEq, Eq, Structural)]
pub enum PoolCreationError {
    /// A pool needs at least one worker.
    ZeroSizedPool,
}

/// Submitting a job failed.
#[derive(Clone, Copy, Debug, PartialEq, Eq, Structural)]
pub enum ExecuteError {
    /// Shutdown has begun: the queue takes no more jobs.
    PoolClosed,
}

} // verus!
