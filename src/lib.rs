//! A fixed-size worker pool: the coordination state of a set of workers that
//! share one first-in, first-out job queue.
//!
//! `ThreadPool` holds the bookkeeping of the pool (the queue, what each worker
//! is doing, and the lifecycle phase) and decides every step. The threads that
//! run jobs ask it what to do next and report back when a job is done.
pub mod error;
pub mod worker;
pub mod pool;
pub mod laws;

pub use error::{ExecuteError, PoolCreationError};
pub use pool::{Phase, ThreadPool};
pub use worker::{Step, WorkerState};
