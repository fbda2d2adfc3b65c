//! A fixed-size pool of workers fed from one first-in-first-out dispatch queue,
//! with a two-phase graceful shutdown.
//!
//! The pool is a state machine. [`pool::ThreadPool`] is its executable form:
//! it decides which job a worker gets, when a worker has to leave and how
//! far a teardown has come, and leaves the threads and the waiting to its
//! surroundings. [`model::PoolView`] is its mathematical form, over which the
//! contracts of the executable functions and the guarantees in [`laws`] are
//! stated.

pub mod error;
pub mod laws;
pub mod model;
pub mod pool;
pub mod preservation;
pub mod queue;
pub mod worker;

pub use crate::error::PoolError;
pub use crate::pool::{Teardown, ThreadPool};
pub use crate::queue::{DispatchQueue, Lifecycle, Received};
pub use crate::worker::{Worker, WorkerState};
