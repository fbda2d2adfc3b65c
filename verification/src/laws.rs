//! What the pool guarantees, proved from its invariant.

pub mod concurrency;
pub mod delivery;
pub mod teardown;
