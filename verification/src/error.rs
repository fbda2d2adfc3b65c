//! Failures that the pool reports to its callers.

use vstd::prelude::*;

verus! {

/// Why the pool refused a request.
#[derive(Clone, Copy, Debug, PartialEq, Eq, Structural)]
pub enum PoolError {
    /// A pool was asked for with no workers at all.
    InvalidSize,
    /// A job was submitted after the pool stopped taking work.
    ShuttingDown,
}

impl PoolError {
    /// The text that describes each failure.
    pub open spec fn spec_message(self) -> Seq<char> {
        match self {
            PoolError::InvalidSize => "pool size must be greater than zero"@,
            PoolError::ShuttingDown => "pool is shutting down"@,
        }
    }

    /// A human-readable description of the failure.
    pub fn message(&self) -> (text: String)
        ensures
            text@ == self.spec_message(),
    {
        match self {
            PoolError::InvalidSize => "pool size must be greater than zero".to_string(),
            PoolError::ShuttingDown => "pool is shutting down".to_string(),
        }
    }
}

} // verus!
