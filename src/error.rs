//! Errors that reads and writes hand back to module code.

use vstd::prelude::*;

verus! {

/// Why a non-blocking read gave no value.
#[derive(Debug, Clone, Copy, PartialEq, Eq, Structural)]
pub enum NBReadError {
    /// The subscriber has never observed a value and none is pending.
    Empty,
    /// Every publisher of the signal is gone and nothing is left to drain.
    Closed,
}

/// Why a blocking read gave no value.
#[derive(Debug, Clone, Copy, PartialEq, Eq, Structural)]
pub enum BReadError {
    /// Every publisher of the signal is gone and nothing is left to drain.
    Closed,
}

/// Why a write was refused.
#[derive(Debug, Clone, Copy, PartialEq, Eq, Structural)]
pub enum WriteError {
    /// The signal has no live subscriber, so the value could never be read.
    NoSubscribers,
}

} // verus!
