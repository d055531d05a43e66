//! The one error this crate reports.
use vstd::prelude::*;

verus! {

/// Why an operation on a [`crate::StaticVec`] was refused.
#[derive(Debug, Clone, Copy, PartialEq, Eq, Structural)]
pub enum StaticVecError {
    /// The operation would have left more elements than the capacity allows.
    CapacityExceeded,
}

} // verus!
