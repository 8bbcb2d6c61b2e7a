//! The error kinds the library surfaces to its callers.

use vstd::prelude::*;

verus! {

/// What can go wrong in the activity lifecycle service or its storage.
///
/// "Nothing to do" outcomes — stopping when idle, deleting an unknown
/// identifier — are deliberately *not* errors: they come back as `None`
/// results so that idempotent no-ops stay cheap.
#[derive(Clone, Copy, Debug, PartialEq, Eq, Structural)]
pub enum RtwError {
    /// An interval whose end precedes its start was asked for; it is rejected,
    /// never silently swapped or clamped.
    InvalidInterval,
    /// A storage capability could not complete a read or write. The service
    /// propagates this unchanged and performs no retry.
    StorageFailure,
}

} // verus!
