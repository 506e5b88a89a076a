use vstd::prelude::*;

verus! {

/// The error kinds that a store or handle operation can report.
///
/// Every failure is returned synchronously to the caller; nothing is retried
/// internally and nothing is downgraded to a silent no-op.
#[derive(Clone, Copy, Debug, PartialEq, Eq, Structural)]
pub enum Error {
    /// A row, column or series index exceeded its valid bound. Carries the
    /// offending index and the bound that was in force when it was rejected.
    IndexOutOfRange { index: usize, bound: usize },
    /// The named figure referenced by a handle no longer exists in the store.
    NotFound,
    /// The store's lock is permanently unusable (a prior holder terminated
    /// while holding it), so no operation through this handle can ever
    /// succeed again. Produced by the locking layer, never by the store
    /// itself.
    HandleInvalid,
}

} // verus!
