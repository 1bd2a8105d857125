//! The ways in which a synchronization step can fall short. None of them
//! is fatal: each degrades to a view that may be stale for a moment.

use vstd::prelude::*;

verus! {

/// What went wrong while keeping the list in step with the host.
#[derive(Clone, Copy, Debug, PartialEq, Eq, Structural)]
pub enum SyncError {
    /// One record of a listing could not be read; it was skipped.
    MalformedRecord,
    /// A read query against the host failed; the previous state is kept.
    QueryFailure,
    /// The rendered rows and the edit to apply do not fit together; the
    /// next reconciliation replaces the whole list.
    InconsistentState,
    /// A notification arrived but the listing shows no matching change.
    EmptyResultAfterNotification,
}

} // verus!
