//! Error values that travel through channels, and misuse of the boundary.
use vstd::prelude::*;

verus! {

/// An error attached to a stream or delivered in place of a future's value.
///
/// It is distinct from cancellation, which is never an error, and from the
/// ordinary values a channel carries.
#[derive(PartialEq, Eq, Structural, Clone, Copy, Debug)]
pub struct ErrorContext {
    /// Opaque code chosen by whoever raised the error.
    pub code: u64,
    /// Whether the host, rather than the component, raised it.
    pub from_host: bool,
}

/// A breach of the ownership or call protocol.
///
/// Such a breach is fatal to the call that commits it and is never retried.
#[derive(PartialEq, Eq, Structural, Clone, Copy, Debug)]
pub enum Violation {
    /// No live endpoint of the handle's kind stands at the handle's index in
    /// this table. A handle is known by its index alone: one taken from
    /// another table is refused only where that index holds no such endpoint.
    StaleHandle,
    /// A call was started while another call was still running.
    CallInProgress,
    /// A call was started before the previous call's cleanup step.
    CleanupPending,
    /// A call returned, or was cleaned up, when none was in that phase.
    NoSuchCall,
}

} // verus!
