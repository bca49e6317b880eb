use vstd::prelude::*;

verus! {

/// The error taxonomy of the lifecycle orchestrator. Every failing operation
/// reports one of these kinds together with the record id it concerns, so a
/// caller can tell an unknown record from a lifecycle precondition violation,
/// a container backend failure, or a record that no longer matches what the
/// backend was told to do.
#[derive(Clone, Copy, PartialEq, Eq, Structural, Debug)]
pub enum LifecycleError {
    /// No Application or Service record carries the given id.
    NotFound { id: i32 },
    /// The operation's lifecycle precondition does not hold: starting a
    /// service that is already running, stopping one that is not, or
    /// deleting a record that something still depends on.
    Conflict { id: i32 },
    /// A container backend call failed (build, create, start or remove).
    Backend { id: i32 },
    /// The backend carried out its part, but the persisted record could not
    /// be brought in line with it: the stored running-state and the
    /// backend's actual state now disagree and the discrepancy is surfaced
    /// instead of being silently repaired.
    InconsistentState { id: i32 },
}

} // verus!
