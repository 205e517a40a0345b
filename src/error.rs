use vstd::prelude::*;

verus! {

/// The failures a timebox operation can report.
#[derive(Debug, Clone, Copy, PartialEq, Eq, Structural)]
pub enum TimeboxError {
    /// Malformed input: an empty intention or a non-positive duration.
    Validation,
    /// The referenced timebox or session is unknown, or the timebox is soft-deleted.
    NotFound,
    /// The request clashes with the session invariant (a second open session).
    Conflict,
    /// The stored data is not well formed, or an identifier space is exhausted.
    Storage,
}

} // verus!
