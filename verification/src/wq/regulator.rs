//! Admission and settlement vocabulary of the worker pool's regulator
//! chain.
use vstd::prelude::*;

verus! {

/// Outcome of asking a regulator for admission.
#[non_exhaustive]
#[derive(Debug, Clone, Copy, PartialEq, Eq, Structural)]
pub enum Admission {
    /// A permit was granted; the caller must settle it once the job's
    /// outcome is known.
    Admitted,
    /// The caller should stop waiting and not proceed with the job.
    Cancelled,
}

/// What to report back to a regulator once an admitted job has run.
#[non_exhaustive]
#[derive(Debug, Clone, Copy, PartialEq, Eq, Structural)]
pub enum SettleOutcome {
    /// The admitted call consumed the guarded resource; the permit stays
    /// charged.
    Charged,
    /// The admitted call did not consume the guarded resource; the
    /// regulator releases the permit it granted.
    Free,
}

} // verus!
