//! The error kinds that a rejected call reports. A rejected call changes
//! no observable state; the kind says which validation failed.

use vstd::prelude::*;

verus! {

/// Why a synchronous call was rejected.
///
/// Asynchronous host failures (a deploy or a teardown that did not
/// succeed) are never reported through this type: they are observed as a
/// plain `success` flag in the corresponding callback.
#[derive(Clone, Copy, PartialEq, Eq, Structural, Debug)]
pub enum GameError {
    /// A pool entry attached less than the minimum wager.
    InsufficientDeposit,
    /// The caller is not an allowed participant of the unit it called,
    /// or not a live match unit known to the coordinator.
    Authorization,
    /// A choice code outside the three-value enumeration.
    InvalidChoice,
    /// The revealed (choice, secret) pair does not hash to the caller's
    /// stored commitment.
    CommitmentMismatch,
    /// A reveal arrived before any commitment was stored for the
    /// caller: a hard failure of its own, not folded into
    /// `CommitmentMismatch`.
    CommitmentMissing,
}

} // verus!
