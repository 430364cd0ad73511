use vstd::prelude::*;

verus! {

/// Why a handler refused to act. Every variant is a state-gate failure:
/// the operation is inapplicable given the current record state, never a
/// transient fault to be retried.
#[derive(Clone, Copy, Debug, PartialEq, Eq, Structural)]
pub enum ErrorCode {
    /// The challenge is not active.
    ChallengeNotActive,
    /// The challenge is already completed.
    ChallengeCompleted,
    /// The challenge has reached its participant capacity.
    ChallengeFull,
    /// The challenge window has ended.
    ChallengeEnded,
    /// The day index is not strictly below the challenge duration.
    InvalidVerificationDay,
    /// The caller is not the challenge authority.
    Unauthorized,
    /// The challenge has already been tallied.
    ChallengeAlreadyCompleted,
    /// The challenge has not been tallied yet.
    ChallengeNotCompleted,
    /// The participant has already withdrawn.
    AlreadyWithdrawn,
    /// The challenge window has not ended yet.
    ChallengeNotEnded,
}

} // verus!
