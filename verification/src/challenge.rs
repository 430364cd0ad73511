use vstd::prelude::*;

verus! {

/// Seconds in one day; the challenge window is `duration_days` of these.
pub const SECONDS_PER_DAY: i64 = 86400;

/// Canonical state of one challenge.
///
/// Identities (`authority`) are plain values: the authentication substrate
/// that proves a caller controls an identity is an external collaborator,
/// so the handlers only ever compare identities for equality.
#[derive(Clone, Copy, Debug, PartialEq, Eq, Structural)]
pub struct Challenge {
    /// Identifier of this challenge; the custody location holding the pool
    /// is derived deterministically from it by the external store.
    pub challenge_id: u64,
    /// Identity that alone may tally this challenge.
    pub authority: u64,
    /// Daily step count a participant must reach for a day to count.
    pub step_goal: u32,
    /// Length of the challenge window in days.
    pub duration_days: u16,
    /// Fixed stake each participant locks at enrollment.
    pub entry_amount: u64,
    /// Capacity: enrollment is refused once this many have enrolled.
    pub max_participants: u16,
    /// Number of participants enrolled so far.
    pub participant_count: u16,
    /// Total staked value held in custody for this challenge.
    pub total_pool: u64,
    /// Wall-clock seconds since epoch when the challenge was opened.
    pub start_timestamp: i64,
    /// End of the window: `start_timestamp + duration_days * 86400`.
    pub end_timestamp: i64,
    /// True until the challenge is tallied.
    pub is_active: bool,
    /// True once the challenge has been tallied; terminal.
    pub is_completed: bool,
    /// Count of fully-successful participants, fixed once by the tally.
    pub successful_participants: u16,
    /// Addressing salt used by the external store to derive the custody
    /// location; opaque to the lifecycle logic.
    pub bump: u8,
}

impl Challenge {
    /// The pool is exactly the stakes paid in: it grows only at enrollment,
    /// by one entry stake per participant.
    pub open spec fn pool_balanced(self) -> bool {
        self.total_pool as int == self.entry_amount as int * self.participant_count as int
    }

    /// The full pool of a challenge at capacity still fits in a balance.
    pub open spec fn stake_bounded(self) -> bool {
        self.entry_amount as int * self.max_participants as int <= u64::MAX as int
    }

    /// The end of the window is derived from its start and duration.
    pub open spec fn schedule_consistent(self) -> bool {
        self.end_timestamp as int == self.start_timestamp as int
            + self.duration_days as int * SECONDS_PER_DAY as int
    }

    /// A challenge is either open (active, not completed) or closed
    /// (completed, not active); the tally count is written exactly once,
    /// when the challenge closes, and never exceeds the enrollment count.
    pub open spec fn status_consistent(self) -> bool {
        &&& self.is_completed ==> !self.is_active
        &&& !self.is_completed ==> self.successful_participants == 0
        &&& self.is_completed ==> self.successful_participants <= self.participant_count
    }

    /// Well-formedness: established at initialization and preserved by
    /// every handler.
    pub open spec fn wf(self) -> bool {
        &&& self.participant_count <= self.max_participants
        &&& self.pool_balanced()
        &&& self.stake_bounded()
        &&& self.schedule_consistent()
        &&& self.status_consistent()
    }
}

} // verus!
