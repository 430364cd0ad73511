use vstd::prelude::*;

use crate::challenge::{Challenge, SECONDS_PER_DAY};
use crate::errors::ErrorCode;
use crate::participant::{
    lemma_count_true_all_false, Participant, ParticipantModel,
};

verus! {

/// The challenge record that initialization produces.
pub open spec fn initialized_challenge(
    challenge_id: u64,
    step_goal: u32,
    duration_days: u16,
    entry_amount: u64,
    max_participants: u16,
    authority: u64,
    now: i64,
    bump: u8,
) -> Challenge {
    Challenge {
        challenge_id,
        authority,
        step_goal,
        duration_days,
        entry_amount,
        max_participants,
        participant_count: 0,
        total_pool: 0,
        start_timestamp: now,
        end_timestamp: (now + duration_days * SECONDS_PER_DAY) as i64,
        is_active: true,
        is_completed: false,
        successful_participants: 0,
        bump,
    }
}

/// Open a challenge: empty pool, no participants, active, with the window
/// ending `duration_days` days after `now`.
///
/// The identifier is bound to a fresh record by the external store, which
/// refuses a duplicate identifier; `authority` is the identity that alone
/// may later tally the challenge, and `bump` is the addressing salt the
/// store derived for the challenge's custody location.
pub fn initialize_challenge(
    challenge_id: u64,
    step_goal: u32,
    duration_days: u16,
    entry_amount: u64,
    max_participants: u16,
    authority: u64,
    now: i64,
    bump: u8,
) -> (challenge: Challenge)
    requires
        entry_amount as int * max_participants as int <= u64::MAX as int,
        now as int + duration_days as int * SECONDS_PER_DAY as int <= i64::MAX as int,
    ensures
        challenge == initialized_challenge(
            challenge_id,
            step_goal,
            duration_days,
            entry_amount,
            max_participants,
            authority,
            now,
            bump,
        ),
        challenge.wf(),
{
    let end_timestamp: i64 = now + (duration_days as i64) * SECONDS_PER_DAY;
    Challenge {
        challenge_id,
        authority,
        step_goal,
        duration_days,
        entry_amount,
        max_participants,
        participant_count: 0,
        total_pool: 0,
        start_timestamp: now,
        end_timestamp,
        is_active: true,
        is_completed: false,
        successful_participants: 0,
        bump,
    }
}

/// The conditions enrollment must meet, and the error reported when it does not.
pub open spec fn join_error(c: Challenge, now: i64) -> Option<ErrorCode> {
    if !c.is_active {
        Some(ErrorCode::ChallengeNotActive)
    } else if c.is_completed {
        Some(ErrorCode::ChallengeCompleted)
    } else if c.participant_count >= c.max_participants {
        Some(ErrorCode::ChallengeFull)
    } else if now >= c.end_timestamp {
        Some(ErrorCode::ChallengeEnded)
    } else {
        None
    }
}

/// The challenge record after one enrollment: one more participant, one
/// more entry stake in the pool, all else unchanged.
pub open spec fn joined_challenge(c: Challenge) -> Challenge {
    Challenge {
        participant_count: (c.participant_count + 1) as u16,
        total_pool: (c.total_pool + c.entry_amount) as u64,
        ..c
    }
}

/// The record a fresh enrollment creates: no day completed, nothing
/// withdrawn.
pub open spec fn fresh_participant(c: Challenge, user: u64) -> ParticipantModel {
    ParticipantModel {
        wallet: user,
        challenge_id: c.challenge_id,
        daily_completions: Seq::new(c.duration_days as nat, |i: int| false),
        total_successful_days: 0,
        has_withdrawn: false,
    }
}

/// Enroll `user` in the challenge: create their participant record and
/// account for their entry stake in the pool.
///
/// On success the custody layer must move `entry_amount` from the enrolling
/// identity into the challenge's custody, atomically with committing both
/// records; on an error nothing changes and no value moves. A repeat
/// enrollment by the same identity is refused by the external store when it
/// is asked to create a second record for the same (challenge, identity)
/// pair; no check here.
pub fn join_challenge(challenge: &mut Challenge, user: u64, now: i64) -> (result: Result<
    Participant,
    ErrorCode,
>)
    requires
        old(challenge).wf(),
    ensures
        final(challenge).wf(),
        match result {
            Ok(participant) => {
                &&& join_error(*old(challenge), now) is None
                &&& *final(challenge) == joined_challenge(*old(challenge))
                &&& participant@ == fresh_participant(*old(challenge), user)
                &&& participant@.wf(old(challenge).duration_days)
            },
            Err(e) => {
                &&& join_error(*old(challenge), now) == Some(e)
                &&& *final(challenge) == *old(challenge)
            },
        },
{
    if !challenge.is_active {
        return Err(ErrorCode::ChallengeNotActive);
    }
    if challenge.is_completed {
        return Err(ErrorCode::ChallengeCompleted);
    }
    if challenge.participant_count >= challenge.max_participants {
        return Err(ErrorCode::ChallengeFull);
    }
    if now >= challenge.end_timestamp {
        return Err(ErrorCode::ChallengeEnded);
    }

    let daily_completions: Vec<bool> = vec![false; challenge.duration_days as usize];
    let participant = Participant {
        wallet: user,
        challenge_id: challenge.challenge_id,
        daily_completions,
        total_successful_days: 0,
        has_withdrawn: false,
    };

    proof {
        let e = challenge.entry_amount as int;
        let n = challenge.participant_count as int;
        let m = challenge.max_participants as int;
        assert(e * n + e <= e * m) by (nonlinear_arith)
            requires
                n + 1 <= m,
                e >= 0,
        ;
    }
    challenge.participant_count = challenge.participant_count + 1;
    challenge.total_pool = challenge.total_pool + challenge.entry_amount;

    proof {
        let e = old(challenge).entry_amount as int;
        let n = old(challenge).participant_count as int;
        assert(e * n + e == e * (n + 1)) by (nonlinear_arith);
        assert(participant@.daily_completions =~= fresh_participant(
            *old(challenge),
            user,
        ).daily_completions);
        assert(participant@ =~= fresh_participant(*old(challenge), user));
        lemma_count_true_all_false(participant@.daily_completions);
    }
    Ok(participant)
}

} // verus!
