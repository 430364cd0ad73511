use vstd::prelude::*;

use crate::challenge::Challenge;
use crate::errors::ErrorCode;
use crate::participant::{
    count_true, lemma_count_true_le_len, lemma_count_true_update, Participant, ParticipantModel,
};

verus! {

/// The conditions a daily verification must meet, and the error reported
/// when it does not.
pub open spec fn verify_error(c: Challenge, verification_day: u16) -> Option<ErrorCode> {
    if !c.is_active {
        Some(ErrorCode::ChallengeNotActive)
    } else if c.is_completed {
        Some(ErrorCode::ChallengeCompleted)
    } else if verification_day >= c.duration_days {
        Some(ErrorCode::InvalidVerificationDay)
    } else {
        None
    }
}

/// The participant record after a verification that met the conditions: the
/// day is credited exactly when the goal was met and the day was not
/// already credited; otherwise nothing changes. A missed goal is a silent
/// no-op, never an error, and never takes a credited day away.
pub open spec fn verified_participant(
    c: Challenge,
    p: ParticipantModel,
    step_count: u32,
    verification_day: u16,
) -> ParticipantModel {
    if step_count >= c.step_goal && !p.daily_completions[verification_day as int] {
        ParticipantModel {
            daily_completions: p.daily_completions.update(verification_day as int, true),
            total_successful_days: (p.total_successful_days + 1) as u16,
            ..p
        }
    } else {
        p
    }
}

/// Credit the caller's participant record for `verification_day` if the
/// reported `step_count` reaches the challenge's goal.
///
/// The external store resolves the record from the challenge identifier and
/// the authenticated caller identity, so the record is the caller's own.
/// The truthfulness of `step_count` is not checked here; it is trusted
/// input from an external source.
pub fn submit_verification(
    challenge: &Challenge,
    participant: &mut Participant,
    step_count: u32,
    verification_day: u16,
) -> (result: Result<(), ErrorCode>)
    requires
        old(participant)@.wf(challenge.duration_days),
    ensures
        final(participant)@.wf(challenge.duration_days),
        // Ratchet: a credited day stays credited, whatever happens.
        forall|i: int|
            0 <= i < old(participant)@.daily_completions.len()
                && old(participant)@.daily_completions[i]
                ==> final(participant)@.daily_completions[i],
        match result {
            Ok(()) => {
                &&& verify_error(*challenge, verification_day) is None
                &&& final(participant)@ == verified_participant(
                    *challenge,
                    old(participant)@,
                    step_count,
                    verification_day,
                )
            },
            Err(e) => {
                &&& verify_error(*challenge, verification_day) == Some(e)
                &&& *final(participant) == *old(participant)
            },
        },
{
    if !challenge.is_active {
        return Err(ErrorCode::ChallengeNotActive);
    }
    if challenge.is_completed {
        return Err(ErrorCode::ChallengeCompleted);
    }
    if verification_day >= challenge.duration_days {
        return Err(ErrorCode::InvalidVerificationDay);
    }

    if step_count >= challenge.step_goal {
        let day = verification_day as usize;
        if !participant.daily_completions[day] {
            proof {
                lemma_count_true_update(participant@.daily_completions, day as int, true);
                lemma_count_true_le_len(participant@.daily_completions.update(day as int, true));
            }
            participant.daily_completions[day] = true;
            participant.total_successful_days = participant.total_successful_days + 1;
            proof {
                assert(participant@ =~= verified_participant(
                    *challenge,
                    old(participant)@,
                    step_count,
                    verification_day,
                ));
            }
        }
    }
    Ok(())
}

/// Verifying the same day twice changes the record exactly once: a second
/// verification that meets the conditions finds the day already credited and
/// leaves the record as the first one left it.
pub proof fn lemma_verification_idempotent(
    c: Challenge,
    p: ParticipantModel,
    step_count: u32,
    verification_day: u16,
)
    requires
        p.wf(c.duration_days),
        verification_day < c.duration_days,
    ensures
        verified_participant(
            c,
            verified_participant(c, p, step_count, verification_day),
            step_count,
            verification_day,
        ) == verified_participant(c, p, step_count, verification_day),
{
    let once = verified_participant(c, p, step_count, verification_day);
    if step_count >= c.step_goal && !p.daily_completions[verification_day as int] {
        assert(once.daily_completions[verification_day as int]);
    }
}

} // verus!
