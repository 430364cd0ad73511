use vstd::arithmetic::div_mod::{lemma_div_nonincreasing, lemma_fundamental_div_mod, lemma_mod_bound};
use vstd::arithmetic::mul::lemma_mul_inequality;
use vstd::prelude::*;

use crate::challenge::Challenge;
use crate::errors::ErrorCode;
use crate::participant::{Participant, ParticipantModel};

verus! {

/// A record counts toward the tally exactly when it belongs to the
/// challenge and every day of the window was completed; there is no
/// partial credit.
pub open spec fn fully_successful(
    p: ParticipantModel,
    challenge_id: u64,
    duration_days: u16,
) -> bool {
    p.challenge_id == challenge_id && p.total_successful_days == duration_days
}

/// How many records of the batch count toward the tally.
pub open spec fn count_successful(
    batch: Seq<ParticipantModel>,
    challenge_id: u64,
    duration_days: u16,
) -> nat
    decreases batch.len(),
{
    if batch.len() == 0 {
        0
    } else {
        count_successful(batch.drop_last(), challenge_id, duration_days) + if fully_successful(
            batch.last(),
            challenge_id,
            duration_days,
        ) {
            1nat
        } else {
            0nat
        }
    }
}

/// The models of a batch of participant records.
pub open spec fn batch_models(batch: Seq<Participant>) -> Seq<ParticipantModel> {
    batch.map_values(|p: Participant| p@)
}

/// A prefix of a batch never counts more records than the whole batch.
proof fn lemma_count_successful_take_le(
    batch: Seq<ParticipantModel>,
    challenge_id: u64,
    duration_days: u16,
    j: int,
)
    requires
        0 <= j <= batch.len(),
    ensures
        count_successful(batch.take(j), challenge_id, duration_days) <= count_successful(
            batch,
            challenge_id,
            duration_days,
        ),
    decreases batch.len() - j,
{
    if j == batch.len() {
        assert(batch.take(j) =~= batch);
    } else {
        lemma_count_successful_take_le(batch, challenge_id, duration_days, j + 1);
        assert(batch.take(j + 1).drop_last() =~= batch.take(j));
        assert(batch.take(j + 1).last() == batch[j]);
    }
}

/// The conditions a tally must meet, and the error reported when it does not.
/// A challenge already tallied is reported as such, before anything else
/// about its state.
pub open spec fn tally_error(c: Challenge, caller: u64, now: i64) -> Option<ErrorCode> {
    if caller != c.authority {
        Some(ErrorCode::Unauthorized)
    } else if c.is_completed {
        Some(ErrorCode::ChallengeAlreadyCompleted)
    } else if !c.is_active {
        Some(ErrorCode::ChallengeNotActive)
    } else if now < c.end_timestamp {
        Some(ErrorCode::ChallengeNotEnded)
    } else {
        None
    }
}

/// The challenge record after its tally: closed for good, with the count
/// of fully-successful participants fixed.
pub open spec fn tallied_challenge(c: Challenge, successful: u16) -> Challenge {
    Challenge { successful_participants: successful, is_active: false, is_completed: true, ..c }
}

/// Close the challenge and fix the count of fully-successful participants.
///
/// The caller supplies the batch of this challenge's participant records;
/// the handler has no index of its own and trusts the batch to be the
/// complete set (records of other challenges are filtered out, but an
/// incomplete batch yields a permanently wrong tally). That trust is the
/// precondition bounding the batch's count by the enrollment count: any
/// subset of the records that actually enrolled satisfies it.
pub fn process_rewards(
    challenge: &mut Challenge,
    caller: u64,
    now: i64,
    participants: &Vec<Participant>,
) -> (result: Result<(), ErrorCode>)
    requires
        old(challenge).wf(),
        count_successful(
            batch_models(participants@),
            old(challenge).challenge_id,
            old(challenge).duration_days,
        ) <= old(challenge).participant_count,
    ensures
        final(challenge).wf(),
        match result {
            Ok(()) => {
                &&& tally_error(*old(challenge), caller, now) is None
                &&& *final(challenge) == tallied_challenge(
                    *old(challenge),
                    count_successful(
                        batch_models(participants@),
                        old(challenge).challenge_id,
                        old(challenge).duration_days,
                    ) as u16,
                )
            },
            Err(e) => {
                &&& tally_error(*old(challenge), caller, now) == Some(e)
                &&& *final(challenge) == *old(challenge)
            },
        },
{
    if caller != challenge.authority {
        return Err(ErrorCode::Unauthorized);
    }
    if challenge.is_completed {
        return Err(ErrorCode::ChallengeAlreadyCompleted);
    }
    if !challenge.is_active {
        return Err(ErrorCode::ChallengeNotActive);
    }
    if now < challenge.end_timestamp {
        return Err(ErrorCode::ChallengeNotEnded);
    }

    let ghost models = batch_models(participants@);
    let ghost challenge_id = challenge.challenge_id;
    let ghost duration_days = challenge.duration_days;
    let mut successful_count: u16 = 0;
    let mut idx: usize = 0;
    while idx < participants.len()
        invariant
            idx <= participants.len(),
            models == batch_models(participants@),
            challenge_id == challenge.challenge_id,
            duration_days == challenge.duration_days,
            *challenge == *old(challenge),
            old(challenge).wf(),
            successful_count == count_successful(models.take(idx as int), challenge_id, duration_days),
            count_successful(models, challenge_id, duration_days) <= old(
                challenge,
            ).participant_count,
        decreases participants.len() - idx,
    {
        let p = &participants[idx];
        proof {
            assert(models[idx as int] == participants@[idx as int]@);
            assert(models.take(idx as int + 1).drop_last() =~= models.take(idx as int));
            assert(models.take(idx as int + 1).last() == models[idx as int]);
            lemma_count_successful_take_le(models, challenge_id, duration_days, idx as int + 1);
        }
        if p.challenge_id == challenge.challenge_id
            && p.total_successful_days == challenge.duration_days {
            successful_count = successful_count + 1;
        }
        idx = idx + 1;
    }
    proof {
        assert(models.take(participants@.len() as int) =~= models);
    }

    challenge.successful_participants = successful_count;
    challenge.is_active = false;
    challenge.is_completed = true;
    Ok(())
}

/// Once tallied, a challenge is tallied for good: a repeat tally, by the
/// authority or anyone else it would admit, is refused as already
/// completed, whatever time it is attempted at.
pub proof fn lemma_tally_one_shot(c: Challenge, caller: u64, now: i64, successful: u16, now2: i64)
    requires
        tally_error(c, caller, now) is None,
    ensures
        tally_error(tallied_challenge(c, successful), caller, now2) == Some(
            ErrorCode::ChallengeAlreadyCompleted,
        ),
{
}

/// The stakes of participants who did not fully complete the challenge,
/// left behind in the pool for redistribution.
pub open spec fn forfeited_pool(c: Challenge) -> int {
    c.total_pool - c.successful_participants as int * c.entry_amount as int
}

/// Each fully-successful participant's share of the forfeited stakes:
/// floor division, with the remainder left in custody; zero when nobody
/// fully succeeded.
pub open spec fn reward_share(c: Challenge) -> int {
    if c.successful_participants > 0 {
        forfeited_pool(c) / c.successful_participants as int
    } else {
        0
    }
}

/// What one fully-successful participant is paid: their stake back plus
/// their share of the forfeited stakes.
pub open spec fn full_payout(c: Challenge) -> int {
    c.entry_amount + reward_share(c)
}

/// What a withdrawal pays a participant: the full payout for perfect
/// completion, nothing otherwise.
pub open spec fn payout_amount(c: Challenge, p: ParticipantModel) -> int {
    if p.total_successful_days == c.duration_days {
        full_payout(c)
    } else {
        0
    }
}

/// The conditions a withdrawal must meet, and the error reported when it
/// does not.
pub open spec fn withdraw_error(c: Challenge, p: ParticipantModel) -> Option<ErrorCode> {
    if !c.is_completed {
        Some(ErrorCode::ChallengeNotCompleted)
    } else if p.has_withdrawn {
        Some(ErrorCode::AlreadyWithdrawn)
    } else {
        None
    }
}

/// The participant record after its withdrawal.
pub open spec fn withdrawn_participant(p: ParticipantModel) -> ParticipantModel {
    ParticipantModel { has_withdrawn: true, ..p }
}

/// Pay out the caller's share of the tallied challenge, exactly once.
///
/// On success the custody layer must move the returned amount from the
/// challenge's custody to the caller (no value moves for a zero payout).
/// The one-shot right is consumed either way: a zero-value withdrawal
/// also marks the record withdrawn, and the amount can never become
/// non-zero later because the tally is never recomputed.
pub fn withdraw_reward(challenge: &Challenge, participant: &mut Participant) -> (result: Result<
    u64,
    ErrorCode,
>)
    requires
        challenge.wf(),
    ensures
        old(participant)@.wf(challenge.duration_days) ==> final(participant)@.wf(
            challenge.duration_days,
        ),
        match result {
            Ok(payout) => {
                &&& withdraw_error(*challenge, old(participant)@) is None
                &&& payout == payout_amount(*challenge, old(participant)@)
                &&& final(participant)@ == withdrawn_participant(old(participant)@)
            },
            Err(e) => {
                &&& withdraw_error(*challenge, old(participant)@) == Some(e)
                &&& *final(participant) == *old(participant)
            },
        },
{
    if !challenge.is_completed {
        return Err(ErrorCode::ChallengeNotCompleted);
    }
    if participant.has_withdrawn {
        return Err(ErrorCode::AlreadyWithdrawn);
    }

    let is_successful = participant.total_successful_days == challenge.duration_days;
    let payout: u64 = if is_successful {
        let successful_count = challenge.successful_participants;
        proof {
            let s = successful_count as int;
            let n = challenge.participant_count as int;
            let e = challenge.entry_amount as int;
            lemma_mul_inequality(s, n, e);
            assert(n * e == e * n) by (nonlinear_arith);
            assert(s * e <= challenge.total_pool);
        }
        let forfeited_amount = challenge.total_pool
            - (successful_count as u64) * challenge.entry_amount;
        let share = if successful_count > 0 {
            proof {
                lemma_div_nonincreasing(forfeited_amount as int, successful_count as int);
            }
            forfeited_amount / (successful_count as u64)
        } else {
            0
        };
        proof {
            if successful_count > 0 {
                lemma_mul_inequality(
                    1,
                    successful_count as int,
                    challenge.entry_amount as int,
                );
            }
        }
        challenge.entry_amount + share
    } else {
        0
    };

    participant.has_withdrawn = true;
    Ok(payout)
}

/// Once withdrawn, always withdrawn: a second withdrawal by the same
/// participant is refused, whatever else holds of the challenge.
pub proof fn lemma_withdrawal_one_shot(c: Challenge, p: ParticipantModel)
    requires
        withdraw_error(c, p) is None,
    ensures
        withdraw_error(c, withdrawn_participant(p)) == Some(ErrorCode::AlreadyWithdrawn),
{
}

/// Conservation: what the fully-successful participants are paid in total
/// never exceeds the pool, and falls short of it by exactly the remainder
/// the floor division strands in custody (plus the whole pool when nobody
/// fully succeeded, in which case it stays unclaimed for good).
pub proof fn lemma_payout_conservation(c: Challenge)
    requires
        c.wf(),
        c.is_completed,
    ensures
        c.successful_participants as int * full_payout(c) <= c.total_pool,
        c.successful_participants > 0 ==> c.total_pool - c.successful_participants as int
            * full_payout(c) == forfeited_pool(c) % (c.successful_participants as int),
{
    let s = c.successful_participants as int;
    let e = c.entry_amount as int;
    let n = c.participant_count as int;
    let pool = c.total_pool as int;
    if s > 0 {
        lemma_mul_inequality(s, n, e);
        assert(n * e == e * n) by (nonlinear_arith);
        assert(s * e <= pool);
        let f = forfeited_pool(c);
        assert(f == pool - s * e);
        lemma_fundamental_div_mod(f, s);
        lemma_mod_bound(f, s);
        assert(s * (e + f / s) == s * e + s * (f / s)) by (nonlinear_arith);
        assert(s * (f / s) == f - f % s);
        assert(full_payout(c) == e + f / s);
        assert(s * full_payout(c) == pool - f % s);
    } else {
        assert(s * full_payout(c) == 0) by (nonlinear_arith)
            requires
                s == 0,
        ;
    }
}

} // verus!
