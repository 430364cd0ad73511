use step_buddy::challenges::{initialize_challenge, join_challenge};
use step_buddy::errors::ErrorCode;
use step_buddy::rewards::process_rewards;
use step_buddy::verification::submit_verification;

const AUTHORITY: u64 = 7;
const DAY: i64 = 86400;

#[test]
fn initialize_sets_schedule_and_empty_pool() {
    let c = initialize_challenge(1, 1000, 3, 100, 2, AUTHORITY, 50, 0);
    assert_eq!(c.challenge_id, 1);
    assert_eq!(c.authority, AUTHORITY);
    assert_eq!(c.step_goal, 1000);
    assert_eq!(c.duration_days, 3);
    assert_eq!(c.entry_amount, 100);
    assert_eq!(c.max_participants, 2);
    assert_eq!(c.participant_count, 0);
    assert_eq!(c.total_pool, 0);
    assert_eq!(c.start_timestamp, 50);
    assert_eq!(c.end_timestamp, 50 + 3 * DAY);
    assert!(c.is_active);
    assert!(!c.is_completed);
    assert_eq!(c.successful_participants, 0);
}

#[test]
fn join_grows_pool_by_entry_amount() {
    let mut c = initialize_challenge(1, 1000, 3, 100, 2, AUTHORITY, 0, 0);
    let a = join_challenge(&mut c, 10, 1).unwrap();
    // pool stays equal to entry_amount times participant_count
    assert_eq!(c.participant_count, 1);
    assert_eq!(c.total_pool, 100);
    assert_eq!(a.wallet, 10);
    assert_eq!(a.challenge_id, 1);
    assert_eq!(a.daily_completions, vec![false, false, false]);
    assert_eq!(a.total_successful_days, 0);
    assert!(!a.has_withdrawn);
    join_challenge(&mut c, 11, 2).unwrap();
    assert_eq!(c.participant_count, 2);
    assert_eq!(c.total_pool, 200);
}

#[test]
fn join_full_challenge_refused_and_unchanged() {
    // capacity reached: enrollment fails with ChallengeFull, nothing mutates
    let mut c = initialize_challenge(1, 1000, 3, 100, 1, AUTHORITY, 0, 0);
    join_challenge(&mut c, 10, 1).unwrap();
    let before = c;
    let r = join_challenge(&mut c, 11, 2);
    assert_eq!(r.unwrap_err(), ErrorCode::ChallengeFull);
    assert_eq!(c, before);
}

#[test]
fn join_zero_capacity_refused() {
    let mut c = initialize_challenge(1, 1000, 3, 100, 0, AUTHORITY, 0, 0);
    let r = join_challenge(&mut c, 10, 1);
    assert_eq!(r.unwrap_err(), ErrorCode::ChallengeFull);
}

#[test]
fn join_after_end_time_refused() {
    let mut c = initialize_challenge(1, 1000, 3, 100, 2, AUTHORITY, 0, 0);
    let r = join_challenge(&mut c, 10, 3 * DAY);
    assert_eq!(r.unwrap_err(), ErrorCode::ChallengeEnded);
    let r2 = join_challenge(&mut c, 10, 3 * DAY - 1);
    assert!(r2.is_ok());
}

#[test]
fn join_after_tally_refused_not_active() {
    let mut c = initialize_challenge(1, 1000, 3, 100, 2, AUTHORITY, 0, 0);
    process_rewards(&mut c, AUTHORITY, 3 * DAY, &Vec::new()).unwrap();
    let r = join_challenge(&mut c, 10, 3 * DAY + 1);
    assert_eq!(r.unwrap_err(), ErrorCode::ChallengeNotActive);
}

#[test]
fn verification_credits_a_day_once() {
    let mut c = initialize_challenge(1, 1000, 3, 100, 2, AUTHORITY, 0, 0);
    let mut a = join_challenge(&mut c, 10, 1).unwrap();
    submit_verification(&c, &mut a, 1000, 1).unwrap();
    assert_eq!(a.daily_completions, vec![false, true, false]);
    assert_eq!(a.total_successful_days, 1);
    // a second passing verification for the same day changes nothing more
    submit_verification(&c, &mut a, 2500, 1).unwrap();
    assert_eq!(a.daily_completions, vec![false, true, false]);
    assert_eq!(a.total_successful_days, 1);
}

#[test]
fn verification_below_goal_is_silent_no_op() {
    let mut c = initialize_challenge(1, 1000, 3, 100, 2, AUTHORITY, 0, 0);
    let mut a = join_challenge(&mut c, 10, 1).unwrap();
    let r = submit_verification(&c, &mut a, 999, 0);
    assert!(r.is_ok());
    assert_eq!(a.total_successful_days, 0);
    assert_eq!(a.daily_completions, vec![false, false, false]);
}

#[test]
fn verification_never_takes_a_day_back() {
    // ratchet: a credited day survives a later below-goal report
    let mut c = initialize_challenge(1, 1000, 3, 100, 2, AUTHORITY, 0, 0);
    let mut a = join_challenge(&mut c, 10, 1).unwrap();
    submit_verification(&c, &mut a, 1500, 2).unwrap();
    submit_verification(&c, &mut a, 0, 2).unwrap();
    assert_eq!(a.daily_completions, vec![false, false, true]);
    assert_eq!(a.total_successful_days, 1);
}

#[test]
fn verification_day_at_duration_refused() {
    // the day index must be strictly below the duration
    let mut c = initialize_challenge(1, 1000, 3, 100, 2, AUTHORITY, 0, 0);
    let mut a = join_challenge(&mut c, 10, 1).unwrap();
    let r = submit_verification(&c, &mut a, 5000, 3);
    assert_eq!(r.unwrap_err(), ErrorCode::InvalidVerificationDay);
    assert_eq!(a.total_successful_days, 0);
    let r2 = submit_verification(&c, &mut a, 5000, 9);
    assert_eq!(r2.unwrap_err(), ErrorCode::InvalidVerificationDay);
}

#[test]
fn verification_after_tally_refused() {
    let mut c = initialize_challenge(1, 1000, 3, 100, 2, AUTHORITY, 0, 0);
    let mut a = join_challenge(&mut c, 10, 1).unwrap();
    process_rewards(&mut c, AUTHORITY, 3 * DAY, &vec![a.clone()]).unwrap();
    let r = submit_verification(&c, &mut a, 5000, 0);
    assert_eq!(r.unwrap_err(), ErrorCode::ChallengeNotActive);
}

#[test]
fn successful_days_always_counts_true_flags() {
    // the running count and the flag sequence agree at every step
    let mut c = initialize_challenge(1, 10, 5, 1, 8, AUTHORITY, 0, 0);
    let mut a = join_challenge(&mut c, 10, 1).unwrap();
    let reports: [(u32, u16); 6] = [(10, 0), (3, 1), (10, 2), (10, 2), (11, 4), (9, 3)];
    for (steps, day) in reports {
        submit_verification(&c, &mut a, steps, day).unwrap();
        let trues = a.daily_completions.iter().filter(|&&d| d).count();
        assert_eq!(a.total_successful_days as usize, trues);
    }
    assert_eq!(a.daily_completions, vec![true, false, true, false, true]);
    assert_eq!(a.total_successful_days, 3);
}

#[test]
fn tally_by_non_authority_refused() {
    let mut c = initialize_challenge(1, 1000, 3, 100, 2, AUTHORITY, 0, 0);
    let r = process_rewards(&mut c, AUTHORITY + 1, 3 * DAY, &Vec::new());
    assert_eq!(r.unwrap_err(), ErrorCode::Unauthorized);
    assert!(c.is_active);
}

#[test]
fn tally_before_end_time_refused() {
    let mut c = initialize_challenge(1, 1000, 3, 100, 2, AUTHORITY, 0, 0);
    let r = process_rewards(&mut c, AUTHORITY, 3 * DAY - 1, &Vec::new());
    assert_eq!(r.unwrap_err(), ErrorCode::ChallengeNotEnded);
    let r2 = process_rewards(&mut c, AUTHORITY, 3 * DAY, &Vec::new());
    assert!(r2.is_ok());
}

#[test]
fn tally_twice_refused_and_unchanged() {
    // one-shot: a second tally fails as already completed, state unchanged
    let mut c = initialize_challenge(1, 1000, 3, 100, 2, AUTHORITY, 0, 0);
    let mut a = join_challenge(&mut c, 10, 1).unwrap();
    for day in 0..3 {
        submit_verification(&c, &mut a, 1000, day).unwrap();
    }
    process_rewards(&mut c, AUTHORITY, 3 * DAY, &vec![a.clone()]).unwrap();
    assert_eq!(c.successful_participants, 1);
    assert!(c.is_completed && !c.is_active);
    let before = c;
    let r = process_rewards(&mut c, AUTHORITY, 4 * DAY, &vec![a]);
    assert_eq!(r.unwrap_err(), ErrorCode::ChallengeAlreadyCompleted);
    assert_eq!(c, before);
}

#[test]
fn tally_filters_other_challenges_records() {
    let mut c = initialize_challenge(1, 1000, 2, 100, 4, AUTHORITY, 0, 0);
    let mut other = initialize_challenge(2, 1000, 2, 100, 4, AUTHORITY, 0, 0);
    let mut a = join_challenge(&mut c, 10, 1).unwrap();
    let mut stranger = join_challenge(&mut other, 11, 1).unwrap();
    submit_verification(&c, &mut a, 1000, 0).unwrap();
    submit_verification(&c, &mut a, 1000, 1).unwrap();
    submit_verification(&other, &mut stranger, 1000, 0).unwrap();
    submit_verification(&other, &mut stranger, 1000, 1).unwrap();
    // the stranger's record matches on perfect days but not on challenge id
    process_rewards(&mut c, AUTHORITY, 2 * DAY, &vec![a, stranger]).unwrap();
    assert_eq!(c.successful_participants, 1);
}

#[test]
fn tally_without_perfect_records_counts_zero() {
    let mut c = initialize_challenge(1, 1000, 3, 100, 2, AUTHORITY, 0, 0);
    let mut a = join_challenge(&mut c, 10, 1).unwrap();
    submit_verification(&c, &mut a, 1000, 0).unwrap();
    submit_verification(&c, &mut a, 1000, 1).unwrap();
    // two of three days is no credit at all: perfect completion only
    process_rewards(&mut c, AUTHORITY, 3 * DAY, &vec![a]).unwrap();
    assert_eq!(c.successful_participants, 0);
}
