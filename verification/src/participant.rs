use vstd::prelude::*;

verus! {

/// Progress record for one (challenge, participant) pair.
///
/// The external store creates at most one such record per pair; a second
/// enrollment attempt by the same identity fails there, which is what
/// prevents double-enrollment.
#[derive(Clone, Debug)]
pub struct Participant {
    /// Identity that owns this record and its withdrawal right.
    pub wallet: u64,
    /// Identifier of the challenge this record belongs to.
    pub challenge_id: u64,
    /// One flag per day of the challenge window; a flag only ever moves
    /// from false to true.
    pub daily_completions: Vec<bool>,
    /// Running count of days whose flag is true.
    pub total_successful_days: u16,
    /// Set once by withdrawal; irreversible.
    pub has_withdrawn: bool,
}

/// Mathematical model of a participant record.
#[verifier::ext_equal]
pub ghost struct ParticipantModel {
    pub wallet: u64,
    pub challenge_id: u64,
    pub daily_completions: Seq<bool>,
    pub total_successful_days: u16,
    pub has_withdrawn: bool,
}

impl View for Participant {
    type V = ParticipantModel;

    open spec fn view(&self) -> ParticipantModel {
        ParticipantModel {
            wallet: self.wallet,
            challenge_id: self.challenge_id,
            daily_completions: self.daily_completions@,
            total_successful_days: self.total_successful_days,
            has_withdrawn: self.has_withdrawn,
        }
    }
}

/// Number of `true` entries in a completion sequence.
pub open spec fn count_true(s: Seq<bool>) -> nat
    decreases s.len(),
{
    if s.len() == 0 {
        0
    } else {
        count_true(s.drop_last()) + if s.last() {
            1nat
        } else {
            0nat
        }
    }
}

impl ParticipantModel {
    /// The running count agrees with the completion sequence, which is
    /// sized to the owning challenge's duration.
    pub open spec fn wf(self, duration_days: u16) -> bool {
        &&& self.daily_completions.len() == duration_days
        &&& self.total_successful_days == count_true(self.daily_completions)
    }
}

/// There are never more `true` entries than entries.
pub proof fn lemma_count_true_le_len(s: Seq<bool>)
    ensures
        count_true(s) <= s.len(),
    decreases s.len(),
{
    if s.len() > 0 {
        lemma_count_true_le_len(s.drop_last());
    }
}

/// Overwriting one entry changes the count by the difference of the old
/// and new entries.
pub proof fn lemma_count_true_update(s: Seq<bool>, i: int, b: bool)
    requires
        0 <= i < s.len(),
    ensures
        count_true(s.update(i, b)) == count_true(s) - (if s[i] {
            1int
        } else {
            0int
        }) + (if b {
            1int
        } else {
            0int
        }),
    decreases s.len(),
{
    let t = s.update(i, b);
    if i == s.len() - 1 {
        assert(t.drop_last() =~= s.drop_last());
    } else {
        assert(t.drop_last() =~= s.drop_last().update(i, b));
        lemma_count_true_update(s.drop_last(), i, b);
    }
}

/// An all-false sequence has no `true` entries.
pub proof fn lemma_count_true_all_false(s: Seq<bool>)
    requires
        forall|i: int| 0 <= i < s.len() ==> !s[i],
    ensures
        count_true(s) == 0,
    decreases s.len(),
{
    if s.len() > 0 {
        lemma_count_true_all_false(s.drop_last());
    }
}

} // verus!
