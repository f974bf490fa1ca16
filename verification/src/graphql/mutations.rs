//! The streak mutations: the request text and what the answer does to a member.

use vstd::prelude::*;
use crate::decimal::{i32_to_decimal, signed_decimal};
use crate::graphql::models::{Member, Streak};
use crate::json::{JsonValue, opt_as_i64, opt_get};

verus! {

/// The text of an increment mutation up to the member's id.
pub const INCREMENT_STREAK_HEAD: &'static str = "\n        mutation {\n            incrementStreak(input: { memberId: ";

/// The text of a reset mutation up to the member's id.
pub const RESET_STREAK_HEAD: &'static str = "\n        mutation {\n            resetStreak(input: { memberId: ";

/// The text of either mutation after the member's id.
pub const STREAK_MUTATION_TAIL: &'static str = " }) {\n                currentStreak\n                maxStreak\n            }\n        }";

/// The two streak mutations that the backend offers.
#[derive(Clone, Copy, Debug, PartialEq, Eq, Structural)]
pub enum StreakMutation {
    Increment,
    Reset,
}

/// Why an answer to a streak mutation could not be read.
#[derive(Clone, Copy, Debug, PartialEq, Eq, Structural)]
pub enum StreakError {
    /// The answer has no `data` member holding the mutation's result.
    MissingData,
    /// The result has no integer `currentStreak`.
    MissingCurrentStreak,
    /// The result has no integer `maxStreak`.
    MissingMaxStreak,
}

impl StreakMutation {
    /// The name of the mutation's field in the request and the answer.
    pub open spec fn spec_field(self) -> Seq<char> {
        match self {
            StreakMutation::Increment => "incrementStreak"@,
            StreakMutation::Reset => "resetStreak"@,
        }
    }

    /// The text of the mutation up to the member's id.
    pub open spec fn spec_head(self) -> Seq<char> {
        match self {
            StreakMutation::Increment => INCREMENT_STREAK_HEAD@,
            StreakMutation::Reset => RESET_STREAK_HEAD@,
        }
    }

    /// The name of the mutation's field.
    pub fn field(&self) -> (name: &'static str)
        ensures
            name@ == self.spec_field(),
    {
        match self {
            StreakMutation::Increment => "incrementStreak",
            StreakMutation::Reset => "resetStreak",
        }
    }
}

/// The request text of `op` for the member with id `member_id`.
pub open spec fn spec_streak_mutation(op: StreakMutation, member_id: i32) -> Seq<char> {
    op.spec_head() + signed_decimal(member_id as int) + STREAK_MUTATION_TAIL@
}

/// Builds the request text of `op` for the member with id `member_id`.
pub fn streak_mutation(op: StreakMutation, member_id: i32) -> (text: String)
    ensures
        text@ == spec_streak_mutation(op, member_id),
{
    let head = match op {
        StreakMutation::Increment => INCREMENT_STREAK_HEAD,
        StreakMutation::Reset => RESET_STREAK_HEAD,
    };
    let id = i32_to_decimal(member_id);
    let mut text = String::from_str(head);
    text.append(id.as_str());
    text.append(STREAK_MUTATION_TAIL);
    text
}

/// The streak counts that an answer to `op` carries: the integers under
/// `data.<field>.currentStreak` and `data.<field>.maxStreak`, each cut to
/// an `i32` as `as i32` cuts it.
pub open spec fn streak_counts(answer: JsonValue, op: StreakMutation) -> Result<(i32, i32), StreakError> {
    let result = opt_get(answer.spec_get("data"@), op.spec_field());
    if result is None {
        Err(StreakError::MissingData)
    } else {
        match opt_as_i64(opt_get(result, "currentStreak"@)) {
            None => Err(StreakError::MissingCurrentStreak),
            Some(current) => match opt_as_i64(opt_get(result, "maxStreak"@)) {
                None => Err(StreakError::MissingMaxStreak),
                Some(max) => Ok((current as i32, max as i32)),
            },
        }
    }
}

/// Reads the streak counts from an answer to `op`.
pub fn read_streak_counts(answer: &JsonValue, op: StreakMutation) -> (r: Result<(i32, i32), StreakError>)
    ensures
        r == streak_counts(*answer, op),
{
    let data = answer.get("data");
    let result = match data {
        Some(d) => d.get(op.field()),
        None => None,
    };
    match result {
        None => Err(StreakError::MissingData),
        Some(res) => {
            let current = match res.get("currentStreak") {
                Some(v) => v.as_i64(),
                None => None,
            };
            match current {
                None => Err(StreakError::MissingCurrentStreak),
                Some(c) => {
                    let max = match res.get("maxStreak") {
                        Some(v) => v.as_i64(),
                        None => None,
                    };
                    match max {
                        None => Err(StreakError::MissingMaxStreak),
                        Some(m) => Ok((c as i32, m as i32)),
                    }
                },
            }
        },
    }
}

/// The streak records of a member after the backend reported `current` and
/// `max`: one new record when there were none, else every record set to them.
pub open spec fn updated_streaks(streaks: Seq<Streak>, current: i32, max: i32) -> Seq<Streak> {
    let s = Streak { current_streak: current, max_streak: max };
    if streaks.len() == 0 {
        seq![s]
    } else {
        Seq::new(streaks.len(), |i: int| s)
    }
}

/// Whether `after` is `before` with only its streak records replaced by `streaks`.
pub open spec fn member_with_streaks(before: Member, after: Member, streaks: Seq<Streak>) -> bool {
    &&& after.member_id == before.member_id
    &&& after.name == before.name
    &&& after.discord_id == before.discord_id
    &&& after.group_id == before.group_id
    &&& after.track == before.track
    &&& after.streak@ == streaks
}

/// Records the counts `current` and `max` in the member's streaks.
pub fn set_streak(member: &mut Member, current: i32, max: i32)
    ensures
        member_with_streaks(*old(member), *final(member), updated_streaks(old(member).streak@, current, max)),
{
    let s = Streak { current_streak: current, max_streak: max };
    if member.streak.len() == 0 {
        member.streak.push(s);
        assert(member.streak@ =~= updated_streaks(old(member).streak@, current, max));
    } else {
        let n = member.streak.len();
        let mut i: usize = 0;
        while i < n
            invariant
                n == old(member).streak@.len(),
                n > 0,
                i <= n,
                member.streak@.len() == n,
                member.member_id == old(member).member_id,
                member.name == old(member).name,
                member.discord_id == old(member).discord_id,
                member.group_id == old(member).group_id,
                member.track == old(member).track,
                forall|j: int| 0 <= j < i ==> member.streak@[j] == s,
            decreases n - i,
        {
            member.streak.set(i, s);
            i = i + 1;
        }
        assert(member.streak@ =~= updated_streaks(old(member).streak@, current, max));
    }
}

/// Applies an answer to `op` to the member: on success every streak record
/// holds the reported counts; on an error the member is left as it was.
pub fn apply_streak_response(member: &mut Member, answer: &JsonValue, op: StreakMutation) -> (r: Result<(), StreakError>)
    ensures
        match streak_counts(*answer, op) {
            Ok((current, max)) => r is Ok && member_with_streaks(
                *old(member),
                *final(member),
                updated_streaks(old(member).streak@, current, max),
            ),
            Err(e) => r == Err::<(), StreakError>(e) && *final(member) == *old(member),
        },
{
    match read_streak_counts(answer, op) {
        Ok((current, max)) => {
            set_streak(member, current, max);
            Ok(())
        },
        Err(e) => Err(e),
    }
}


/// After a successful answer the member has at least one streak record, and
/// every record holds the reported counts; a member with records keeps as many.
pub proof fn law_updated_streaks_uniform(streaks: Seq<Streak>, current: i32, max: i32)
    ensures
        updated_streaks(streaks, current, max).len() == if streaks.len() == 0 { 1 } else { streaks.len() },
        forall|i: int|
            0 <= i < updated_streaks(streaks, current, max).len() ==> #[trigger] updated_streaks(
                streaks,
                current,
                max,
            )[i] == (Streak { current_streak: current, max_streak: max }),
{
}

/// The last answer decides: recording counts after other counts leaves the
/// same records as recording the last counts alone, and recording the same
/// counts twice changes nothing the second time.
pub proof fn law_updated_streaks_last_wins(streaks: Seq<Streak>, c1: i32, m1: i32, c2: i32, m2: i32)
    ensures
        updated_streaks(updated_streaks(streaks, c1, m1), c2, m2) == updated_streaks(streaks, c2, m2),
        updated_streaks(updated_streaks(streaks, c2, m2), c2, m2) == updated_streaks(streaks, c2, m2),
{
    assert(updated_streaks(updated_streaks(streaks, c1, m1), c2, m2) =~= updated_streaks(streaks, c2, m2));
    assert(updated_streaks(updated_streaks(streaks, c2, m2), c2, m2) =~= updated_streaks(streaks, c2, m2));
}


/// The counts read from an answer are the integers it reports, each cut to an
/// `i32`, whatever their values and however they relate: `currentStreak` gives
/// the first count and `maxStreak` the second.
pub proof fn law_streak_counts_are_reported_integers(answer: JsonValue, op: StreakMutation, current: i64, max: i64)
    requires
        opt_get(opt_get(answer.spec_get("data"@), op.spec_field()), "currentStreak"@) == Some(JsonValue::Int(current)),
        opt_get(opt_get(answer.spec_get("data"@), op.spec_field()), "maxStreak"@) == Some(JsonValue::Int(max)),
    ensures
        streak_counts(answer, op) == Ok::<(i32, i32), StreakError>((current as i32, max as i32)),
        i32::MIN <= current <= i32::MAX && i32::MIN <= max <= i32::MAX ==> streak_counts(answer, op)
            == Ok::<(i32, i32), StreakError>((current as i32, max as i32)) && current as i32 == current
            && max as i32 == max,
{
}

} // verus!
