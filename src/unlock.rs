//! Unlock resolution: which achievements a session newly earns a user, and
//! the records that note them.

use vstd::prelude::*;

use crate::achievement::{applies_to_unit, Achievement, UserAchievement};
use crate::criteria::{check_criteria, criteria_met};
use crate::fields::{number_field, number_or_zero, FieldValue};

verus! {

/// Whether some record of `earned` is for the achievement with `key`.
pub open spec fn already_earned(earned: Seq<UserAchievement>, key: Seq<char>) -> bool {
    exists|i: int| 0 <= i < earned.len() && (#[trigger] earned[i]).achievement.achievement_key@ == key
}

/// Whether some achievement of `s` has `key`.
pub open spec fn has_key(s: Seq<Achievement>, key: Seq<char>) -> bool {
    exists|i: int| 0 <= i < s.len() && (#[trigger] s[i]).achievement_key@ == key
}

/// An achievement is eligible when it is active, applies to the unit system,
/// is not yet earned, and the session meets its criteria.
pub open spec fn eligible(
    a: Achievement,
    earned: Seq<UserAchievement>,
    session: Seq<(String, FieldValue)>,
    stats: Seq<(String, FieldValue)>,
    unit: Seq<char>,
) -> bool {
    &&& a.is_active
    &&& applies_to_unit(a, unit)
    &&& !already_earned(earned, a.achievement_key@)
    &&& criteria_met(a.criteria@, session, stats)
}

/// The achievements of `catalogue` newly earned, in catalogue order: each
/// eligible one whose key has not been taken by an earlier one.
pub open spec fn newly_earned(
    catalogue: Seq<Achievement>,
    earned: Seq<UserAchievement>,
    session: Seq<(String, FieldValue)>,
    stats: Seq<(String, FieldValue)>,
    unit: Seq<char>,
) -> Seq<Achievement>
    decreases catalogue.len(),
{
    if catalogue.len() == 0 {
        Seq::empty()
    } else {
        let prev = newly_earned(catalogue.drop_last(), earned, session, stats, unit);
        let a = catalogue.last();
        if eligible(a, earned, session, stats, unit) && !has_key(prev, a.achievement_key@) {
            prev.push(a)
        } else {
            prev
        }
    }
}

/// The metadata of an unlock: the session's distance.
pub open spec fn unlock_metadata_ok(
    metadata: Seq<(String, FieldValue)>,
    session: Seq<(String, FieldValue)>,
) -> bool {
    &&& metadata.len() == 1
    &&& metadata[0].0@ == "distance_km"@
    &&& metadata[0].1 == FieldValue::Number(number_or_zero(session, "distance_km"@) as i64)
}

/// `records` note, one each and in order, the achievements of `unlocked`.
pub open spec fn records_for(
    records: Seq<UserAchievement>,
    unlocked: Seq<Achievement>,
    user_id: u128,
    session: Seq<(String, FieldValue)>,
    now: i64,
) -> bool {
    &&& records.len() == unlocked.len()
    &&& forall|i: int|
        0 <= i < records.len() ==> {
            &&& (#[trigger] records[i]).achievement == unlocked[i]
            &&& records[i].user_id == user_id
            &&& records[i].earned_at == now
            &&& unlock_metadata_ok(records[i].metadata@, session)
        }
}

/// Whether `earned` holds a record for the achievement with `key`.
pub fn is_earned(earned: &Vec<UserAchievement>, key: &String) -> (r: bool)
    ensures
        r == already_earned(earned@, key@),
{
    let n = earned.len();
    let mut i: usize = 0;
    while i < n
        invariant
            n == earned.len(),
            i <= n,
            forall|j: int| 0 <= j < i ==> earned@[j].achievement.achievement_key@ != key@,
        decreases n - i,
    {
        if earned[i].achievement.achievement_key == *key {
            assert(earned@[i as int].achievement.achievement_key@ == key@);
            return true;
        }
        i += 1;
    }
    false
}

/// Resolves which achievements of `catalogue` the session newly earns the
/// user, and returns one unlock record for each, in catalogue order, stamped
/// with `now` (milliseconds since the epoch) and the session's distance.
pub fn resolve_unlocks(
    user_id: u128,
    catalogue: Vec<Achievement>,
    earned: &Vec<UserAchievement>,
    session: &Vec<(String, FieldValue)>,
    user_stats: &Vec<(String, FieldValue)>,
    unit: &String,
    now: i64,
) -> (r: Vec<UserAchievement>)
    ensures
        records_for(
            r@,
            newly_earned(catalogue@, earned@, session@, user_stats@, unit@),
            user_id,
            session@,
            now,
        ),
{
    let ghost all = catalogue@;
    let distance = number_field(session, &String::from_str("distance_km"));
    let mut out: Vec<UserAchievement> = Vec::new();
    for a in it: catalogue.into_iter()
        invariant
            it.seq() == all,
            distance as int == number_or_zero(session@, "distance_km"@),
            records_for(
                out@,
                newly_earned(all.take(it.index() as int), earned@, session@, user_stats@, unit@),
                user_id,
                session@,
                now,
            ),
    {
        let ghost i = it.index() as int;
        let ghost prev = newly_earned(all.take(i), earned@, session@, user_stats@, unit@);
        proof {
            assert(all.take(i + 1).drop_last() =~= all.take(i));
        }
        let eligible_now = a.is_active && a.applies_to(unit) && !is_earned(
            earned,
            &a.achievement_key,
        ) && check_criteria(session, &a, user_stats);
        if eligible_now {
            let taken = is_earned(&out, &a.achievement_key);
            proof {
                if taken {
                    let j = choose|j: int|
                        0 <= j < out@.len() && (#[trigger] out@[j]).achievement.achievement_key@
                            == a.achievement_key@;
                    assert(prev[j].achievement_key@ == a.achievement_key@);
                } else if has_key(prev, a.achievement_key@) {
                    let j = choose|j: int|
                        0 <= j < prev.len() && (#[trigger] prev[j]).achievement_key@
                            == a.achievement_key@;
                    assert(out@[j].achievement.achievement_key@ == a.achievement_key@);
                }
            }
            if !taken {
                let metadata = vec![(String::from_str("distance_km"), FieldValue::Number(distance))];
                out.push(UserAchievement { earned_at: now, metadata, user_id, achievement: a });
            }
        }
    }
    proof {
        assert(all.take(all.len() as int) =~= all);
    }
    out
}

/// Every achievement that resolution returns is eligible, and no two share a key.
proof fn lemma_newly_earned_fresh(
    catalogue: Seq<Achievement>,
    earned: Seq<UserAchievement>,
    session: Seq<(String, FieldValue)>,
    stats: Seq<(String, FieldValue)>,
    unit: Seq<char>,
)
    ensures
        forall|i: int|
            0 <= i < newly_earned(catalogue, earned, session, stats, unit).len() ==> eligible(
                #[trigger] newly_earned(catalogue, earned, session, stats, unit)[i],
                earned,
                session,
                stats,
                unit,
            ),
        forall|i: int, j: int|
            0 <= i < j < newly_earned(catalogue, earned, session, stats, unit).len() ==> (
            #[trigger] newly_earned(catalogue, earned, session, stats, unit)[i]).achievement_key@
                != (#[trigger] newly_earned(catalogue, earned, session, stats, unit)[j]).achievement_key@,
    decreases catalogue.len(),
{
    if catalogue.len() > 0 {
        let prev = newly_earned(catalogue.drop_last(), earned, session, stats, unit);
        let cur = newly_earned(catalogue, earned, session, stats, unit);
        lemma_newly_earned_fresh(catalogue.drop_last(), earned, session, stats, unit);
        if cur.len() > prev.len() {
            let a = catalogue.last();
            assert forall|i: int| 0 <= i < prev.len() implies (#[trigger] cur[i]).achievement_key@
                != a.achievement_key@ by {
                assert(cur[i] == prev[i]);
                if cur[i].achievement_key@ == a.achievement_key@ {
                    assert(has_key(prev, a.achievement_key@));
                }
            }
        }
    }
}

/// Once every key that was earned or newly unlocked is earned, resolution
/// over the same catalogue returns nothing.
proof fn lemma_newly_earned_covered(
    catalogue: Seq<Achievement>,
    earned: Seq<UserAchievement>,
    later: Seq<UserAchievement>,
    session: Seq<(String, FieldValue)>,
    stats: Seq<(String, FieldValue)>,
    unit: Seq<char>,
)
    requires
        forall|k: Seq<char>|
            already_earned(earned, k) || has_key(
                newly_earned(catalogue, earned, session, stats, unit),
                k,
            ) ==> #[trigger] already_earned(later, k),
    ensures
        newly_earned(catalogue, later, session, stats, unit).len() == 0,
    decreases catalogue.len(),
{
    if catalogue.len() > 0 {
        let prev = newly_earned(catalogue.drop_last(), earned, session, stats, unit);
        let cur = newly_earned(catalogue, earned, session, stats, unit);
        assert forall|k: Seq<char>| has_key(prev, k) implies has_key(cur, k) by {
            let j = choose|j: int| 0 <= j < prev.len() && (#[trigger] prev[j]).achievement_key@ == k;
            assert(cur[j] == prev[j]);
        }
        lemma_newly_earned_covered(catalogue.drop_last(), earned, later, session, stats, unit);
        let a = catalogue.last();
        if eligible(a, later, session, stats, unit) {
            assert(!already_earned(earned, a.achievement_key@));
            assert(eligible(a, earned, session, stats, unit));
            if !has_key(prev, a.achievement_key@) {
                assert(cur[prev.len() as int] == a);
            }
            assert(has_key(cur, a.achievement_key@));
            assert(already_earned(later, a.achievement_key@));
        }
    }
}

/// Resolving a session twice unlocks nothing twice: the first resolution
/// gives one record per key, for keys not yet earned, and once its records
/// are added to the earned ones the same resolution unlocks nothing.
pub proof fn lemma_resolution_idempotent(
    user_id: u128,
    catalogue: Seq<Achievement>,
    earned: Seq<UserAchievement>,
    records: Seq<UserAchievement>,
    session: Seq<(String, FieldValue)>,
    stats: Seq<(String, FieldValue)>,
    unit: Seq<char>,
    now: i64,
)
    requires
        records_for(
            records,
            newly_earned(catalogue, earned, session, stats, unit),
            user_id,
            session,
            now,
        ),
    ensures
        forall|i: int, j: int|
            0 <= i < j < records.len() ==> (#[trigger] records[i]).achievement.achievement_key@
                != (#[trigger] records[j]).achievement.achievement_key@,
        forall|i: int|
            0 <= i < records.len() ==> !already_earned(
                earned,
                (#[trigger] records[i]).achievement.achievement_key@,
            ),
        newly_earned(catalogue, earned + records, session, stats, unit).len() == 0,
{
    let first = newly_earned(catalogue, earned, session, stats, unit);
    let later = earned + records;
    lemma_newly_earned_fresh(catalogue, earned, session, stats, unit);
    assert forall|i: int, j: int| 0 <= i < j < records.len() implies (
    #[trigger] records[i]).achievement.achievement_key@
        != (#[trigger] records[j]).achievement.achievement_key@ by {
        assert(first[i].achievement_key@ != first[j].achievement_key@);
    }
    assert forall|i: int| 0 <= i < records.len() implies !already_earned(
        earned,
        (#[trigger] records[i]).achievement.achievement_key@,
    ) by {
        assert(eligible(first[i], earned, session, stats, unit));
    }
    assert forall|k: Seq<char>| already_earned(earned, k) || has_key(first, k) implies #[trigger] already_earned(
        later,
        k,
    ) by {
        if already_earned(earned, k) {
            let i = choose|i: int| 0 <= i < earned.len() && (#[trigger] earned[i]).achievement.achievement_key@ == k;
            assert(later[i] == earned[i]);
        } else {
            let j = choose|j: int| 0 <= j < first.len() && (#[trigger] first[j]).achievement_key@ == k;
            assert(records[j].achievement == first[j]);
            assert(later[earned.len() + j] == records[j]);
        }
    }
    lemma_newly_earned_covered(catalogue, earned, later, session, stats, unit);
}

} // verus!
