//! Achievement definitions, unlock records and the unit-preference filter.

use vstd::prelude::*;

use crate::fields::FieldValue;

verus! {

/// An achievement as defined in the catalogue.
///
/// `criteria` holds a `type` text field naming the criteria kind, plus the
/// kind's own parameters. `unit_preference` is `None` when the achievement
/// applies whatever the unit system.
#[derive(Clone, Debug)]
pub struct Achievement {
    pub id: i32,
    pub achievement_key: String,
    pub name: String,
    pub description: String,
    pub category: String,
    pub tier: String,
    pub criteria: Vec<(String, FieldValue)>,
    pub icon_name: Option<String>,
    pub is_active: bool,
    pub created_at: Option<String>,
    pub updated_at: Option<String>,
    pub unit_preference: Option<String>,
}

/// The record that a user earned an achievement.
///
/// `user_id` is the user's UUID as a 128-bit integer, `earned_at` the time of
/// the unlock in milliseconds since the Unix epoch, and `metadata` the session
/// values that triggered it.
#[derive(Clone, Debug)]
pub struct UserAchievement {
    pub earned_at: i64,
    pub metadata: Vec<(String, FieldValue)>,
    pub user_id: u128,
    pub achievement: Achievement,
}

/// An achievement applies to a unit system when it names none or names that one.
pub open spec fn applies_to_unit(a: Achievement, unit: Seq<char>) -> bool {
    match a.unit_preference {
        None => true,
        Some(u) => u@ == unit,
    }
}

/// The achievements of `s` that apply to `unit`, in the order given.
pub open spec fn filter_unit_spec(s: Seq<Achievement>, unit: Seq<char>) -> Seq<Achievement>
    decreases s.len(),
{
    if s.len() == 0 {
        s
    } else {
        let rest = filter_unit_spec(s.drop_last(), unit);
        if applies_to_unit(s.last(), unit) {
            rest.push(s.last())
        } else {
            rest
        }
    }
}

impl Achievement {
    /// Whether this achievement applies to the unit system `unit`.
    pub fn applies_to(&self, unit: &String) -> (r: bool)
        ensures
            r == applies_to_unit(*self, unit@),
    {
        match &self.unit_preference {
            None => true,
            Some(u) => *u == *unit,
        }
    }
}

/// Keeps the achievements that apply to `unit`, preserving their order.
pub fn filter_by_unit(achievements: Vec<Achievement>, unit: &String) -> (r: Vec<Achievement>)
    ensures
        r@ == filter_unit_spec(achievements@, unit@),
{
    let ghost all = achievements@;
    let mut out: Vec<Achievement> = Vec::new();
    for a in it: achievements.into_iter()
        invariant
            it.seq() == all,
            out@ == filter_unit_spec(all.take(it.index() as int), unit@),
    {
        proof {
            let i = it.index() as int;
            assert(all.take(i + 1).drop_last() =~= all.take(i));
        }
        if a.applies_to(unit) {
            out.push(a);
        }
    }
    proof {
        assert(all.take(all.len() as int) =~= all);
    }
    out
}

/// The active achievements of `s`, in the order given.
pub open spec fn filter_active_spec(s: Seq<Achievement>) -> Seq<Achievement>
    decreases s.len(),
{
    if s.len() == 0 {
        s
    } else {
        let rest = filter_active_spec(s.drop_last());
        if s.last().is_active {
            rest.push(s.last())
        } else {
            rest
        }
    }
}

/// Keeps the active achievements, preserving their order.
pub fn filter_active(achievements: Vec<Achievement>) -> (r: Vec<Achievement>)
    ensures
        r@ == filter_active_spec(achievements@),
{
    let ghost all = achievements@;
    let mut out: Vec<Achievement> = Vec::new();
    for a in it: achievements.into_iter()
        invariant
            it.seq() == all,
            out@ == filter_active_spec(all.take(it.index() as int)),
    {
        proof {
            let i = it.index() as int;
            assert(all.take(i + 1).drop_last() =~= all.take(i));
        }
        if a.is_active {
            out.push(a);
        }
    }
    proof {
        assert(all.take(all.len() as int) =~= all);
    }
    out
}

} // verus!
