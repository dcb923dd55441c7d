//! The criteria registry and evaluator.
//!
//! Each criteria kind has a distinct tag, the text of an achievement's
//! `criteria.type` field, and a predicate over the criteria parameters, the
//! session and the user's aggregate statistics. Dispatch looks the tag up in
//! the registry; a missing or unknown tag is never satisfied.

use vstd::prelude::*;

use crate::achievement::Achievement;
use crate::fields::{number_field, number_or_zero, text_field, text_spec, FieldValue};

verus! {

/// The criteria kinds that the evaluator knows.
#[derive(Clone, Copy, Debug, PartialEq, Eq, Structural)]
pub enum CriteriaKind {
    /// Satisfied by any session; re-grants are suppressed by the unlock step.
    FirstRuck,
    /// Satisfied when the session's `distance_km` reaches the `target`.
    SingleSessionDistance,
}

impl CriteriaKind {
    pub open spec fn tag_spec(self) -> Seq<char> {
        match self {
            CriteriaKind::FirstRuck => "first_ruck"@,
            CriteriaKind::SingleSessionDistance => "single_session_distance"@,
        }
    }

    /// The tag under which this kind is registered.
    pub fn tag(&self) -> (r: String)
        ensures
            r@ == self.tag_spec(),
    {
        match self {
            CriteriaKind::FirstRuck => String::from_str("first_ruck"),
            CriteriaKind::SingleSessionDistance => String::from_str("single_session_distance"),
        }
    }
}

/// No two kinds share a tag.
pub proof fn lemma_tags_distinct(a: CriteriaKind, b: CriteriaKind)
    ensures
        a.tag_spec() == b.tag_spec() ==> a == b,
{
    reveal_strlit("first_ruck");
    reveal_strlit("single_session_distance");
    if a != b {
        assert(a.tag_spec().len() != b.tag_spec().len());
    }
}

/// The kind registered under `tag`, if any.
pub open spec fn kind_of_tag(tag: Seq<char>) -> Option<CriteriaKind> {
    if exists|k: CriteriaKind| k.tag_spec() == tag {
        Some(choose|k: CriteriaKind| k.tag_spec() == tag)
    } else {
        None
    }
}

/// The registry: every criteria kind, each once.
pub fn registered_kinds() -> (r: Vec<CriteriaKind>)
    ensures
        forall|k: CriteriaKind| r@.contains(k),
        r@.no_duplicates(),
{
    let r = vec![CriteriaKind::FirstRuck, CriteriaKind::SingleSessionDistance];
    assert(r@.no_duplicates());
    assert forall|k: CriteriaKind| r@.contains(k) by {
        match k {
            CriteriaKind::FirstRuck => assert(r@[0] == k),
            CriteriaKind::SingleSessionDistance => assert(r@[1] == k),
        }
    }
    r
}

/// Looks a tag up in the registry.
pub fn kind_for_tag(tag: &String) -> (r: Option<CriteriaKind>)
    ensures
        r == kind_of_tag(tag@),
{
    let kinds = registered_kinds();
    let n = kinds.len();
    let mut i: usize = 0;
    while i < n
        invariant
            n == kinds.len(),
            i <= n,
            forall|k: CriteriaKind| kinds@.contains(k),
            forall|j: int| 0 <= j < i ==> kinds@[j].tag_spec() != tag@,
        decreases n - i,
    {
        let k = kinds[i];
        if k.tag() == *tag {
            proof {
                let c = choose|c: CriteriaKind| c.tag_spec() == tag@;
                lemma_tags_distinct(c, k);
            }
            return Some(k);
        }
        i += 1;
    }
    proof {
        assert forall|k: CriteriaKind| k.tag_spec() != tag@ by {
            assert(kinds@.contains(k));
            let j = choose|j: int| 0 <= j < kinds@.len() && kinds@[j] == k;
            assert(kinds@[j].tag_spec() != tag@);
        }
    }
    None
}

/// Whether a kind's condition holds for the given criteria, session and statistics.
pub open spec fn kind_satisfied(
    kind: CriteriaKind,
    criteria: Seq<(String, FieldValue)>,
    session: Seq<(String, FieldValue)>,
    stats: Seq<(String, FieldValue)>,
) -> bool {
    match kind {
        CriteriaKind::FirstRuck => true,
        CriteriaKind::SingleSessionDistance => number_or_zero(session, "distance_km"@)
            >= number_or_zero(criteria, "target"@),
    }
}

/// Whether criteria are met: their tag names a registered kind whose condition holds.
pub open spec fn criteria_met(
    criteria: Seq<(String, FieldValue)>,
    session: Seq<(String, FieldValue)>,
    stats: Seq<(String, FieldValue)>,
) -> bool {
    match text_spec(criteria, "type"@) {
        Some(tag) => match kind_of_tag(tag) {
            Some(kind) => kind_satisfied(kind, criteria, session, stats),
            None => false,
        },
        None => false,
    }
}

/// The `first_ruck` predicate: always satisfied.
pub fn first_ruck_met() -> (r: bool)
    ensures
        r,
{
    true
}

/// The `single_session_distance` predicate: the session's `distance_km`
/// reaches the criteria's `target`, each read as zero when missing.
pub fn single_session_distance_met(
    criteria: &Vec<(String, FieldValue)>,
    session: &Vec<(String, FieldValue)>,
) -> (r: bool)
    ensures
        r == (number_or_zero(session@, "distance_km"@) >= number_or_zero(criteria@, "target"@)),
{
    let target = number_field(criteria, &String::from_str("target"));
    let distance = number_field(session, &String::from_str("distance_km"));
    distance >= target
}

/// Evaluates one registered kind.
pub fn evaluate_kind(
    kind: CriteriaKind,
    criteria: &Vec<(String, FieldValue)>,
    session: &Vec<(String, FieldValue)>,
    stats: &Vec<(String, FieldValue)>,
) -> (r: bool)
    ensures
        r == kind_satisfied(kind, criteria@, session@, stats@),
{
    match kind {
        CriteriaKind::FirstRuck => first_ruck_met(),
        CriteriaKind::SingleSessionDistance => single_session_distance_met(criteria, session),
    }
}

/// Decides whether a session, with the user's aggregate statistics, meets an
/// achievement's criteria. A missing or unknown criteria type is not met.
pub fn check_criteria(
    session: &Vec<(String, FieldValue)>,
    achievement: &Achievement,
    user_stats: &Vec<(String, FieldValue)>,
) -> (r: bool)
    ensures
        r == criteria_met(achievement.criteria@, session@, user_stats@),
{
    match text_field(&achievement.criteria, &String::from_str("type")) {
        Some(tag) => match kind_for_tag(tag) {
            Some(kind) => evaluate_kind(kind, &achievement.criteria, session, user_stats),
            None => false,
        },
        None => false,
    }
}

/// An achievement whose criteria type is missing or unregistered is never
/// met, whatever the session and statistics.
pub proof fn lemma_unknown_criteria_fail_closed(
    criteria: Seq<(String, FieldValue)>,
    session: Seq<(String, FieldValue)>,
    stats: Seq<(String, FieldValue)>,
)
    requires
        text_spec(criteria, "type"@) is None || kind_of_tag(
            text_spec(criteria, "type"@).unwrap(),
        ) is None,
    ensures
        !criteria_met(criteria, session, stats),
{
}

/// Under `single_session_distance`, the criteria are met exactly when the
/// session's distance is at least the target, the boundary included.
pub proof fn lemma_single_session_distance_threshold(
    criteria: Seq<(String, FieldValue)>,
    session: Seq<(String, FieldValue)>,
    stats: Seq<(String, FieldValue)>,
)
    requires
        text_spec(criteria, "type"@) == Some("single_session_distance"@),
    ensures
        criteria_met(criteria, session, stats) <==> number_or_zero(session, "distance_km"@)
            >= number_or_zero(criteria, "target"@),
{
    let k = CriteriaKind::SingleSessionDistance;
    assert(k.tag_spec() == "single_session_distance"@);
    let c = choose|c: CriteriaKind| c.tag_spec() == "single_session_distance"@;
    lemma_tags_distinct(c, k);
}

} // verus!
