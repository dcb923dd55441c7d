//! Achievement tracking for rucking sessions: a criteria evaluator over open
//! records, a unit-preference filter, unlock resolution and a TTL cache for
//! catalogue lookups.

pub mod achievement;
pub mod cache;
pub mod catalogue;
pub mod criteria;
pub mod fields;
pub mod unlock;

pub use achievement::{filter_active, filter_by_unit, Achievement, UserAchievement};
pub use cache::{catalogue_cache_key, TtlCache};
pub use catalogue::{
    cached_listing, list_for_unit, requested_unit, store_listing, CATALOGUE_TTL_SECONDS,
};
pub use criteria::{
    check_criteria, evaluate_kind, first_ruck_met, kind_for_tag, registered_kinds,
    single_session_distance_met, CriteriaKind,
};
pub use fields::{field_index, number_field, text_field, FieldValue};
pub use unlock::{is_earned, resolve_unlocks};
