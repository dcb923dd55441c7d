//! The achievement catalogue as listed for one unit system, and its cache.

use vstd::prelude::*;

use crate::achievement::{
    filter_active, filter_active_spec, filter_by_unit, filter_unit_spec, Achievement,
};
use crate::cache::{catalogue_cache_key, catalogue_key_spec, live_entry, TtlCache};

verus! {

/// How long a listed catalogue stays cached.
pub const CATALOGUE_TTL_SECONDS: i64 = 1800;

/// The unit system asked for, `metric` when none is given.
pub fn requested_unit(unit_preference: Option<String>) -> (r: String)
    ensures
        match unit_preference {
            Some(u) => r@ == u@,
            None => r@ == "metric"@,
        },
{
    match unit_preference {
        Some(u) => u,
        None => String::from_str("metric"),
    }
}

/// The listing of a catalogue for `unit`: the active achievements that apply
/// to it, in catalogue order.
pub open spec fn listing_spec(catalogue: Seq<Achievement>, unit: Seq<char>) -> Seq<Achievement> {
    filter_unit_spec(filter_active_spec(catalogue), unit)
}

/// Lists a fetched catalogue for `unit`.
pub fn list_for_unit(catalogue: Vec<Achievement>, unit: &String) -> (r: Vec<Achievement>)
    ensures
        r@ == listing_spec(catalogue@, unit@),
{
    filter_by_unit(filter_active(catalogue), unit)
}

/// The cached listing for `unit` at time `now`, if it is there and fresh.
pub fn cached_listing<'a>(
    cache: &'a TtlCache<Vec<Achievement>>,
    unit: &String,
    now: i64,
) -> (r: Option<&'a Vec<Achievement>>)
    requires
        cache.wf(),
    ensures
        match r {
            Some(v) => live_entry(cache@, catalogue_key_spec(unit@), now as int) == Some(*v),
            None => live_entry(cache@, catalogue_key_spec(unit@), now as int) is None,
        },
{
    cache.get_at(&catalogue_cache_key(unit), now)
}

/// Lists a fetched catalogue for `unit` and caches the listing at time `now`
/// under the unit's key, for `CATALOGUE_TTL_SECONDS`. Other keys are untouched.
pub fn store_listing(
    cache: &mut TtlCache<Vec<Achievement>>,
    unit: &String,
    catalogue: Vec<Achievement>,
    now: i64,
)
    requires
        old(cache).wf(),
    ensures
        final(cache).wf(),
        final(cache)@.dom() == old(cache)@.dom().insert(catalogue_key_spec(unit@)),
        final(cache)@[catalogue_key_spec(unit@)].0@ == listing_spec(catalogue@, unit@),
        final(cache)@[catalogue_key_spec(unit@)].1 == now + CATALOGUE_TTL_SECONDS * 1000,
        forall|k: Seq<char>|
            k != catalogue_key_spec(unit@) && old(cache)@.contains_key(k) ==> final(cache)@[k]
                == old(cache)@[k],
{
    let listing = list_for_unit(catalogue, unit);
    cache.set_at(catalogue_cache_key(unit), listing, CATALOGUE_TTL_SECONDS, now);
}

} // verus!
