//! A key/value cache whose entries expire a fixed time after they are set.
//!
//! Expiry is checked lazily on read; nothing is swept. The clock is the
//! caller's: every operation takes the current time, in milliseconds since
//! the Unix epoch, as an argument.

use vstd::prelude::*;

verus! {

/// The value under `key` at time `now`, if an entry is there and has not expired.
pub open spec fn live_entry<V>(m: Map<Seq<char>, (V, int)>, key: Seq<char>, now: int) -> Option<V> {
    if m.contains_key(key) && now < m[key].1 {
        Some(m[key].0)
    } else {
        None
    }
}

/// The cache contents after `value` is stored under `key` at time `now`,
/// to expire `ttl_seconds` later.
pub open spec fn after_set<V>(
    m: Map<Seq<char>, (V, int)>,
    key: Seq<char>,
    value: V,
    ttl_seconds: int,
    now: int,
) -> Map<Seq<char>, (V, int)> {
    m.insert(key, (value, now + ttl_seconds * 1000))
}

/// The key under which the catalogue filtered for `unit` is cached.
pub open spec fn catalogue_key_spec(unit: Seq<char>) -> Seq<char> {
    "achievements:all:"@ + unit
}

/// Builds the cache key of the catalogue filtered for one unit system.
pub fn catalogue_cache_key(unit: &String) -> (r: String)
    ensures
        r@ == catalogue_key_spec(unit@),
{
    String::from_str("achievements:all:").concat(unit.as_str())
}

struct CacheEntry<V> {
    key: String,
    value: V,
    expires_at: i128,
}

/// The cache. Its model maps each key to its value and expiry time.
pub struct TtlCache<V> {
    entries: Vec<CacheEntry<V>>,
    model: Ghost<Map<Seq<char>, (V, int)>>,
}

impl<V> View for TtlCache<V> {
    type V = Map<Seq<char>, (V, int)>;

    closed spec fn view(&self) -> Map<Seq<char>, (V, int)> {
        self.model@
    }
}

impl<V> TtlCache<V> {
    /// Keys are unique among the entries, and the entries are exactly the model.
    pub closed spec fn wf(&self) -> bool {
        let e = self.entries@;
        let m = self.model@;
        &&& forall|i: int, j: int|
            0 <= i < e.len() && 0 <= j < e.len() && i != j ==> e[i].key@ != e[j].key@
        &&& forall|i: int|
            0 <= i < e.len() ==> #[trigger] m.contains_key(e[i].key@) && m[e[i].key@] == (
                e[i].value,
                e[i].expires_at as int,
            )
        &&& forall|k: Seq<char>|
            m.contains_key(k) ==> exists|i: int| 0 <= i < e.len() && #[trigger] e[i].key@ == k
    }

    /// An empty cache.
    pub fn new() -> (r: Self)
        ensures
            r.wf(),
            r@ == Map::<Seq<char>, (V, int)>::empty(),
    {
        TtlCache { entries: Vec::new(), model: Ghost(Map::empty()) }
    }

    fn position(&self, key: &String) -> (r: Option<usize>)
        requires
            self.wf(),
        ensures
            match r {
                None => !self@.contains_key(key@),
                Some(i) => i < self.entries.len() && self.entries@[i as int].key@ == key@,
            },
    {
        let n = self.entries.len();
        let mut i: usize = 0;
        while i < n
            invariant
                n == self.entries.len(),
                i <= n,
                forall|j: int| 0 <= j < i ==> self.entries@[j].key@ != key@,
            decreases n - i,
        {
            if self.entries[i].key == *key {
                return Some(i);
            }
            i += 1;
        }
        None
    }

    /// The value under `key` at time `now` (milliseconds since the epoch),
    /// absent when there is none or it has expired.
    pub fn get_at(&self, key: &String, now: i64) -> (r: Option<&V>)
        requires
            self.wf(),
        ensures
            match r {
                Some(v) => live_entry(self@, key@, now as int) == Some(*v),
                None => live_entry(self@, key@, now as int) is None,
            },
    {
        match self.position(key) {
            Some(i) => {
                let entry = &self.entries[i];
                if (now as i128) < entry.expires_at {
                    Some(&entry.value)
                } else {
                    None
                }
            },
            None => None,
        }
    }

    /// Stores `value` under `key` at time `now`, replacing any earlier entry;
    /// it expires `ttl_seconds` later.
    pub fn set_at(&mut self, key: String, value: V, ttl_seconds: i64, now: i64)
        requires
            old(self).wf(),
        ensures
            final(self).wf(),
            final(self)@ == after_set(old(self)@, key@, value, ttl_seconds as int, now as int),
    {
        let ghost k = key@;
        let ghost m0 = self.model@;
        let expires_at = now as i128 + ttl_seconds as i128 * 1000;
        let ghost m1 = m0.insert(k, (value, expires_at as int));
        match self.position(&key) {
            Some(i) => {
                let ghost e0 = self.entries@;
                self.entries.set(i, CacheEntry { key, value, expires_at });
                self.model = Ghost(m1);
                proof {
                    let e = self.entries@;
                    assert forall|j: int| 0 <= j < e.len() implies #[trigger] m1.contains_key(
                        e[j].key@,
                    ) && m1[e[j].key@] == (e[j].value, e[j].expires_at as int) by {
                        if j != i {
                            assert(e[j] == e0[j]);
                            assert(m0.contains_key(e0[j].key@));
                        }
                    }
                    assert forall|k2: Seq<char>| m1.contains_key(k2) implies exists|j: int|
                        0 <= j < e.len() && #[trigger] e[j].key@ == k2 by {
                        if k2 == k {
                            assert(e[i as int].key@ == k2);
                        } else {
                            let j = choose|j: int| 0 <= j < e0.len() && #[trigger] e0[j].key@ == k2;
                            assert(e[j] == e0[j]);
                        }
                    }
                }
            },
            None => {
                let ghost e0 = self.entries@;
                self.entries.push(CacheEntry { key, value, expires_at });
                self.model = Ghost(m1);
                proof {
                    let e = self.entries@;
                    let n = e0.len() as int;
                    assert forall|j: int| 0 <= j < e.len() implies #[trigger] m1.contains_key(
                        e[j].key@,
                    ) && m1[e[j].key@] == (e[j].value, e[j].expires_at as int) by {
                        if j != n {
                            assert(e[j] == e0[j]);
                            assert(m0.contains_key(e0[j].key@));
                        }
                    }
                    assert forall|a: int, b: int|
                        0 <= a < e.len() && 0 <= b < e.len() && a != b implies e[a].key@
                        != e[b].key@ by {
                        if a < n && b < n {
                            assert(e[a] == e0[a] && e[b] == e0[b]);
                        } else if a < n {
                            assert(m0.contains_key(e0[a].key@));
                        } else {
                            assert(m0.contains_key(e0[b].key@));
                        }
                    }
                    assert forall|k2: Seq<char>| m1.contains_key(k2) implies exists|j: int|
                        0 <= j < e.len() && #[trigger] e[j].key@ == k2 by {
                        if k2 == k {
                            assert(e[n].key@ == k2);
                        } else {
                            let j = choose|j: int| 0 <= j < e0.len() && #[trigger] e0[j].key@ == k2;
                            assert(e[j] == e0[j]);
                        }
                    }
                }
            },
        }
    }
}

/// An entry read back at or after the time it was set, before its time to
/// live has run out, is the value stored; once the time to live has run out it
/// is absent.
pub proof fn lemma_cache_expiry<V>(
    m: Map<Seq<char>, (V, int)>,
    key: Seq<char>,
    value: V,
    ttl_seconds: int,
    set_time: int,
    get_time: int,
)
    requires
        ttl_seconds > 0,
    ensures
        set_time <= get_time < set_time + ttl_seconds * 1000 ==> live_entry(
            after_set(m, key, value, ttl_seconds, set_time),
            key,
            get_time,
        ) == Some(value),
        get_time >= set_time + ttl_seconds * 1000 ==> live_entry(
            after_set(m, key, value, ttl_seconds, set_time),
            key,
            get_time,
        ) is None,
{
}

/// Catalogue keys of different unit systems differ, so storing the catalogue
/// of one unit system leaves what is read under another's key unchanged.
pub proof fn lemma_cache_key_isolation<V>(
    m: Map<Seq<char>, (V, int)>,
    set_unit: Seq<char>,
    get_unit: Seq<char>,
    value: V,
    ttl_seconds: int,
    set_time: int,
    get_time: int,
)
    requires
        set_unit != get_unit,
    ensures
        catalogue_key_spec(set_unit) != catalogue_key_spec(get_unit),
        live_entry(
            after_set(m, catalogue_key_spec(set_unit), value, ttl_seconds, set_time),
            catalogue_key_spec(get_unit),
            get_time,
        ) == live_entry(m, catalogue_key_spec(get_unit), get_time),
{
    let p = "achievements:all:"@;
    let a = catalogue_key_spec(set_unit);
    let b = catalogue_key_spec(get_unit);
    if a == b {
        assert(a.subrange(p.len() as int, a.len() as int) =~= set_unit);
        assert(b.subrange(p.len() as int, b.len() as int) =~= get_unit);
    }
}

} // verus!
