use ruck_achievements::{
    cached_listing, catalogue_cache_key, check_criteria, filter_active, filter_by_unit,
    kind_for_tag, list_for_unit, requested_unit, resolve_unlocks, store_listing, Achievement,
    CriteriaKind, FieldValue, TtlCache, UserAchievement,
};

fn s(t: &str) -> String {
    t.to_string()
}

fn achievement(key: &str, criteria: Vec<(String, FieldValue)>, unit: Option<&str>) -> Achievement {
    Achievement {
        id: 1,
        achievement_key: s(key),
        name: s(key),
        description: s(""),
        category: s("distance"),
        tier: s("bronze"),
        criteria,
        icon_name: None,
        is_active: true,
        created_at: None,
        updated_at: None,
        unit_preference: unit.map(s),
    }
}

fn distance_criteria(target: i64) -> Vec<(String, FieldValue)> {
    vec![
        (s("type"), FieldValue::Text(s("single_session_distance"))),
        (s("target"), FieldValue::Number(target)),
    ]
}

fn session(distance: i64) -> Vec<(String, FieldValue)> {
    vec![(s("distance_km"), FieldValue::Number(distance))]
}

fn keys(v: &[Achievement]) -> Vec<String> {
    v.iter().map(|a| a.achievement_key.clone()).collect()
}

#[test]
fn unit_filter_keeps_unspecified_and_matching_in_order() {
    let list = vec![
        achievement("any", vec![], None),
        achievement("metric", vec![], Some("metric")),
        achievement("imperial", vec![], Some("imperial")),
    ];
    let r = filter_by_unit(list, &s("metric"));
    assert_eq!(keys(&r), vec![s("any"), s("metric")]);
}

#[test]
fn unit_filter_on_empty_list() {
    assert!(filter_by_unit(vec![], &s("metric")).is_empty());
}

#[test]
fn listing_drops_inactive() {
    let mut off = achievement("off", vec![], None);
    off.is_active = false;
    let list = vec![off, achievement("on", vec![], Some("imperial"))];
    assert_eq!(keys(&filter_active(list.clone())), vec![s("on")]);
    assert_eq!(keys(&list_for_unit(list.clone(), &s("imperial"))), vec![s("on")]);
    assert!(list_for_unit(list, &s("metric")).is_empty());
}

#[test]
fn requested_unit_defaults_to_metric() {
    assert_eq!(requested_unit(None), s("metric"));
    assert_eq!(requested_unit(Some(s("imperial"))), s("imperial"));
}

#[test]
fn registry_lookup() {
    assert_eq!(kind_for_tag(&s("first_ruck")), Some(CriteriaKind::FirstRuck));
    assert_eq!(
        kind_for_tag(&s("single_session_distance")),
        Some(CriteriaKind::SingleSessionDistance)
    );
    assert_eq!(kind_for_tag(&s("streak")), None);
    assert_eq!(kind_for_tag(&s("")), None);
}

#[test]
fn unknown_or_missing_type_fails_closed() {
    let empty: Vec<(String, FieldValue)> = vec![];
    let unknown = achievement("x", vec![(s("type"), FieldValue::Text(s("streak")))], None);
    let missing = achievement("y", vec![(s("target"), FieldValue::Number(0))], None);
    let not_text = achievement("z", vec![(s("type"), FieldValue::Number(1))], None);
    for a in [&unknown, &missing, &not_text] {
        assert!(!check_criteria(&empty, a, &empty));
        assert!(!check_criteria(&session(100_000), a, &empty));
    }
}

#[test]
fn first_ruck_always_met() {
    let empty: Vec<(String, FieldValue)> = vec![];
    let a = achievement("first", vec![(s("type"), FieldValue::Text(s("first_ruck")))], None);
    assert!(check_criteria(&empty, &a, &empty));
    assert!(check_criteria(&session(0), &a, &empty));
}

#[test]
fn single_session_distance_threshold() {
    let empty: Vec<(String, FieldValue)> = vec![];
    let a = achievement("ten", distance_criteria(10_000), None);
    assert!(check_criteria(&session(10_000), &a, &empty));
    assert!(check_criteria(&session(12_300), &a, &empty));
    assert!(!check_criteria(&session(9_999), &a, &empty));
    assert!(!check_criteria(&empty, &a, &empty));
}

#[test]
fn single_session_distance_missing_target_is_zero() {
    let empty: Vec<(String, FieldValue)> = vec![];
    let a = achievement(
        "zero",
        vec![(s("type"), FieldValue::Text(s("single_session_distance")))],
        None,
    );
    assert!(check_criteria(&empty, &a, &empty));
    assert!(!check_criteria(&session(-1), &a, &empty));
}

#[test]
fn cache_entry_expires_after_ttl() {
    let mut c: TtlCache<u32> = TtlCache::new();
    c.set_at(s("k"), 7, 10, 1_000);
    assert_eq!(c.get_at(&s("k"), 1_000), Some(&7));
    assert_eq!(c.get_at(&s("k"), 10_999), Some(&7));
    assert_eq!(c.get_at(&s("k"), 11_000), None);
    assert_eq!(c.get_at(&s("other"), 1_000), None);
}

#[test]
fn cache_overwrite_replaces_value_and_expiry() {
    let mut c: TtlCache<u32> = TtlCache::new();
    c.set_at(s("k"), 1, 1, 0);
    c.set_at(s("k"), 2, 5, 0);
    assert_eq!(c.get_at(&s("k"), 2_000), Some(&2));
    c.set_at(s("k"), 3, 0, 3_000);
    assert_eq!(c.get_at(&s("k"), 3_000), None);
}

#[test]
fn cache_keys_isolate_unit_systems() {
    assert_eq!(catalogue_cache_key(&s("metric")), s("achievements:all:metric"));
    let mut c: TtlCache<Vec<Achievement>> = TtlCache::new();
    let list = vec![
        achievement("any", vec![], None),
        achievement("metric", vec![], Some("metric")),
        achievement("imperial", vec![], Some("imperial")),
    ];
    store_listing(&mut c, &s("metric"), list, 0);
    let got = cached_listing(&c, &s("metric"), 0).unwrap();
    assert_eq!(keys(got), vec![s("any"), s("metric")]);
    assert!(cached_listing(&c, &s("imperial"), 0).is_none());
    assert!(cached_listing(&c, &s("metric"), 1_799_999).is_some());
    assert!(cached_listing(&c, &s("metric"), 1_800_000).is_none());
}

#[test]
fn first_10k_unlocks_once() {
    let empty: Vec<(String, FieldValue)> = vec![];
    let catalogue = vec![achievement("first_10k", distance_criteria(10_000), None)];
    let user: u128 = 42;
    let first = resolve_unlocks(
        user,
        catalogue.clone(),
        &vec![],
        &session(12_300),
        &empty,
        &s("metric"),
        5_000,
    );
    assert_eq!(first.len(), 1);
    assert_eq!(first[0].achievement.achievement_key, s("first_10k"));
    assert_eq!(first[0].user_id, user);
    assert_eq!(first[0].earned_at, 5_000);
    assert_eq!(first[0].metadata.len(), 1);
    assert_eq!(first[0].metadata[0].0, s("distance_km"));
    assert!(matches!(first[0].metadata[0].1, FieldValue::Number(12_300)));
    let earned: Vec<UserAchievement> = first;
    let second =
        resolve_unlocks(user, catalogue, &earned, &session(12_300), &empty, &s("metric"), 6_000);
    assert!(second.is_empty());
}

#[test]
fn resolution_skips_ineligible_and_duplicate_keys() {
    let empty: Vec<(String, FieldValue)> = vec![];
    let first_ruck = vec![(s("type"), FieldValue::Text(s("first_ruck")))];
    let mut inactive = achievement("inactive", first_ruck.clone(), None);
    inactive.is_active = false;
    let catalogue = vec![
        achievement("first", first_ruck.clone(), None),
        achievement("imperial", first_ruck.clone(), Some("imperial")),
        inactive,
        achievement("far", distance_criteria(50_000), None),
        achievement("unknown", vec![(s("type"), FieldValue::Text(s("nope")))], None),
        achievement("first", first_ruck.clone(), Some("metric")),
        achievement("metric", first_ruck, Some("metric")),
    ];
    let r = resolve_unlocks(7, catalogue, &vec![], &session(1_000), &empty, &s("metric"), 0);
    let got: Vec<String> = r.iter().map(|u| u.achievement.achievement_key.clone()).collect();
    assert_eq!(got, vec![s("first"), s("metric")]);
}
