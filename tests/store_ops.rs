use bitly::allocation::{
    classify_insert, custom_name_is_free, next_canonical_step, CanonicalStep, InsertReport, MAX_ATTEMPTS,
};
use bitly::models::Shortlink;
use bitly::names::random_name;
use bitly::stats::{day_number, total_visits, unique_visitors, visits_per_day};
use bitly::models::Visit;
use bitly::store::{resolve_from, InsertOutcome, ShortlinkStore};

const NOON_2020_01_02: i64 = 1_577_966_400;
const DAY: i64 = 86_400;

#[test]
fn lookup_prefers_canonical_then_custom() {
    let mut store = ShortlinkStore::new();
    let canonical = store.create_shortlink("http://a.com", 10).ok().unwrap();
    let custom = store.create_custom_shortlink("mine", "http://b.com", 11).unwrap();
    assert_eq!(custom.name, "mine");
    assert_eq!(store.lookup(&canonical.name), Some("http://a.com".to_string()));
    assert_eq!(store.lookup("mine"), Some("http://b.com".to_string()));
    assert_eq!(store.lookup("other"), None);
}

#[test]
fn custom_names_share_a_target() {
    let mut store = ShortlinkStore::new();
    assert!(store.create_custom_shortlink("one", "http://t.com", 0).is_some());
    assert!(store.create_custom_shortlink("two", "http://t.com", 0).is_some());
    assert_eq!(store.find_target("one", None, 5), Some("http://t.com".to_string()));
    assert_eq!(store.find_target("two", None, 5), Some("http://t.com".to_string()));
}

#[test]
fn resolving_unknown_name_records_nothing() {
    let mut store = ShortlinkStore::new();
    store.create_custom_shortlink("known", "http://k.com", 0).unwrap();
    assert_eq!(store.find_target("unknown", Some("1.2.3.4".to_string()), 7), None);
    let stats = store.get_stats("known").unwrap();
    assert_eq!(stats.total_visits, 0);
    assert!(stats.visits_per_day.is_empty());
    assert!(store.get_stats("unknown").is_none());
}

#[test]
fn resolving_known_name_counts_one_visit_on_its_day() {
    let mut store = ShortlinkStore::new();
    store.create_custom_shortlink("known", "http://k.com", 42).unwrap();
    store.find_target("known", None, NOON_2020_01_02);
    let before = store.get_stats("known").unwrap();
    assert_eq!(before.created_on, 42);
    assert_eq!(before.total_visits, 1);
    store.find_target("known", None, NOON_2020_01_02 + DAY);
    let after = store.get_stats("known").unwrap();
    assert_eq!(after.total_visits, before.total_visits + 1);
    let day = NOON_2020_01_02 / DAY;
    assert_eq!(after.visits_per_day.get(&day), Some(&1));
    assert_eq!(after.visits_per_day.get(&(day + 1)), Some(&1));
    assert_eq!(after.visits_per_day.len(), 2);
}

#[test]
fn unique_visitors_ignore_repeats_and_unknown_addresses() {
    let mut store = ShortlinkStore::new();
    store.create_custom_shortlink("n", "http://n.com", 0).unwrap();
    store.create_custom_shortlink("m", "http://m.com", 0).unwrap();
    store.find_target("n", Some("10.0.0.1".to_string()), 1);
    store.find_target("n", Some("10.0.0.1".to_string()), 2);
    store.find_target("n", Some("10.0.0.2".to_string()), 3);
    store.find_target("n", None, 4);
    store.find_target("m", Some("10.0.0.3".to_string()), 5);
    let stats = store.get_stats("n").unwrap();
    assert_eq!(stats.name, "n");
    assert_eq!(stats.total_visits, 4);
    assert_eq!(stats.unique_visitors, 2);
    assert_eq!(stats.visits_per_day.get(&0), Some(&4));
}

#[test]
fn aggregation_over_rows() {
    let visits = vec![
        Visit { name: "a".to_string(), visit: 0, ip_addr: Some("x".to_string()) },
        Visit { name: "b".to_string(), visit: 5, ip_addr: Some("y".to_string()) },
        Visit { name: "a".to_string(), visit: DAY - 1, ip_addr: Some("x".to_string()) },
        Visit { name: "a".to_string(), visit: DAY, ip_addr: Some("z".to_string()) },
        Visit { name: "a".to_string(), visit: -1, ip_addr: None },
    ];
    assert_eq!(total_visits(&visits, "a"), 4);
    assert_eq!(total_visits(&visits, "c"), 0);
    assert_eq!(unique_visitors(&visits, "a"), 2);
    let days = visits_per_day(&visits, "a");
    assert_eq!(days.get(&0), Some(&2));
    assert_eq!(days.get(&1), Some(&1));
    assert_eq!(days.get(&-1), Some(&1));
    assert_eq!(days.len(), 3);
}

#[test]
fn day_numbers_floor_towards_the_past() {
    assert_eq!(day_number(0), 0);
    assert_eq!(day_number(DAY - 1), 0);
    assert_eq!(day_number(DAY), 1);
    assert_eq!(day_number(-1), -1);
    assert_eq!(day_number(-DAY), -1);
    assert_eq!(day_number(-DAY - 1), -2);
    assert_eq!(day_number(NOON_2020_01_02), 18263);
    assert_eq!(day_number(i64::MIN), i64::MIN / DAY - 1);
}

#[test]
fn random_names_are_seven_alphanumerics() {
    for _ in 0..20 {
        let name = random_name();
        assert_eq!(name.chars().count(), 7);
        assert!(name.chars().all(|c| c.is_ascii_alphanumeric()));
    }
}

#[test]
fn insert_canonical_reports_each_collision() {
    let mut store = ShortlinkStore::new();
    let entry = |n: &str, t: &str| bitly::models::CanonicalShortlink { name: n.to_string(), target: t.to_string() };
    assert!(matches!(store.insert_canonical(entry("abc", "http://t.com"), 0), InsertOutcome::Inserted));
    match store.insert_canonical(entry("xyz", "http://t.com"), 0) {
        InsertOutcome::TargetAlreadyExists(l) => {
            assert_eq!(l.name, "abc");
            assert_eq!(l.target, "http://t.com");
        },
        _ => panic!("the target's entry was not handed back"),
    }
    assert!(matches!(store.insert_canonical(entry("abc", "http://u.com"), 0), InsertOutcome::NameAlreadyExists));
    store.create_custom_shortlink("cus", "http://v.com", 0).unwrap();
    assert!(matches!(store.insert_canonical(entry("cus", "http://w.com"), 0), InsertOutcome::NameAlreadyExists));
}

#[test]
fn canonical_steps() {
    let candidate = "cand123".to_string();
    let target = "http://t.com".to_string();
    match next_canonical_step(0, InsertOutcome::Inserted, &candidate, &target) {
        CanonicalStep::Done(l) => {
            assert_eq!(l.name, "cand123");
            assert_eq!(l.target, "http://t.com");
        },
        _ => panic!("an insert did not finish creation"),
    }
    let existing = Shortlink { name: "old1234".to_string(), target: target.clone() };
    match next_canonical_step(3, InsertOutcome::TargetAlreadyExists(existing), &candidate, &target) {
        CanonicalStep::Done(l) => assert_eq!(l.name, "old1234"),
        _ => panic!("an existing entry was not returned"),
    }
    assert!(matches!(next_canonical_step(0, InsertOutcome::NameAlreadyExists, &candidate, &target), CanonicalStep::Retry));
    assert!(matches!(
        next_canonical_step(MAX_ATTEMPTS - 2, InsertOutcome::NameAlreadyExists, &candidate, &target),
        CanonicalStep::Retry
    ));
    assert!(matches!(
        next_canonical_step(MAX_ATTEMPTS - 1, InsertOutcome::NameAlreadyExists, &candidate, &target),
        CanonicalStep::GiveUp
    ));
}

#[test]
fn insert_reports_are_classified() {
    assert!(matches!(classify_insert(InsertReport::Stored), InsertOutcome::Inserted));
    assert!(matches!(classify_insert(InsertReport::NameInCustom), InsertOutcome::NameAlreadyExists));
    assert!(matches!(classify_insert(InsertReport::UniqueViolation(None)), InsertOutcome::NameAlreadyExists));
    let existing = Shortlink { name: "abcdefg".to_string(), target: "http://t.com".to_string() };
    match classify_insert(InsertReport::UniqueViolation(Some(existing))) {
        InsertOutcome::TargetAlreadyExists(l) => {
            assert_eq!(l.name, "abcdefg");
            assert_eq!(l.target, "http://t.com");
        },
        _ => panic!("a target collision was not recognised"),
    }
}

#[test]
fn custom_name_free_only_when_unused() {
    assert!(custom_name_is_free(0));
    assert!(!custom_name_is_free(1));
    assert!(!custom_name_is_free(2));
}

#[test]
fn resolution_prefers_canonical_and_records_hits_only() {
    let both = resolve_from(Some("http://a.com".to_string()), Some("http://b.com".to_string()));
    assert_eq!(both.target, Some("http://a.com".to_string()));
    assert!(both.record_visit);
    let custom = resolve_from(None, Some("http://b.com".to_string()));
    assert_eq!(custom.target, Some("http://b.com".to_string()));
    assert!(custom.record_visit);
    let miss = resolve_from(None, None);
    assert_eq!(miss.target, None);
    assert!(!miss.record_visit);
}

#[test]
fn canonical_creation_on_empty_store_succeeds() {
    let mut store = ShortlinkStore::new();
    let link = store.create_shortlink("http://www.google.com", 3).ok().unwrap();
    assert_eq!(link.target, "http://www.google.com");
    assert_eq!(store.get_stats(&link.name).unwrap().created_on, 3);
}
