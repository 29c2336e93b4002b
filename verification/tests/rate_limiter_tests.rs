use web_crawler::policy::PolicyCache;
use web_crawler::rate_limiter::Acquire;

#[test]
fn back_to_back_acquires_are_spaced_by_min_delay() {
    let mut cache = PolicyCache::new(100);
    assert_eq!(cache.acquire("d", 1000), Acquire::Granted);
    assert_eq!(cache.acquire("d", 1000), Acquire::Wait(100));
    assert_eq!(cache.acquire("d", 1050), Acquire::Wait(50));
    assert_eq!(cache.acquire("d", 1099), Acquire::Wait(1));
    assert_eq!(cache.policy("d").unwrap().last_fetch_at, Some(1000));
    assert_eq!(cache.acquire("d", 1100), Acquire::Granted);
    assert_eq!(cache.policy("d").unwrap().last_fetch_at, Some(1100));
    assert_eq!(cache.acquire("d", 1199), Acquire::Wait(1));
    assert_eq!(cache.acquire("d", 5000), Acquire::Granted);
}

#[test]
fn different_domains_are_not_serialized() {
    let mut cache = PolicyCache::new(100);
    assert_eq!(cache.acquire("d", 1000), Acquire::Granted);
    assert_eq!(cache.acquire("e", 1000), Acquire::Granted);
    assert_eq!(cache.acquire("f", 1001), Acquire::Granted);
    assert_eq!(cache.acquire("d", 1001), Acquire::Wait(99));
    assert_eq!(cache.acquire("e", 1100), Acquire::Granted);
    assert_eq!(cache.acquire("d", 1100), Acquire::Granted);
}

#[test]
fn zero_delay_always_grants() {
    let mut cache = PolicyCache::new(0);
    assert_eq!(cache.acquire("d", 5), Acquire::Granted);
    assert_eq!(cache.acquire("d", 5), Acquire::Granted);
}

#[test]
fn a_clock_that_went_back_waits_longer() {
    let mut cache = PolicyCache::new(100);
    assert_eq!(cache.acquire("d", 1000), Acquire::Granted);
    assert_eq!(cache.acquire("d", 900), Acquire::Wait(200));
    let mut wide = PolicyCache::new(u64::MAX);
    assert_eq!(wide.acquire("d", 10), Acquire::Granted);
    assert_eq!(wide.acquire("d", 5), Acquire::Wait(u64::MAX));
    assert_eq!(wide.acquire("d", 11), Acquire::Wait(u64::MAX - 1));
}

#[test]
fn the_end_of_a_fetch_moves_the_next_slot() {
    let mut cache = PolicyCache::new(100);
    assert_eq!(cache.acquire("d", 1000), Acquire::Granted);
    cache.note_fetch("d", 1040);
    assert_eq!(cache.acquire("d", 1100), Acquire::Wait(40));
    assert_eq!(cache.acquire("d", 1140), Acquire::Granted);
    cache.note_fetch("d", 1100);
    assert_eq!(cache.policy("d").unwrap().last_fetch_at, Some(1140));
    cache.note_fetch("new", 7);
    assert_eq!(cache.policy("new").unwrap().last_fetch_at, Some(7));
    assert_eq!(cache.policy("new").unwrap().disallowed_prefixes, None);
    assert_eq!(cache.acquire("new", 106), Acquire::Wait(1));
}

#[test]
fn rate_limit_and_rules_share_one_policy() {
    let mut cache = PolicyCache::new(30);
    assert_eq!(cache.acquire("https://d", 10), Acquire::Granted);
    assert_eq!(cache.is_allowed("https://d/x"), None);
    assert!(cache.install("https://d", Some("User-agent: *\nDisallow: /x")));
    let policy = cache.policy("https://d").unwrap();
    assert_eq!(policy.last_fetch_at, Some(10));
    assert_eq!(policy.min_delay, 30);
    assert_eq!(policy.domain, "https://d");
    assert_eq!(cache.is_allowed("https://d/x"), Some(false));
    assert_eq!(cache.acquire("https://d", 39), Acquire::Wait(1));
}
