use web_crawler::frontier::Frontier;
use web_crawler::models::{FailureKind, UrlState, Urls};

fn paths(f: &Frontier) -> Vec<String> {
    f.records().iter().map(|r| r.path.clone()).collect()
}

#[test]
fn enqueue_is_idempotent() {
    let mut f = Frontier::new("https://ex.com/");
    assert!(f.enqueue("https://ex.com/a", 1));
    assert!(!f.enqueue("https://ex.com/a", 2));
    assert!(!f.enqueue("https://ex.com/a", 3));
    assert_eq!(f.len(), 1);
    assert_eq!(f.records()[0], Urls { path: "https://ex.com/a".to_string(), state: UrlState::Pending, discovered_at: 1 });
    assert_eq!(f.next(), Some("https://ex.com/a".to_string()));
    assert!(!f.enqueue("https://ex.com/a", 4));
    assert_eq!(f.next(), None);
    assert_eq!(f.len(), 1);
}

#[test]
fn enqueue_identifies_urls_by_normal_form() {
    let mut f = Frontier::new("https://EX.com/");
    assert!(f.enqueue("https://ex.com/a#top", 1));
    assert!(!f.enqueue("HTTPS://EX.COM/a", 2));
    assert!(!f.enqueue("https://ex.com/a#bottom", 3));
    assert!(f.enqueue("https://ex.com/A", 4));
    assert_eq!(paths(&f), vec!["https://ex.com/a".to_string(), "https://ex.com/A".to_string()]);
}

#[test]
fn each_pending_url_is_claimed_once() {
    let mut f = Frontier::new("https://ex.com/");
    for i in 0..5u64 {
        assert!(f.enqueue(&format!("https://ex.com/{}", i), i));
    }
    let mut claimed = Vec::new();
    for _ in 0..10 {
        if let Some(url) = f.next() {
            assert!(!claimed.contains(&url));
            claimed.push(url);
        }
    }
    assert_eq!(claimed.len(), 5);
    for i in 0..5u64 {
        assert_eq!(f.state_of(&format!("https://ex.com/{}", i)), Some(UrlState::InFlight));
    }
    assert!(!f.has_state(UrlState::Pending));
}

#[test]
fn next_goes_by_time_of_discovery_then_by_arrival() {
    let mut f = Frontier::new("https://ex.com/");
    f.enqueue("https://ex.com/late", 5);
    f.enqueue("https://ex.com/early-1", 3);
    f.enqueue("https://ex.com/early-2", 3);
    f.enqueue("https://ex.com/first", 0);
    assert_eq!(f.next(), Some("https://ex.com/first".to_string()));
    assert_eq!(f.next(), Some("https://ex.com/early-1".to_string()));
    assert_eq!(f.next(), Some("https://ex.com/early-2".to_string()));
    assert_eq!(f.next(), Some("https://ex.com/late".to_string()));
    assert_eq!(f.next(), None);
}

#[test]
fn next_on_empty_frontier_is_none() {
    let mut f = Frontier::new("https://ex.com/");
    assert_eq!(f.next(), None);
    assert_eq!(f.len(), 0);
}

#[test]
fn stale_in_flight_record_is_recovered() {
    let mut f = Frontier::new("https://ex.com/");
    assert!(f.restore(Urls { path: "https://ex.com/done".to_string(), state: UrlState::Done, discovered_at: 1 }));
    assert!(f.restore(Urls { path: "https://ex.com/stale".to_string(), state: UrlState::InFlight, discovered_at: 2 }));
    assert!(f.restore(Urls { path: "https://ex.com/failed".to_string(), state: UrlState::Failed(FailureKind::Http(500)), discovered_at: 3 }));
    assert_eq!(f.next(), None);
    f.recover_stale_in_flight();
    assert_eq!(f.state_of("https://ex.com/stale"), Some(UrlState::Pending));
    assert_eq!(f.state_of("https://ex.com/done"), Some(UrlState::Done));
    assert_eq!(f.state_of("https://ex.com/failed"), Some(UrlState::Failed(FailureKind::Http(500))));
    assert!(!f.has_state(UrlState::InFlight));
    assert_eq!(f.next(), Some("https://ex.com/stale".to_string()));
    assert_eq!(f.records()[1].discovered_at, 2);
}

#[test]
fn urls_outside_the_domain_are_dropped() {
    let mut f = Frontier::new("https://ex.com/");
    assert!(!f.enqueue("https://other.com/c", 1));
    assert!(!f.enqueue("https://ex.com.evil.org/", 1));
    assert!(!f.enqueue("http://ex.com/", 1));
    assert!(!f.enqueue("/relative", 1));
    assert!(!f.enqueue("", 1));
    assert_eq!(f.len(), 0);
    assert_eq!(f.state_of("https://other.com/c"), None);
    assert!(f.enqueue("https://ex.com/", 1));
    assert_eq!(f.len(), 1);
}

#[test]
fn the_domain_is_a_host_not_a_text_prefix() {
    let mut bare = Frontier::new("https://ex.com");
    assert!(!bare.enqueue("https://ex.com.evil.org/x", 1));
    assert!(!bare.enqueue("https://ex.computer/", 1));
    assert!(!bare.enqueue("https://ex.com:8080/", 1));
    assert!(!bare.enqueue("https://ex.co", 1));
    assert!(!bare.restore(Urls::new("https://ex.com.evil.org/x".to_string(), 1)));
    assert_eq!(bare.len(), 0);
    assert!(bare.enqueue("https://ex.com", 2));
    assert!(bare.enqueue("https://EX.com/x#y", 2));
    assert!(bare.enqueue("https://ex.com/", 2));
    assert_eq!(bare.len(), 3);

    let mut slashed = Frontier::new("https://ex.com/");
    assert!(slashed.enqueue("https://ex.com", 1));
    assert!(slashed.enqueue("https://ex.com/a", 1));
    assert!(!slashed.enqueue("https://ex.com.evil.org/", 1));
    assert_eq!(slashed.len(), 2);

    let mut scoped = Frontier::new("https://ex.com/docs/");
    assert!(scoped.enqueue("https://ex.com/docs/a", 1));
    assert!(scoped.enqueue("https://ex.com/docs/", 1));
    assert!(!scoped.enqueue("https://ex.com/docs", 1));
    assert!(!scoped.enqueue("https://ex.com/other", 1));
    assert!(!scoped.enqueue("https://ex.com", 1));
    assert!(!scoped.enqueue("https://else.org/docs/a", 1));
    assert_eq!(scoped.len(), 2);
}

#[test]
fn completion_moves_only_records_in_flight() {
    let mut f = Frontier::new("https://ex.com/");
    f.enqueue("https://ex.com/a", 1);
    f.enqueue("https://ex.com/b", 2);
    assert!(!f.mark_done("https://ex.com/a"));
    assert!(!f.mark_failed("https://ex.com/a", FailureKind::Network));
    assert_eq!(f.state_of("https://ex.com/a"), Some(UrlState::Pending));
    assert!(!f.mark_done("https://ex.com/unknown"));
    assert_eq!(f.next(), Some("https://ex.com/a".to_string()));
    assert!(f.mark_done("https://ex.com/a"));
    assert_eq!(f.state_of("https://ex.com/a"), Some(UrlState::Done));
    assert!(!f.mark_done("https://ex.com/a"));
    assert!(!f.mark_failed("https://ex.com/a", FailureKind::Network));
    assert_eq!(f.state_of("https://ex.com/a"), Some(UrlState::Done));
    assert_eq!(f.next(), Some("https://ex.com/b".to_string()));
    assert!(f.mark_failed("https://ex.com/b", FailureKind::RobotsDisallowed));
    assert_eq!(f.state_of("https://ex.com/b"), Some(UrlState::Failed(FailureKind::RobotsDisallowed)));
    assert!(!f.mark_done("https://ex.com/b"));
    f.recover_stale_in_flight();
    assert!(!f.release("https://ex.com/b"));
    assert_eq!(f.state_of("https://ex.com/a"), Some(UrlState::Done));
    assert_eq!(f.state_of("https://ex.com/b"), Some(UrlState::Failed(FailureKind::RobotsDisallowed)));
    assert_eq!(f.next(), None);
    assert!(f.records()[0].is_parsed());
    assert!(!f.records()[1].is_parsed());
}

#[test]
fn release_puts_a_claimed_url_back_in_line() {
    let mut f = Frontier::new("https://ex.com/");
    f.enqueue("https://ex.com/a", 7);
    f.enqueue("https://ex.com/b", 8);
    assert!(!f.release("https://ex.com/a"));
    assert_eq!(f.next(), Some("https://ex.com/a".to_string()));
    assert!(f.release("https://ex.com/a"));
    assert_eq!(f.state_of("https://ex.com/a"), Some(UrlState::Pending));
    assert_eq!(f.next(), Some("https://ex.com/a".to_string()));
}

#[test]
fn restore_keeps_only_valid_new_records() {
    let mut f = Frontier::new("https://ex.com/");
    assert!(f.restore(Urls::new("https://ex.com/a".to_string(), 1)));
    assert!(!f.restore(Urls::new("https://ex.com/a".to_string(), 2)));
    assert!(!f.restore(Urls::new("https://other.com/a".to_string(), 3)));
    assert!(!f.restore(Urls::new("https://ex.com/a#frag".to_string(), 4)));
    assert!(!f.restore(Urls::new("HTTPS://ex.com/b".to_string(), 5)));
    assert_eq!(f.len(), 1);
    assert_eq!(f.records()[0], Urls { path: "https://ex.com/a".to_string(), state: UrlState::Pending, discovered_at: 1 });
}
