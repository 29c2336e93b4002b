use web_crawler::models::{FailureKind, UrlState, Urls};

#[test]
fn states_round_trip_through_their_codes() {
    let states = [
        (UrlState::Pending, (0, 0)),
        (UrlState::InFlight, (1, 0)),
        (UrlState::Done, (2, 0)),
        (UrlState::Failed(FailureKind::Network), (3, 0)),
        (UrlState::Failed(FailureKind::Http(404)), (4, 404)),
        (UrlState::Failed(FailureKind::Http(0)), (4, 0)),
        (UrlState::Failed(FailureKind::RobotsDisallowed), (5, 0)),
    ];
    for (state, code) in states {
        assert_eq!(state.code(), code);
        assert_eq!(UrlState::from_code(code.0, code.1), Some(state));
    }
}

#[test]
fn pairs_that_stand_for_no_state_are_refused() {
    assert_eq!(UrlState::from_code(6, 0), None);
    assert_eq!(UrlState::from_code(255, 0), None);
    assert_eq!(UrlState::from_code(0, 1), None);
    assert_eq!(UrlState::from_code(2, 200), None);
    assert_eq!(UrlState::from_code(5, 7), None);
    assert_eq!(UrlState::from_code(4, 65535), Some(UrlState::Failed(FailureKind::Http(65535))));
}

#[test]
fn a_new_record_is_pending() {
    let r = Urls::new("https://ex.com/".to_string(), 42);
    assert_eq!(r, Urls { path: "https://ex.com/".to_string(), state: UrlState::Pending, discovered_at: 42 });
    assert!(!r.is_parsed());
    let done = Urls { path: "p".to_string(), state: UrlState::Done, discovered_at: 0 };
    assert!(done.is_parsed());
}
