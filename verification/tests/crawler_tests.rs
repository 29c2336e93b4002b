use web_crawler::config::Config;
use web_crawler::crawler::{exit_code, Crawler, ExitReason, Poll, RobotsCheck};
use web_crawler::document::StoredDocument;
use web_crawler::fetch::{classify, robots_body, FetchOutcome, FetchResponse, FetchResult};
use web_crawler::models::{FailureKind, UrlState, Urls};
use web_crawler::rate_limiter::Acquire;
use web_crawler::scheduler::{Action, Event, WorkerState};

const PAGE: &str = "<html><body><a href=\"https://ex.com/a\">a</a><a href=\"https://ex.com/b\">b</a><a href=\"https://other.com/c\">c</a></body></html>";

fn crawler(delay: u32) -> Crawler {
    Crawler::new(Config::new(delay, "https://ex.com/".to_string(), "".to_string()))
}

fn answer(status: u16, body: &str) -> FetchResponse {
    FetchResponse::Answer { status, body: body.to_string() }
}

fn state_of(c: &Crawler, url: &str) -> Option<UrlState> {
    c.frontier().state_of(url)
}

/// Runs one worker until it goes back to `Idle` or stops. Every fetch of a
/// page gives `PAGE`; no domain has a `robots.txt`.
fn one_round(c: &mut Crawler, now: u64) -> (WorkerState, Vec<Action>) {
    let mut seen = Vec::new();
    let mut step = c.step(WorkerState::Idle, Event::Resume, now);
    loop {
        let event = match &step.1 {
            Action::FetchRobots { .. } => Event::RobotsAnswer { response: answer(404, "no robots here") },
            Action::Fetch { .. } => Event::Fetched { response: answer(200, PAGE) },
            _ => Event::Resume,
        };
        let state = step.0;
        seen.push(step.1);
        if state == WorkerState::Idle || state == WorkerState::Stopped {
            return (state, seen);
        }
        step = c.step(state, event, now);
    }
}

#[test]
fn one_pass_over_the_seed_page() {
    let mut c = crawler(0);
    c.start(1000);
    assert_eq!(c.frontier().len(), 1);
    let (state, actions) = one_round(&mut c, 1_431_648_000_000);
    assert_eq!(state, WorkerState::Idle);
    assert_eq!(
        actions,
        vec![
            Action::Continue,
            Action::Continue,
            Action::FetchRobots { url: "https://ex.com/robots.txt".to_string() },
            Action::Continue,
            Action::Fetch { url: "https://ex.com/".to_string() },
            Action::Continue,
            Action::SaveLinks { urls: vec!["https://ex.com/a".to_string(), "https://ex.com/b".to_string()] },
            Action::Store {
                document: StoredDocument {
                    text: PAGE.to_string(),
                    url: "https://ex.com/".to_string(),
                    parsed_dttm: Some("15/05/2015 00:00:00".to_string()),
                },
            },
        ]
    );
    let records: Vec<(String, UrlState)> = c.frontier().records().iter().map(|r| (r.path.clone(), r.state)).collect();
    assert_eq!(
        records,
        vec![
            ("https://ex.com/".to_string(), UrlState::Done),
            ("https://ex.com/a".to_string(), UrlState::Pending),
            ("https://ex.com/b".to_string(), UrlState::Pending),
        ]
    );
    assert_eq!(state_of(&c, "https://other.com/c"), None);
}

#[test]
fn a_whole_crawl_ends_when_all_is_quiet() {
    let mut c = crawler(0);
    c.start(0);
    let mut fetched = Vec::new();
    let mut backoffs = 0;
    let mut reason = None;
    for now in 0..100u64 {
        let (state, actions) = one_round(&mut c, now);
        for a in actions {
            match a {
                Action::Fetch { url } => fetched.push(url),
                Action::Backoff => backoffs += 1,
                Action::Exit { reason: r } => reason = Some(r),
                _ => {},
            }
        }
        if state == WorkerState::Stopped {
            break;
        }
    }
    assert_eq!(fetched, vec!["https://ex.com/".to_string(), "https://ex.com/a".to_string(), "https://ex.com/b".to_string()]);
    assert_eq!(backoffs, 2);
    assert_eq!(reason, Some(ExitReason::Finished));
    assert_eq!(c.frontier().len(), 3);
    assert!(c.frontier().records().iter().all(|r| r.state == UrlState::Done));
    assert_eq!(c.step(WorkerState::Stopped, Event::Resume, 200), (WorkerState::Stopped, Action::Exit { reason: ExitReason::Finished }));
}

#[test]
fn a_disallowed_url_is_failed_without_a_fetch() {
    let mut c = crawler(1000);
    c.start(0);
    assert_eq!(c.get_next_url(0), Poll::Url("https://ex.com/".to_string()));
    assert_eq!(c.check_robots("https://ex.com/"), RobotsCheck::NeedRules("https://ex.com/robots.txt".to_string()));
    assert_eq!(state_of(&c, "https://ex.com/"), Some(UrlState::InFlight));
    assert_eq!(c.check_robots("https://ex.com/"), RobotsCheck::Busy);
    let url = "https://ex.com/".to_string();
    let step = c.step(
        WorkerState::AwaitRobots { url: url.clone() },
        Event::RobotsAnswer { response: answer(200, "User-agent: *\nDisallow: /") },
        5,
    );
    let skipped = FetchResult { url, outcome: FetchOutcome::Skipped(FailureKind::RobotsDisallowed) };
    assert_eq!(step, (WorkerState::Idle, Action::Report { result: skipped }));
    assert_eq!(state_of(&c, "https://ex.com/"), Some(UrlState::Failed(FailureKind::RobotsDisallowed)));
    assert_eq!(c.policies().policy("https://ex.com").unwrap().last_fetch_at, None);
    assert_eq!(c.check_robots("https://ex.com/other"), RobotsCheck::Denied);
}

#[test]
fn an_allowed_url_goes_on_to_the_rate_limit() {
    let mut c = crawler(1000);
    c.start(0);
    assert_eq!(c.get_next_url(0), Poll::Url("https://ex.com/".to_string()));
    assert!(c.get_scraping_policy("https://ex.com/", Some("User-agent: *\nDisallow: /private")));
    assert!(!c.get_scraping_policy("https://ex.com/", None));
    assert_eq!(c.check_robots("https://ex.com/"), RobotsCheck::Allowed);
    let url = "https://ex.com/".to_string();
    let step = c.step(WorkerState::CheckRobots { url: url.clone() }, Event::Resume, 5);
    assert_eq!(step, (WorkerState::RateLimitWait { url: url.clone() }, Action::Continue));
    let step = c.step(step.0, Event::Resume, 5);
    assert_eq!(step, (WorkerState::Fetch { url: url.clone() }, Action::Fetch { url: url.clone() }));
    let step = c.step(step.0, Event::Resume, 6);
    assert_eq!(step, (WorkerState::Fetch { url: url.clone() }, Action::Fetch { url }));
}

#[test]
fn the_rate_limit_makes_a_worker_sleep() {
    let mut c = crawler(1000);
    assert_eq!(c.rate_limit("https://ex.com/a", 5000), Acquire::Granted);
    assert_eq!(c.rate_limit("https://EX.com/b#x", 5400), Acquire::Wait(600));
    let url = "https://ex.com/b".to_string();
    let step = c.step(WorkerState::RateLimitWait { url: url.clone() }, Event::Resume, 5400);
    assert_eq!(step, (WorkerState::RateLimitWait { url: url.clone() }, Action::Sleep { millis: 600 }));
    let step = c.step(step.0, Event::Resume, 6000);
    assert_eq!(step, (WorkerState::Fetch { url: url.clone() }, Action::Fetch { url }));
    assert_eq!(c.rate_limit("https://elsewhere.org/", 6000), Acquire::Granted);
}

#[test]
fn a_failed_fetch_marks_the_url_and_goes_on() {
    let mut c = crawler(100);
    c.start(0);
    c.frontier();
    assert_eq!(c.get_next_url(0), Poll::Url("https://ex.com/".to_string()));
    let url = "https://ex.com/".to_string();
    let step = c.step(WorkerState::Fetch { url: url.clone() }, Event::Fetched { response: answer(404, "gone") }, 77);
    let failed = FetchResult { url, outcome: FetchOutcome::HttpError(404) };
    assert_eq!(step, (WorkerState::Idle, Action::Report { result: failed }));
    assert_eq!(state_of(&c, "https://ex.com/"), Some(UrlState::Failed(FailureKind::Http(404))));
    assert_eq!(c.policies().policy("https://ex.com").unwrap().last_fetch_at, Some(77));
    assert_eq!(c.stopped(), None);

    let mut d = crawler(100);
    d.start(0);
    assert_eq!(d.get_next_url(0), Poll::Url("https://ex.com/".to_string()));
    assert_eq!(d.get_document("https://ex.com/", FetchResponse::NetworkError, 9), FetchOutcome::NetworkError);
    assert_eq!(state_of(&d, "https://ex.com/"), Some(UrlState::Failed(FailureKind::Network)));
    assert_eq!(d.get_next_url(0), Poll::Empty);
}

#[test]
fn a_good_fetch_hands_the_body_on() {
    let mut c = crawler(100);
    c.start(0);
    assert_eq!(c.get_next_url(0), Poll::Url("https://ex.com/".to_string()));
    assert_eq!(c.get_document("https://ex.com/", answer(204, "body"), 50), FetchOutcome::Success("body".to_string()));
    assert_eq!(state_of(&c, "https://ex.com/"), Some(UrlState::InFlight));
    assert_eq!(c.rate_limit("https://ex.com/", 149), Acquire::Wait(1));
}

#[test]
fn only_statuses_from_200_to_299_succeed() {
    assert_eq!(classify(answer(200, "x")), FetchOutcome::Success("x".to_string()));
    assert_eq!(classify(answer(299, "")), FetchOutcome::Success("".to_string()));
    assert_eq!(classify(answer(199, "x")), FetchOutcome::HttpError(199));
    assert_eq!(classify(answer(300, "x")), FetchOutcome::HttpError(300));
    assert_eq!(classify(answer(0, "x")), FetchOutcome::HttpError(0));
    assert_eq!(classify(answer(500, "x")), FetchOutcome::HttpError(500));
    assert_eq!(classify(FetchResponse::NetworkError), FetchOutcome::NetworkError);
}

#[test]
fn links_are_filtered_and_deduplicated() {
    let mut c = crawler(0);
    c.start(0);
    let added = c.update_metadata(PAGE, "https://ex.com/", 5);
    assert_eq!(added, vec!["https://ex.com/a".to_string(), "https://ex.com/b".to_string()]);
    assert_eq!(c.update_metadata(PAGE, "https://ex.com/", 6), Vec::<String>::new());
    let more = "<a href=\"https://EX.com/a#again\"></a><a href=\"https://ex.com/\"></a><a href=\"https://ex.com/new\"></a><a href=\"/relative\"></a><a href=\"https://ex.com/new\"></a>";
    assert_eq!(c.update_metadata(more, "https://ex.com/dir/page.html?q=1#top", 7), vec!["https://ex.com/new".to_string(), "https://ex.com/relative".to_string()]);
    assert_eq!(c.frontier().len(), 5);
    assert_eq!(c.frontier().records()[3], Urls { path: "https://ex.com/new".to_string(), state: UrlState::Pending, discovered_at: 7 });
    let relative = "<a href=\"next.html\"></a><a href=\"?page=2\"></a><a href=\"#frag\"></a><a href=\"//ex.com/other\"></a><a href=\"//else.org/x\"></a><a href=\"mailto:me@ex.com\"></a><a href=\"\"></a><a href=\"../up/./here\"></a>";
    assert_eq!(
        c.update_metadata(relative, "https://ex.com/dir/page.html?q=1#top", 8),
        vec![
            "https://ex.com/dir/next.html".to_string(),
            "https://ex.com/dir/page.html?page=2".to_string(),
            "https://ex.com/dir/page.html?q=1".to_string(),
            "https://ex.com/other".to_string(),
            "https://ex.com/up/here".to_string(),
        ]
    );
    let links = vec!["https://ex.com/z#f".to_string(), "https://ex.com/z".to_string(), "ftp://ex.com/".to_string()];
    assert_eq!(c.enqueue_links(&links, 9), vec!["https://ex.com/z".to_string()]);
}

#[test]
fn the_url_is_done_even_without_a_document() {
    let mut c = crawler(0);
    c.start(0);
    assert_eq!(c.get_next_url(0), Poll::Url("https://ex.com/".to_string()));
    assert_eq!(c.update_document("body", "https://ex.com/", u64::MAX), StoredDocument::new("body", "https://ex.com/", None));
    assert_eq!(state_of(&c, "https://ex.com/"), Some(UrlState::Done));
    assert_eq!(c.update_document("body", "https://ex.com/", 0), StoredDocument::new("body", "https://ex.com/", Some("01/01/1970 00:00:00".to_string())));
    assert_eq!(c.update_document("body", "https://ex.com/unknown", 0).url, "https://ex.com/unknown");
    assert_eq!(c.frontier().len(), 1);
}

#[test]
fn the_time_of_a_fetch_is_written_in_utc() {
    let d = StoredDocument::at("t", "u", 0);
    assert_eq!(d, StoredDocument { text: "t".to_string(), url: "u".to_string(), parsed_dttm: Some("01/01/1970 00:00:00".to_string()) });
    assert_eq!(StoredDocument::at("", "", 1_431_648_000_999).parsed_dttm, Some("15/05/2015 00:00:00".to_string()));
    assert_eq!(StoredDocument::at("", "", 951_827_696_000).parsed_dttm, Some("29/02/2000 12:34:56".to_string()));
    assert_eq!(StoredDocument::at("", "", 4_102_444_799_000).parsed_dttm, Some("31/12/2099 23:59:59".to_string()));
    assert_eq!(StoredDocument::at("x", "y", i64::MAX as u64), StoredDocument { text: "x".to_string(), url: "y".to_string(), parsed_dttm: None });
    assert_eq!(StoredDocument::at("", "", i64::MAX as u64 + 1).parsed_dttm, None);
    assert_eq!(StoredDocument::at("", "", u64::MAX).parsed_dttm, None);
}

#[test]
fn cancelling_releases_the_claim() {
    let mut c = crawler(0);
    c.start(0);
    assert_eq!(c.get_next_url(0), Poll::Url("https://ex.com/".to_string()));
    c.cancel();
    assert_eq!(c.stopped(), Some(ExitReason::Cancelled));
    let url = "https://ex.com/".to_string();
    let step = c.step(WorkerState::Fetch { url }, Event::Fetched { response: answer(200, PAGE) }, 10);
    assert_eq!(step, (WorkerState::Stopped, Action::Exit { reason: ExitReason::Cancelled }));
    assert_eq!(state_of(&c, "https://ex.com/"), Some(UrlState::Pending));
    assert_eq!(c.frontier().len(), 1);
    assert_eq!(c.get_next_url(0), Poll::Stop(ExitReason::Cancelled));
    assert_eq!(c.step(WorkerState::Idle, Event::Resume, 11), (WorkerState::Stopped, Action::Exit { reason: ExitReason::Cancelled }));
    c.halt();
    assert_eq!(c.stopped(), Some(ExitReason::Cancelled));
}

#[test]
fn a_failing_metadata_store_halts_the_crawl() {
    let mut c = crawler(0);
    c.start(0);
    assert_eq!(c.get_next_url(0), Poll::Url("https://ex.com/".to_string()));
    let state = WorkerState::Persist { url: "https://ex.com/".to_string(), body: PAGE.to_string() };
    let step = c.step(state, Event::FrontierFailed, 10);
    assert_eq!(step, (WorkerState::Stopped, Action::Exit { reason: ExitReason::FrontierError }));
    assert_eq!(c.stopped(), Some(ExitReason::FrontierError));
    assert_eq!(state_of(&c, "https://ex.com/"), Some(UrlState::Pending));
    c.cancel();
    assert_eq!(c.stopped(), Some(ExitReason::FrontierError));
    assert_eq!(exit_code(ExitReason::FrontierError), 1);
    assert_eq!(exit_code(ExitReason::Cancelled), 1);
    assert_eq!(exit_code(ExitReason::Finished), 0);
}

#[test]
fn the_crawl_is_not_finished_while_a_fetch_is_under_way() {
    let mut c = crawler(0);
    c.start(0);
    assert_eq!(c.get_next_url(0), Poll::Url("https://ex.com/".to_string()));
    for _ in 0..10 {
        assert_eq!(c.get_next_url(0), Poll::Empty);
    }
    assert_eq!(c.update_document("", "https://ex.com/", 0).text, "");
    assert_eq!(c.get_next_url(0), Poll::Stop(ExitReason::Finished));
}

#[test]
fn the_quiet_period_counts_empty_polls_in_a_row() {
    let mut config = Config::new(0, "https://ex.com/".to_string(), "".to_string());
    config.quiet_polls = 3;
    let mut c = Crawler::new(config);
    assert_eq!(c.get_next_url(0), Poll::Empty);
    assert_eq!(c.get_next_url(0), Poll::Empty);
    assert_eq!(c.get_next_url(0), Poll::Stop(ExitReason::Finished));
    let mut d = crawler(0);
    assert_eq!(d.get_next_url(0), Poll::Empty);
    assert_eq!(d.get_next_url(0), Poll::Empty);
    d.start(0);
    assert_eq!(d.get_next_url(0), Poll::Url("https://ex.com/".to_string()));
    d.update_document("", "https://ex.com/", 0);
    assert_eq!(d.get_next_url(0), Poll::Empty);
    assert_eq!(d.get_next_url(0), Poll::Empty);
    assert_eq!(d.get_next_url(0), Poll::Stop(ExitReason::Finished));
}

#[test]
fn the_budget_bounds_the_number_of_claims() {
    let mut config = Config::new(0, "https://ex.com/".to_string(), "".to_string());
    config.url_budget = 2;
    let mut c = Crawler::new(config);
    c.start(0);
    c.update_metadata(PAGE, "https://ex.com/", 1);
    assert_eq!(c.get_next_url(0), Poll::Url("https://ex.com/".to_string()));
    assert_eq!(c.get_next_url(0), Poll::Url("https://ex.com/a".to_string()));
    assert_eq!(c.get_next_url(0), Poll::Stop(ExitReason::Finished));
    assert_eq!(state_of(&c, "https://ex.com/b"), Some(UrlState::Pending));
}

#[test]
fn start_recovers_and_seeds() {
    let mut c = Crawler::new(Config::new(0, "https://ex.com/".to_string(), "index.html".to_string()));
    assert!(c.restore(Urls { path: "https://ex.com/old".to_string(), state: UrlState::InFlight, discovered_at: 3 }));
    assert!(c.restore(Urls { path: "https://ex.com/done".to_string(), state: UrlState::Done, discovered_at: 4 }));
    assert!(!c.restore(Urls { path: "https://other.com/".to_string(), state: UrlState::Pending, discovered_at: 5 }));
    c.start(9);
    assert_eq!(
        c.frontier().records().clone(),
        vec![
            Urls { path: "https://ex.com/old".to_string(), state: UrlState::Pending, discovered_at: 3 },
            Urls { path: "https://ex.com/done".to_string(), state: UrlState::Done, discovered_at: 4 },
            Urls { path: "https://ex.com/index.html".to_string(), state: UrlState::Pending, discovered_at: 9 },
        ]
    );
    c.start(10);
    assert_eq!(c.frontier().len(), 3);
    c.release("https://ex.com/old");
    assert_eq!(state_of(&c, "https://ex.com/old"), Some(UrlState::Pending));
}

#[test]
fn the_rules_of_a_domain_are_fetched_by_one_worker() {
    let mut c = crawler(0);
    c.start(0);
    c.update_metadata(PAGE, "https://ex.com/", 1);
    let first = c.step(WorkerState::SelectUrl, Event::Resume, 2);
    assert_eq!(first, (WorkerState::CheckRobots { url: "https://ex.com/".to_string() }, Action::Continue));
    let second = c.step(WorkerState::SelectUrl, Event::Resume, 2);
    assert_eq!(second, (WorkerState::CheckRobots { url: "https://ex.com/a".to_string() }, Action::Continue));
    let first = c.step(first.0, Event::Resume, 3);
    assert_eq!(
        first,
        (WorkerState::AwaitRobots { url: "https://ex.com/".to_string() }, Action::FetchRobots { url: "https://ex.com/robots.txt".to_string() })
    );
    let second = c.step(second.0, Event::Resume, 3);
    assert_eq!(second, (WorkerState::CheckRobots { url: "https://ex.com/a".to_string() }, Action::Backoff));
    let second = c.step(second.0, Event::RobotsAnswer { response: FetchResponse::NetworkError }, 4);
    assert_eq!(second, (WorkerState::CheckRobots { url: "https://ex.com/a".to_string() }, Action::Backoff));
    let again = c.step(WorkerState::AwaitRobots { url: "https://ex.com/".to_string() }, Event::Resume, 4);
    assert_eq!(again, first);
    let first = c.step(first.0, Event::RobotsAnswer { response: answer(200, "User-agent: *\nDisallow: /a") }, 5);
    assert_eq!(first, (WorkerState::RateLimitWait { url: "https://ex.com/".to_string() }, Action::Continue));
    let second = c.step(second.0, Event::Resume, 6);
    let skipped = FetchResult { url: "https://ex.com/a".to_string(), outcome: FetchOutcome::Skipped(FailureKind::RobotsDisallowed) };
    assert_eq!(second, (WorkerState::Idle, Action::Report { result: skipped }));
    let policy = c.policies().policy("https://ex.com").unwrap();
    assert!(policy.robots_requested);
    assert_eq!(policy.disallowed_prefixes, Some(vec!["/a".to_string()]));
}

#[test]
fn the_time_budget_ends_the_claims() {
    let mut config = Config::new(0, "https://ex.com/".to_string(), "".to_string());
    config.time_budget = 500;
    let mut c = Crawler::new(config);
    c.update_metadata(PAGE, "https://ex.com/", 1);
    assert_eq!(c.get_next_url(10_000), Poll::Url("https://ex.com/a".to_string()));
    c.start(1000);
    assert_eq!(c.get_next_url(999), Poll::Url("https://ex.com/a".to_string()));
    assert_eq!(c.get_next_url(1499), Poll::Url("https://ex.com/b".to_string()));
    c.update_metadata("<a href=\"https://ex.com/late\"></a>", "https://ex.com/", 1499);
    assert_eq!(c.get_next_url(1500), Poll::Stop(ExitReason::Finished));
    assert_eq!(c.step(WorkerState::SelectUrl, Event::Resume, 1500), (WorkerState::Stopped, Action::Exit { reason: ExitReason::Finished }));
    assert_eq!(state_of(&c, "https://ex.com/late"), Some(UrlState::Pending));
    assert_eq!(state_of(&c, "https://ex.com/"), Some(UrlState::Pending));
}

#[test]
fn only_a_good_answer_gives_rules() {
    assert_eq!(robots_body(answer(200, "User-agent: *")), Some("User-agent: *".to_string()));
    assert_eq!(robots_body(answer(404, "<html>not found</html>")), None);
    assert_eq!(robots_body(answer(500, "")), None);
    assert_eq!(robots_body(FetchResponse::NetworkError), None);
    let mut c = crawler(0);
    c.start(0);
    assert_eq!(c.get_next_url(0), Poll::Url("https://ex.com/".to_string()));
    let url = "https://ex.com/".to_string();
    let step = c.step(WorkerState::AwaitRobots { url: url.clone() }, Event::RobotsAnswer { response: answer(404, "User-agent: *\nDisallow: /") }, 1);
    assert_eq!(step, (WorkerState::RateLimitWait { url }, Action::Continue));
    assert_eq!(c.policies().policy("https://ex.com").unwrap().disallowed_prefixes, Some(Vec::new()));
    assert_eq!(c.config().backoff, 100);
    assert_eq!(c.frontier().record_of("https://EX.com/#x").unwrap().discovered_at, 0);
    assert!(c.frontier().record_of("https://ex.com/none").is_none());
}

#[test]
fn a_worker_holds_its_url_from_the_claim_to_the_store() {
    let url = "https://ex.com/".to_string();
    let body = "b".to_string();
    assert_eq!(WorkerState::Idle.held(), None);
    assert_eq!(WorkerState::SelectUrl.held(), None);
    assert_eq!(WorkerState::Stopped.held(), None);
    assert_eq!(WorkerState::CheckRobots { url: url.clone() }.held(), Some("https://ex.com/"));
    assert_eq!(WorkerState::AwaitRobots { url: url.clone() }.held(), Some("https://ex.com/"));
    assert_eq!(WorkerState::RateLimitWait { url: url.clone() }.held(), Some("https://ex.com/"));
    assert_eq!(WorkerState::Fetch { url: url.clone() }.held(), Some("https://ex.com/"));
    assert_eq!(WorkerState::ExtractLinks { url: url.clone(), body: body.clone() }.held(), Some("https://ex.com/"));
    assert_eq!(WorkerState::Persist { url, body }.held(), Some("https://ex.com/"));
    let mut c = crawler(0);
    assert_eq!(c.exit_reason(), ExitReason::Finished);
    c.halt();
    assert_eq!(c.exit_reason(), ExitReason::FrontierError);
}

#[test]
fn three_workers_fetch_each_url_once_and_keep_the_delay() {
    let mut c = crawler(100);
    c.start(0);
    let page = |url: &str| -> String {
        if url == "https://ex.com/" {
            (0..6).map(|i| format!("<a href=\"https://ex.com/doc{}\">x</a><a href=\"https://ex.com/\">home</a>", i)).collect()
        } else {
            "<a href=\"https://ex.com/doc0\">again</a><a href=\"https://else.org/\">out</a>".to_string()
        }
    };
    let mut workers: Vec<(WorkerState, Event)> = (0..3).map(|_| (WorkerState::Idle, Event::Resume)).collect();
    let mut fetched: Vec<(String, u64)> = Vec::new();
    let mut now = 0u64;
    while workers.iter().any(|w| w.0 != WorkerState::Stopped) {
        assert!(now < 1_000_000);
        for w in 0..workers.len() {
            now += 7;
            let (state, event) = std::mem::replace(&mut workers[w], (WorkerState::Stopped, Event::Resume));
            let waiting = matches!(state, WorkerState::RateLimitWait { .. });
            let (next, action) = c.step(state, event, now);
            let event = match action {
                Action::FetchRobots { .. } => Event::RobotsAnswer { response: answer(200, "User-agent: *\nDisallow: /doc3") },
                Action::Fetch { url } => {
                    if waiting {
                        fetched.push((url.clone(), now));
                    }
                    Event::Fetched { response: answer(200, &page(&url)) }
                }
                _ => Event::Resume,
            };
            workers[w] = (next, event);
        }
    }
    let mut urls: Vec<String> = fetched.iter().map(|f| f.0.clone()).collect();
    assert_eq!(urls.len(), 6);
    urls.sort();
    urls.dedup();
    assert_eq!(urls, vec!["https://ex.com/", "https://ex.com/doc0", "https://ex.com/doc1", "https://ex.com/doc2", "https://ex.com/doc4", "https://ex.com/doc5"]);
    for pair in fetched.windows(2) {
        assert!(pair[0].1 + 100 <= pair[1].1);
    }
    assert_eq!(state_of(&c, "https://ex.com/doc3"), Some(UrlState::Failed(FailureKind::RobotsDisallowed)));
    assert_eq!(c.frontier().len(), 7);
    assert_eq!(c.frontier().records().iter().filter(|r| r.state == UrlState::Done).count(), 6);
    assert_eq!(c.exit_reason(), ExitReason::Finished);
}

#[test]
fn a_look_alike_host_never_becomes_a_record() {
    let mut c = Crawler::new(Config::new(0, "https://ex.com".to_string(), "".to_string()));
    let doc = "<a href='https://ex.com.evil.org/x'>x</a><a href='https://ex.computer/'>y</a><a href='https://ex.com:8080/'>z</a>";
    assert_eq!(c.update_metadata(doc, "https://ex.com/", 1), Vec::<String>::new());
    assert_eq!(c.frontier().len(), 0);
    assert_eq!(c.update_metadata("<a href='https://ex.com/x'>x</a><a href='/y'>y</a>", "https://ex.com", 2), vec!["https://ex.com/x".to_string(), "https://ex.com/y".to_string()]);
    c.start(3);
    assert_eq!(state_of(&c, "https://ex.com"), Some(UrlState::Pending));
    assert_eq!(c.frontier().len(), 3);
}

#[test]
fn the_only_pending_url_is_the_one_polled() {
    let mut c = crawler(0);
    assert!(c.restore(Urls { path: "https://ex.com/done".to_string(), state: UrlState::Done, discovered_at: 1 }));
    assert!(c.restore(Urls { path: "https://ex.com/".to_string(), state: UrlState::InFlight, discovered_at: 2 }));
    assert_eq!(c.get_next_url(5), Poll::Empty);
    c.start(6);
    assert_eq!(c.frontier().len(), 2);
    assert_eq!(c.get_next_url(7), Poll::Url("https://ex.com/".to_string()));
}

#[test]
fn the_store_is_asked_even_for_a_time_without_a_date() {
    let mut c = crawler(0);
    c.start(0);
    assert_eq!(c.get_next_url(0), Poll::Url("https://ex.com/".to_string()));
    let state = WorkerState::Persist { url: "https://ex.com/".to_string(), body: "b".to_string() };
    let step = c.step(state, Event::Resume, u64::MAX);
    let document = StoredDocument { text: "b".to_string(), url: "https://ex.com/".to_string(), parsed_dttm: None };
    assert_eq!(step, (WorkerState::Idle, Action::Store { document }));
    assert_eq!(state_of(&c, "https://ex.com/"), Some(UrlState::Done));
}

#[test]
fn every_policy_has_the_delay_of_the_settings() {
    let mut c = crawler(250);
    c.rate_limit("https://ex.com/a", 1);
    c.get_scraping_policy("https://b.org/", None);
    c.check_robots("https://c.net/x");
    c.get_document("https://d.io/", FetchResponse::NetworkError, 3);
    for domain in ["https://ex.com", "https://b.org", "https://c.net", "https://d.io"] {
        assert_eq!(c.policies().policy(domain).unwrap().min_delay, 250);
    }
}
