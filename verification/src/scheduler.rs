//! The round of a worker, one step at a time.
//!
//! A worker goes round `Idle`, `SelectUrl`, `CheckRobots`, `RateLimitWait`,
//! `Fetch`, `ExtractLinks`, `Persist` and back to `Idle`, and leaves the
//! round early when a URL fails. The one worker that is told to fetch the
//! exclusion rules of a domain is in `AwaitRobots` in the meantime.
//!
//! `Crawler::step` takes the worker from one state to the next and says
//! what the worker has to do before it steps again. The worker does that
//! (it waits, fetches or stores) and steps with the outcome.

use vstd::prelude::*;
use crate::crawler::{
    spec_check, spec_enqueue_all, spec_fetched, spec_links, spec_poll, Crawler, CrawlerView,
    ExitReason, Poll, PollView, RobotsCheck, RobotsCheckView,
};
use crate::document::{spec_document, StoredDocument, StoredDocumentView};
use crate::fetch::{
    robots_body, spec_outcome, spec_robots_body, FetchOutcome, FetchOutcomeView, FetchResponse,
    FetchResponseView, FetchResult, FetchResultView,
};
use crate::frontier::spec_move;
use crate::models::{FailureKind, UrlState, UrlsView};
use crate::policy::{policy_key, spec_install};
use crate::rate_limiter::{spec_acquire_in, Acquire};
use crate::text::{copy_text, texts};
use crate::url::{normalize, resolve_all, robots_url};

verus! {

/// Where a worker stands in its round.
#[derive(Debug, PartialEq, Eq)]
pub enum WorkerState {
    /// Between two rounds.
    Idle,
    /// About to poll the frontier.
    SelectUrl,
    /// Holding a claimed URL that the exclusion rules have not passed yet.
    CheckRobots { url: String },
    /// Holding a claimed URL and fetching the exclusion rules of its domain.
    AwaitRobots { url: String },
    /// Holding a URL that waits for its fetch slot.
    RateLimitWait { url: String },
    /// Holding a URL whose fetch is under way.
    Fetch { url: String },
    /// Holding a fetched body whose links have not been taken yet.
    ExtractLinks { url: String, body: String },
    /// Holding a fetched body that has not been handed to the store yet.
    Persist { url: String, body: String },
    /// Out of the loop.
    Stopped,
}

/// What happened since the worker's last step.
#[derive(Debug, PartialEq, Eq)]
pub enum Event {
    /// Nothing to report: the last action asked for no answer, or was a
    /// wait that is over.
    Resume,
    /// The request for a `robots.txt` ended.
    RobotsAnswer { response: FetchResponse },
    /// The fetch ended.
    Fetched { response: FetchResponse },
    /// The metadata store failed.
    FrontierFailed,
}

/// What the worker has to do before its next step.
#[derive(Debug, PartialEq, Eq)]
pub enum Action {
    /// Nothing; step again.
    Continue,
    /// Take note of a round that ended without a document; step again.
    Report { result: FetchResult },
    /// Pause for the backoff interval, then step again.
    Backoff,
    /// Fetch the `robots.txt` at `url` and step with `RobotsAnswer`.
    FetchRobots { url: String },
    /// Wait for `millis`, then step again.
    Sleep { millis: u64 },
    /// Fetch `url` and step with `Fetched`.
    Fetch { url: String },
    /// Record the newly discovered `urls`, then step again.
    SaveLinks { urls: Vec<String> },
    /// Hand `document` to the document store, then step again, whether or
    /// not the store took it.
    Store { document: StoredDocument },
    /// Leave the loop.
    Exit { reason: ExitReason },
}

/// A worker's state, as a mathematical value.
pub enum WorkerStateView {
    Idle,
    SelectUrl,
    CheckRobots { url: Seq<char> },
    AwaitRobots { url: Seq<char> },
    RateLimitWait { url: Seq<char> },
    Fetch { url: Seq<char> },
    ExtractLinks { url: Seq<char>, body: Seq<char> },
    Persist { url: Seq<char>, body: Seq<char> },
    Stopped,
}

impl View for WorkerState {
    type V = WorkerStateView;

    open spec fn view(&self) -> WorkerStateView {
        match self {
            WorkerState::Idle => WorkerStateView::Idle,
            WorkerState::SelectUrl => WorkerStateView::SelectUrl,
            WorkerState::CheckRobots { url } => WorkerStateView::CheckRobots { url: url@ },
            WorkerState::AwaitRobots { url } => WorkerStateView::AwaitRobots { url: url@ },
            WorkerState::RateLimitWait { url } => WorkerStateView::RateLimitWait { url: url@ },
            WorkerState::Fetch { url } => WorkerStateView::Fetch { url: url@ },
            WorkerState::ExtractLinks { url, body } => WorkerStateView::ExtractLinks {
                url: url@,
                body: body@,
            },
            WorkerState::Persist { url, body } => WorkerStateView::Persist { url: url@, body: body@ },
            WorkerState::Stopped => WorkerStateView::Stopped,
        }
    }
}

/// An event, as a mathematical value.
pub enum EventView {
    Resume,
    RobotsAnswer { response: FetchResponseView },
    Fetched { response: FetchResponseView },
    FrontierFailed,
}

impl View for Event {
    type V = EventView;

    open spec fn view(&self) -> EventView {
        match self {
            Event::Resume => EventView::Resume,
            Event::RobotsAnswer { response } => EventView::RobotsAnswer { response: response@ },
            Event::Fetched { response } => EventView::Fetched { response: response@ },
            Event::FrontierFailed => EventView::FrontierFailed,
        }
    }
}

/// An action, as a mathematical value.
pub enum ActionView {
    Continue,
    Report { result: FetchResultView },
    Backoff,
    FetchRobots { url: Seq<char> },
    Sleep { millis: u64 },
    Fetch { url: Seq<char> },
    SaveLinks { urls: Seq<Seq<char>> },
    Store { document: StoredDocumentView },
    Exit { reason: ExitReason },
}

impl View for Action {
    type V = ActionView;

    open spec fn view(&self) -> ActionView {
        match self {
            Action::Continue => ActionView::Continue,
            Action::Report { result } => ActionView::Report { result: result@ },
            Action::Backoff => ActionView::Backoff,
            Action::FetchRobots { url } => ActionView::FetchRobots { url: url@ },
            Action::Sleep { millis } => ActionView::Sleep { millis: *millis },
            Action::Fetch { url } => ActionView::Fetch { url: url@ },
            Action::SaveLinks { urls } => ActionView::SaveLinks { urls: texts(urls@) },
            Action::Store { document } => ActionView::Store { document: document@ },
            Action::Exit { reason } => ActionView::Exit { reason: *reason },
        }
    }
}

impl WorkerStateView {
    /// The claimed URL that a worker in this state holds, if any.
    pub open spec fn held(self) -> Option<Seq<char>> {
        match self {
            WorkerStateView::CheckRobots { url } => Some(url),
            WorkerStateView::AwaitRobots { url } => Some(url),
            WorkerStateView::RateLimitWait { url } => Some(url),
            WorkerStateView::Fetch { url } => Some(url),
            WorkerStateView::ExtractLinks { url, .. } => Some(url),
            WorkerStateView::Persist { url, .. } => Some(url),
            _ => None,
        }
    }
}

/// The crawler once the event `event` is known: a failure of the metadata
/// store halts the crawl.
pub open spec fn spec_heard(v: CrawlerView, event: EventView) -> CrawlerView {
    if event is FrontierFailed && v.stop is None {
        CrawlerView { stop: Some(ExitReason::FrontierError), ..v }
    } else {
        v
    }
}

/// The records after a worker in state `state` gave its claim back.
pub open spec fn spec_released(recs: Seq<UrlsView>, state: WorkerStateView) -> Seq<UrlsView> {
    match state.held() {
        Some(url) => spec_move(recs, url, UrlState::InFlight, UrlState::Pending),
        None => recs,
    }
}

/// The paths of the records that `after` holds beyond the first `n`.
pub open spec fn paths_from(after: Seq<UrlsView>, n: int) -> Seq<Seq<char>> {
    Seq::new((after.len() - n) as nat, |i: int| after[n + i].path)
}

/// The step of a worker that holds the exclusion rules against the URL
/// that it has claimed.
pub open spec fn spec_checked(v: CrawlerView, url: Seq<char>) -> (
    CrawlerView,
    WorkerStateView,
    ActionView,
) {
    let checked = spec_check(v, url);
    match checked.1 {
        RobotsCheckView::Allowed => (
            checked.0,
            WorkerStateView::RateLimitWait { url },
            ActionView::Continue,
        ),
        RobotsCheckView::Denied => (
            checked.0,
            WorkerStateView::Idle,
            ActionView::Report {
                result: FetchResultView {
                    url,
                    outcome: FetchOutcomeView::Skipped(FailureKind::RobotsDisallowed),
                },
            },
        ),
        RobotsCheckView::NeedRules(at) => (
            checked.0,
            WorkerStateView::AwaitRobots { url },
            ActionView::FetchRobots { url: at },
        ),
        RobotsCheckView::Busy => (
            checked.0,
            WorkerStateView::CheckRobots { url },
            ActionView::Backoff,
        ),
    }
}

/// One step of a worker: the crawler afterwards, the worker's next state,
/// and what the worker has to do.
pub open spec fn spec_step(v: CrawlerView, state: WorkerStateView, event: EventView, now: u64) -> (
    CrawlerView,
    WorkerStateView,
    ActionView,
) {
    let heard = spec_heard(v, event);
    if state is Stopped {
        (heard, WorkerStateView::Stopped, ActionView::Exit { reason: heard.exit_reason() })
    } else if heard.stop is Some {
        (
            heard.with_records(spec_released(heard.records, state)),
            WorkerStateView::Stopped,
            ActionView::Exit { reason: heard.stop->0 },
        )
    } else {
        match state {
            WorkerStateView::Idle => (heard, WorkerStateView::SelectUrl, ActionView::Continue),
            WorkerStateView::SelectUrl => {
                let polled = spec_poll(heard, now);
                match polled.1 {
                    PollView::Url(url) => (
                        polled.0,
                        WorkerStateView::CheckRobots { url },
                        ActionView::Continue,
                    ),
                    PollView::Empty => (polled.0, WorkerStateView::Idle, ActionView::Backoff),
                    PollView::Stop(reason) => (
                        polled.0,
                        WorkerStateView::Stopped,
                        ActionView::Exit { reason },
                    ),
                }
            },
            WorkerStateView::CheckRobots { url } => spec_checked(heard, url),
            WorkerStateView::AwaitRobots { url } => match event {
                EventView::RobotsAnswer { response } => spec_checked(
                    heard.with_policies(
                        spec_install(
                            heard.policies,
                            heard.min_delay,
                            policy_key(url),
                            spec_robots_body(response),
                        ),
                    ),
                    url,
                ),
                _ => (
                    heard,
                    WorkerStateView::AwaitRobots { url },
                    ActionView::FetchRobots { url: robots_url(normalize(url)) },
                ),
            },
            WorkerStateView::RateLimitWait { url } => {
                let asked = spec_acquire_in(heard.policies, heard.min_delay, policy_key(url), now);
                match asked.1 {
                    Acquire::Granted => (
                        heard.with_policies(asked.0),
                        WorkerStateView::Fetch { url },
                        ActionView::Fetch { url },
                    ),
                    Acquire::Wait(millis) => (
                        heard.with_policies(asked.0),
                        WorkerStateView::RateLimitWait { url },
                        ActionView::Sleep { millis },
                    ),
                }
            },
            WorkerStateView::Fetch { url } => match event {
                EventView::Fetched { response } => (
                    spec_fetched(heard, url, response, now),
                    match spec_outcome(response) {
                        FetchOutcomeView::Success(body) => WorkerStateView::ExtractLinks {
                            url,
                            body,
                        },
                        _ => WorkerStateView::Idle,
                    },
                    match spec_outcome(response) {
                        FetchOutcomeView::Success(_) => ActionView::Continue,
                        outcome => ActionView::Report {
                            result: FetchResultView { url, outcome },
                        },
                    },
                ),
                _ => (heard, WorkerStateView::Fetch { url }, ActionView::Fetch { url }),
            },
            WorkerStateView::ExtractLinks { url, body } => {
                let links = resolve_all(url, spec_links(body));
                let after = spec_enqueue_all(
                    heard.domain,
                    heard.records,
                    links,
                    now,
                    links.len() as int,
                );
                (
                    heard.with_records(after),
                    WorkerStateView::Persist { url, body },
                    ActionView::SaveLinks { urls: paths_from(after, heard.records.len() as int) },
                )
            },
            WorkerStateView::Persist { url, body } => (
                heard.with_records(
                    spec_move(heard.records, url, UrlState::InFlight, UrlState::Done),
                ),
                WorkerStateView::Idle,
                ActionView::Store { document: spec_document(body, url, now) },
            ),
            WorkerStateView::Stopped => (heard, state, ActionView::Continue),
        }
    }
}

impl WorkerState {
    /// The claimed URL that a worker in this state holds, if any.
    pub fn held(&self) -> (r: Option<&str>)
        ensures
            match r {
                Some(url) => self@.held() == Some(url@),
                None => self@.held() is None,
            },
    {
        match self {
            WorkerState::CheckRobots { url } => Some(url.as_str()),
            WorkerState::AwaitRobots { url } => Some(url.as_str()),
            WorkerState::RateLimitWait { url } => Some(url.as_str()),
            WorkerState::Fetch { url } => Some(url.as_str()),
            WorkerState::ExtractLinks { url, .. } => Some(url.as_str()),
            WorkerState::Persist { url, .. } => Some(url.as_str()),
            _ => None,
        }
    }
}

impl Crawler {
    /// Holds the exclusion rules against the claimed `url` and says where
    /// its worker goes next.
    fn checked(&mut self, url: String) -> (r: (WorkerState, Action))
        requires
            old(self).wf(),
        ensures
            final(self).wf(),
            final(self)@ == spec_checked(old(self)@, url@).0,
            r.0@ == spec_checked(old(self)@, url@).1,
            r.1@ == spec_checked(old(self)@, url@).2,
    {
        match self.check_robots(url.as_str()) {
            RobotsCheck::Allowed => (WorkerState::RateLimitWait { url }, Action::Continue),
            RobotsCheck::Denied => (
                WorkerState::Idle,
                Action::Report {
                    result: FetchResult {
                        url,
                        outcome: FetchOutcome::Skipped(FailureKind::RobotsDisallowed),
                    },
                },
            ),
            RobotsCheck::NeedRules(at) => (
                WorkerState::AwaitRobots { url },
                Action::FetchRobots { url: at },
            ),
            RobotsCheck::Busy => (WorkerState::CheckRobots { url }, Action::Backoff),
        }
    }

    /// Takes a worker one step on, at the time `now` (in milliseconds since
    /// the Unix epoch): from `state`, with what happened since its last
    /// step, to its next state and the action that it owes.
    pub fn step(&mut self, state: WorkerState, event: Event, now: u64) -> (r: (WorkerState, Action))
        requires
            old(self).wf(),
        ensures
            final(self).wf(),
            final(self)@ == spec_step(old(self)@, state@, event@, now).0,
            r.0@ == spec_step(old(self)@, state@, event@, now).1,
            r.1@ == spec_step(old(self)@, state@, event@, now).2,
    {
        if let Event::FrontierFailed = &event {
            self.halt();
        }
        if let WorkerState::Stopped = &state {
            return (WorkerState::Stopped, Action::Exit { reason: self.exit_reason() });
        }
        if let Some(reason) = self.stopped() {
            if let Some(url) = state.held() {
                self.release(url);
            }
            return (WorkerState::Stopped, Action::Exit { reason });
        }
        match state {
            WorkerState::Idle => (WorkerState::SelectUrl, Action::Continue),
            WorkerState::SelectUrl => match self.get_next_url(now) {
                Poll::Url(url) => (WorkerState::CheckRobots { url }, Action::Continue),
                Poll::Empty => (WorkerState::Idle, Action::Backoff),
                Poll::Stop(reason) => (WorkerState::Stopped, Action::Exit { reason }),
            },
            WorkerState::CheckRobots { url } => self.checked(url),
            WorkerState::AwaitRobots { url } => match event {
                Event::RobotsAnswer { response } => {
                    match robots_body(response) {
                        Some(b) => {
                            self.get_scraping_policy(url.as_str(), Some(b.as_str()));
                        },
                        None => {
                            self.get_scraping_policy(url.as_str(), None);
                        },
                    }
                    self.checked(url)
                },
                _ => {
                    let norm = crate::url::normalize_url(url.as_str());
                    let at = crate::url::robots_url_of(norm.as_str());
                    (WorkerState::AwaitRobots { url }, Action::FetchRobots { url: at })
                },
            },
            WorkerState::RateLimitWait { url } => match self.rate_limit(url.as_str(), now) {
                Acquire::Granted => {
                    let target = copy_text(url.as_str());
                    (WorkerState::Fetch { url }, Action::Fetch { url: target })
                },
                Acquire::Wait(millis) => (
                    WorkerState::RateLimitWait { url },
                    Action::Sleep { millis },
                ),
            },
            WorkerState::Fetch { url } => match event {
                Event::Fetched { response } => {
                    match self.get_document(url.as_str(), response, now) {
                        FetchOutcome::Success(body) => (
                            WorkerState::ExtractLinks { url, body },
                            Action::Continue,
                        ),
                        outcome => (
                            WorkerState::Idle,
                            Action::Report { result: FetchResult { url, outcome } },
                        ),
                    }
                },
                _ => {
                    let target = copy_text(url.as_str());
                    (WorkerState::Fetch { url }, Action::Fetch { url: target })
                },
            },
            WorkerState::ExtractLinks { url, body } => {
                let urls = self.update_metadata(body.as_str(), url.as_str(), now);
                assert(texts(urls@) =~= paths_from(self@.records, old(self)@.records.len() as int));
                (WorkerState::Persist { url, body }, Action::SaveLinks { urls })
            },
            WorkerState::Persist { url, body } => {
                let document = self.update_document(body.as_str(), url.as_str(), now);
                (WorkerState::Idle, Action::Store { document })
            },
            WorkerState::Stopped => (WorkerState::Stopped, Action::Continue),
        }
    }
}

} // verus!
