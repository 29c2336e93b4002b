//! The crawler: the frontier, the politeness data and the counters of one
//! crawl, and what each phase of a worker's round does to them.
//!
//! The crawler fetches nothing, stores nothing and never waits. Whoever
//! runs it performs the outside work between the phases and hands in the
//! outcome: the present time, the answer to a request, the body of a
//! document.

use vstd::prelude::*;
use vstd::utf8::encode_utf8;
use crate::config::Config;
use crate::document::{spec_document, StoredDocument};
use crate::fetch::{
    classify, spec_outcome, FetchOutcome, FetchOutcomeView, FetchResponse, FetchResponseView,
};
use crate::frontier::{
    any_in_state, spec_enqueue, spec_move, spec_next, spec_recover, valid_records, Frontier,
};
use crate::links::{extract_links, hrefs_of, html_tree, MAX_DOCUMENT_BYTES};
use crate::models::{FailureKind, UrlState, Urls, UrlsView};
use crate::policy::{
    policy_key, spec_install, spec_is_allowed, spec_request, uniform_delay, PolicyCache,
    PolicyView,
};
use crate::rate_limiter::{spec_acquire_in, spec_note_in, Acquire};
use crate::text::texts;
use crate::url::{normalize, resolve_all, resolve_urls, robots_url};

verus! {

/// Why a worker leaves its loop.
#[derive(Clone, Copy, Debug, PartialEq, Eq, Structural)]
pub enum ExitReason {
    /// Nothing is left to do, or the budget of URLs is used up.
    Finished,
    /// The crawl was cancelled.
    Cancelled,
    /// The metadata store failed; the frontier can no longer be trusted.
    FrontierError,
}

/// The answer of a poll for work.
#[derive(Debug, PartialEq, Eq)]
pub enum Poll {
    /// This URL was claimed for the caller.
    Url(String),
    /// Nothing is pending now; ask again after a pause.
    Empty,
    /// The crawl is over for the caller.
    Stop(ExitReason),
}

/// What the exclusion rules say of a claimed URL.
#[derive(Debug, PartialEq, Eq)]
pub enum RobotsCheck {
    /// The URL may be fetched.
    Allowed,
    /// The URL must not be fetched; it has been marked as failed.
    Denied,
    /// The rules of the URL's domain are not known; the caller is to fetch
    /// them from this address.
    NeedRules(String),
    /// The rules of the URL's domain are not known, and another worker has
    /// been told to fetch them; ask again after a pause.
    Busy,
}

/// The mathematical value of a crawler.
pub struct CrawlerView {
    /// The settings that the crawler was made with.
    pub config: Config,
    /// The crawl domain in normal form.
    pub domain: Seq<char>,
    /// The URL that the crawl starts from.
    pub seed: Seq<char>,
    /// The least time between two fetches to one domain.
    pub min_delay: u64,
    /// After how many empty polls in a row the crawl is finished.
    pub quiet_polls: u32,
    /// How many URLs may be claimed at most.
    pub url_budget: u64,
    /// How long after the start URLs may be claimed.
    pub time_budget: u64,
    /// When the crawl was started, once it was.
    pub started_at: Option<u64>,
    /// The frontier's records.
    pub records: Seq<UrlsView>,
    /// The policy of each domain met so far.
    pub policies: Map<Seq<char>, PolicyView>,
    /// How many polls in a row found nothing pending.
    pub empty_polls: u32,
    /// How many URLs have been claimed.
    pub claimed: u64,
    /// Why the crawl was stopped, once it was.
    pub stop: Option<ExitReason>,
}

impl CrawlerView {
    /// The same crawler with the records `records`.
    pub open spec fn with_records(self, records: Seq<UrlsView>) -> CrawlerView {
        CrawlerView { records, ..self }
    }

    /// The same crawler with the policies `policies`.
    pub open spec fn with_policies(self, policies: Map<Seq<char>, PolicyView>) -> CrawlerView {
        CrawlerView { policies, ..self }
    }

    /// Whether the crawl has come to rest: nothing is pending, no fetch is
    /// under way, and one more empty poll fills the quiet period.
    pub open spec fn is_quiet(self) -> bool {
        &&& !any_in_state(self.records, UrlState::Pending)
        &&& !any_in_state(self.records, UrlState::InFlight)
        &&& self.empty_polls + 1 >= self.quiet_polls
    }

    /// The reason with which a worker is out of its loop.
    pub open spec fn exit_reason(self) -> ExitReason {
        match self.stop {
            Some(reason) => reason,
            None => ExitReason::Finished,
        }
    }

    /// Whether the crawl may claim no further URL at `now`: as many have
    /// been claimed as the budget allows, or the time since the start has
    /// reached the time budget.
    pub open spec fn out_of_budget(self, now: u64) -> bool {
        ||| self.claimed >= self.url_budget
        ||| self.started_at matches Some(start) && now - start >= self.time_budget
    }
}

/// The answer of a poll, as a mathematical value.
pub enum PollView {
    Url(Seq<char>),
    Empty,
    Stop(ExitReason),
}

impl View for Poll {
    type V = PollView;

    open spec fn view(&self) -> PollView {
        match self {
            Poll::Url(u) => PollView::Url(u@),
            Poll::Empty => PollView::Empty,
            Poll::Stop(r) => PollView::Stop(*r),
        }
    }
}

/// What the rules say, as a mathematical value.
pub enum RobotsCheckView {
    Allowed,
    Denied,
    NeedRules(Seq<char>),
    Busy,
}

impl View for RobotsCheck {
    type V = RobotsCheckView;

    open spec fn view(&self) -> RobotsCheckView {
        match self {
            RobotsCheck::Allowed => RobotsCheckView::Allowed,
            RobotsCheck::Denied => RobotsCheckView::Denied,
            RobotsCheck::NeedRules(u) => RobotsCheckView::NeedRules(u@),
            RobotsCheck::Busy => RobotsCheckView::Busy,
        }
    }
}

/// The crawler after a poll for work at `now`, and the poll's answer.
pub open spec fn spec_poll(v: CrawlerView, now: u64) -> (CrawlerView, PollView) {
    if v.stop is Some {
        (v, PollView::Stop(v.stop->0))
    } else if v.out_of_budget(now) {
        (v, PollView::Stop(ExitReason::Finished))
    } else {
        match spec_next(v.records).1 {
            Some(url) => (
                CrawlerView {
                    records: spec_next(v.records).0,
                    empty_polls: 0,
                    claimed: (v.claimed + 1) as u64,
                    ..v
                },
                PollView::Url(url),
            ),
            None => if v.is_quiet() {
                (v, PollView::Stop(ExitReason::Finished))
            } else {
                (
                    CrawlerView {
                        empty_polls: if v.empty_polls < u32::MAX {
                            (v.empty_polls + 1) as u32
                        } else {
                            v.empty_polls
                        },
                        ..v
                    },
                    PollView::Empty,
                )
            },
        }
    }
}

/// The crawler after the rules were held against the claimed `url`, and
/// what they say.
pub open spec fn spec_check(v: CrawlerView, url: Seq<char>) -> (CrawlerView, RobotsCheckView) {
    match spec_is_allowed(v.policies, url) {
        Some(true) => (v, RobotsCheckView::Allowed),
        Some(false) => (
            v.with_records(
                spec_move(
                    v.records,
                    url,
                    UrlState::InFlight,
                    UrlState::Failed(FailureKind::RobotsDisallowed),
                ),
            ),
            RobotsCheckView::Denied,
        ),
        None => {
            let asked = spec_request(v.policies, v.min_delay, policy_key(url));
            if asked.1 {
                (
                    v.with_policies(asked.0),
                    RobotsCheckView::NeedRules(robots_url(normalize(url))),
                )
            } else {
                (v, RobotsCheckView::Busy)
            }
        },
    }
}

/// The crawler after the fetch of `url` ended at `now` with `response`.
pub open spec fn spec_fetched(
    v: CrawlerView,
    url: Seq<char>,
    response: FetchResponseView,
    now: u64,
) -> CrawlerView {
    let noted = v.with_policies(spec_note_in(v.policies, v.min_delay, policy_key(url), now));
    match spec_outcome(response) {
        FetchOutcomeView::Success(_) => noted,
        FetchOutcomeView::HttpError(status) => noted.with_records(
            spec_move(
                v.records,
                url,
                UrlState::InFlight,
                UrlState::Failed(FailureKind::Http(status)),
            ),
        ),
        _ => noted.with_records(
            spec_move(v.records, url, UrlState::InFlight, UrlState::Failed(FailureKind::Network)),
        ),
    }
}

/// The records after the first `n` of `links` were offered at `now`.
pub open spec fn spec_enqueue_all(
    domain: Seq<char>,
    recs: Seq<UrlsView>,
    links: Seq<Seq<char>>,
    now: u64,
    n: int,
) -> Seq<UrlsView>
    decreases n,
{
    if n <= 0 {
        recs
    } else {
        spec_enqueue(domain, spec_enqueue_all(domain, recs, links, now, n - 1), links[n - 1], now)
    }
}

/// The links that are taken from the document `doc`: those that the parser
/// finds, or none where the document is too long for it.
pub open spec fn spec_links(doc: Seq<char>) -> Seq<Seq<char>> {
    if encode_utf8(doc).len() <= MAX_DOCUMENT_BYTES {
        hrefs_of(html_tree(doc))
    } else {
        Seq::empty()
    }
}

/// The status with which the process ends: zero unless the crawl was
/// cancelled or halted by a failure of the metadata store.
pub fn exit_code(reason: ExitReason) -> (code: u8)
    ensures
        code == (if reason == ExitReason::Finished {
            0u8
        } else {
            1u8
        }),
{
    match reason {
        ExitReason::Finished => 0,
        ExitReason::Cancelled => 1,
        ExitReason::FrontierError => 1,
    }
}

/// One crawl.
pub struct Crawler {
    config: Config,
    frontier: Frontier,
    policies: PolicyCache,
    empty_polls: u32,
    claimed: u64,
    started_at: Option<u64>,
    stop: Option<ExitReason>,
}

impl View for Crawler {
    type V = CrawlerView;

    closed spec fn view(&self) -> CrawlerView {
        CrawlerView {
            config: self.config,
            domain: self.frontier.domain(),
            seed: self.config.seed(),
            min_delay: self.policies.min_delay(),
            quiet_polls: self.config.quiet_polls,
            url_budget: self.config.url_budget,
            time_budget: self.config.time_budget,
            started_at: self.started_at,
            records: self.frontier@,
            policies: self.policies@,
            empty_polls: self.empty_polls,
            claimed: self.claimed,
            stop: self.stop,
        }
    }
}

impl Crawler {
    /// The invariant of the type: the frontier's records are valid,
    /// frontier and policies were made from the settings, and every domain's
    /// policy carries the delay of the settings.
    pub closed spec fn wf(&self) -> bool {
        &&& self.frontier.wf()
        &&& self.frontier.domain() == normalize(self.config.domain@)
        &&& self.policies.min_delay() == self.config.delay
        &&& uniform_delay(self.policies@, self.policies.min_delay())
    }

    /// Of a crawler that meets its invariant the records are valid, and
    /// its value holds what its settings say.
    pub proof fn lemma_records_valid(&self)
        requires
            self.wf(),
        ensures
            valid_records(self@.domain, self@.records),
            self@.domain == normalize(self@.config.domain@),
            self@.seed == self@.config.seed(),
            self@.min_delay == self@.config.delay,
            uniform_delay(self@.policies, self@.config.delay as u64),
            self@.quiet_polls == self@.config.quiet_polls,
            self@.url_budget == self@.config.url_budget,
            self@.time_budget == self@.config.time_budget,
    {
    }

    /// A crawler for `config` that has seen no URL and no domain yet.
    pub fn new(config: Config) -> (c: Crawler)
        ensures
            c.wf(),
            c@ == (CrawlerView {
                config,
                domain: normalize(config.domain@),
                seed: config.seed(),
                min_delay: config.delay as u64,
                quiet_polls: config.quiet_polls,
                url_budget: config.url_budget,
                time_budget: config.time_budget,
                started_at: None,
                records: Seq::empty(),
                policies: Map::empty(),
                empty_polls: 0,
                claimed: 0,
                stop: None,
            }),
    {
        let frontier = Frontier::new(config.domain.as_str());
        let policies = PolicyCache::new(config.delay as u64);
        Crawler {
            config,
            frontier,
            policies,
            empty_polls: 0,
            claimed: 0,
            started_at: None,
            stop: None,
        }
    }

    /// The settings that the crawler was made with.
    pub fn config(&self) -> (c: &Config)
        ensures
            *c == self@.config,
    {
        &self.config
    }

    /// The frontier.
    pub fn frontier(&self) -> (f: &Frontier)
        ensures
            f@ == self@.records,
            f.domain() == self@.domain,
            self.wf() ==> f.wf(),
    {
        &self.frontier
    }

    /// The policies.
    pub fn policies(&self) -> (p: &PolicyCache)
        ensures
            p@ == self@.policies,
            p.min_delay() == self@.min_delay,
    {
        &self.policies
    }

    /// Why the crawl was stopped, once it was.
    pub fn stopped(&self) -> (r: Option<ExitReason>)
        ensures
            r == self@.stop,
    {
        self.stop
    }

    /// The reason with which a worker that is out of its loop has left it:
    /// that of the stop, or `Finished` in a crawl that was not stopped.
    pub fn exit_reason(&self) -> (r: ExitReason)
        ensures
            r == self@.exit_reason(),
    {
        match self.stop {
            Some(reason) => reason,
            None => ExitReason::Finished,
        }
    }

    /// Takes in a record as an earlier run stored it; see
    /// `Frontier::restore`.
    pub fn restore(&mut self, record: Urls) -> (kept: bool)
        requires
            old(self).wf(),
        ensures
            final(self).wf(),
            kept == (crate::url::in_domain(record@.path, old(self)@.domain) && normalize(
                record@.path,
            )
                == record@.path && !crate::frontier::has_record(old(self)@.records, record@.path)),
            final(self)@ == old(self)@.with_records(
                if kept {
                    old(self)@.records.push(record@)
                } else {
                    old(self)@.records
                },
            ),
    {
        self.frontier.restore(record)
    }

    /// Begins or resumes the crawl at the time `now`, before any worker
    /// takes a step: every URL that an interrupted run left in flight goes
    /// back in line, the seed URL is offered, and the time budget runs from
    /// `now`.
    pub fn start(&mut self, now: u64)
        requires
            old(self).wf(),
        ensures
            final(self).wf(),
            final(self)@ == (CrawlerView {
                records: spec_enqueue(
                    old(self)@.domain,
                    spec_recover(old(self)@.records),
                    old(self)@.seed,
                    now,
                ),
                started_at: Some(now),
                ..old(self)@
            }),
    {
        self.started_at = Some(now);
        self.frontier.recover_stale_in_flight();
        let seed = self.config.seed_url();
        self.frontier.enqueue(seed.as_str(), now);
    }

    /// Asks every worker to leave its loop. A crawl that was stopped before
    /// keeps its first reason.
    pub fn cancel(&mut self)
        ensures
            final(self).wf() == old(self).wf(),
            final(self)@ == (CrawlerView {
                stop: if old(self)@.stop is Some {
                    old(self)@.stop
                } else {
                    Some(ExitReason::Cancelled)
                },
                ..old(self)@
            }),
    {
        if self.stop.is_none() {
            self.stop = Some(ExitReason::Cancelled);
        }
    }

    /// Halts the crawl because the metadata store failed. A crawl that was
    /// stopped before keeps its first reason.
    pub fn halt(&mut self)
        ensures
            final(self).wf() == old(self).wf(),
            final(self)@ == (CrawlerView {
                stop: if old(self)@.stop is Some {
                    old(self)@.stop
                } else {
                    Some(ExitReason::FrontierError)
                },
                ..old(self)@
            }),
    {
        if self.stop.is_none() {
            self.stop = Some(ExitReason::FrontierError);
        }
    }

    /// Polls for work at the time `now`. In a crawl that is neither stopped
    /// nor out of budget the pending URL that was discovered first is
    /// claimed. Where nothing is pending the poll is counted; the crawl is
    /// finished when, besides, no fetch is under way and the count fills
    /// the quiet period.
    pub fn get_next_url(&mut self, now: u64) -> (r: Poll)
        requires
            old(self).wf(),
        ensures
            final(self).wf(),
            final(self)@ == spec_poll(old(self)@, now).0,
            r@ == spec_poll(old(self)@, now).1,
    {
        if let Some(reason) = self.stop {
            return Poll::Stop(reason);
        }
        let late = match self.started_at {
            Some(start) => now >= start && now - start >= self.config.time_budget,
            None => false,
        };
        if self.claimed >= self.config.url_budget || late {
            return Poll::Stop(ExitReason::Finished);
        }
        match self.frontier.next() {
            Some(url) => {
                self.empty_polls = 0;
                self.claimed = self.claimed + 1;
                Poll::Url(url)
            },
            None => {
                let busy = self.frontier.has_state(UrlState::Pending) || self.frontier.has_state(
                    UrlState::InFlight,
                );
                if !busy && (self.empty_polls == u32::MAX || self.empty_polls + 1
                    >= self.config.quiet_polls) {
                    Poll::Stop(ExitReason::Finished)
                } else {
                    if self.empty_polls < u32::MAX {
                        self.empty_polls = self.empty_polls + 1;
                    }
                    Poll::Empty
                }
            },
        }
    }

    /// Holds the exclusion rules against the claimed `url`. A URL that the
    /// rules forbid is marked as failed at once. Where the rules of its
    /// domain are not known yet, the first caller is given the address to
    /// fetch them from; every other is told to ask again.
    pub fn check_robots(&mut self, url: &str) -> (r: RobotsCheck)
        requires
            old(self).wf(),
        ensures
            final(self).wf(),
            final(self)@ == spec_check(old(self)@, url@).0,
            r@ == spec_check(old(self)@, url@).1,
    {
        match self.policies.is_allowed(url) {
            Some(true) => RobotsCheck::Allowed,
            Some(false) => {
                self.frontier.mark_failed(url, FailureKind::RobotsDisallowed);
                RobotsCheck::Denied
            },
            None => {
                let norm = crate::url::normalize_url(url);
                let key = crate::url::domain_of_url(norm.as_str());
                if self.policies.request(key.as_str()) {
                    RobotsCheck::NeedRules(crate::url::robots_url_of(norm.as_str()))
                } else {
                    RobotsCheck::Busy
                }
            },
        }
    }

    /// Takes in the answer to the request for the rules of `url`'s domain:
    /// the body of its `robots.txt`, or `None` where the request failed,
    /// which lets every path through. Only the first answer for a domain
    /// counts.
    pub fn get_scraping_policy(&mut self, url: &str, body: Option<&str>) -> (taken: bool)
        requires
            old(self).wf(),
        ensures
            final(self).wf(),
            final(self)@ == old(self)@.with_policies(
                spec_install(
                    old(self)@.policies,
                    old(self)@.min_delay,
                    policy_key(url@),
                    match body {
                        Some(b) => Some(b@),
                        None => None,
                    },
                ),
            ),
            taken == (spec_is_allowed(old(self)@.policies, url@) is None),
    {
        let norm = crate::url::normalize_url(url);
        let key = crate::url::domain_of_url(norm.as_str());
        self.policies.install(key.as_str(), body)
    }

    /// Asks for a fetch slot for the claimed `url` at the time `now`.
    pub fn rate_limit(&mut self, url: &str, now: u64) -> (r: Acquire)
        requires
            old(self).wf(),
        ensures
            final(self).wf(),
            final(self)@ == old(self)@.with_policies(
                spec_acquire_in(old(self)@.policies, old(self)@.min_delay, policy_key(url@), now).0,
            ),
            r == spec_acquire_in(old(self)@.policies, old(self)@.min_delay, policy_key(url@), now).1,
    {
        let norm = crate::url::normalize_url(url);
        let key = crate::url::domain_of_url(norm.as_str());
        self.policies.acquire(key.as_str(), now)
    }

    /// Takes in what the fetch of the claimed `url` came to at the time
    /// `now`. The time is noted for the domain. A body is handed on only
    /// where the server answered with a status in `200..=299`; otherwise the
    /// URL is marked as failed, with the status or as a network failure.
    pub fn get_document(&mut self, url: &str, response: FetchResponse, now: u64) -> (r: FetchOutcome)
        requires
            old(self).wf(),
        ensures
            final(self).wf(),
            final(self)@ == spec_fetched(old(self)@, url@, response@, now),
            r@ == spec_outcome(response@),
    {
        let norm = crate::url::normalize_url(url);
        let key = crate::url::domain_of_url(norm.as_str());
        self.policies.note_fetch(key.as_str(), now);
        let outcome = classify(response);
        match &outcome {
            FetchOutcome::Success(_) => {},
            FetchOutcome::HttpError(status) => {
                self.frontier.mark_failed(url, FailureKind::Http(*status));
            },
            _ => {
                self.frontier.mark_failed(url, FailureKind::Network);
            },
        }
        outcome
    }

    /// Offers each of `links` to the frontier at the time `now`, in order.
    /// Returns the URLs that were new, in their normal form.
    pub fn enqueue_links(&mut self, links: &Vec<String>, now: u64) -> (added: Vec<String>)
        requires
            old(self).wf(),
        ensures
            final(self).wf(),
            final(self)@ == old(self)@.with_records(
                spec_enqueue_all(
                    old(self)@.domain,
                    old(self)@.records,
                    texts(links@),
                    now,
                    links@.len() as int,
                ),
            ),
            old(self)@.records.len() + added@.len() == final(self)@.records.len(),
            forall|i: int|
                0 <= i < added@.len() ==> (#[trigger] added@[i])@ == final(self)@.records[
                    old(self)@.records.len() + i
                ].path,
    {
        let mut added: Vec<String> = Vec::new();
        let mut n: usize = 0;
        while n < links.len()
            invariant
                n <= links.len(),
                self.wf(),
                self@ == old(self)@.with_records(
                    spec_enqueue_all(
                        old(self)@.domain,
                        old(self)@.records,
                        texts(links@),
                        now,
                        n as int,
                    ),
                ),
                old(self)@.records.len() + added@.len() == self@.records.len(),
                forall|i: int|
                    0 <= i < added@.len() ==> (#[trigger] added@[i])@ == self@.records[
                        old(self)@.records.len() + i
                    ].path,
            decreases links.len() - n,
        {
            assert(texts(links@)[n as int] == links@[n as int]@);
            if self.frontier.enqueue(links[n].as_str(), now) {
                added.push(crate::url::normalize_url(links[n].as_str()));
            }
            n += 1;
        }
        added
    }

    /// Takes the links from the document `doc` that was fetched from `base`,
    /// resolves each against `base` and offers it to the frontier at the
    /// time `now`. Links outside the crawl domain are dropped, links that
    /// are known already change nothing. A document that is too long to
    /// parse gives no links. Returns the URLs that were new.
    pub fn update_metadata(&mut self, doc: &str, base: &str, now: u64) -> (added: Vec<String>)
        requires
            old(self).wf(),
        ensures
            final(self).wf(),
            final(self)@ == old(self)@.with_records(
                spec_enqueue_all(
                    old(self)@.domain,
                    old(self)@.records,
                    resolve_all(base@, spec_links(doc@)),
                    now,
                    spec_links(doc@).len() as int,
                ),
            ),
            old(self)@.records.len() + added@.len() == final(self)@.records.len(),
            forall|i: int|
                0 <= i < added@.len() ==> (#[trigger] added@[i])@ == final(self)@.records[
                    old(self)@.records.len() + i
                ].path,
    {
        match extract_links(doc) {
            Some(links) => {
                let resolved = resolve_urls(base, &links);
                assert(texts(resolved@).len() == resolved@.len());
                assert(resolve_all(base@, texts(links@)).len() == texts(links@).len());
                self.enqueue_links(&resolved, now)
            },
            None => Vec::new(),
        }
    }

    /// Ends the round of the claimed URL `href`, whose body `doc` was
    /// fetched at `now`: the URL is marked as done, and the document to
    /// store is made. The URL is done whether or not the store takes the
    /// document.
    pub fn update_document(&mut self, doc: &str, href: &str, now: u64) -> (r: StoredDocument)
        requires
            old(self).wf(),
        ensures
            final(self).wf(),
            final(self)@ == old(self)@.with_records(
                spec_move(old(self)@.records, href@, UrlState::InFlight, UrlState::Done),
            ),
            r@ == spec_document(doc@, href@, now),
    {
        self.frontier.mark_done(href);
        StoredDocument::at(doc, href, now)
    }

    /// Gives up the claim on `url` without a fetch; see `Frontier::release`.
    pub fn release(&mut self, url: &str)
        requires
            old(self).wf(),
        ensures
            final(self).wf(),
            final(self)@ == old(self)@.with_records(
                spec_move(old(self)@.records, url@, UrlState::InFlight, UrlState::Pending),
            ),
    {
        self.frontier.release(url);
    }
}

} // verus!
