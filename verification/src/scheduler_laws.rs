//! What holds of every step of every worker.

use vstd::prelude::*;
use crate::crawler::{spec_enqueue_all, spec_poll, CrawlerView, PollView};
use crate::fetch::{spec_outcome, FetchOutcomeView, FetchResponseView, FetchResultView};
use crate::frontier::{lemma_record_index_range, spec_move, state_at, valid_records};
use crate::frontier_laws::{
    extends, lemma_op_keeps_valid, lemma_record_index_same_paths, FrontierOp,
};
use crate::models::{FailureKind, UrlState, UrlsView};
use crate::policy::{policy_key, policy_or_fresh, spec_is_allowed, uniform_delay};
use crate::scheduler::{spec_heard, spec_step, ActionView, EventView, WorkerStateView};
use crate::url::normalize;

verus! {

/// The failure that is recorded for a fetch that gave no body.
pub open spec fn failure_of(response: FetchResponseView) -> FailureKind {
    match spec_outcome(response) {
        FetchOutcomeView::HttpError(status) => FailureKind::Http(status),
        _ => FailureKind::Network,
    }
}

/// Offering links keeps the records valid and loses none.
pub proof fn lemma_enqueue_all_keeps_valid(
    domain: Seq<char>,
    recs: Seq<UrlsView>,
    links: Seq<Seq<char>>,
    now: u64,
    n: int,
)
    requires
        valid_records(domain, recs),
    ensures
        valid_records(domain, spec_enqueue_all(domain, recs, links, now, n)),
        extends(recs, spec_enqueue_all(domain, recs, links, now, n)),
    decreases n,
{
    if n > 0 {
        lemma_enqueue_all_keeps_valid(domain, recs, links, now, n - 1);
        let before = spec_enqueue_all(domain, recs, links, now, n - 1);
        lemma_op_keeps_valid(domain, before, FrontierOp::Enqueue { url: links[n - 1], now });
    }
}

/// A record that moves keeps its place, and the state asked for is the one
/// it has afterwards.
pub proof fn lemma_move_sets_state(
    domain: Seq<char>,
    recs: Seq<UrlsView>,
    url: Seq<char>,
    from: UrlState,
    to: UrlState,
)
    requires
        valid_records(domain, recs),
        !from.is_terminal(),
    ensures
        valid_records(domain, spec_move(recs, url, from, to)),
        extends(recs, spec_move(recs, url, from, to)),
        state_at(spec_move(recs, url, from, to), normalize(url)) == (if state_at(
            recs,
            normalize(url),
        ) == Some(from) {
            Some(to)
        } else {
            state_at(recs, normalize(url))
        }),
{
    lemma_record_index_range(recs, normalize(url), 0);
    lemma_record_index_same_paths(recs, spec_move(recs, url, from, to), normalize(url), 0);
}

/// A step keeps the crawler sound: the records stay valid, so each is of
/// the scheme and host of the crawl domain, whatever links the step took
/// in; none is lost, what was `Done` or `Failed` stays so, and the settings
/// do not change.
pub proof fn lemma_step_keeps_valid(
    v: CrawlerView,
    state: WorkerStateView,
    event: EventView,
    now: u64,
)
    requires
        valid_records(v.domain, v.records),
    ensures
        ({
            let after = spec_step(v, state, event, now).0;
            &&& valid_records(after.domain, after.records)
            &&& forall|i: int|
                0 <= i < after.records.len() ==> crate::url::domain_of(
                    (#[trigger] after.records[i]).path,
                ) == crate::url::domain_of(v.domain)
            &&& extends(v.records, after.records)
            &&& after.config == v.config
            &&& after.domain == v.domain
            &&& after.seed == v.seed
            &&& after.min_delay == v.min_delay
            &&& after.quiet_polls == v.quiet_polls
            &&& after.url_budget == v.url_budget
            &&& after.time_budget == v.time_budget
            &&& after.started_at == v.started_at
            &&& v.stop is Some ==> after.stop == v.stop
        }),
{
    let heard = spec_heard(v, event);
    if state is Stopped {
    } else if heard.stop is Some {
        if let Some(url) = state.held() {
            lemma_op_keeps_valid(v.domain, v.records, FrontierOp::Release { url });
        }
    } else {
        match state {
            WorkerStateView::SelectUrl => {
                lemma_op_keeps_valid(v.domain, v.records, FrontierOp::Next);
            },
            WorkerStateView::CheckRobots { url } => {
                lemma_op_keeps_valid(
                    v.domain,
                    v.records,
                    FrontierOp::MarkFailed { url, kind: FailureKind::RobotsDisallowed },
                );
            },
            WorkerStateView::AwaitRobots { url } => {
                lemma_op_keeps_valid(
                    v.domain,
                    v.records,
                    FrontierOp::MarkFailed { url, kind: FailureKind::RobotsDisallowed },
                );
            },
            WorkerStateView::Fetch { url } => {
                if let EventView::Fetched { response } = event {
                    lemma_op_keeps_valid(
                        v.domain,
                        v.records,
                        FrontierOp::MarkFailed { url, kind: failure_of(response) },
                    );
                }
            },
            WorkerStateView::ExtractLinks { url, body } => {
                let links = crate::url::resolve_all(url, crate::crawler::spec_links(body));
                lemma_enqueue_all_keeps_valid(
                    v.domain,
                    v.records,
                    links,
                    now,
                    links.len() as int,
                );
            },
            WorkerStateView::Persist { url, body } => {
                lemma_op_keeps_valid(v.domain, v.records, FrontierOp::MarkDone { url });
            },
            _ => {},
        }
    }
}

/// A URL that the exclusion rules forbid is not fetched: the worker goes
/// back to `Idle` without an action, the URL is marked as failed for that
/// reason, and no domain's time of last fetch changes.
pub proof fn lemma_denied_url_is_not_fetched(v: CrawlerView, url: Seq<char>, now: u64)
    requires
        valid_records(v.domain, v.records),
        v.stop is None,
        spec_is_allowed(v.policies, url) == Some(false),
        state_at(v.records, normalize(url)) == Some(UrlState::InFlight),
    ensures
        ({
            let r = spec_step(v, WorkerStateView::CheckRobots { url }, EventView::Resume, now);
            &&& r.1 == WorkerStateView::Idle
            &&& r.2 == (ActionView::Report {
                result: FetchResultView {
                    url,
                    outcome: FetchOutcomeView::Skipped(FailureKind::RobotsDisallowed),
                },
            })
            &&& r.0.policies == v.policies
            &&& state_at(r.0.records, normalize(url)) == Some(
                UrlState::Failed(FailureKind::RobotsDisallowed),
            )
        }),
{
    lemma_move_sets_state(
        v.domain,
        v.records,
        url,
        UrlState::InFlight,
        UrlState::Failed(FailureKind::RobotsDisallowed),
    );
}

/// The exclusion rules of a domain are fetched by one worker: the worker
/// that finds them unknown and unasked for is told to fetch them, and
/// until the answer is in every other worker with a URL of that domain is
/// told to pause.
pub proof fn lemma_rules_are_fetched_once(
    v: CrawlerView,
    url: Seq<char>,
    other: Seq<char>,
    now: u64,
    later: u64,
)
    requires
        v.stop is None,
        policy_key(other) == policy_key(url),
        policy_or_fresh(v.policies, policy_key(url), v.min_delay).needs_request(),
    ensures
        ({
            let first = spec_step(v, WorkerStateView::CheckRobots { url }, EventView::Resume, now);
            let second = spec_step(
                first.0,
                WorkerStateView::CheckRobots { url: other },
                EventView::Resume,
                later,
            );
            &&& first.1 == WorkerStateView::AwaitRobots { url }
            &&& first.2 == ActionView::FetchRobots { url: crate::url::robots_url(normalize(url)) }
            &&& second.1 == WorkerStateView::CheckRobots { url: other }
            &&& second.2 == ActionView::Backoff
            &&& second.0 == first.0
        }),
{
}

/// Offering links adds pending records only, and changes no record that
/// was there.
pub proof fn lemma_enqueue_all_adds_pending(
    domain: Seq<char>,
    recs: Seq<UrlsView>,
    links: Seq<Seq<char>>,
    now: u64,
    n: int,
)
    ensures
        ({
            let after = spec_enqueue_all(domain, recs, links, now, n);
            &&& recs.len() <= after.len()
            &&& forall|i: int| 0 <= i < recs.len() ==> #[trigger] after[i] == recs[i]
            &&& forall|i: int|
                recs.len() <= i < after.len() ==> (#[trigger] after[i]).state
                    == UrlState::Pending
        }),
    decreases n,
{
    if n > 0 {
        lemma_enqueue_all_adds_pending(domain, recs, links, now, n - 1);
    }
}

/// A step leaves every policy with the delay of the settings.
pub proof fn lemma_step_keeps_delay(
    v: CrawlerView,
    state: WorkerStateView,
    event: EventView,
    now: u64,
)
    requires
        uniform_delay(v.policies, v.min_delay),
    ensures
        uniform_delay(spec_step(v, state, event, now).0.policies, v.min_delay),
        spec_step(v, state, event, now).0.min_delay == v.min_delay,
{
}

/// In a crawl that goes on and is within its budget, a URL that is the
/// only pending one is the one that the next poll claims. So a URL that was
/// in flight when the crawl was interrupted, and is put back in line at the
/// next start, is handed out again.
pub proof fn lemma_only_pending_is_polled(v: CrawlerView, now: u64, i: int)
    requires
        valid_records(v.domain, v.records),
        v.stop is None,
        !v.out_of_budget(now),
        0 <= i < v.records.len(),
        v.records[i].state == UrlState::Pending,
        forall|j: int|
            0 <= j < v.records.len() && j != i ==> (#[trigger] v.records[j]).state
                != UrlState::Pending,
    ensures
        spec_poll(v, now).1 == PollView::Url(v.records[i].path),
        spec_step(v, WorkerStateView::SelectUrl, EventView::Resume, now).1
            == (WorkerStateView::CheckRobots { url: v.records[i].path }),
{
    assert(crate::frontier::is_oldest_pending(v.records, i));
    let c = choose|c: int| crate::frontier::is_oldest_pending(v.records, c);
    crate::frontier::lemma_oldest_pending_unique(v.records, i, c);
}

/// A URL fails for a cause only. Where a step leaves a record `Failed` that
/// was not so before, the record was there and in flight, the worker held
/// its URL, and either the exclusion rules forbid the URL, or the step took
/// in the answer of a fetch that gave no body; the failure recorded is that
/// cause.
pub proof fn lemma_failure_has_a_cause(
    v: CrawlerView,
    state: WorkerStateView,
    event: EventView,
    now: u64,
    i: int,
)
    requires
        valid_records(v.domain, v.records),
        0 <= i < spec_step(v, state, event, now).0.records.len(),
        i >= v.records.len() || !(v.records[i].state is Failed),
        spec_step(v, state, event, now).0.records[i].state is Failed,
    ensures
        ({
            let r = spec_step(v, state, event, now);
            &&& i < v.records.len()
            &&& v.records[i].state == UrlState::InFlight
            &&& state.held() is Some
            &&& normalize(state.held()->0) == v.records[i].path
            &&& {
                ||| (state is CheckRobots || state is AwaitRobots) && spec_is_allowed(
                    r.0.policies,
                    state.held()->0,
                ) == Some(false) && r.0.records[i].state == UrlState::Failed(
                    FailureKind::RobotsDisallowed,
                )
                ||| state is Fetch && event is Fetched && !(spec_outcome(event->Fetched_response)
                    is Success) && r.0.records[i].state == UrlState::Failed(
                    failure_of(event->Fetched_response),
                )
            }
        }),
{
    let heard = crate::scheduler::spec_heard(v, event);
    let r = spec_step(v, state, event, now);
    if state is Stopped {
    } else if heard.stop is Some {
        if let Some(u) = state.held() {
            lemma_record_index_range(v.records, normalize(u), 0);
        }
    } else {
        match state {
            WorkerStateView::SelectUrl => {
                if let Some(k) = crate::frontier::oldest_pending(v.records) {
                    assert(crate::frontier::is_oldest_pending(v.records, k));
                }
            },
            WorkerStateView::CheckRobots { url } => {
                lemma_record_index_range(v.records, normalize(url), 0);
            },
            WorkerStateView::AwaitRobots { url } => {
                lemma_record_index_range(v.records, normalize(url), 0);
            },
            WorkerStateView::Fetch { url } => {
                lemma_record_index_range(v.records, normalize(url), 0);
            },
            WorkerStateView::ExtractLinks { url, body } => {
                let links = crate::url::resolve_all(url, crate::crawler::spec_links(body));
                lemma_enqueue_all_adds_pending(
                    v.domain,
                    v.records,
                    links,
                    now,
                    crate::crawler::spec_links(body).len() as int,
                );
            },
            WorkerStateView::Persist { url, body } => {
                lemma_record_index_range(v.records, normalize(url), 0);
            },
            _ => {},
        }
    }
}

/// A fetch that fails stops nothing: the URL is marked as failed with the
/// kind of the failure, the worker goes back to `Idle`, and the crawl goes
/// on.
pub proof fn lemma_failed_fetch_is_contained(
    v: CrawlerView,
    url: Seq<char>,
    response: FetchResponseView,
    now: u64,
)
    requires
        valid_records(v.domain, v.records),
        v.stop is None,
        !(spec_outcome(response) is Success),
        state_at(v.records, normalize(url)) == Some(UrlState::InFlight),
    ensures
        ({
            let r = spec_step(
                v,
                WorkerStateView::Fetch { url },
                EventView::Fetched { response },
                now,
            );
            &&& r.1 == WorkerStateView::Idle
            &&& r.2 == (ActionView::Report {
                result: FetchResultView { url, outcome: spec_outcome(response) },
            })
            &&& r.0.stop is None
            &&& state_at(r.0.records, normalize(url)) == Some(
                UrlState::Failed(failure_of(response)),
            )
        }),
{
    lemma_move_sets_state(
        v.domain,
        v.records,
        url,
        UrlState::InFlight,
        UrlState::Failed(failure_of(response)),
    );
}

/// A fetched URL is done once its worker reaches `Persist`, whatever
/// becomes of the document.
pub proof fn lemma_persist_marks_done(v: CrawlerView, url: Seq<char>, body: Seq<char>, now: u64)
    requires
        valid_records(v.domain, v.records),
        v.stop is None,
        state_at(v.records, normalize(url)) == Some(UrlState::InFlight),
    ensures
        ({
            let r = spec_step(v, WorkerStateView::Persist { url, body }, EventView::Resume, now);
            &&& r.1 == WorkerStateView::Idle
            &&& state_at(r.0.records, normalize(url)) == Some(UrlState::Done)
        }),
{
    lemma_move_sets_state(v.domain, v.records, url, UrlState::InFlight, UrlState::Done);
}

/// A worker that is stopped gives its claim back: after the step of a
/// worker in a crawl that was cancelled or halted, or that is halted by the
/// step's own event, the worker is out of the loop with the reason of the
/// stop, and the URL that it held is not in flight.
pub proof fn lemma_stop_releases_claim(
    v: CrawlerView,
    state: WorkerStateView,
    event: EventView,
    now: u64,
)
    requires
        valid_records(v.domain, v.records),
        v.stop is Some || event is FrontierFailed,
    ensures
        ({
            let r = spec_step(v, state, event, now);
            &&& r.1 == WorkerStateView::Stopped
            &&& r.2 == (ActionView::Exit { reason: spec_heard(v, event).exit_reason() })
            &&& r.0.stop == spec_heard(v, event).stop
            &&& state.held() matches Some(url) ==> state_at(r.0.records, normalize(url)) != Some(
                UrlState::InFlight,
            )
        }),
{
    if let Some(url) = state.held() {
        lemma_move_sets_state(v.domain, v.records, url, UrlState::InFlight, UrlState::Pending);
    }
}

} // verus!
