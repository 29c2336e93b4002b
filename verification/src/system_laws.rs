//! What holds of a whole crawl: several workers that take their steps on
//! one crawler, in any order.

use vstd::prelude::*;
use crate::crawler::{spec_enqueue_all, spec_links, spec_poll, CrawlerView, PollView};
use crate::fetch::spec_robots_body;
use crate::frontier::{has_record, state_at, valid_records};
use crate::frontier_laws::{
    lemma_claimed_stays_claimed, lemma_next_claims_pending, lemma_op_keeps_valid, FrontierOp,
};
use crate::models::{FailureKind, UrlState, UrlsView};
use crate::fetch::spec_outcome;
use crate::policy::{policy_key, spec_is_allowed, uniform_delay};
use crate::rate_limiter::{delay_of, lemma_op_keeps_spaced, spaced, Grant, PolicyOp};
use crate::scheduler::{spec_step, EventView, WorkerStateView};
use crate::scheduler_laws::{failure_of, lemma_enqueue_all_keeps_valid, lemma_step_keeps_valid};
use crate::url::normalize;

verus! {

/// A crawl: the crawler and the state of each of its workers.
pub struct System {
    pub crawler: CrawlerView,
    pub workers: Seq<WorkerStateView>,
}

/// One step of one worker.
pub struct Turn {
    /// Which worker steps.
    pub worker: int,
    /// What happened to it since its last step.
    pub event: EventView,
    /// When it steps.
    pub now: u64,
}

/// The start of a fetch: of which URL, and when.
pub struct Start {
    pub url: Seq<char>,
    pub at: u64,
}

/// The crawl after the turn `t`. A turn of a worker that does not exist
/// changes nothing.
pub open spec fn take_turn(s: System, t: Turn) -> System {
    if 0 <= t.worker < s.workers.len() {
        let r = spec_step(s.crawler, s.workers[t.worker], t.event, t.now);
        System { crawler: r.0, workers: s.workers.update(t.worker, r.1) }
    } else {
        s
    }
}

/// The fetch that the turn `t` starts, if it starts one: the worker was
/// waiting for its fetch slot and is granted it.
pub open spec fn fetch_started(s: System, t: Turn) -> Option<Start> {
    if 0 <= t.worker < s.workers.len() {
        match s.workers[t.worker] {
            WorkerStateView::RateLimitWait { url } => if spec_step(
                s.crawler,
                s.workers[t.worker],
                t.event,
                t.now,
            ).1 is Fetch {
                Some(Start { url, at: t.now })
            } else {
                None
            },
            _ => None,
        }
    } else {
        None
    }
}

/// The crawl after the turns `turns`, taken in order, and the fetches that
/// they started, in order.
pub open spec fn run_turns(s: System, turns: Seq<Turn>) -> (System, Seq<Start>)
    decreases turns.len(),
{
    if turns.len() == 0 {
        (s, Seq::empty())
    } else {
        let before = run_turns(s, turns.drop_last());
        (
            take_turn(before.0, turns.last()),
            match fetch_started(before.0, turns.last()) {
                Some(start) => before.1.push(start),
                None => before.1,
            },
        )
    }
}

/// Whether a worker in `state` holds a URL whose fetch has not started.
pub open spec fn is_waiting(state: WorkerStateView) -> bool {
    state is CheckRobots || state is AwaitRobots || state is RateLimitWait
}

/// `url` is a normal form that has a record, and the record is not pending:
/// the URL has been claimed.
pub open spec fn is_claimed(recs: Seq<UrlsView>, url: Seq<char>) -> bool {
    &&& normalize(url) == url
    &&& has_record(recs, url)
    &&& state_at(recs, url) != Some(UrlState::Pending)
}

/// What the turns taken so far have established of a crawl and of the
/// fetches started in it.
pub open spec fn orderly(s: System, started: Seq<Start>) -> bool {
    &&& valid_records(s.crawler.domain, s.crawler.records)
    &&& forall|i: int, j: int|
        0 <= i < j < started.len() ==> (#[trigger] started[i]).url != (#[trigger] started[j]).url
    &&& s.crawler.stop is None ==> {
        &&& forall|w: int|
            0 <= w < s.workers.len() && (#[trigger] s.workers[w]).held() is Some ==> is_claimed(
                s.crawler.records,
                s.workers[w].held()->0,
            )
        &&& forall|k: int|
            0 <= k < started.len() ==> is_claimed(s.crawler.records, (#[trigger] started[k]).url)
        &&& forall|w: int, k: int|
            0 <= w < s.workers.len() && 0 <= k < started.len() && is_waiting(
                #[trigger] s.workers[w],
            ) ==> s.workers[w].held()->0 != (#[trigger] started[k]).url
        &&& forall|a: int, b: int|
            0 <= a < s.workers.len() && 0 <= b < s.workers.len() && a != b && (
            #[trigger] s.workers[a]).held() is Some && (#[trigger] s.workers[b]).held() is Some
                ==> s.workers[a].held()->0 != s.workers[b].held()->0
    }
}

/// Offering links takes no claim away.
proof fn lemma_enqueue_all_keeps_claimed(
    domain: Seq<char>,
    recs: Seq<UrlsView>,
    links: Seq<Seq<char>>,
    now: u64,
    n: int,
    url: Seq<char>,
)
    requires
        valid_records(domain, recs),
        is_claimed(recs, url),
    ensures
        is_claimed(spec_enqueue_all(domain, recs, links, now, n), url),
    decreases n,
{
    if n > 0 {
        lemma_enqueue_all_keeps_claimed(domain, recs, links, now, n - 1, url);
        lemma_enqueue_all_keeps_valid(domain, recs, links, now, n - 1);
        let before = spec_enqueue_all(domain, recs, links, now, n - 1);
        lemma_claimed_stays_claimed(
            domain,
            before,
            FrontierOp::Enqueue { url: links[n - 1], now },
            url,
        );
    }
}

/// A step in a crawl that goes on takes no claim away.
proof fn lemma_step_keeps_claimed(
    v: CrawlerView,
    state: WorkerStateView,
    event: EventView,
    now: u64,
    url: Seq<char>,
)
    requires
        valid_records(v.domain, v.records),
        spec_step(v, state, event, now).0.stop is None,
        is_claimed(v.records, url),
    ensures
        is_claimed(spec_step(v, state, event, now).0.records, url),
{
    let d = v.domain;
    let recs = v.records;
    match state {
        WorkerStateView::SelectUrl => {
            lemma_claimed_stays_claimed(d, recs, FrontierOp::Next, url);
        },
        WorkerStateView::CheckRobots { url: u } => {
            lemma_claimed_stays_claimed(
                d,
                recs,
                FrontierOp::MarkFailed { url: u, kind: FailureKind::RobotsDisallowed },
                url,
            );
        },
        WorkerStateView::AwaitRobots { url: u } => {
            lemma_claimed_stays_claimed(
                d,
                recs,
                FrontierOp::MarkFailed { url: u, kind: FailureKind::RobotsDisallowed },
                url,
            );
        },
        WorkerStateView::Fetch { url: u } => {
            if let EventView::Fetched { response } = event {
                lemma_claimed_stays_claimed(
                    d,
                    recs,
                    FrontierOp::MarkFailed { url: u, kind: failure_of(response) },
                    url,
                );
            }
        },
        WorkerStateView::ExtractLinks { url: u, body } => {
            let links = crate::url::resolve_all(u, spec_links(body));
            lemma_enqueue_all_keeps_claimed(d, recs, links, now, links.len() as int, url);
        },
        WorkerStateView::Persist { url: u, body } => {
            lemma_claimed_stays_claimed(d, recs, FrontierOp::MarkDone { url: u }, url);
        },
        _ => {},
    }
}

/// What a worker holds after its step in a crawl that goes on: nothing, or
/// what it held before, or the URL that it has just claimed, which was
/// pending until then.
proof fn lemma_step_holds(v: CrawlerView, state: WorkerStateView, event: EventView, now: u64)
    requires
        valid_records(v.domain, v.records),
        spec_step(v, state, event, now).0.stop is None,
    ensures
        ({
            let r = spec_step(v, state, event, now);
            &&& r.1.held() matches Some(u) ==> {
                ||| state.held() == Some(u)
                ||| state is SelectUrl && state_at(v.records, u) == Some(UrlState::Pending)
                    && is_claimed(r.0.records, u)
            }
            &&& is_waiting(r.1) ==> state is SelectUrl || is_waiting(state)
            &&& r.1 is Fetch ==> state is Fetch || state is RateLimitWait
        }),
{
    if state is SelectUrl {
        lemma_next_claims_pending(v.domain, v.records);
        lemma_op_keeps_valid(v.domain, v.records, FrontierOp::Next);
        if let PollView::Url(u) = spec_poll(v, now).1 {
            let i = crate::frontier::oldest_pending(v.records)->0;
            assert(crate::frontier::is_oldest_pending(v.records, i));
            crate::frontier::lemma_record_index_range(v.records, u, 0);
        }
    }
}

/// A turn keeps the crawl orderly.
proof fn lemma_turn_keeps_orderly(s: System, started: Seq<Start>, t: Turn)
    requires
        orderly(s, started),
    ensures
        orderly(
            take_turn(s, t),
            match fetch_started(s, t) {
                Some(start) => started.push(start),
                None => started,
            },
        ),
{
    if 0 <= t.worker < s.workers.len() {
        let v = s.crawler;
        let state = s.workers[t.worker];
        let r = spec_step(v, state, t.event, t.now);
        let after = take_turn(s, t);
        let all = match fetch_started(s, t) {
            Some(start) => started.push(start),
            None => started,
        };
        lemma_step_keeps_valid(v, state, t.event, t.now);
        if r.0.stop is None {
            assert(v.stop is None);
            lemma_step_holds(v, state, t.event, t.now);
            assert forall|w: int|
                0 <= w < after.workers.len() && (#[trigger] after.workers[w]).held()
                    is Some implies is_claimed(r.0.records, after.workers[w].held()->0) by {
                if w != t.worker {
                    assert(after.workers[w] == s.workers[w]);
                    lemma_step_keeps_claimed(v, state, t.event, t.now, s.workers[w].held()->0);
                } else if state.held() == after.workers[w].held() {
                    lemma_step_keeps_claimed(v, state, t.event, t.now, state.held()->0);
                }
            }
            assert forall|k: int| 0 <= k < all.len() implies is_claimed(
                r.0.records,
                (#[trigger] all[k]).url,
            ) by {
                if k < started.len() {
                    assert(all[k] == started[k]);
                    lemma_step_keeps_claimed(v, state, t.event, t.now, started[k].url);
                } else {
                    lemma_step_keeps_claimed(v, state, t.event, t.now, state.held()->0);
                }
            }
            assert forall|i: int, j: int| 0 <= i < j < all.len() implies (#[trigger] all[i]).url
                != (#[trigger] all[j]).url by {
                if j == started.len() {
                    assert(is_waiting(s.workers[t.worker]));
                    assert(all[i] == started[i]);
                }
            }
            assert forall|w: int, k: int|
                0 <= w < after.workers.len() && 0 <= k < all.len() && is_waiting(
                    #[trigger] after.workers[w],
                ) implies after.workers[w].held()->0 != (#[trigger] all[k]).url by {
                if w != t.worker {
                    assert(after.workers[w] == s.workers[w]);
                    if k < started.len() {
                        assert(all[k] == started[k]);
                    } else {
                        assert(s.workers[t.worker].held() is Some);
                    }
                } else {
                    assert(k < started.len());
                    assert(all[k] == started[k]);
                    if state is SelectUrl {
                        assert(is_claimed(v.records, started[k].url));
                    } else {
                        assert(is_waiting(s.workers[t.worker]));
                    }
                }
            }
            assert forall|a: int, b: int|
                0 <= a < after.workers.len() && 0 <= b < after.workers.len() && a != b && (
                #[trigger] after.workers[a]).held() is Some && (
                #[trigger] after.workers[b]).held() is Some implies after.workers[a].held()->0
                != after.workers[b].held()->0 by {
                let other = if a == t.worker {
                    b
                } else {
                    a
                };
                assert(after.workers[other] == s.workers[other]);
                if a != t.worker && b != t.worker {
                    assert(after.workers[a] == s.workers[a]);
                    assert(after.workers[b] == s.workers[b]);
                } else if state.held() == after.workers[t.worker].held() {
                    assert(s.workers[t.worker].held() is Some);
                } else {
                    assert(is_claimed(v.records, s.workers[other].held()->0));
                }
            }
        } else {
            assert(fetch_started(s, t) is None);
        }
    }
}

/// No URL is fetched twice. In a crawl whose workers start with empty
/// hands, whatever turns the workers take and in whatever order, the
/// fetches that are started are all of different URLs.
pub proof fn lemma_no_url_is_fetched_twice(s: System, turns: Seq<Turn>)
    requires
        valid_records(s.crawler.domain, s.crawler.records),
        forall|w: int| 0 <= w < s.workers.len() ==> (#[trigger] s.workers[w]).held() is None,
    ensures
        ({
            let started = run_turns(s, turns).1;
            forall|i: int, j: int|
                0 <= i < j < started.len() ==> (#[trigger] started[i]).url != (
                #[trigger] started[j]).url
        }),
{
    lemma_run_keeps_orderly(s, turns);
}

/// The grants that the fetches `started` were started with.
pub open spec fn grants_of(started: Seq<Start>) -> Seq<Grant> {
    Seq::new(
        started.len(),
        |k: int| Grant { domain: policy_key(started[k].url), at: started[k].at },
    )
}

/// What the turns taken so far have established of the politeness of a
/// crawl: its fetches are spaced, and the rules allow each URL that has
/// been fetched or waits for its fetch slot.
pub open spec fn polite(s: System, started: Seq<Start>) -> bool {
    &&& spaced(s.crawler.policies, s.crawler.min_delay, grants_of(started))
    &&& forall|w: int|
        0 <= w < s.workers.len() && (#[trigger] s.workers[w]) is RateLimitWait ==> spec_is_allowed(
            s.crawler.policies,
            s.workers[w].held()->0,
        ) == Some(true)
    &&& forall|k: int|
        0 <= k < started.len() ==> spec_is_allowed(
            s.crawler.policies,
            (#[trigger] started[k]).url,
        ) == Some(true)
}

/// The calls on the policies that a step makes, in order.
pub open spec fn policy_ops(v: CrawlerView, state: WorkerStateView, event: EventView, now: u64) -> Seq<
    PolicyOp,
> {
    if state is Stopped || crate::scheduler::spec_heard(v, event).stop is Some {
        Seq::empty()
    } else {
        match state {
            WorkerStateView::CheckRobots { url } => if spec_is_allowed(v.policies, url) is None {
                seq![PolicyOp::Request { domain: policy_key(url) }]
            } else {
                Seq::empty()
            },
            WorkerStateView::AwaitRobots { url } => match event {
                EventView::RobotsAnswer { response } => seq![
                    PolicyOp::Install { domain: policy_key(url), body: spec_robots_body(response) },
                    PolicyOp::Request { domain: policy_key(url) },
                ],
                _ => Seq::empty(),
            },
            WorkerStateView::RateLimitWait { url } => seq![
                PolicyOp::Acquire { domain: policy_key(url), now },
            ],
            WorkerStateView::Fetch { url } => match event {
                EventView::Fetched { response } => seq![
                    PolicyOp::NoteFetch { domain: policy_key(url), at: now },
                ],
                _ => Seq::empty(),
            },
            _ => Seq::empty(),
        }
    }
}

/// A step changes the policies by the calls that it makes on them, and by
/// nothing else; the only grant that it can give is the one that starts a
/// fetch.
proof fn lemma_step_runs_policy_ops(v: CrawlerView, state: WorkerStateView, event: EventView, now: u64)
    ensures
        ({
            let r = spec_step(v, state, event, now);
            let run = crate::rate_limiter::run_policy_ops(
                v.policies,
                v.min_delay,
                policy_ops(v, state, event, now),
            );
            &&& r.0.policies == run.0
            &&& r.0.min_delay == v.min_delay
            &&& run.1 == (if state is RateLimitWait && r.1 is Fetch {
                seq![Grant { domain: policy_key(state.held()->0), at: now }]
            } else {
                Seq::empty()
            })
        }),
{
    let ops = policy_ops(v, state, event, now);
    let m = v.policies;
    let d = v.min_delay;
    reveal_with_fuel(crate::rate_limiter::run_policy_ops, 3);
    if ops.len() == 1 {
        assert(ops.drop_last() =~= Seq::<PolicyOp>::empty());
    } else if ops.len() == 2 {
        assert(ops.drop_last() =~= seq![ops[0]]);
        assert(ops.drop_last().drop_last() =~= Seq::<PolicyOp>::empty());
    }
}

/// Calls on the policies keep the grants spaced, change no domain's delay,
/// and no verdict of the rules that was known.
proof fn lemma_ops_keep_spaced(
    m: Map<Seq<char>, crate::policy::PolicyView>,
    min_delay: u64,
    grants: Seq<Grant>,
    ops: Seq<PolicyOp>,
)
    requires
        spaced(m, min_delay, grants),
    ensures
        ({
            let run = crate::rate_limiter::run_policy_ops(m, min_delay, ops);
            &&& spaced(run.0, min_delay, grants + run.1)
            &&& forall|d: Seq<char>| #[trigger]
                delay_of(run.0, min_delay, d) == delay_of(m, min_delay, d)
            &&& forall|url: Seq<char>|
                spec_is_allowed(m, url) is Some ==> #[trigger] spec_is_allowed(run.0, url)
                    == spec_is_allowed(m, url)
        }),
    decreases ops.len(),
{
    if ops.len() == 0 {
        assert(grants + Seq::<Grant>::empty() =~= grants);
    } else {
        lemma_ops_keep_spaced(m, min_delay, grants, ops.drop_last());
        let before = crate::rate_limiter::run_policy_ops(m, min_delay, ops.drop_last());
        let after = crate::rate_limiter::apply_policy_op(before.0, min_delay, ops.last());
        lemma_op_keeps_spaced(before.0, min_delay, grants + before.1, ops.last());
        match after.1 {
            Some(g) => {
                assert(grants + before.1.push(g) =~= (grants + before.1).push(g));
            },
            None => {},
        }
        assert forall|url: Seq<char>| spec_is_allowed(m, url) is Some implies #[trigger] spec_is_allowed(
            after.0,
            url,
        ) == spec_is_allowed(m, url) by {
            assert(spec_is_allowed(before.0, url) == spec_is_allowed(m, url));
        }
    }
}

/// A turn keeps the crawl polite.
proof fn lemma_turn_keeps_polite(s: System, started: Seq<Start>, t: Turn)
    requires
        polite(s, started),
    ensures
        polite(
            take_turn(s, t),
            match fetch_started(s, t) {
                Some(start) => started.push(start),
                None => started,
            },
        ),
        take_turn(s, t).crawler.min_delay == s.crawler.min_delay,
        forall|d: Seq<char>| #[trigger]
            delay_of(take_turn(s, t).crawler.policies, s.crawler.min_delay, d) == delay_of(
                s.crawler.policies,
                s.crawler.min_delay,
                d,
            ),
{
    if 0 <= t.worker < s.workers.len() {
        let v = s.crawler;
        let state = s.workers[t.worker];
        let r = spec_step(v, state, t.event, t.now);
        let after = take_turn(s, t);
        let all = match fetch_started(s, t) {
            Some(start) => started.push(start),
            None => started,
        };
        let ops = policy_ops(v, state, t.event, t.now);
        lemma_step_runs_policy_ops(v, state, t.event, t.now);
        lemma_ops_keep_spaced(v.policies, v.min_delay, grants_of(started), ops);
        let run = crate::rate_limiter::run_policy_ops(v.policies, v.min_delay, ops);
        assert(grants_of(all) =~= grants_of(started) + run.1);
        assert forall|w: int|
            0 <= w < after.workers.len() && (#[trigger] after.workers[w])
                is RateLimitWait implies spec_is_allowed(
            r.0.policies,
            after.workers[w].held()->0,
        ) == Some(true) by {
            if w != t.worker {
                assert(after.workers[w] == s.workers[w]);
            }
        }
        assert forall|k: int| 0 <= k < all.len() implies spec_is_allowed(
            r.0.policies,
            (#[trigger] all[k]).url,
        ) == Some(true) by {
            if k < started.len() {
                assert(all[k] == started[k]);
            }
        }
    }
}

/// Every run of a crawl in which no worker starts out waiting for a fetch
/// slot is polite, and changes no domain's delay.
proof fn lemma_run_keeps_polite(s: System, turns: Seq<Turn>)
    requires
        forall|w: int| 0 <= w < s.workers.len() ==> !((#[trigger] s.workers[w]) is RateLimitWait),
    ensures
        polite(run_turns(s, turns).0, run_turns(s, turns).1),
        run_turns(s, turns).0.crawler.min_delay == s.crawler.min_delay,
        forall|d: Seq<char>| #[trigger]
            delay_of(run_turns(s, turns).0.crawler.policies, s.crawler.min_delay, d) == delay_of(
                s.crawler.policies,
                s.crawler.min_delay,
                d,
            ),
    decreases turns.len(),
{
    if turns.len() == 0 {
        assert(grants_of(Seq::<Start>::empty()) =~= Seq::<Grant>::empty());
    } else {
        lemma_run_keeps_polite(s, turns.drop_last());
        let before = run_turns(s, turns.drop_last());
        lemma_turn_keeps_polite(before.0, before.1, turns.last());
    }
}

/// No URL is fetched against the rules. In a crawl in which no worker
/// starts out waiting for a fetch slot, whatever turns the workers take,
/// every URL whose fetch is started is one that the rules of its domain
/// allow.
pub proof fn lemma_no_forbidden_url_is_fetched(s: System, turns: Seq<Turn>)
    requires
        forall|w: int| 0 <= w < s.workers.len() ==> !((#[trigger] s.workers[w]) is RateLimitWait),
    ensures
        ({
            let run = run_turns(s, turns);
            forall|k: int|
                0 <= k < run.1.len() ==> spec_is_allowed(
                    run.0.crawler.policies,
                    (#[trigger] run.1[k]).url,
                ) == Some(true)
        }),
{
    lemma_run_keeps_polite(s, turns);
}

/// Fetches to one domain are spaced. In a crawl in which no worker starts
/// out waiting for a fetch slot, whatever turns the workers take, of two
/// fetches to one domain the later is started at least the domain's delay
/// after the earlier; and where every policy carries the delay of the
/// settings, as in every crawler that meets its invariant, at least that
/// delay after the earlier.
pub proof fn lemma_fetches_are_spaced(s: System, turns: Seq<Turn>)
    requires
        forall|w: int| 0 <= w < s.workers.len() ==> !((#[trigger] s.workers[w]) is RateLimitWait),
    ensures
        ({
            let run = run_turns(s, turns);
            &&& forall|i: int, j: int|
                0 <= i < j < run.1.len() && policy_key((#[trigger] run.1[i]).url) == policy_key(
                    (#[trigger] run.1[j]).url,
                ) ==> run.1[i].at + delay_of(
                    s.crawler.policies,
                    s.crawler.min_delay,
                    policy_key(run.1[i].url),
                ) <= run.1[j].at
            &&& uniform_delay(s.crawler.policies, s.crawler.min_delay) ==> forall|i: int, j: int|
                0 <= i < j < run.1.len() && policy_key((#[trigger] run.1[i]).url) == policy_key(
                    (#[trigger] run.1[j]).url,
                ) ==> run.1[i].at + s.crawler.min_delay <= run.1[j].at
        }),
{
    lemma_run_keeps_polite(s, turns);
    let run = run_turns(s, turns);
    let grants = grants_of(run.1);
    assert forall|i: int, j: int|
        0 <= i < j < run.1.len() && policy_key((#[trigger] run.1[i]).url) == policy_key(
            (#[trigger] run.1[j]).url,
        ) implies run.1[i].at + delay_of(
        s.crawler.policies,
        s.crawler.min_delay,
        policy_key(run.1[i].url),
    ) <= run.1[j].at by {
        assert(grants[i].domain == grants[j].domain);
        assert(delay_of(run.0.crawler.policies, s.crawler.min_delay, grants[i].domain) == delay_of(
            s.crawler.policies,
            s.crawler.min_delay,
            grants[i].domain,
        ));
    }
    if uniform_delay(s.crawler.policies, s.crawler.min_delay) {
        assert forall|i: int, j: int|
            0 <= i < j < run.1.len() && policy_key((#[trigger] run.1[i]).url) == policy_key(
                (#[trigger] run.1[j]).url,
            ) implies run.1[i].at + s.crawler.min_delay <= run.1[j].at by {
            assert(delay_of(s.crawler.policies, s.crawler.min_delay, policy_key(run.1[i].url))
                == s.crawler.min_delay);
        }
    }
}

/// Whether no rule of `m` forbids anything: the rules that are known are
/// empty.
pub open spec fn rules_forbid_nothing(m: Map<Seq<char>, crate::policy::PolicyView>) -> bool {
    forall|d: Seq<char>|
        m.contains_key(d) && (#[trigger] m[d]).rules is Some ==> m[d].rules->0.len() == 0
}

/// Whether the turn `t` brings no cause of failure: the answer of a fetch
/// that it brings has a body, and the rules that it brings are empty.
pub open spec fn is_fair(t: Turn) -> bool {
    match t.event {
        EventView::Fetched { response } => spec_outcome(response) is Success,
        EventView::RobotsAnswer { response } => crate::policy::rules_of_answer(
            spec_robots_body(response),
        ).len() == 0,
        _ => true,
    }
}

/// Whether the records that are `Failed` in `now` were so in `then`, at the
/// same place and for the same reason.
pub open spec fn no_new_failure(then: Seq<UrlsView>, now: Seq<UrlsView>) -> bool {
    forall|i: int|
        0 <= i < now.len() && (#[trigger] now[i]).state is Failed ==> i < then.len()
            && then[i].state == now[i].state
}

/// A turn that brings no cause of failure makes no record fail.
proof fn lemma_fair_turn_fails_nothing(s: System, t: Turn)
    requires
        valid_records(s.crawler.domain, s.crawler.records),
        rules_forbid_nothing(s.crawler.policies),
        is_fair(t),
    ensures
        rules_forbid_nothing(take_turn(s, t).crawler.policies),
        no_new_failure(s.crawler.records, take_turn(s, t).crawler.records),
{
    if 0 <= t.worker < s.workers.len() {
        let v = s.crawler;
        let state = s.workers[t.worker];
        let r = spec_step(v, state, t.event, t.now);
        lemma_step_keeps_valid(v, state, t.event, t.now);
        assert(rules_forbid_nothing(r.0.policies));
        assert forall|i: int| 0 <= i < r.0.records.len() && (#[trigger] r.0.records[i]).state
            is Failed implies i < v.records.len() && v.records[i].state == r.0.records[i].state by {
            if i >= v.records.len() || !(v.records[i].state is Failed) {
                crate::scheduler_laws::lemma_failure_has_a_cause(v, state, t.event, t.now, i);
            }
        }
    }
}

/// No URL fails without a cause. In a crawl in which no rule forbids
/// anything, whatever turns the workers take, as long as every fetch gives
/// a body and every `robots.txt` that comes in lays down no rule, no record
/// becomes `Failed`: each record is pending, in flight or done, or failed
/// before the turns were taken.
pub proof fn lemma_no_failure_without_cause(s: System, turns: Seq<Turn>)
    requires
        valid_records(s.crawler.domain, s.crawler.records),
        rules_forbid_nothing(s.crawler.policies),
        forall|k: int| 0 <= k < turns.len() ==> is_fair(#[trigger] turns[k]),
    ensures
        valid_records(run_turns(s, turns).0.crawler.domain, run_turns(s, turns).0.crawler.records),
        rules_forbid_nothing(run_turns(s, turns).0.crawler.policies),
        no_new_failure(s.crawler.records, run_turns(s, turns).0.crawler.records),
    decreases turns.len(),
{
    if turns.len() > 0 {
        let rest = turns.drop_last();
        assert forall|k: int| 0 <= k < rest.len() implies is_fair(#[trigger] rest[k]) by {
            assert(rest[k] == turns[k]);
        }
        lemma_no_failure_without_cause(s, rest);
        let before = run_turns(s, rest).0;
        lemma_fair_turn_fails_nothing(before, turns.last());
        let after = take_turn(before, turns.last());
        if 0 <= turns.last().worker < before.workers.len() {
            lemma_step_keeps_valid(
                before.crawler,
                before.workers[turns.last().worker],
                turns.last().event,
                turns.last().now,
            );
        }
        assert forall|i: int|
            0 <= i < after.crawler.records.len() && (#[trigger] after.crawler.records[i]).state
                is Failed implies i < s.crawler.records.len() && s.crawler.records[i].state
            == after.crawler.records[i].state by {
            assert(before.crawler.records[i].state is Failed);
        }
    }
}

/// Every run of a crawl whose workers start with empty hands is orderly.
proof fn lemma_run_keeps_orderly(s: System, turns: Seq<Turn>)
    requires
        valid_records(s.crawler.domain, s.crawler.records),
        forall|w: int| 0 <= w < s.workers.len() ==> (#[trigger] s.workers[w]).held() is None,
    ensures
        orderly(run_turns(s, turns).0, run_turns(s, turns).1),
    decreases turns.len(),
{
    if turns.len() > 0 {
        lemma_run_keeps_orderly(s, turns.drop_last());
        let before = run_turns(s, turns.drop_last());
        lemma_turn_keeps_orderly(before.0, before.1, turns.last());
    }
}

} // verus!
