//! What holds of every frontier, whatever is done with it.
//!
//! The laws speak of the frontier's records as a sequence and of its
//! operations as the functions that the operations' contracts use, so each
//! law holds of every run of the executable code, calls of several workers
//! taken in the order in which they got hold of the frontier.

use vstd::prelude::*;
use crate::frontier::{
    any_in_state, has_record, is_oldest_pending, lemma_record_index_is,
    lemma_record_index_range, oldest_pending, record_index, spec_enqueue, spec_move, spec_next,
    spec_recover, state_at, valid_records,
};
use crate::models::{FailureKind, UrlState, UrlsView};
use crate::url::{domain_of, in_domain, lemma_normalize_idempotent, normalize};

verus! {

/// One call on a frontier.
pub enum FrontierOp {
    Enqueue { url: Seq<char>, now: u64 },
    Next,
    MarkDone { url: Seq<char> },
    MarkFailed { url: Seq<char>, kind: FailureKind },
    Release { url: Seq<char> },
    Recover,
}

impl FrontierOp {
    /// Whether the call can put a claimed URL back in line.
    pub open spec fn gives_back(self) -> bool {
        self is Release || self is Recover
    }
}

/// The records after `op`, and the URL that `op` handed out, if any.
pub open spec fn apply_op(domain: Seq<char>, recs: Seq<UrlsView>, op: FrontierOp) -> (
    Seq<UrlsView>,
    Option<Seq<char>>,
) {
    match op {
        FrontierOp::Enqueue { url, now } => (spec_enqueue(domain, recs, url, now), None),
        FrontierOp::Next => spec_next(recs),
        FrontierOp::MarkDone { url } => (
            spec_move(recs, url, UrlState::InFlight, UrlState::Done),
            None,
        ),
        FrontierOp::MarkFailed { url, kind } => (
            spec_move(recs, url, UrlState::InFlight, UrlState::Failed(kind)),
            None,
        ),
        FrontierOp::Release { url } => (
            spec_move(recs, url, UrlState::InFlight, UrlState::Pending),
            None,
        ),
        FrontierOp::Recover => (spec_recover(recs), None),
    }
}

/// The records after the calls `ops`, made in order, and the URLs that they
/// handed out, in order.
pub open spec fn run_ops(domain: Seq<char>, recs: Seq<UrlsView>, ops: Seq<FrontierOp>) -> (
    Seq<UrlsView>,
    Seq<Seq<char>>,
)
    decreases ops.len(),
{
    if ops.len() == 0 {
        (recs, Seq::empty())
    } else {
        let before = run_ops(domain, recs, ops.drop_last());
        let after = apply_op(domain, before.0, ops.last());
        (
            after.0,
            match after.1 {
                Some(url) => before.1.push(url),
                None => before.1,
            },
        )
    }
}

/// `b` holds the records of `a`, each with its path and its time of
/// discovery, and each that was `Done` or `Failed` in that very state.
pub open spec fn extends(a: Seq<UrlsView>, b: Seq<UrlsView>) -> bool {
    &&& a.len() <= b.len()
    &&& forall|i: int|
        0 <= i < a.len() ==> (#[trigger] b[i]).path == a[i].path && b[i].discovered_at
            == a[i].discovered_at && (a[i].state.is_terminal() ==> b[i].state == a[i].state)
}

/// Records with the same paths at the same places give every path the same
/// index.
pub proof fn lemma_record_index_same_paths(
    a: Seq<UrlsView>,
    b: Seq<UrlsView>,
    u: Seq<char>,
    from: int,
)
    requires
        a.len() == b.len(),
        forall|i: int| 0 <= i < a.len() ==> a[i].path == b[i].path,
    ensures
        record_index(a, u, from) == record_index(b, u, from),
    decreases a.len() - from,
{
    if 0 <= from < a.len() && a[from].path != u {
        lemma_record_index_same_paths(a, b, u, from + 1);
    }
}

/// A record added at the end moves no path that was there.
pub proof fn lemma_record_index_push(recs: Seq<UrlsView>, r: UrlsView, u: Seq<char>, from: int)
    requires
        0 <= from <= recs.len(),
        record_index(recs, u, from) < recs.len(),
    ensures
        record_index(recs.push(r), u, from) == record_index(recs, u, from),
    decreases recs.len() - from,
{
    if from < recs.len() && recs[from].path != u {
        lemma_record_index_push(recs, r, u, from + 1);
    }
}

/// One call keeps the records valid, removes none, and leaves alone what
/// was `Done` or `Failed`.
pub proof fn lemma_op_keeps_valid(domain: Seq<char>, recs: Seq<UrlsView>, op: FrontierOp)
    requires
        valid_records(domain, recs),
    ensures
        valid_records(domain, apply_op(domain, recs, op).0),
        extends(recs, apply_op(domain, recs, op).0),
{
    let after = apply_op(domain, recs, op).0;
    match op {
        FrontierOp::Enqueue { url, now } => {
            lemma_normalize_idempotent(url);
            lemma_record_index_range(recs, normalize(url), 0);
        },
        FrontierOp::Next => {
            if let Some(i) = oldest_pending(recs) {
                assert(is_oldest_pending(recs, i));
            }
        },
        FrontierOp::MarkDone { url } => {
            lemma_record_index_range(recs, normalize(url), 0);
        },
        FrontierOp::MarkFailed { url, kind } => {
            lemma_record_index_range(recs, normalize(url), 0);
        },
        FrontierOp::Release { url } => {
            lemma_record_index_range(recs, normalize(url), 0);
        },
        FrontierOp::Recover => {},
    }
}

/// No sequence of calls brings a URL from outside the crawl domain into the
/// frontier, takes a record away, or changes a record that is `Done` or
/// `Failed`: after the calls every record is a normal form with the scheme
/// and host of the domain and a path below the domain's, no URL has two
/// records, and what was there is still there.
pub proof fn lemma_run_keeps_valid(domain: Seq<char>, recs: Seq<UrlsView>, ops: Seq<FrontierOp>)
    requires
        valid_records(domain, recs),
    ensures
        valid_records(domain, run_ops(domain, recs, ops).0),
        extends(recs, run_ops(domain, recs, ops).0),
    decreases ops.len(),
{
    if ops.len() > 0 {
        lemma_run_keeps_valid(domain, recs, ops.drop_last());
        let before = run_ops(domain, recs, ops.drop_last()).0;
        lemma_op_keeps_valid(domain, before, ops.last());
    }
}

/// A URL outside the crawl domain is dropped: offering a URL whose scheme
/// or host is not the domain's, or whose path does not begin with the
/// domain's, changes nothing, and such a URL has no record.
pub proof fn lemma_outside_domain_is_dropped(
    domain: Seq<char>,
    recs: Seq<UrlsView>,
    raw: Seq<char>,
    now: u64,
)
    requires
        valid_records(domain, recs),
        !in_domain(normalize(raw), domain),
    ensures
        spec_enqueue(domain, recs, raw, now) == recs,
        !has_record(recs, normalize(raw)),
{
    lemma_record_index_range(recs, normalize(raw), 0);
}

/// A URL of another host is dropped: offering a URL whose scheme or host is
/// not the crawl domain's changes nothing, however its text begins.
pub proof fn lemma_other_host_is_dropped(
    domain: Seq<char>,
    recs: Seq<UrlsView>,
    raw: Seq<char>,
    now: u64,
)
    requires
        valid_records(domain, recs),
        domain_of(normalize(raw)) != domain_of(domain),
    ensures
        spec_enqueue(domain, recs, raw, now) == recs,
        !has_record(recs, normalize(raw)),
{
    lemma_outside_domain_is_dropped(domain, recs, raw, now);
}

/// Every record is of the crawl domain, whatever was offered: after any
/// sequence of calls each record has the scheme and host of the domain.
pub proof fn lemma_records_stay_in_domain(
    domain: Seq<char>,
    recs: Seq<UrlsView>,
    ops: Seq<FrontierOp>,
)
    requires
        valid_records(domain, recs),
    ensures
        forall|i: int|
            0 <= i < run_ops(domain, recs, ops).0.len() ==> domain_of(
                (#[trigger] run_ops(domain, recs, ops).0[i]).path,
            ) == domain_of(domain),
{
    lemma_run_keeps_valid(domain, recs, ops);
}

/// Offering a URL twice is offering it once: the second call changes
/// nothing, whenever it is made. A URL of the crawl domain then has exactly
/// one record; any other URL has none.
pub proof fn lemma_enqueue_idempotent(
    domain: Seq<char>,
    recs: Seq<UrlsView>,
    raw: Seq<char>,
    first: u64,
    second: u64,
)
    requires
        valid_records(domain, recs),
    ensures
        ({
            let once = spec_enqueue(domain, recs, raw, first);
            &&& spec_enqueue(domain, once, raw, second) == once
            &&& valid_records(domain, once)
            &&& has_record(once, normalize(raw)) == in_domain(normalize(raw), domain)
            &&& forall|i: int, j: int|
                0 <= i < once.len() && 0 <= j < once.len() && once[i].path == normalize(raw)
                    && once[j].path == normalize(raw) ==> i == j
        }),
{
    let u = normalize(raw);
    let once = spec_enqueue(domain, recs, raw, first);
    lemma_op_keeps_valid(domain, recs, FrontierOp::Enqueue { url: raw, now: first });
    lemma_record_index_range(recs, u, 0);
    lemma_record_index_range(once, u, 0);
    if in_domain(u, domain) && !has_record(recs, u) {
        assert(once[recs.len() as int].path == u);
    }
}

/// The URL that `next` hands out was pending and is in flight afterwards;
/// every other record is as it was.
pub proof fn lemma_next_claims_pending(domain: Seq<char>, recs: Seq<UrlsView>)
    requires
        valid_records(domain, recs),
    ensures
        match spec_next(recs).1 {
            Some(url) => state_at(recs, url) == Some(UrlState::Pending) && state_at(
                spec_next(recs).0,
                url,
            ) == Some(UrlState::InFlight) && forall|i: int|
                0 <= i < recs.len() && recs[i].path != url ==> spec_next(recs).0[i] == recs[i],
            None => !any_in_state(recs, UrlState::Pending) && spec_next(recs).0 == recs,
        },
{
    match oldest_pending(recs) {
        Some(i) => {
            assert(is_oldest_pending(recs, i));
            lemma_record_index_is(domain, recs, i);
            let after = spec_next(recs).0;
            lemma_record_index_same_paths(recs, after, recs[i].path, 0);
        },
        None => {
            if any_in_state(recs, UrlState::Pending) {
                lemma_next_finds_pending(recs);
            }
        },
    }
}

/// Where a record among the first `n` is pending, one of them is next in
/// line among the first `n`.
pub proof fn lemma_some_pending_is_oldest(recs: Seq<UrlsView>, n: int, k: int)
    requires
        0 <= k < n <= recs.len(),
        recs[k].state == UrlState::Pending,
    ensures
        exists|i: int| is_oldest_pending(recs.take(n), i),
    decreases n,
{
    let head = recs.take(n);
    let last = n - 1;
    if exists|p: int| 0 <= p < last && (#[trigger] recs[p]).state == UrlState::Pending {
        let p = choose|p: int| 0 <= p < last && (#[trigger] recs[p]).state == UrlState::Pending;
        lemma_some_pending_is_oldest(recs, last, p);
        let b = choose|i: int| is_oldest_pending(recs.take(last), i);
        assert(recs.take(last)[b] == recs[b]);
        assert forall|j: int| 0 <= j < last implies recs.take(last)[j] == head[j] by {}
        if recs[last].state == UrlState::Pending && recs[last].discovered_at
            < recs[b].discovered_at {
            assert forall|j: int|
                0 <= j < head.len() && (#[trigger] head[j]).state
                    == UrlState::Pending implies head[last].discovered_at < head[j].discovered_at
                || head[last].discovered_at == head[j].discovered_at && last <= j by {
                if j < last {
                    assert(recs.take(last)[j].state == UrlState::Pending);
                }
            }
            assert(is_oldest_pending(head, last));
        } else {
            assert forall|j: int|
                0 <= j < head.len() && (#[trigger] head[j]).state
                    == UrlState::Pending implies head[b].discovered_at < head[j].discovered_at
                || head[b].discovered_at == head[j].discovered_at && b <= j by {
                if j < last {
                    assert(recs.take(last)[j].state == UrlState::Pending);
                }
            }
            assert(is_oldest_pending(head, b));
        }
    } else {
        assert(k == last);
        assert forall|j: int|
            0 <= j < head.len() && (#[trigger] head[j]).state == UrlState::Pending implies j
            == last by {
            assert(head[j] == recs[j]);
        }
        assert(is_oldest_pending(head, last));
    }
}

/// While anything is pending, `next` hands out a URL.
pub proof fn lemma_next_finds_pending(recs: Seq<UrlsView>)
    requires
        any_in_state(recs, UrlState::Pending),
    ensures
        spec_next(recs).1 is Some,
{
    let k = choose|k: int| 0 <= k < recs.len() && (#[trigger] recs[k]).state == UrlState::Pending;
    lemma_some_pending_is_oldest(recs, recs.len() as int, k);
    assert(recs.take(recs.len() as int) =~= recs);
}

/// No URL is handed out twice: in a sequence of calls of which none gives a
/// claimed URL back (no `release`, no `recover_stale_in_flight`), the URLs
/// that the calls of `next` hand out are all different, however often each
/// was offered, and none of them is pending afterwards.
pub proof fn lemma_no_double_claim(domain: Seq<char>, recs: Seq<UrlsView>, ops: Seq<FrontierOp>)
    requires
        valid_records(domain, recs),
        forall|k: int| 0 <= k < ops.len() ==> !(#[trigger] ops[k]).gives_back(),
    ensures
        ({
            let claimed = run_ops(domain, recs, ops).1;
            let after = run_ops(domain, recs, ops).0;
            &&& forall|i: int, j: int|
                0 <= i < j < claimed.len() ==> #[trigger] claimed[i] != #[trigger] claimed[j]
            &&& forall|i: int|
                0 <= i < claimed.len() ==> has_record(after, #[trigger] claimed[i]) && state_at(
                    after,
                    claimed[i],
                ) != Some(UrlState::Pending)
        }),
    decreases ops.len(),
{
    if ops.len() > 0 {
        let rest = ops.drop_last();
        let op = ops.last();
        assert forall|k: int| 0 <= k < rest.len() implies !(#[trigger] rest[k]).gives_back() by {
            assert(rest[k] == ops[k]);
        }
        lemma_no_double_claim(domain, recs, rest);
        lemma_run_keeps_valid(domain, recs, rest);
        let before = run_ops(domain, recs, rest);
        let mid = before.0;
        let seen = before.1;
        let after = apply_op(domain, mid, op).0;
        let claimed = run_ops(domain, recs, ops).1;
        lemma_op_keeps_valid(domain, mid, op);
        assert forall|i: int| 0 <= i < seen.len() implies has_record(after, #[trigger] seen[i])
            && state_at(after, seen[i]) != Some(UrlState::Pending) by {
            lemma_claimed_stays_claimed(domain, mid, op, seen[i]);
        }
        match op {
            FrontierOp::Next => {
                lemma_next_claims_pending(domain, mid);
                if let Some(url) = spec_next(mid).1 {
                    assert(claimed == seen.push(url));
                    assert forall|i: int, j: int|
                        0 <= i < j < claimed.len() implies #[trigger] claimed[i]
                        != #[trigger] claimed[j] by {
                        if j == seen.len() {
                            assert(state_at(mid, seen[i]) != Some(UrlState::Pending));
                        }
                    }
                }
            },
            _ => {},
        }
    }
}

/// A URL that is neither pending nor without a record stays so through
/// every call that gives nothing back.
pub proof fn lemma_claimed_stays_claimed(
    domain: Seq<char>,
    recs: Seq<UrlsView>,
    op: FrontierOp,
    url: Seq<char>,
)
    requires
        valid_records(domain, recs),
        !op.gives_back(),
        has_record(recs, url),
        state_at(recs, url) != Some(UrlState::Pending),
    ensures
        has_record(apply_op(domain, recs, op).0, url),
        state_at(apply_op(domain, recs, op).0, url) != Some(UrlState::Pending),
{
    let after = apply_op(domain, recs, op).0;
    lemma_record_index_range(recs, url, 0);
    let at = record_index(recs, url, 0);
    match op {
        FrontierOp::Enqueue { url: offered, now } => {
            if after != recs {
                lemma_record_index_push(recs, after.last(), url, 0);
            }
        },
        FrontierOp::Next => {
            if let Some(i) = oldest_pending(recs) {
                assert(is_oldest_pending(recs, i));
                lemma_record_index_same_paths(recs, after, url, 0);
            }
        },
        FrontierOp::MarkDone { url: done } => {
            lemma_record_index_range(recs, normalize(done), 0);
            lemma_record_index_same_paths(recs, after, url, 0);
        },
        FrontierOp::MarkFailed { url: failed, kind } => {
            lemma_record_index_range(recs, normalize(failed), 0);
            lemma_record_index_same_paths(recs, after, url, 0);
        },
        FrontierOp::Release { url: released } => {},
        FrontierOp::Recover => {},
    }
}

/// Whether record `j` stands before record `i` in line: it is older, or of
/// the same age and earlier in the frontier.
pub open spec fn is_before(recs: Seq<UrlsView>, j: int, i: int) -> bool {
    ||| recs[j].discovered_at < recs[i].discovered_at
    ||| recs[j].discovered_at == recs[i].discovered_at && j < i
}

/// How many of the first `n` records are pending and stand before record
/// `i` in line.
pub open spec fn ahead_of(recs: Seq<UrlsView>, i: int, n: int) -> nat
    decreases n,
{
    if n <= 0 {
        0
    } else if recs[n - 1].state == UrlState::Pending && is_before(recs, n - 1, i) {
        ahead_of(recs, i, n - 1) + 1
    } else {
        ahead_of(recs, i, n - 1)
    }
}

/// What the last of `k` calls of `next` in a row hands out (`k` at least
/// one).
pub open spec fn nth_claim(recs: Seq<UrlsView>, k: nat) -> Option<Seq<char>>
    decreases k,
{
    if k <= 1 {
        spec_next(recs).1
    } else {
        nth_claim(spec_next(recs).0, (k - 1) as nat)
    }
}

/// A pending record that stands before record `i` is counted.
proof fn lemma_ahead_counts(recs: Seq<UrlsView>, i: int, n: int, j: int)
    requires
        0 <= j < n <= recs.len(),
        0 <= i < recs.len(),
        recs[j].state == UrlState::Pending,
        is_before(recs, j, i),
    ensures
        ahead_of(recs, i, n) > 0,
    decreases n,
{
    if j < n - 1 {
        lemma_ahead_counts(recs, i, n - 1, j);
    }
}

/// Claiming a record that stands before record `i` takes one off the
/// count.
proof fn lemma_ahead_after_claim(recs: Seq<UrlsView>, i: int, n: int, j: int)
    requires
        0 <= n <= recs.len(),
        0 <= i < recs.len(),
        0 <= j < recs.len(),
        j != i,
        recs[j].state == UrlState::Pending,
        is_before(recs, j, i),
    ensures
        ahead_of(recs.update(j, recs[j].with_state(UrlState::InFlight)), i, n) + (if j < n {
            1nat
        } else {
            0nat
        }) == ahead_of(recs, i, n),
    decreases n,
{
    if n > 0 {
        lemma_ahead_after_claim(recs, i, n - 1, j);
    }
}

/// A pending URL comes to its turn: with `a` pending URLs before it in
/// line, it is the one that the call of `next` after `a` others hands out.
pub proof fn lemma_pending_is_claimed(domain: Seq<char>, recs: Seq<UrlsView>, i: int)
    requires
        valid_records(domain, recs),
        0 <= i < recs.len(),
        recs[i].state == UrlState::Pending,
    ensures
        nth_claim(recs, ahead_of(recs, i, recs.len() as int) + 1) == Some(recs[i].path),
    decreases ahead_of(recs, i, recs.len() as int),
{
    let n = recs.len() as int;
    assert(any_in_state(recs, UrlState::Pending));
    lemma_next_finds_pending(recs);
    let j = oldest_pending(recs)->0;
    assert(is_oldest_pending(recs, j));
    if j != i {
        assert(is_before(recs, j, i));
        lemma_ahead_counts(recs, i, n, j);
        lemma_ahead_after_claim(recs, i, n, j);
        lemma_op_keeps_valid(domain, recs, FrontierOp::Next);
        lemma_pending_is_claimed(domain, spec_next(recs).0, i);
    } else {
        if ahead_of(recs, i, n) > 0 {
            lemma_ahead_has_witness(recs, i, n);
        }
    }
}

/// Where the count is not zero, a pending record stands before record `i`.
proof fn lemma_ahead_has_witness(recs: Seq<UrlsView>, i: int, n: int)
    requires
        0 <= n <= recs.len(),
        0 <= i < recs.len(),
        ahead_of(recs, i, n) > 0,
    ensures
        exists|j: int|
            0 <= j < n && (#[trigger] recs[j]).state == UrlState::Pending && is_before(recs, j, i),
    decreases n,
{
    if n > 0 {
        if recs[n - 1].state == UrlState::Pending && is_before(recs, n - 1, i) {
        } else {
            lemma_ahead_has_witness(recs, i, n - 1);
        }
    }
}

/// After a restart nothing is lost: `recover_stale_in_flight` puts every
/// URL that was in flight back in line and leaves every other record as it
/// was. The recovered URL is handed out again: by the call of `next` that
/// follows as many others as there are pending URLs before it in line.
pub proof fn lemma_recover_requeues(domain: Seq<char>, recs: Seq<UrlsView>, i: int)
    requires
        valid_records(domain, recs),
        0 <= i < recs.len(),
        recs[i].state == UrlState::InFlight,
    ensures
        ({
            let after = spec_recover(recs);
            &&& valid_records(domain, after)
            &&& after[i] == recs[i].with_state(UrlState::Pending)
            &&& !any_in_state(after, UrlState::InFlight)
            &&& forall|j: int|
                0 <= j < recs.len() && recs[j].state != UrlState::InFlight ==> after[j] == recs[j]
            &&& nth_claim(after, ahead_of(after, i, after.len() as int) + 1) == Some(
                recs[i].path,
            )
        }),
{
    let after = spec_recover(recs);
    assert(after[i].state == UrlState::Pending);
    lemma_op_keeps_valid(domain, recs, FrontierOp::Recover);
    lemma_pending_is_claimed(domain, after, i);
}

} // verus!
