//! The per-domain rate limit: between two fetches that are let through to
//! one domain at least the domain's `min_delay` passes.
//!
//! The limiter does not wait itself. It is asked with the present time; it
//! either lets the fetch through and notes the time, or says how long the
//! caller has to wait before asking again.

use vstd::prelude::*;
use crate::policy::{policy_or_fresh, spec_install, spec_request, PolicyCache, PolicyView};

verus! {

/// The answer to a request for a fetch slot.
#[derive(Clone, Copy, Debug, PartialEq, Eq, Structural)]
pub enum Acquire {
    /// The fetch may start now.
    Granted,
    /// The fetch may not start yet; ask again after this long.
    Wait(u64),
}

/// Whether a fetch to a domain with the policy `p` may start at `now`.
pub open spec fn is_due(p: PolicyView, now: u64) -> bool {
    match p.last_fetch_at {
        None => true,
        Some(last) => last + p.min_delay <= now,
    }
}

/// How long a fetch that is not due at `now` has to wait, cut to what a
/// `u64` holds.
pub open spec fn wait_left(p: PolicyView, now: u64) -> u64 {
    let left = p.last_fetch_at->0 + p.min_delay - now;
    if left > u64::MAX {
        u64::MAX
    } else {
        left as u64
    }
}

/// The policy after a request at `now`, and the answer.
pub open spec fn spec_acquire(p: PolicyView, now: u64) -> (PolicyView, Acquire) {
    if is_due(p, now) {
        (p.with_last_fetch(now), Acquire::Granted)
    } else {
        (p, Acquire::Wait(wait_left(p, now)))
    }
}

/// The policy after a fetch was seen to end at `at`.
pub open spec fn spec_note(p: PolicyView, at: u64) -> PolicyView {
    match p.last_fetch_at {
        Some(last) if last > at => p,
        _ => p.with_last_fetch(at),
    }
}

/// The policies after a request for `domain` at `now`, and the answer.
pub open spec fn spec_acquire_in(
    m: Map<Seq<char>, PolicyView>,
    min_delay: u64,
    domain: Seq<char>,
    now: u64,
) -> (Map<Seq<char>, PolicyView>, Acquire) {
    let r = spec_acquire(policy_or_fresh(m, domain, min_delay), now);
    (
        if r.1 == Acquire::Granted {
            m.insert(domain, r.0)
        } else {
            m
        },
        r.1,
    )
}

/// The policies after a fetch to `domain` was seen to end at `at`.
pub open spec fn spec_note_in(
    m: Map<Seq<char>, PolicyView>,
    min_delay: u64,
    domain: Seq<char>,
    at: u64,
) -> Map<Seq<char>, PolicyView> {
    m.insert(domain, spec_note(policy_or_fresh(m, domain, min_delay), at))
}

impl PolicyCache {
    /// Asks for a fetch slot for `domain` at the time `now`. The slot is
    /// granted when the domain has not been fetched from yet, or when its
    /// `min_delay` has passed since the last fetch; `now` is then noted as
    /// the time of the last fetch. Otherwise nothing changes and the answer
    /// says how long is left.
    pub fn acquire(&mut self, domain: &str, now: u64) -> (r: Acquire)
        ensures
            final(self).min_delay() == old(self).min_delay(),
            final(self)@ == spec_acquire_in(old(self)@, old(self).min_delay(), domain@, now).0,
            r == spec_acquire_in(old(self)@, old(self).min_delay(), domain@, now).1,
    {
        let held: Option<(u64, u64)> = match self.policy(domain) {
            Some(p) => match p.last_fetch_at {
                Some(last) => Some((last, p.min_delay)),
                None => None,
            },
            None => None,
        };
        match held {
            Some((last, delay)) => {
                if now >= last && now - last >= delay {
                    self.set_last_fetch(domain, now);
                    Acquire::Granted
                } else if now >= last {
                    Acquire::Wait(delay - (now - last))
                } else {
                    match delay.checked_add(last - now) {
                        Some(left) => Acquire::Wait(left),
                        None => Acquire::Wait(u64::MAX),
                    }
                }
            },
            None => {
                self.set_last_fetch(domain, now);
                Acquire::Granted
            },
        }
    }

    /// Notes that a fetch to `domain` ended at `at`, whatever its outcome:
    /// the next fetch is due `min_delay` after the later of this time and
    /// the one noted before.
    pub fn note_fetch(&mut self, domain: &str, at: u64)
        ensures
            final(self).min_delay() == old(self).min_delay(),
            final(self)@ == spec_note_in(old(self)@, old(self).min_delay(), domain@, at),
    {
        let later: bool = match self.policy(domain) {
            Some(p) => match p.last_fetch_at {
                Some(last) => last > at,
                None => false,
            },
            None => false,
        };
        if later {
            assert(self@ =~= self@.insert(domain@, self@[domain@]));
        } else {
            self.set_last_fetch(domain, at);
        }
    }
}

/// One call on the policies that the laws below speak of.
pub enum PolicyOp {
    Acquire { domain: Seq<char>, now: u64 },
    NoteFetch { domain: Seq<char>, at: u64 },
    Install { domain: Seq<char>, body: Option<Seq<char>> },
    Request { domain: Seq<char> },
}

impl PolicyOp {
    /// The domain that the call is about.
    pub open spec fn domain(self) -> Seq<char> {
        match self {
            PolicyOp::Acquire { domain, .. } => domain,
            PolicyOp::NoteFetch { domain, .. } => domain,
            PolicyOp::Install { domain, .. } => domain,
            PolicyOp::Request { domain } => domain,
        }
    }
}

/// A fetch that was let through: to which domain, and when.
pub struct Grant {
    pub domain: Seq<char>,
    pub at: u64,
}

/// The policies after `op`, and the grant that it gave, if any.
pub open spec fn apply_policy_op(m: Map<Seq<char>, PolicyView>, min_delay: u64, op: PolicyOp) -> (
    Map<Seq<char>, PolicyView>,
    Option<Grant>,
) {
    match op {
        PolicyOp::Acquire { domain, now } => {
            let r = spec_acquire_in(m, min_delay, domain, now);
            (
                r.0,
                if r.1 == Acquire::Granted {
                    Some(Grant { domain, at: now })
                } else {
                    None
                },
            )
        },
        PolicyOp::NoteFetch { domain, at } => (spec_note_in(m, min_delay, domain, at), None),
        PolicyOp::Install { domain, body } => (spec_install(m, min_delay, domain, body), None),
        PolicyOp::Request { domain } => (spec_request(m, min_delay, domain).0, None),
    }
}

/// The policies after the calls `ops`, made in order, and the grants that
/// they gave, in order.
pub open spec fn run_policy_ops(m: Map<Seq<char>, PolicyView>, min_delay: u64, ops: Seq<PolicyOp>) -> (
    Map<Seq<char>, PolicyView>,
    Seq<Grant>,
)
    decreases ops.len(),
{
    if ops.len() == 0 {
        (m, Seq::empty())
    } else {
        let before = run_policy_ops(m, min_delay, ops.drop_last());
        let after = apply_policy_op(before.0, min_delay, ops.last());
        (
            after.0,
            match after.1 {
                Some(g) => before.1.push(g),
                None => before.1,
            },
        )
    }
}

/// The delay that governs `domain`: that of its policy, or the one that a
/// new domain is given.
pub open spec fn delay_of(m: Map<Seq<char>, PolicyView>, min_delay: u64, domain: Seq<char>) -> u64 {
    policy_or_fresh(m, domain, min_delay).min_delay
}

/// A call about one domain leaves the policy of every other domain as it
/// was, so it neither delays nor hastens a fetch to another domain.
pub proof fn lemma_domains_do_not_interact(
    m: Map<Seq<char>, PolicyView>,
    min_delay: u64,
    op: PolicyOp,
    other: Seq<char>,
    now: u64,
)
    requires
        op.domain() != other,
    ensures
        ({
            let after = apply_policy_op(m, min_delay, op).0;
            &&& after.contains_key(other) == m.contains_key(other)
            &&& policy_or_fresh(after, other, min_delay) == policy_or_fresh(m, other, min_delay)
            &&& spec_acquire_in(after, min_delay, other, now).1 == spec_acquire_in(
                m,
                min_delay,
                other,
                now,
            ).1
        }),
{
}

/// Of two requests for one domain, the first granted at `first`, the second
/// is granted only when the domain's delay has passed since `first`; made
/// earlier, it is told to wait for what is left of the delay.
pub proof fn lemma_second_acquire_waits(p: PolicyView, first: u64, second: u64)
    requires
        spec_acquire(p, first).1 == Acquire::Granted,
    ensures
        ({
            let held = spec_acquire(p, first).0;
            let again = spec_acquire(held, second);
            &&& again.1 == Acquire::Granted <==> first + p.min_delay <= second
            &&& first + p.min_delay > second ==> again.1 == Acquire::Wait(wait_left(held, second))
                && again.0 == held
            &&& first <= second < first + p.min_delay && first + p.min_delay <= u64::MAX
                ==> again.1 == Acquire::Wait((first + p.min_delay - second) as u64)
        }),
{
}

/// Whether the grants `grants` are spaced, and the policies `m` remember
/// them: of two grants for one domain the later comes at least the
/// domain's delay after the earlier, and no grant is later than its
/// domain's time of last fetch.
pub open spec fn spaced(m: Map<Seq<char>, PolicyView>, min_delay: u64, grants: Seq<Grant>) -> bool {
    &&& forall|i: int|
        0 <= i < grants.len() ==> m.contains_key((#[trigger] grants[i]).domain)
            && m[grants[i].domain].last_fetch_at is Some && grants[i].at
            <= m[grants[i].domain].last_fetch_at->0
    &&& forall|i: int, j: int|
        0 <= i < j < grants.len() && (#[trigger] grants[i]).domain == (#[trigger] grants[j]).domain
            ==> grants[i].at + delay_of(m, min_delay, grants[i].domain) <= grants[j].at
}

/// One call keeps the grants spaced and changes no domain's delay.
pub proof fn lemma_op_keeps_spaced(
    m: Map<Seq<char>, PolicyView>,
    min_delay: u64,
    grants: Seq<Grant>,
    op: PolicyOp,
)
    requires
        spaced(m, min_delay, grants),
    ensures
        ({
            let after = apply_policy_op(m, min_delay, op);
            &&& spaced(
                after.0,
                min_delay,
                match after.1 {
                    Some(g) => grants.push(g),
                    None => grants,
                },
            )
            &&& forall|d: Seq<char>| #[trigger]
                delay_of(after.0, min_delay, d) == delay_of(m, min_delay, d)
            &&& forall|d: Seq<char>| m.contains_key(d) ==> after.0.contains_key(d)
        }),
{
    let after = apply_policy_op(m, min_delay, op);
    let d = op.domain();
    let all = match after.1 {
        Some(g) => grants.push(g),
        None => grants,
    };
    assert forall|x: Seq<char>| #[trigger]
        delay_of(after.0, min_delay, x) == delay_of(m, min_delay, x) by {}
    assert forall|i: int|
        0 <= i < all.len() implies after.0.contains_key((#[trigger] all[i]).domain)
        && after.0[all[i].domain].last_fetch_at is Some && all[i].at
        <= after.0[all[i].domain].last_fetch_at->0 by {
        if i < grants.len() {
            assert(all[i] == grants[i]);
        }
    }
    assert forall|i: int, j: int|
        0 <= i < j < all.len() && (#[trigger] all[i]).domain == (#[trigger] all[j]).domain implies all[i].at
        + delay_of(after.0, min_delay, all[i].domain) <= all[j].at by {
        assert(all[i] == grants[i]);
        if j < grants.len() {
            assert(all[j] == grants[j]);
        }
    }
}

/// Fetches to one domain are spaced: of any two grants for the same domain
/// that a sequence of calls gives, the later comes at least the domain's
/// delay after the earlier, whatever other calls are made in between and
/// for whichever domains.
pub proof fn lemma_grants_are_spaced(min_delay: u64, ops: Seq<PolicyOp>)
    ensures
        ({
            let run = run_policy_ops(Map::empty(), min_delay, ops);
            forall|i: int, j: int|
                0 <= i < j < run.1.len() && (#[trigger] run.1[i]).domain == (
                #[trigger] run.1[j]).domain ==> run.1[i].at + min_delay <= run.1[j].at
        }),
{
    lemma_run_keeps_spaced(min_delay, ops);
    let run = run_policy_ops(Map::empty(), min_delay, ops);
    assert forall|i: int, j: int|
        0 <= i < j < run.1.len() && (#[trigger] run.1[i]).domain == (
        #[trigger] run.1[j]).domain implies run.1[i].at + min_delay <= run.1[j].at by {
        assert(run.0.contains_key(run.1[i].domain));
    }
}

/// Every run from an empty cache keeps the grants spaced, and gives every
/// domain the cache's delay.
proof fn lemma_run_keeps_spaced(min_delay: u64, ops: Seq<PolicyOp>)
    ensures
        spaced(
            run_policy_ops(Map::empty(), min_delay, ops).0,
            min_delay,
            run_policy_ops(Map::empty(), min_delay, ops).1,
        ),
        forall|d: Seq<char>| #[trigger]
            run_policy_ops(Map::empty(), min_delay, ops).0.contains_key(d) ==> run_policy_ops(
                Map::empty(),
                min_delay,
                ops,
            ).0[d].min_delay == min_delay,
    decreases ops.len(),
{
    if ops.len() > 0 {
        lemma_run_keeps_spaced(min_delay, ops.drop_last());
        let before = run_policy_ops(Map::empty(), min_delay, ops.drop_last());
        lemma_op_keeps_spaced(before.0, min_delay, before.1, ops.last());
    }
}

} // verus!
