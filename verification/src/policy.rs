//! The politeness data of each domain met during a crawl: its exclusion
//! rules, once its `robots.txt` has been asked for, and the time of the last
//! fetch that was let through to it.

use vstd::prelude::*;
use crate::robots::{is_path_allowed, parse_robots, path_allowed, robots_rules};
use crate::text::texts;
use crate::url::{domain_of, normalize, path_of};

verus! {

/// What is known of one domain.
#[derive(Debug, PartialEq, Eq)]
pub struct DomainPolicy {
    /// `scheme://host`, in lower case.
    pub domain: String,
    /// The path prefixes that must not be fetched; `None` until the answer
    /// to the request for the domain's `robots.txt` has come in.
    pub disallowed_prefixes: Option<Vec<String>>,
    /// Whether a worker has been told to fetch the domain's `robots.txt`.
    pub robots_requested: bool,
    /// When the last fetch was let through; `None` before the first.
    pub last_fetch_at: Option<u64>,
    /// The least time between two fetches, in the unit of the clock.
    pub min_delay: u64,
}

/// The mathematical value of a domain's policy.
pub struct PolicyView {
    pub rules: Option<Seq<Seq<char>>>,
    pub requested: bool,
    pub last_fetch_at: Option<u64>,
    pub min_delay: u64,
}

impl View for DomainPolicy {
    type V = PolicyView;

    open spec fn view(&self) -> PolicyView {
        PolicyView {
            rules: match self.disallowed_prefixes {
                Some(rules) => Some(texts(rules@)),
                None => None,
            },
            requested: self.robots_requested,
            last_fetch_at: self.last_fetch_at,
            min_delay: self.min_delay,
        }
    }
}

impl PolicyView {
    /// The policy of a domain of which nothing is known yet.
    pub open spec fn fresh(min_delay: u64) -> PolicyView {
        PolicyView { rules: None, requested: false, last_fetch_at: None, min_delay }
    }

    /// The same policy with the rules `rules`.
    pub open spec fn with_rules(self, rules: Seq<Seq<char>>) -> PolicyView {
        PolicyView { rules: Some(rules), ..self }
    }

    /// The same policy once a worker was told to fetch the rules.
    pub open spec fn with_request(self) -> PolicyView {
        PolicyView { requested: true, ..self }
    }

    /// The same policy with `at` as the time of the last fetch.
    pub open spec fn with_last_fetch(self, at: u64) -> PolicyView {
        PolicyView { last_fetch_at: Some(at), ..self }
    }

    /// Whether the domain's `robots.txt` is still to be asked for: its
    /// rules are not known, and no worker has been told to fetch them.
    pub open spec fn needs_request(self) -> bool {
        self.rules is None && !self.requested
    }
}

/// The domain under which the policy of `url` is kept.
pub open spec fn policy_key(url: Seq<char>) -> Seq<char> {
    domain_of(normalize(url))
}

/// The path of `url` that the exclusion rules are held against.
pub open spec fn policy_path(url: Seq<char>) -> Seq<char> {
    path_of(normalize(url))
}

/// The policy of `domain` in `m`; that of an unknown domain where `m` has
/// none.
pub open spec fn policy_or_fresh(
    m: Map<Seq<char>, PolicyView>,
    domain: Seq<char>,
    min_delay: u64,
) -> PolicyView {
    if m.contains_key(domain) {
        m[domain]
    } else {
        PolicyView::fresh(min_delay)
    }
}

/// Whether every policy of `m` carries the delay `min_delay`.
pub open spec fn uniform_delay(m: Map<Seq<char>, PolicyView>, min_delay: u64) -> bool {
    forall|d: Seq<char>| m.contains_key(d) ==> (#[trigger] m[d]).min_delay == min_delay
}

/// Whether `url` may be fetched, as far as `m` knows: `None` while the
/// rules of its domain have not been asked for.
pub open spec fn spec_is_allowed(m: Map<Seq<char>, PolicyView>, url: Seq<char>) -> Option<bool> {
    let key = policy_key(url);
    if m.contains_key(key) && m[key].rules is Some {
        Some(path_allowed(policy_path(url), m[key].rules->0))
    } else {
        None
    }
}

/// The rules that an answer to the request for `robots.txt` lays down: those
/// of the body, or none where the request failed.
pub open spec fn rules_of_answer(body: Option<Seq<char>>) -> Seq<Seq<char>> {
    match body {
        Some(b) => robots_rules(b),
        None => Seq::empty(),
    }
}

/// The policies after the answer `body` for `domain` came in. Only the
/// first answer for a domain counts.
pub open spec fn spec_install(
    m: Map<Seq<char>, PolicyView>,
    min_delay: u64,
    domain: Seq<char>,
    body: Option<Seq<char>>,
) -> Map<Seq<char>, PolicyView> {
    let p = policy_or_fresh(m, domain, min_delay);
    if p.rules is Some {
        m
    } else {
        m.insert(domain, p.with_rules(rules_of_answer(body)))
    }
}

/// The policies after a worker asked whether it is to fetch the
/// `robots.txt` of `domain`, and the answer: yes for the first that asks
/// while the rules are not known, no for every other.
pub open spec fn spec_request(m: Map<Seq<char>, PolicyView>, min_delay: u64, domain: Seq<char>) -> (
    Map<Seq<char>, PolicyView>,
    bool,
) {
    let p = policy_or_fresh(m, domain, min_delay);
    if p.needs_request() {
        (m.insert(domain, p.with_request()), true)
    } else {
        (m, false)
    }
}

/// The `robots.txt` of a domain is asked for once: after a worker was told
/// to fetch it, no other is, neither before the answer has come in nor
/// after.
pub proof fn lemma_request_once(
    m: Map<Seq<char>, PolicyView>,
    min_delay: u64,
    domain: Seq<char>,
    body: Option<Seq<char>>,
)
    requires
        spec_request(m, min_delay, domain).1,
    ensures
        ({
            let asked = spec_request(m, min_delay, domain).0;
            let answered = spec_install(asked, min_delay, domain, body);
            &&& !spec_request(asked, min_delay, domain).1
            &&& spec_request(asked, min_delay, domain).0 == asked
            &&& !spec_request(answered, min_delay, domain).1
            &&& answered[domain].rules == Some(rules_of_answer(body))
        }),
{
}

/// The rules of a domain are laid down once: a second answer for the same
/// domain changes nothing.
pub proof fn lemma_install_once(
    m: Map<Seq<char>, PolicyView>,
    min_delay: u64,
    domain: Seq<char>,
    first: Option<Seq<char>>,
    second: Option<Seq<char>>,
)
    ensures
        spec_install(spec_install(m, min_delay, domain, first), min_delay, domain, second)
            == spec_install(m, min_delay, domain, first),
{
}

/// A domain whose `robots.txt` could not be fetched is open: once that
/// outcome has been taken in for a domain without rules, every URL of the
/// domain may be fetched.
pub proof fn lemma_failed_request_allows_all(
    m: Map<Seq<char>, PolicyView>,
    min_delay: u64,
    url: Seq<char>,
)
    requires
        spec_is_allowed(m, url) is None,
    ensures
        spec_is_allowed(spec_install(m, min_delay, policy_key(url), None), url) == Some(true),
{
}

/// Installing rules changes the verdict on no URL of another domain, and
/// on none whose verdict was known.
pub proof fn lemma_install_is_local(
    m: Map<Seq<char>, PolicyView>,
    min_delay: u64,
    domain: Seq<char>,
    body: Option<Seq<char>>,
    url: Seq<char>,
)
    requires
        policy_key(url) != domain || spec_is_allowed(m, url) is Some,
    ensures
        spec_is_allowed(spec_install(m, min_delay, domain, body), url) == spec_is_allowed(m, url),
{
}

/// The first index at or after `from` whose entry is for `domain`, or the
/// length.
spec fn entry_index(entries: Seq<DomainPolicy>, domain: Seq<char>, from: int) -> int
    decreases entries.len() - from,
{
    if 0 <= from < entries.len() {
        if entries[from].domain@ == domain {
            from
        } else {
            entry_index(entries, domain, from + 1)
        }
    } else {
        entries.len() as int
    }
}

/// The policies that `entries` hold, by domain.
spec fn table(entries: Seq<DomainPolicy>) -> Map<Seq<char>, PolicyView> {
    Map::new(
        |d: Seq<char>| entry_index(entries, d, 0) < entries.len(),
        |d: Seq<char>| entries[entry_index(entries, d, 0)]@,
    )
}

/// The index found lies between `from` and the length; where it is below
/// the length its entry is for `domain`, and no entry between `from` and it
/// is.
proof fn lemma_entry_index_range(entries: Seq<DomainPolicy>, domain: Seq<char>, from: int)
    requires
        0 <= from <= entries.len(),
    ensures
        from <= entry_index(entries, domain, from) <= entries.len(),
        entry_index(entries, domain, from) < entries.len() ==> entries[entry_index(
            entries,
            domain,
            from,
        )].domain@ == domain,
        forall|i: int| from <= i < entry_index(entries, domain, from) ==> entries[i].domain@ != domain,
    decreases entries.len() - from,
{
    if from < entries.len() && entries[from].domain@ != domain {
        lemma_entry_index_range(entries, domain, from + 1);
    }
}

/// Entries for the same domains at the same places give every domain the
/// same index.
proof fn lemma_entry_index_same_domains(
    a: Seq<DomainPolicy>,
    b: Seq<DomainPolicy>,
    domain: Seq<char>,
    from: int,
)
    requires
        a.len() == b.len(),
        forall|i: int| 0 <= i < a.len() ==> a[i].domain@ == b[i].domain@,
    ensures
        entry_index(a, domain, from) == entry_index(b, domain, from),
    decreases a.len() - from,
{
    if 0 <= from < a.len() && a[from].domain@ != domain {
        lemma_entry_index_same_domains(a, b, domain, from + 1);
    }
}

/// The index of a domain after an entry was added at the end.
proof fn lemma_entry_index_push(
    entries: Seq<DomainPolicy>,
    e: DomainPolicy,
    domain: Seq<char>,
    from: int,
)
    requires
        0 <= from <= entries.len(),
    ensures
        entry_index(entries.push(e), domain, from) == (if entry_index(entries, domain, from)
            < entries.len() || e.domain@ != domain {
            entry_index(entries, domain, from) + (if entry_index(entries, domain, from)
                < entries.len() {
                0int
            } else {
                1int
            })
        } else {
            entries.len() as int
        }),
    decreases entries.len() - from,
{
    let longer = entries.push(e);
    if from < entries.len() {
        assert(longer[from] == entries[from]);
        if entries[from].domain@ != domain {
            lemma_entry_index_push(entries, e, domain, from + 1);
        }
    } else {
        assert(longer[from] == e);
        assert(entry_index(longer, domain, from + 1) == longer.len());
    }
}

/// Replacing the entry that stands for a domain replaces that domain's
/// policy and no other.
proof fn lemma_table_after_set(a: Seq<DomainPolicy>, b: Seq<DomainPolicy>, k: int)
    requires
        0 <= k < a.len() == b.len(),
        k == entry_index(a, a[k].domain@, 0),
        b[k].domain@ == a[k].domain@,
        forall|i: int| 0 <= i < a.len() && i != k ==> a[i] == b[i],
    ensures
        table(b) == table(a).insert(a[k].domain@, b[k]@),
{
    let key = a[k].domain@;
    let want = table(a).insert(key, b[k]@);
    assert forall|d: Seq<char>| #[trigger]
        table(b).dom().contains(d) == want.dom().contains(d) && (table(b).dom().contains(d)
            ==> table(b)[d] == want[d]) by {
        lemma_entry_index_same_domains(a, b, d, 0);
        lemma_entry_index_range(a, d, 0);
    }
    assert(table(b) =~= want);
}

/// An entry added for a domain that had none adds that domain's policy and
/// changes no other.
proof fn lemma_table_after_push(a: Seq<DomainPolicy>, e: DomainPolicy)
    requires
        entry_index(a, e.domain@, 0) == a.len(),
    ensures
        table(a.push(e)) == table(a).insert(e.domain@, e@),
        entry_index(a.push(e), e.domain@, 0) == a.len(),
{
    let b = a.push(e);
    assert forall|d: Seq<char>|
        entry_index(b, d, 0) == (if d == e.domain@ {
            a.len() as int
        } else if entry_index(a, d, 0) < a.len() {
            entry_index(a, d, 0)
        } else {
            b.len() as int
        }) by {
        lemma_entry_index_push(a, e, d, 0);
        lemma_entry_index_range(a, d, 0);
    }
    assert forall|d: Seq<char>| entry_index(a, d, 0) < a.len() implies b[entry_index(a, d, 0)]
        == a[entry_index(a, d, 0)] by {
        lemma_entry_index_range(a, d, 0);
    }
    assert(table(b) =~= table(a).insert(e.domain@, e@));
}

/// The policies of the domains met so far.
pub struct PolicyCache {
    min_delay: u64,
    entries: Vec<DomainPolicy>,
}

impl View for PolicyCache {
    type V = Map<Seq<char>, PolicyView>;

    closed spec fn view(&self) -> Map<Seq<char>, PolicyView> {
        table(self.entries@)
    }
}

impl PolicyCache {
    /// The least time between two fetches that a new domain is given.
    pub closed spec fn min_delay(&self) -> u64 {
        self.min_delay
    }

    /// A cache that knows no domain yet.
    pub fn new(min_delay: u64) -> (c: PolicyCache)
        ensures
            c@ == Map::<Seq<char>, PolicyView>::empty(),
            c.min_delay() == min_delay,
    {
        let c = PolicyCache { min_delay, entries: Vec::new() };
        assert(c@ =~= Map::<Seq<char>, PolicyView>::empty());
        c
    }

    /// The index of the entry for `domain`, or the number of entries.
    fn find(&self, domain: &str) -> (k: usize)
        ensures
            k == entry_index(self.entries@, domain@, 0),
            k <= self.entries.len(),
            k < self.entries.len() ==> self.entries@[k as int].domain@ == domain@,
    {
        let mut k: usize = 0;
        while k < self.entries.len()
            invariant
                k <= self.entries.len(),
                entry_index(self.entries@, domain@, 0) == entry_index(
                    self.entries@,
                    domain@,
                    k as int,
                ),
            decreases self.entries.len() - k,
        {
            if crate::text::same_text(self.entries[k].domain.as_str(), domain) {
                return k;
            }
            k += 1;
        }
        k
    }

    /// The index of the entry for `domain`, which is made where there was
    /// none.
    fn slot(&mut self, domain: &str) -> (k: usize)
        ensures
            k < final(self).entries.len(),
            k == entry_index(final(self).entries@, domain@, 0),
            final(self).entries@[k as int].domain@ == domain@,
            final(self).entries@[k as int]@ == policy_or_fresh(
                old(self)@,
                domain@,
                old(self).min_delay(),
            ),
            final(self)@ == old(self)@.insert(
                domain@,
                policy_or_fresh(old(self)@, domain@, old(self).min_delay()),
            ),
            final(self).min_delay() == old(self).min_delay(),
    {
        let k = self.find(domain);
        if k == self.entries.len() {
            let entry = DomainPolicy {
                domain: crate::text::copy_text(domain),
                disallowed_prefixes: None,
                robots_requested: false,
                last_fetch_at: None,
                min_delay: self.min_delay,
            };
            proof {
                lemma_table_after_push(self.entries@, entry);
            }
            self.entries.push(entry);
        } else {
            assert(self@ =~= self@.insert(domain@, self@[domain@]));
        }
        k
    }

    /// What is known of `domain`, if anything.
    pub fn policy(&self, domain: &str) -> (r: Option<&DomainPolicy>)
        ensures
            match r {
                Some(p) => self@.contains_key(domain@) && p@ == self@[domain@] && p.domain@
                    == domain@,
                None => !self@.contains_key(domain@),
            },
    {
        let k = self.find(domain);
        if k < self.entries.len() {
            Some(&self.entries[k])
        } else {
            None
        }
    }

    /// Whether the rules of `url`'s domain let `url` be fetched: no rule is
    /// a prefix of its path. `None` while the rules have not been asked for.
    pub fn is_allowed(&self, url: &str) -> (r: Option<bool>)
        ensures
            r == spec_is_allowed(self@, url@),
    {
        let norm = crate::url::normalize_url(url);
        let key = crate::url::domain_of_url(norm.as_str());
        match self.policy(key.as_str()) {
            Some(p) => match &p.disallowed_prefixes {
                Some(rules) => {
                    let path = crate::url::path_of_url(norm.as_str());
                    Some(is_path_allowed(&path, rules))
                },
                None => None,
            },
            None => None,
        }
    }

    /// Takes in the answer to the one request for `domain`'s `robots.txt`:
    /// its body, or `None` where the request failed, which lays down no
    /// rule. Returns whether the answer was taken; an answer for a domain
    /// whose rules are known already changes nothing.
    pub fn install(&mut self, domain: &str, body: Option<&str>) -> (taken: bool)
        ensures
            final(self).min_delay() == old(self).min_delay(),
            final(self)@ == spec_install(
                old(self)@,
                old(self).min_delay(),
                domain@,
                match body {
                    Some(b) => Some(b@),
                    None => None,
                },
            ),
            taken == (policy_or_fresh(old(self)@, domain@, old(self).min_delay()).rules is None),
    {
        let k = self.find(domain);
        if k < self.entries.len() && self.entries[k].disallowed_prefixes.is_some() {
            return false;
        }
        let rules = match body {
            Some(b) => parse_robots(b),
            None => {
                let none: Vec<String> = Vec::new();
                assert(texts(none@) =~= Seq::<Seq<char>>::empty());
                none
            },
        };
        let k = self.slot(domain);
        let ghost before = self.entries@;
        self.entries[k].disallowed_prefixes = Some(rules);
        proof {
            lemma_table_after_set(before, self.entries@, k as int);
        }
        true
    }

    /// Asks whether the caller is to fetch the `robots.txt` of `domain`.
    /// The first caller that asks while the rules are not known is, and
    /// the request is noted; every later caller is not.
    pub fn request(&mut self, domain: &str) -> (first: bool)
        ensures
            final(self).min_delay() == old(self).min_delay(),
            final(self)@ == spec_request(old(self)@, old(self).min_delay(), domain@).0,
            first == spec_request(old(self)@, old(self).min_delay(), domain@).1,
    {
        let k = self.find(domain);
        if k < self.entries.len() && (self.entries[k].disallowed_prefixes.is_some()
            || self.entries[k].robots_requested) {
            return false;
        }
        let k = self.slot(domain);
        let ghost before = self.entries@;
        self.entries[k].robots_requested = true;
        proof {
            lemma_table_after_set(before, self.entries@, k as int);
        }
        true
    }

    /// Records that a fetch to `domain` was let through at `at`.
    pub(crate) fn set_last_fetch(&mut self, domain: &str, at: u64)
        ensures
            final(self).min_delay() == old(self).min_delay(),
            final(self)@ == old(self)@.insert(
                domain@,
                policy_or_fresh(old(self)@, domain@, old(self).min_delay()).with_last_fetch(at),
            ),
    {
        let k = self.slot(domain);
        let ghost before = self.entries@;
        self.entries[k].last_fetch_at = Some(at);
        proof {
            lemma_table_after_set(before, self.entries@, k as int);
        }
    }
}

} // verus!
