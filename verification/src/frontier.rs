//! The crawl frontier: every discovered URL of the crawl domain, once, with
//! its state, in the order of discovery.

use vstd::prelude::*;
use crate::models::{FailureKind, UrlState, Urls, UrlsView};
use crate::text::{from_chars, to_chars};
use crate::url::{
    in_domain, is_in_domain, lemma_normalize_idempotent, normalize, normalize_chars,
};

verus! {

/// The first index at or after `from` whose record has the path `u`, or the
/// length.
pub open spec fn record_index(recs: Seq<UrlsView>, u: Seq<char>, from: int) -> int
    decreases recs.len() - from,
{
    if 0 <= from < recs.len() {
        if recs[from].path == u {
            from
        } else {
            record_index(recs, u, from + 1)
        }
    } else {
        recs.len() as int
    }
}

/// Whether some record has the path `u`.
pub open spec fn has_record(recs: Seq<UrlsView>, u: Seq<char>) -> bool {
    record_index(recs, u, 0) < recs.len()
}

/// The state of the record with the path `u`, if there is one.
pub open spec fn state_at(recs: Seq<UrlsView>, u: Seq<char>) -> Option<UrlState> {
    if has_record(recs, u) {
        Some(recs[record_index(recs, u, 0)].state)
    } else {
        None
    }
}

/// What holds of the records of a frontier for `domain`: each path is in
/// normal form and lies in `domain` (it has the domain's scheme and host,
/// and its path begins with the domain's), and no path occurs twice.
pub open spec fn valid_records(domain: Seq<char>, recs: Seq<UrlsView>) -> bool {
    &&& forall|i: int|
        0 <= i < recs.len() ==> in_domain(#[trigger] recs[i].path, domain) && normalize(
            recs[i].path,
        ) == recs[i].path
    &&& forall|i: int, j: int|
        0 <= i < j < recs.len() ==> #[trigger] recs[i].path != #[trigger] recs[j].path
}

/// Record `i` is pending, and no pending record is older; of those of the
/// same age none stands before it.
pub open spec fn is_oldest_pending(recs: Seq<UrlsView>, i: int) -> bool {
    &&& 0 <= i < recs.len()
    &&& recs[i].state == UrlState::Pending
    &&& forall|j: int|
        0 <= j < recs.len() && (#[trigger] recs[j]).state == UrlState::Pending ==> {
            ||| recs[i].discovered_at < recs[j].discovered_at
            ||| recs[i].discovered_at == recs[j].discovered_at && i <= j
        }
}

/// The index of the record that is next in line, if any is pending.
pub open spec fn oldest_pending(recs: Seq<UrlsView>) -> Option<int> {
    if exists|i: int| is_oldest_pending(recs, i) {
        Some(choose|i: int| is_oldest_pending(recs, i))
    } else {
        None
    }
}

/// The records after `raw` was offered at time `now`.
pub open spec fn spec_enqueue(domain: Seq<char>, recs: Seq<UrlsView>, raw: Seq<char>, now: u64) -> Seq<
    UrlsView,
> {
    let u = normalize(raw);
    if in_domain(u, domain) && !has_record(recs, u) {
        recs.push(UrlsView { path: u, state: UrlState::Pending, discovered_at: now })
    } else {
        recs
    }
}

/// The records after the next URL was claimed, and that URL.
pub open spec fn spec_next(recs: Seq<UrlsView>) -> (Seq<UrlsView>, Option<Seq<char>>) {
    match oldest_pending(recs) {
        Some(i) => (recs.update(i, recs[i].with_state(UrlState::InFlight)), Some(recs[i].path)),
        None => (recs, None),
    }
}

/// The records after the record of `raw`, if it was in state `from`, went
/// to state `to`.
pub open spec fn spec_move(recs: Seq<UrlsView>, raw: Seq<char>, from: UrlState, to: UrlState) -> Seq<
    UrlsView,
> {
    let i = record_index(recs, normalize(raw), 0);
    if i < recs.len() && recs[i].state == from {
        recs.update(i, recs[i].with_state(to))
    } else {
        recs
    }
}

/// The records after every claimed URL went back in line.
pub open spec fn spec_recover(recs: Seq<UrlsView>) -> Seq<UrlsView> {
    Seq::new(
        recs.len(),
        |i: int|
            if recs[i].state == UrlState::InFlight {
                recs[i].with_state(UrlState::Pending)
            } else {
                recs[i]
            },
    )
}

/// Whether some record is in state `state`.
pub open spec fn any_in_state(recs: Seq<UrlsView>, state: UrlState) -> bool {
    exists|i: int| 0 <= i < recs.len() && (#[trigger] recs[i]).state == state
}

/// The index found lies between `from` and the length; where it is below
/// the length its record has the path `u`, and no record between `from`
/// and it has.
pub proof fn lemma_record_index_range(recs: Seq<UrlsView>, u: Seq<char>, from: int)
    requires
        0 <= from <= recs.len(),
    ensures
        from <= record_index(recs, u, from) <= recs.len(),
        record_index(recs, u, from) < recs.len() ==> recs[record_index(recs, u, from)].path == u,
        forall|i: int| from <= i < record_index(recs, u, from) ==> recs[i].path != u,
    decreases recs.len() - from,
{
    if from < recs.len() && recs[from].path != u {
        lemma_record_index_range(recs, u, from + 1);
    }
}

/// Among valid records the index of a path is the one place where it stands.
pub proof fn lemma_record_index_is(domain: Seq<char>, recs: Seq<UrlsView>, i: int)
    requires
        valid_records(domain, recs),
        0 <= i < recs.len(),
    ensures
        record_index(recs, recs[i].path, 0) == i,
{
    lemma_record_index_range(recs, recs[i].path, 0);
}

/// At most one record is next in line.
pub proof fn lemma_oldest_pending_unique(recs: Seq<UrlsView>, i: int, j: int)
    requires
        is_oldest_pending(recs, i),
        is_oldest_pending(recs, j),
    ensures
        i == j,
{
    assert(recs[i].state == UrlState::Pending);
    assert(recs[j].state == UrlState::Pending);
}

/// The records of one crawl domain.
pub struct Frontier {
    domain: String,
    records: Vec<Urls>,
}

impl View for Frontier {
    type V = Seq<UrlsView>;

    closed spec fn view(&self) -> Seq<UrlsView> {
        Seq::new(self.records@.len(), |i: int| self.records@[i]@)
    }
}

impl Frontier {
    /// The crawl domain in normal form: every record has its scheme and
    /// host, and a path that begins with its path.
    pub closed spec fn domain(&self) -> Seq<char> {
        self.domain@
    }

    /// The invariant of the type.
    pub open spec fn wf(&self) -> bool {
        valid_records(self.domain(), self@)
    }

    /// An empty frontier for the URLs that lie in `domain`.
    pub fn new(domain: &str) -> (f: Frontier)
        ensures
            f.wf(),
            f@ == Seq::<UrlsView>::empty(),
            f.domain() == normalize(domain@),
    {
        let d = crate::url::normalize_url(domain);
        let f = Frontier { domain: d, records: Vec::new() };
        assert(f@ =~= Seq::<UrlsView>::empty());
        f
    }

    /// The number of records.
    pub fn len(&self) -> (n: usize)
        ensures
            n == self@.len(),
    {
        self.records.len()
    }

    /// The records, in the order of discovery.
    pub fn records(&self) -> (r: &Vec<Urls>)
        ensures
            r@.len() == self@.len(),
            forall|i: int| 0 <= i < r@.len() ==> r@[i]@ == self@[i],
    {
        &self.records
    }

    /// The index of the record with the path `u`, or the length.
    fn find(&self, u: &String) -> (k: usize)
        ensures
            k == record_index(self@, u@, 0),
            k <= self@.len(),
    {
        let mut k: usize = 0;
        while k < self.records.len()
            invariant
                k <= self.records.len(),
                record_index(self@, u@, 0) == record_index(self@, u@, k as int),
            decreases self.records.len() - k,
        {
            if self.records[k].path == *u {
                return k;
            }
            k += 1;
        }
        k
    }

    /// Puts record `i` into state `to`.
    fn set_state(&mut self, i: usize, to: UrlState)
        requires
            i < old(self)@.len(),
        ensures
            final(self)@ == old(self)@.update(i as int, old(self)@[i as int].with_state(to)),
            final(self).domain() == old(self).domain(),
            final(self).records.len() == old(self).records.len(),
    {
        self.records[i].state = to;
        assert(self@ =~= old(self)@.update(i as int, old(self)@[i as int].with_state(to)));
    }

    /// The record of `url`, if it has one.
    pub fn record_of(&self, url: &str) -> (r: Option<&Urls>)
        ensures
            match r {
                Some(rec) => has_record(self@, normalize(url@)) && rec@ == self@[record_index(
                    self@,
                    normalize(url@),
                    0,
                )],
                None => !has_record(self@, normalize(url@)),
            },
    {
        let u = crate::url::normalize_url(url);
        let k = self.find(&u);
        if k < self.records.len() {
            Some(&self.records[k])
        } else {
            None
        }
    }

    /// The state of `url`, if it has a record.
    pub fn state_of(&self, url: &str) -> (r: Option<UrlState>)
        ensures
            r == state_at(self@, normalize(url@)),
    {
        let u = crate::url::normalize_url(url);
        let k = self.find(&u);
        if k < self.records.len() {
            Some(self.records[k].state)
        } else {
            None
        }
    }

    /// Offers `url`, seen at `now`. A URL of the crawl domain that has no
    /// record yet gets one, in state `Pending` and last in line; any other
    /// URL changes nothing. Returns whether a record was added.
    pub fn enqueue(&mut self, url: &str, now: u64) -> (added: bool)
        requires
            old(self).wf(),
        ensures
            final(self).wf(),
            final(self).domain() == old(self).domain(),
            final(self)@ == spec_enqueue(old(self).domain(), old(self)@, url@, now),
            added == (final(self)@.len() == old(self)@.len() + 1),
    {
        let raw = to_chars(url);
        let norm = normalize_chars(&raw);
        let dom = to_chars(self.domain.as_str());
        if !is_in_domain(&norm, &dom) {
            return false;
        }
        let u = from_chars(&norm);
        let k = self.find(&u);
        if k < self.records.len() {
            return false;
        }
        proof {
            lemma_normalize_idempotent(url@);
            lemma_record_index_range(self@, u@, 0);
        }
        let ghost before = self@;
        self.records.push(Urls::new(u, now));
        assert(self@ =~= before.push(
            UrlsView { path: normalize(url@), state: UrlState::Pending, discovered_at: now },
        ));
        true
    }

    /// Claims the pending URL that was discovered first: its record goes to
    /// `InFlight` and the URL is returned. `None` when nothing is pending.
    pub fn next(&mut self) -> (r: Option<String>)
        requires
            old(self).wf(),
        ensures
            final(self).wf(),
            final(self).domain() == old(self).domain(),
            final(self)@ == spec_next(old(self)@).0,
            match r {
                Some(url) => spec_next(old(self)@).1 == Some(url@),
                None => spec_next(old(self)@).1 is None,
            },
    {
        let mut best: usize = self.records.len();
        let mut n: usize = 0;
        while n < self.records.len()
            invariant
                n <= self.records.len(),
                best < n || best == self.records.len(),
                best < n ==> self@[best as int].state == UrlState::Pending,
                forall|j: int|
                    0 <= j < n && (#[trigger] self@[j]).state == UrlState::Pending ==> best < n && {
                        ||| self@[best as int].discovered_at < self@[j].discovered_at
                        ||| self@[best as int].discovered_at == self@[j].discovered_at && best <= j
                    },
            decreases self.records.len() - n,
        {
            let pending = match self.records[n].state {
                UrlState::Pending => true,
                _ => false,
            };
            if pending && (best == self.records.len() || self.records[n].discovered_at
                < self.records[best].discovered_at) {
                best = n;
            }
            n += 1;
        }
        if best < self.records.len() {
            proof {
                assert(is_oldest_pending(self@, best as int));
                let c = choose|i: int| is_oldest_pending(self@, i);
                lemma_oldest_pending_unique(self@, best as int, c);
            }
            let url = self.records[best].path.clone();
            self.set_state(best, UrlState::InFlight);
            Some(url)
        } else {
            assert(forall|i: int| !is_oldest_pending(self@, i));
            None
        }
    }

    /// Moves the record of `url` from state `from` to state `to`; changes
    /// nothing when `url` has no record or its record is in another state.
    fn transition(&mut self, url: &str, from: UrlState, to: UrlState) -> (moved: bool)
        requires
            old(self).wf(),
        ensures
            final(self).wf(),
            final(self).domain() == old(self).domain(),
            final(self)@ == spec_move(old(self)@, url@, from, to),
            moved == (state_at(old(self)@, normalize(url@)) == Some(from)),
    {
        let u = crate::url::normalize_url(url);
        let k = self.find(&u);
        if k < self.records.len() && self.records[k].state == from {
            self.set_state(k, to);
            true
        } else {
            false
        }
    }

    /// Records that the fetch of `url` succeeded: `InFlight` becomes `Done`.
    /// A URL that is not in flight is left as it is.
    pub fn mark_done(&mut self, url: &str) -> (moved: bool)
        requires
            old(self).wf(),
        ensures
            final(self).wf(),
            final(self).domain() == old(self).domain(),
            final(self)@ == spec_move(old(self)@, url@, UrlState::InFlight, UrlState::Done),
            moved == (state_at(old(self)@, normalize(url@)) == Some(UrlState::InFlight)),
    {
        self.transition(url, UrlState::InFlight, UrlState::Done)
    }

    /// Records that `url` was given up for the reason `kind`: `InFlight`
    /// becomes `Failed(kind)`. A URL that is not in flight is left as it is.
    pub fn mark_failed(&mut self, url: &str, kind: FailureKind) -> (moved: bool)
        requires
            old(self).wf(),
        ensures
            final(self).wf(),
            final(self).domain() == old(self).domain(),
            final(self)@ == spec_move(
                old(self)@,
                url@,
                UrlState::InFlight,
                UrlState::Failed(kind),
            ),
            moved == (state_at(old(self)@, normalize(url@)) == Some(UrlState::InFlight)),
    {
        self.transition(url, UrlState::InFlight, UrlState::Failed(kind))
    }

    /// Gives up the claim on `url` without a fetch: `InFlight` becomes
    /// `Pending` again. A URL that is not in flight is left as it is.
    pub fn release(&mut self, url: &str) -> (moved: bool)
        requires
            old(self).wf(),
        ensures
            final(self).wf(),
            final(self).domain() == old(self).domain(),
            final(self)@ == spec_move(old(self)@, url@, UrlState::InFlight, UrlState::Pending),
            moved == (state_at(old(self)@, normalize(url@)) == Some(UrlState::InFlight)),
    {
        self.transition(url, UrlState::InFlight, UrlState::Pending)
    }

    /// Puts every claimed URL back in line: each `InFlight` record becomes
    /// `Pending`. Run at startup, when no fetch can be under way.
    pub fn recover_stale_in_flight(&mut self)
        requires
            old(self).wf(),
        ensures
            final(self).wf(),
            final(self).domain() == old(self).domain(),
            final(self)@ == spec_recover(old(self)@),
    {
        let mut n: usize = 0;
        while n < self.records.len()
            invariant
                n <= self.records.len(),
                self@.len() == old(self)@.len(),
                self.domain() == old(self).domain(),
                forall|i: int| 0 <= i < n ==> self@[i] == spec_recover(old(self)@)[i],
                forall|i: int| n <= i < self@.len() ==> self@[i] == old(self)@[i],
            decreases self.records.len() - n,
        {
            let claimed = match self.records[n].state {
                UrlState::InFlight => true,
                _ => false,
            };
            if claimed {
                self.set_state(n, UrlState::Pending);
            }
            n += 1;
        }
        assert(self@ =~= spec_recover(old(self)@));
    }

    /// Whether some record is in state `state`.
    pub fn has_state(&self, state: UrlState) -> (b: bool)
        ensures
            b == any_in_state(self@, state),
    {
        let mut n: usize = 0;
        while n < self.records.len()
            invariant
                n <= self.records.len(),
                forall|i: int| 0 <= i < n ==> (#[trigger] self@[i]).state != state,
            decreases self.records.len() - n,
        {
            if self.records[n].state == state {
                assert(self@[n as int].state == state);
                return true;
            }
            n += 1;
        }
        false
    }

    /// Takes in a record as it was stored by an earlier run. The record is
    /// kept, in its state, when its path is a normal form of the crawl
    /// domain that has no record yet; otherwise nothing changes.
    pub fn restore(&mut self, record: Urls) -> (kept: bool)
        requires
            old(self).wf(),
        ensures
            final(self).wf(),
            final(self).domain() == old(self).domain(),
            kept == (in_domain(record@.path, old(self).domain()) && normalize(record@.path)
                == record@.path && !has_record(old(self)@, record@.path)),
            final(self)@ == (if kept {
                old(self)@.push(record@)
            } else {
                old(self)@
            }),
    {
        let raw = to_chars(record.path.as_str());
        let norm = normalize_chars(&raw);
        let dom = to_chars(self.domain.as_str());
        if !is_in_domain(&raw, &dom) {
            return false;
        }
        let u = from_chars(&norm);
        if !(u == record.path) {
            return false;
        }
        let k = self.find(&record.path);
        if k < self.records.len() {
            return false;
        }
        proof {
            lemma_record_index_range(self@, record@.path, 0);
        }
        let ghost before = self@;
        self.records.push(record);
        assert(self@ =~= before.push(record@));
        true
    }
}

} // verus!
