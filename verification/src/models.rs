//! The record that the frontier keeps for each discovered URL.

use vstd::prelude::*;

verus! {

/// Why a URL ended in `Failed`.
#[derive(Clone, Copy, Debug, PartialEq, Eq, Structural)]
pub enum FailureKind {
    /// The connection, the name lookup or the wait for an answer failed.
    Network,
    /// The server answered with a status outside `200..=299`.
    Http(u16),
    /// The exclusion rules of the URL's domain forbid its path.
    RobotsDisallowed,
}

/// Where a URL stands. `Done` and `Failed` are final.
#[derive(Clone, Copy, Debug, PartialEq, Eq, Structural)]
pub enum UrlState {
    /// Discovered, waiting to be fetched.
    Pending,
    /// Handed to a worker whose fetch has not ended yet.
    InFlight,
    /// Fetched and handed to the document store.
    Done,
    /// Given up, for the reason recorded.
    Failed(FailureKind),
}

/// One discovered URL.
#[derive(Clone, Debug, PartialEq, Eq)]
pub struct Urls {
    /// The URL in normal form; the record's identity.
    pub path: String,
    /// Where the URL stands.
    pub state: UrlState,
    /// When the URL was first seen.
    pub discovered_at: u64,
}

/// The mathematical value of a record.
pub struct UrlsView {
    pub path: Seq<char>,
    pub state: UrlState,
    pub discovered_at: u64,
}

impl View for Urls {
    type V = UrlsView;

    open spec fn view(&self) -> UrlsView {
        UrlsView { path: self.path@, state: self.state, discovered_at: self.discovered_at }
    }
}

impl UrlsView {
    /// The same record in another state.
    pub open spec fn with_state(self, state: UrlState) -> UrlsView {
        UrlsView { path: self.path, state, discovered_at: self.discovered_at }
    }
}

impl UrlState {
    /// Whether the state is final.
    pub open spec fn is_terminal(self) -> bool {
        self is Done || self is Failed
    }

    /// The two numbers under which the state is stored: its kind, and the
    /// status of a failed answer (zero for every other kind).
    pub open spec fn spec_code(self) -> (u8, u16) {
        match self {
            UrlState::Pending => (0, 0),
            UrlState::InFlight => (1, 0),
            UrlState::Done => (2, 0),
            UrlState::Failed(FailureKind::Network) => (3, 0),
            UrlState::Failed(FailureKind::Http(status)) => (4, status),
            UrlState::Failed(FailureKind::RobotsDisallowed) => (5, 0),
        }
    }

    /// The state that is stored under `kind` and `status`, if there is one.
    pub open spec fn spec_from_code(kind: u8, status: u16) -> Option<UrlState> {
        if kind == 4 {
            Some(UrlState::Failed(FailureKind::Http(status)))
        } else if status != 0 {
            None
        } else if kind == 0 {
            Some(UrlState::Pending)
        } else if kind == 1 {
            Some(UrlState::InFlight)
        } else if kind == 2 {
            Some(UrlState::Done)
        } else if kind == 3 {
            Some(UrlState::Failed(FailureKind::Network))
        } else if kind == 5 {
            Some(UrlState::Failed(FailureKind::RobotsDisallowed))
        } else {
            None
        }
    }

    /// Every state is read back from its two numbers, and no two states
    /// share them.
    pub proof fn lemma_code_round_trip(self, kind: u8, status: u16)
        ensures
            UrlState::spec_from_code(self.spec_code().0, self.spec_code().1) == Some(self),
            UrlState::spec_from_code(kind, status) == Some(self) ==> self.spec_code() == (
                kind,
                status,
            ),
    {
    }

    /// The two numbers under which the state is stored.
    pub fn code(self) -> (r: (u8, u16))
        ensures
            r == self.spec_code(),
    {
        match self {
            UrlState::Pending => (0, 0),
            UrlState::InFlight => (1, 0),
            UrlState::Done => (2, 0),
            UrlState::Failed(FailureKind::Network) => (3, 0),
            UrlState::Failed(FailureKind::Http(status)) => (4, status),
            UrlState::Failed(FailureKind::RobotsDisallowed) => (5, 0),
        }
    }

    /// The state that is stored under `kind` and `status`; `None` for a
    /// pair that stands for no state.
    pub fn from_code(kind: u8, status: u16) -> (r: Option<UrlState>)
        ensures
            r == UrlState::spec_from_code(kind, status),
    {
        if kind == 4 {
            Some(UrlState::Failed(FailureKind::Http(status)))
        } else if status != 0 {
            None
        } else if kind == 0 {
            Some(UrlState::Pending)
        } else if kind == 1 {
            Some(UrlState::InFlight)
        } else if kind == 2 {
            Some(UrlState::Done)
        } else if kind == 3 {
            Some(UrlState::Failed(FailureKind::Network))
        } else if kind == 5 {
            Some(UrlState::Failed(FailureKind::RobotsDisallowed))
        } else {
            None
        }
    }
}

impl Urls {
    /// A fresh record for `path`, first seen at `discovered_at`.
    pub fn new(path: String, discovered_at: u64) -> (r: Urls)
        ensures
            r@ == (UrlsView { path: path@, state: UrlState::Pending, discovered_at }),
    {
        Urls { path, state: UrlState::Pending, discovered_at }
    }

    /// Whether the URL has been fetched and stored.
    pub fn is_parsed(&self) -> (b: bool)
        ensures
            b == (self.state == UrlState::Done),
    {
        match self.state {
            UrlState::Done => true,
            _ => false,
        }
    }
}

} // verus!
