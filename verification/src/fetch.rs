//! What a fetch hands back, and what it comes to.

use vstd::prelude::*;
use crate::models::FailureKind;

verus! {

/// What the fetcher hands back for one URL.
#[derive(Debug, PartialEq, Eq)]
pub enum FetchResponse {
    /// The server answered.
    Answer { status: u16, body: String },
    /// No answer came: the connection or the lookup failed, or time ran out.
    NetworkError,
}

/// What a fetch came to.
#[derive(Debug, PartialEq, Eq)]
pub enum FetchOutcome {
    /// A status in `200..=299`, with the body.
    Success(String),
    /// Any other status.
    HttpError(u16),
    /// No answer.
    NetworkError,
    /// No fetch was made, for the reason given.
    Skipped(FailureKind),
}

/// What the round of one URL came to when it gave no document.
#[derive(Debug, PartialEq, Eq)]
pub struct FetchResult {
    pub url: String,
    pub outcome: FetchOutcome,
}

/// What the fetcher handed back, as a mathematical value.
pub enum FetchResponseView {
    Answer { status: u16, body: Seq<char> },
    NetworkError,
}

impl View for FetchResponse {
    type V = FetchResponseView;

    open spec fn view(&self) -> FetchResponseView {
        match self {
            FetchResponse::Answer { status, body } => FetchResponseView::Answer {
                status: *status,
                body: body@,
            },
            FetchResponse::NetworkError => FetchResponseView::NetworkError,
        }
    }
}

/// What a fetch came to, as a mathematical value.
pub enum FetchOutcomeView {
    Success(Seq<char>),
    HttpError(u16),
    NetworkError,
    Skipped(FailureKind),
}

impl View for FetchOutcome {
    type V = FetchOutcomeView;

    open spec fn view(&self) -> FetchOutcomeView {
        match self {
            FetchOutcome::Success(body) => FetchOutcomeView::Success(body@),
            FetchOutcome::HttpError(status) => FetchOutcomeView::HttpError(*status),
            FetchOutcome::NetworkError => FetchOutcomeView::NetworkError,
            FetchOutcome::Skipped(reason) => FetchOutcomeView::Skipped(*reason),
        }
    }
}

/// The end of a round without a document, as a mathematical value.
pub struct FetchResultView {
    pub url: Seq<char>,
    pub outcome: FetchOutcomeView,
}

impl View for FetchResult {
    type V = FetchResultView;

    open spec fn view(&self) -> FetchResultView {
        FetchResultView { url: self.url@, outcome: self.outcome@ }
    }
}

/// What the answer `response` comes to: a body only with a status in
/// `200..=299`.
pub open spec fn spec_outcome(response: FetchResponseView) -> FetchOutcomeView {
    match response {
        FetchResponseView::Answer { status, body } => if 200 <= status <= 299 {
            FetchOutcomeView::Success(body)
        } else {
            FetchOutcomeView::HttpError(status)
        },
        FetchResponseView::NetworkError => FetchOutcomeView::NetworkError,
    }
}

/// The body that the answer to a request for a `robots.txt` gives: that of
/// an answer with a status in `200..=299`, and none otherwise.
pub open spec fn spec_robots_body(response: FetchResponseView) -> Option<Seq<char>> {
    match spec_outcome(response) {
        FetchOutcomeView::Success(body) => Some(body),
        _ => None,
    }
}

/// Sorts the fetcher's answer: only a status in `200..=299` gives a body.
pub fn classify(response: FetchResponse) -> (outcome: FetchOutcome)
    ensures
        outcome@ == spec_outcome(response@),
{
    match response {
        FetchResponse::Answer { status, body } => {
            if 200 <= status && status <= 299 {
                FetchOutcome::Success(body)
            } else {
                FetchOutcome::HttpError(status)
            }
        },
        FetchResponse::NetworkError => FetchOutcome::NetworkError,
    }
}

/// The body of a `robots.txt`, if the request for it gave one: any other
/// answer than a status in `200..=299` counts as a failed request.
pub fn robots_body(response: FetchResponse) -> (body: Option<String>)
    ensures
        match body {
            Some(b) => spec_robots_body(response@) == Some(b@),
            None => spec_robots_body(response@) is None,
        },
{
    match classify(response) {
        FetchOutcome::Success(body) => Some(body),
        _ => None,
    }
}

} // verus!
