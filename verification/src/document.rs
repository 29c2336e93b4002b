//! The document that is handed to the document store for a fetched URL.

use vstd::prelude::*;
use chrono::DateTime;
use std::fmt::Write;
use crate::text::copy_text;

verus! {

/// What is asked of the document store for one fetched URL.
#[derive(Debug, PartialEq, Eq)]
pub struct StoredDocument {
    /// The body as it was fetched.
    pub text: String,
    /// The URL that the body was fetched from.
    pub url: String,
    /// When the body was fetched: `DD/MM/YYYY HH:MM:SS`, in UTC; `None`
    /// for a time that has no date.
    pub parsed_dttm: Option<String>,
}

/// A document for the store, as a mathematical value.
pub struct StoredDocumentView {
    pub text: Seq<char>,
    pub url: Seq<char>,
    pub parsed_dttm: Option<Seq<char>>,
}

impl View for StoredDocument {
    type V = StoredDocumentView;

    open spec fn view(&self) -> StoredDocumentView {
        StoredDocumentView {
            text: self.text@,
            url: self.url@,
            parsed_dttm: match self.parsed_dttm {
                Some(stamp) => Some(stamp@),
                None => None,
            },
        }
    }
}

/// The way the time of a fetch is written into a stored document.
pub open spec fn stamp_pattern() -> Seq<char> {
    "%d/%m/%Y %T"@
}

/// The text that `chrono` writes for the moment `millis` milliseconds after
/// the Unix epoch, in UTC, after the pattern `pattern`; `None` where the
/// moment lies outside the years that `chrono` knows or the pattern is none
/// that it can write.
pub uninterp spec fn utc_text(millis: i64, pattern: Seq<char>) -> Option<Seq<char>>;

/// `chrono::DateTime::from_timestamp_millis`, then `DateTime::format` with
/// `pattern`, written into a string. Believed, not proved: the text depends
/// on `millis` and `pattern` alone (the moment is taken in UTC, and the
/// pattern is written without a locale), and there is none exactly where
/// `from_timestamp_millis` gives no moment or the pattern cannot be
/// written.
#[verifier::external_body]
fn format_utc(millis: i64, pattern: &str) -> (r: Option<String>)
    ensures
        match r {
            Some(s) => utc_text(millis, pattern@) == Some(s@),
            None => utc_text(millis, pattern@) is None,
        },
{
    let moment = DateTime::from_timestamp_millis(millis)?;
    let mut s = String::new();
    write!(s, "{}", moment.format(pattern)).ok()?;
    Some(s)
}

/// How the time `now`, in milliseconds since the Unix epoch, is written
/// into a stored document; `None` where `now` has no date.
pub open spec fn spec_stamp(now: u64) -> Option<Seq<char>> {
    if now > i64::MAX {
        None
    } else {
        utc_text(now as i64, stamp_pattern())
    }
}

/// The document that is stored for the body `doc` of `href`, fetched at
/// `now`.
pub open spec fn spec_document(doc: Seq<char>, href: Seq<char>, now: u64) -> StoredDocumentView {
    StoredDocumentView { text: doc, url: href, parsed_dttm: spec_stamp(now) }
}

impl StoredDocument {
    /// The document for the body `text` of `url` with the time `stamp`.
    pub fn new(text: &str, url: &str, stamp: Option<String>) -> (d: StoredDocument)
        ensures
            d@ == (StoredDocumentView {
                text: text@,
                url: url@,
                parsed_dttm: match stamp {
                    Some(s) => Some(s@),
                    None => None,
                },
            }),
    {
        StoredDocument { text: copy_text(text), url: copy_text(url), parsed_dttm: stamp }
    }

    /// The document for the body `text` of `url`, fetched `now`
    /// milliseconds after the Unix epoch.
    pub fn at(text: &str, url: &str, now: u64) -> (d: StoredDocument)
        ensures
            d@ == spec_document(text@, url@, now),
    {
        let stamp = if now > 0x7FFF_FFFF_FFFF_FFFF {
            None
        } else {
            format_utc(now as i64, "%d/%m/%Y %T")
        };
        StoredDocument::new(text, url, stamp)
    }
}

} // verus!
