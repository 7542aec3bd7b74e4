//! Normalization of source-specific date notation.
//!
//! Extraction yields date information in one of three shapes: a single
//! day/month/two-digit-year date, a begin/end pair of such dates, or a
//! combined date-and-time string in the club-listing notation
//! `<weekday><dd>.<mm>.<yyyy>start<hh>:<mm>` (after whitespace is
//! dropped). Normalization turns each into canonical ISO-8601 text
//! that sorts chronologically under plain string comparison, and fails
//! with a date-parse error rather than defaulting to an arbitrary
//! date, since a silently wrong date breaks the range filter silently.

use crate::errors::{ScrapeError, ScrapeErrorView};
use crate::sources::EventSource;
use vstd::prelude::*;
use vstd::string::{StrSliceExecFns, StringExecFns};

verus! {

/// Date information as extraction found it on the page.
#[derive(Debug)]
pub enum RawDateInfo {
    /// One `%d/%m/%y` date.
    Single(String),
    /// A begin/end pair of `%d/%m/%y` dates.
    Range(String, String),
    /// A combined date-and-time string in the club-listing notation.
    DateTime(String),
}

pub ghost enum RawDateInfoView {
    Single(Seq<char>),
    Range(Seq<char>, Seq<char>),
    DateTime(Seq<char>),
}

impl View for RawDateInfo {
    type V = RawDateInfoView;

    open spec fn view(&self) -> RawDateInfoView {
        match self {
            RawDateInfo::Single(s) => RawDateInfoView::Single(s@),
            RawDateInfo::Range(b, e) => RawDateInfoView::Range(b@, e@),
            RawDateInfo::DateTime(s) => RawDateInfoView::DateTime(s@),
        }
    }
}

impl DeepView for RawDateInfo {
    type V = RawDateInfoView;

    open spec fn deep_view(&self) -> RawDateInfoView {
        self.view()
    }
}

/// The ISO-8601 `YYYY-MM-DD` date that parsing `s` as a
/// day/month/two-digit-year date yields, or `None` when `s` is not
/// such a date.
pub uninterp spec fn dmy_to_iso(s: Seq<char>) -> Option<Seq<char>>;

/// Relies on chrono's `NaiveDate::parse_from_str` with the `%d/%m/%y`
/// notation, and on its `%Y-%m-%d` formatting: success and result
/// depend on the text alone.
#[verifier::external_body]
fn parse_dmy_date(s: &str) -> (r: Option<String>)
    ensures
        (r is Some) == (dmy_to_iso(s@) is Some),
        r matches Some(d) ==> dmy_to_iso(s@) == Some(d@),
{
    match chrono::NaiveDate::parse_from_str(s, "%d/%m/%y") {
        Ok(d) => Some(d.format("%Y-%m-%d").to_string()),
        Err(_) => None,
    }
}

/// The ISO-8601 `YYYY-MM-DDTHH:MM` text that parsing `s` in the
/// club-listing notation yields, or `None` when `s` is not in that
/// notation.
pub uninterp spec fn listing_datetime_to_iso(s: Seq<char>) -> Option<Seq<char>>;

/// Relies on chrono's `NaiveDateTime::parse_from_str` with the
/// notation `%A%d.%m.%Ystart%R`, and on its `%Y-%m-%dT%H:%M`
/// formatting: success and result depend on the text alone.
#[verifier::external_body]
fn parse_listing_datetime(s: &str) -> (r: Option<String>)
    ensures
        (r is Some) == (listing_datetime_to_iso(s@) is Some),
        r matches Some(d) ==> listing_datetime_to_iso(s@) == Some(d@),
{
    match chrono::NaiveDateTime::parse_from_str(s, "%A%d.%m.%Ystart%R") {
        Ok(d) => Some(d.format("%Y-%m-%dT%H:%M").to_string()),
        Err(_) => None,
    }
}

/// The Unix timestamp (seconds) of an RFC 3339 date-time, or `None`
/// when `s` is not one.
pub uninterp spec fn rfc3339_to_epoch(s: Seq<char>) -> Option<i64>;

/// Relies on chrono's `DateTime::parse_from_rfc3339` and its
/// `timestamp`: success and result depend on the text alone.
#[verifier::external_body]
pub fn parse_rfc3339_epoch(s: &str) -> (r: Option<i64>)
    ensures
        r == rfc3339_to_epoch(s@),
{
    match chrono::DateTime::parse_from_rfc3339(s) {
        Ok(d) => Some(d.timestamp()),
        Err(_) => None,
    }
}

/// Date text with the newlines and spaces of the page's indentation
/// dropped, as the club-listing notation expects.
pub open spec fn cleaned_date_text(s: Seq<char>) -> Seq<char> {
    s.filter(|c: char| c != '\n' && c != ' ')
}

/// Drop newlines and spaces from date text.
pub fn clean_date_text(s: &str) -> (r: String)
    ensures
        r@ == cleaned_date_text(s@),
{
    let len = s.unicode_len();
    let mut out = String::new();
    let mut i: usize = 0;
    proof {
        reveal(Seq::filter);
        assert(s@.take(0) =~= Seq::<char>::empty());
        assert(out@ =~= s@.take(0).filter(|c: char| c != '\n' && c != ' '));
    }
    while i < len
        invariant
            0 <= i <= len,
            len == s@.len(),
            out@ == s@.take(i as int).filter(|c: char| c != '\n' && c != ' '),
        decreases len - i,
    {
        let c = s.get_char(i);
        proof {
            reveal(Seq::filter);
            let t = s@.take(i + 1);
            assert(t.drop_last() =~= s@.take(i as int));
            assert(t.last() == s@[i as int]);
        }
        if c != '\n' && c != ' ' {
            let piece = s.substring_char(i, i + 1);
            out.append(piece);
            proof {
                assert(out@ =~= s@.take(i as int).filter(|c: char| c != '\n' && c != ' ').push(
                    s@[i as int],
                ));
            }
        }
        i = i + 1;
    }
    proof {
        assert(s@.take(len as int) =~= s@);
    }
    out
}

/// What normalization yields: the canonical event date and, for a
/// range, the canonical end date.
pub open spec fn spec_normalize(raw: RawDateInfoView) -> Option<(Seq<char>, Option<Seq<char>>)> {
    match raw {
        RawDateInfoView::Single(s) => match dmy_to_iso(s) {
            Some(d) => Some((d, None::<Seq<char>>)),
            None => None,
        },
        RawDateInfoView::Range(b, e) => match (dmy_to_iso(b), dmy_to_iso(e)) {
            (Some(db), Some(de)) => Some((db, Some(de))),
            _ => None,
        },
        RawDateInfoView::DateTime(s) => match listing_datetime_to_iso(cleaned_date_text(s)) {
            Some(d) => Some((d, None::<Seq<char>>)),
            None => None,
        },
    }
}

/// The text reported when normalization fails: the date text that did
/// not parse (for a range, the begin text if that failed, else the end
/// text).
pub open spec fn spec_normalize_err_text(raw: RawDateInfoView) -> Seq<char> {
    match raw {
        RawDateInfoView::Single(s) => s,
        RawDateInfoView::Range(b, e) => if dmy_to_iso(b) is None {
            b
        } else {
            e
        },
        RawDateInfoView::DateTime(s) => s,
    }
}

/// Normalize one piece of raw date information into canonical ISO-8601
/// text. Exactly the inputs on which `spec_normalize` is `Some`
/// succeed; the rest fail with a date-parse error naming the source
/// and the offending text.
pub fn normalize(source: EventSource, raw: &RawDateInfo) -> (r: Result<
    (String, Option<String>),
    ScrapeError,
>)
    ensures
        (r is Ok) == (spec_normalize(raw@) is Some),
        r matches Ok(p) ==> spec_normalize(raw@) == Some((p.0@, p.1.deep_view())),
        r matches Err(e) ==> e@ == (ScrapeErrorView::DateParse {
            source,
            raw: spec_normalize_err_text(raw@),
        }),
{
    match raw {
        RawDateInfo::Single(s) => match parse_dmy_date(s.as_str()) {
            Some(d) => Ok((d, None)),
            None => Err(ScrapeError::DateParse { source, raw: s.clone() }),
        },
        RawDateInfo::Range(b, e) => match parse_dmy_date(b.as_str()) {
            Some(db) => match parse_dmy_date(e.as_str()) {
                Some(de) => Ok((db, Some(de))),
                None => Err(ScrapeError::DateParse { source, raw: e.clone() }),
            },
            None => Err(ScrapeError::DateParse { source, raw: b.clone() }),
        },
        RawDateInfo::DateTime(s) => {
            let cleaned = clean_date_text(s.as_str());
            match parse_listing_datetime(cleaned.as_str()) {
                Some(d) => Ok((d, None)),
                None => Err(ScrapeError::DateParse { source, raw: s.clone() }),
            }
        },
    }
}

} // verus!
