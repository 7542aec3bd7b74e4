//! The error taxonomy of the ingestion pipeline.
//!
//! Extraction failures name the source, the missing field and the
//! offending node, so a caller can skip that node or abort the source;
//! date-parse failures carry the unparseable text; a registered source
//! without an extraction rule reports itself as unimplemented, an
//! operational signal distinct from an empty calendar. Fetch failures
//! happen outside this crate and never reach these types.

use crate::sources::EventSource;
use vstd::prelude::*;

verus! {

/// The candidate field whose node was missing during extraction.
#[derive(Debug, Clone, Copy, PartialEq, Eq, Structural)]
pub enum ExtractField {
    Href,
    Title,
    Subtitle,
    Synopsis,
    Date,
}

/// Why one source's ingestion step failed.
#[derive(Debug)]
pub enum ScrapeError {
    /// The page's markup lacks a required field at the given
    /// event node: the source changed its layout.
    Extraction { source: EventSource, field: ExtractField, node_index: usize },
    /// Date text that the source's notation does not parse; it
    /// propagates rather than defaulting to an arbitrary date.
    DateParse { source: EventSource, raw: String },
    /// The source is registered but has no extraction rule.
    NotImplemented { source: EventSource },
    /// The store refused the source's inserts.
    Store { source: EventSource, error: StoreError },
}

pub ghost enum ScrapeErrorView {
    Extraction { source: EventSource, field: ExtractField, node_index: int },
    DateParse { source: EventSource, raw: Seq<char> },
    NotImplemented { source: EventSource },
    Store { source: EventSource, error: StoreError },
}

impl View for ScrapeError {
    type V = ScrapeErrorView;

    open spec fn view(&self) -> ScrapeErrorView {
        match self {
            ScrapeError::Extraction { source, field, node_index } => ScrapeErrorView::Extraction {
                source: *source,
                field: *field,
                node_index: *node_index as int,
            },
            ScrapeError::DateParse { source, raw } => ScrapeErrorView::DateParse {
                source: *source,
                raw: raw@,
            },
            ScrapeError::NotImplemented { source } => ScrapeErrorView::NotImplemented {
                source: *source,
            },
            ScrapeError::Store { source, error } => ScrapeErrorView::Store {
                source: *source,
                error: *error,
            },
        }
    }
}

impl DeepView for ScrapeError {
    type V = ScrapeErrorView;

    open spec fn deep_view(&self) -> ScrapeErrorView {
        self.view()
    }
}

impl ScrapeError {
    /// A short description, for logging at the caller boundary.
    pub fn describe(&self) -> (r: &'static str)
        ensures
            (self@ matches ScrapeErrorView::Extraction { .. }) ==> r@ == "markup shape mismatch"@,
            (self@ matches ScrapeErrorView::DateParse { .. }) ==> r@ == "unparseable date text"@,
            (self@ matches ScrapeErrorView::NotImplemented { .. }) ==> r@
                == "no extraction rule implemented"@,
            (self@ matches ScrapeErrorView::Store { .. }) ==> r@ == "store refused the insert"@,
    {
        match self {
            ScrapeError::Extraction { .. } => "markup shape mismatch",
            ScrapeError::DateParse { .. } => "unparseable date text",
            ScrapeError::NotImplemented { .. } => "no extraction rule implemented",
            ScrapeError::Store { .. } => "store refused the insert",
        }
    }
}

/// A stored refresh marker whose timestamp text does not parse as
/// RFC 3339: the rate limit cannot be decided from it.
#[derive(Debug)]
pub struct MarkerParseError {
    pub raw: String,
}

pub ghost struct MarkerParseErrorView {
    pub raw: Seq<char>,
}

impl View for MarkerParseError {
    type V = MarkerParseErrorView;

    open spec fn view(&self) -> MarkerParseErrorView {
        MarkerParseErrorView { raw: self.raw@ }
    }
}

/// Why the store could not insert a record.
#[derive(Debug, Clone, Copy, PartialEq, Eq, Structural)]
pub enum StoreError {
    /// Every store-assignable id is taken.
    IdsExhausted,
}

} // verus!
