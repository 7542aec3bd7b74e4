//! A verified core for an event-calendar aggregator.
//!
//! Several venue websites publish their event calendars as HTML pages.
//! This library holds the logic that turns those pages into one
//! normalized, queryable record set: per-source extraction of candidate
//! events from a parsed document, normalization of source-specific date
//! notation into sortable ISO-8601 strings, deduplication against the
//! already-stored events, and the compound filter query (enabled
//! sources, title substring, inclusive date range) used for retrieval.
//!
//! Fetching pages over HTTP and serving the results stay outside this
//! crate; callers hand in page text and read back plain records.

pub mod dom;
pub mod errors;
pub mod extract;
pub mod laws;
pub mod model;
pub mod normalize;
pub mod query;
pub mod sources;
pub mod store;
pub mod text;
