//! The canonical record types and the deduplication contract.
//!
//! An `Event` is immutable after creation; only inserts occur, driven
//! by ingestion. Record identity for deduplication is the tuple
//! (href, title, synopsis, event_date, source): `subtitle` and
//! `event_end_date` are deliberately excluded, so cosmetic edits to
//! those fields on a re-scrape never produce duplicate rows.

use crate::sources::is_registered_name;
use vstd::prelude::*;

verus! {

/// Mathematical form of a stored event record.
pub ghost struct EventView {
    pub id: int,
    pub href: Seq<char>,
    pub title: Seq<char>,
    pub subtitle: Option<Seq<char>>,
    pub synopsis: Seq<char>,
    pub event_date: Seq<char>,
    pub event_end_date: Option<Seq<char>>,
    pub source: Seq<char>,
}

/// A stored event record. `id` is store-assigned and stable;
/// `event_date` (and `event_end_date` when present) is a canonical
/// ISO-8601 string, so plain string comparison is chronological
/// comparison; `source` is the identity name of a registered source.
#[derive(Debug, Clone)]
pub struct Event {
    pub id: i32,
    pub href: String,
    pub title: String,
    pub subtitle: Option<String>,
    pub synopsis: String,
    pub event_date: String,
    pub event_end_date: Option<String>,
    pub source: String,
}

impl View for Event {
    type V = EventView;

    open spec fn view(&self) -> EventView {
        EventView {
            id: self.id as int,
            href: self.href@,
            title: self.title@,
            subtitle: self.subtitle.deep_view(),
            synopsis: self.synopsis@,
            event_date: self.event_date@,
            event_end_date: self.event_end_date.deep_view(),
            source: self.source@,
        }
    }
}

impl DeepView for Event {
    type V = EventView;

    open spec fn deep_view(&self) -> EventView {
        self.view()
    }
}

impl EventView {
    /// A stored event is well formed when its source is registered.
    pub open spec fn wf(self) -> bool {
        is_registered_name(self.source)
    }
}

/// Mathematical form of a candidate event, before the store assigns
/// an id.
pub ghost struct NewEventView {
    pub href: Seq<char>,
    pub title: Seq<char>,
    pub subtitle: Option<Seq<char>>,
    pub synopsis: Seq<char>,
    pub event_date: Seq<char>,
    pub event_end_date: Option<Seq<char>>,
    pub source: Seq<char>,
}

/// A candidate event produced by ingestion, not yet stored.
#[derive(Debug)]
pub struct NewEvent {
    pub href: String,
    pub title: String,
    pub subtitle: Option<String>,
    pub synopsis: String,
    pub event_date: String,
    pub event_end_date: Option<String>,
    pub source: String,
}

impl View for NewEvent {
    type V = NewEventView;

    open spec fn view(&self) -> NewEventView {
        NewEventView {
            href: self.href@,
            title: self.title@,
            subtitle: self.subtitle.deep_view(),
            synopsis: self.synopsis@,
            event_date: self.event_date@,
            event_end_date: self.event_end_date.deep_view(),
            source: self.source@,
        }
    }
}

impl DeepView for NewEvent {
    type V = NewEventView;

    open spec fn deep_view(&self) -> NewEventView {
        self.view()
    }
}

impl NewEventView {
    pub open spec fn wf(self) -> bool {
        is_registered_name(self.source)
    }
}

impl NewEvent {
    /// Build a candidate for the given source. The stored source field
    /// is the source's identity name.
    pub fn new(
        title: &str,
        subtitle: Option<String>,
        href: &str,
        synopsis: &str,
        event_date: &str,
        event_end_date: Option<String>,
        source: crate::sources::EventSource,
    ) -> (r: NewEvent)
        ensures
            r@ == (NewEventView {
                href: href@,
                title: title@,
                subtitle: subtitle.deep_view(),
                synopsis: synopsis@,
                event_date: event_date@,
                event_end_date: event_end_date.deep_view(),
                source: source.spec_name(),
            }),
            r@.wf(),
    {
        NewEvent {
            href: href.to_owned(),
            title: title.to_owned(),
            subtitle,
            synopsis: synopsis.to_owned(),
            event_date: event_date.to_owned(),
            event_end_date,
            source: source.as_str().to_owned(),
        }
    }
}

/// The stored event that inserting candidate `c` under id `id` yields.
pub open spec fn event_of(c: NewEventView, id: int) -> EventView {
    EventView {
        id: id,
        href: c.href,
        title: c.title,
        subtitle: c.subtitle,
        synopsis: c.synopsis,
        event_date: c.event_date,
        event_end_date: c.event_end_date,
        source: c.source,
    }
}

/// The dedup key: a stored event and a candidate denote the same event
/// exactly when href, title, synopsis, event_date and source agree.
pub open spec fn same_event(e: EventView, c: NewEventView) -> bool {
    &&& e.href == c.href
    &&& e.title == c.title
    &&& e.synopsis == c.synopsis
    &&& e.event_date == c.event_date
    &&& e.source == c.source
}

/// Two candidates carry the same dedup key: identical href, title,
/// synopsis, event_date and source; subtitle and end date are free.
pub open spec fn same_key(c1: NewEventView, c2: NewEventView) -> bool {
    &&& c1.href == c2.href
    &&& c1.title == c2.title
    &&& c1.synopsis == c2.synopsis
    &&& c1.event_date == c2.event_date
    &&& c1.source == c2.source
}

/// A candidate is new when no stored event has the same dedup key.
pub open spec fn spec_is_new(c: NewEventView, stored: Seq<EventView>) -> bool {
    forall|k: int| 0 <= k < stored.len() ==> !same_event(stored[k], c)
}

impl Event {
    /// Whether this stored event and the candidate have the same dedup
    /// key.
    pub fn key_matches(&self, c: &NewEvent) -> (r: bool)
        ensures
            r == same_event(self@, c@),
    {
        self.href == c.href && self.title == c.title && self.synopsis == c.synopsis
            && self.event_date == c.event_date && self.source == c.source
    }
}

/// Decide whether a candidate is absent from the stored events; a pure
/// comparison with no side effect. The caller performs the insert.
pub fn is_new(c: &NewEvent, stored: &Vec<Event>) -> (r: bool)
    ensures
        r == spec_is_new(c@, stored.deep_view()),
{
    let mut k: usize = 0;
    while k < stored.len()
        invariant
            0 <= k <= stored@.len(),
            forall|m: int| 0 <= m < k ==> !same_event(stored.deep_view()[m], c@),
        decreases stored@.len() - k,
    {
        if stored[k].key_matches(c) {
            assert(same_event(stored.deep_view()[k as int], c@));
            return false;
        }
        k = k + 1;
    }
    true
}

/// A record of one completed ingestion pass: when it ran and how many
/// events it added.
#[derive(Debug, Clone)]
pub struct Refresh {
    pub id: i32,
    pub refresh_dt: String,
    pub total_added: i32,
}

/// Mathematical form of a refresh marker.
pub ghost struct RefreshView {
    pub id: int,
    pub refresh_dt: Seq<char>,
    pub total_added: int,
}

impl View for Refresh {
    type V = RefreshView;

    open spec fn view(&self) -> RefreshView {
        RefreshView { id: self.id as int, refresh_dt: self.refresh_dt@, total_added: self.total_added as int }
    }
}

impl DeepView for Refresh {
    type V = RefreshView;

    open spec fn deep_view(&self) -> RefreshView {
        self.view()
    }
}

} // verus!
