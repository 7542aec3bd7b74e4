//! An in-memory event store and the ingestion orchestrator.
//!
//! The store keeps the immutable event records and the append-only
//! refresh markers, assigning ids in insertion order. Ingestion runs
//! per source: extract candidates from the parsed page, normalize
//! their dates, and insert each candidate that the deduplicator finds
//! new — against the store as it grows, so a duplicate never enters,
//! not even twice within one pass. Failures are isolated per source:
//! one broken source adds a failure to the pass outcome and leaves the
//! store as it was, while the other sources still run.

use crate::errors::{MarkerParseError, ScrapeError, ScrapeErrorView, StoreError};
use crate::extract::{extract, spec_extract, RawCandidateView};
use crate::model::{
    event_of, is_new, spec_is_new, Event, EventView, NewEvent, NewEventView, Refresh,
    RefreshView,
};
use crate::normalize::{normalize, spec_normalize, spec_normalize_err_text};
use crate::dom::{dom_of, parse_document, FlatNode, FlatNodeView};
use crate::query::{copy_event, spec_filtered_events, sorted_by_date, FilterCriteria};
use crate::sources::EventSource;
use crate::text::{lex_le, lemma_lex_le_refl, lemma_lex_le_total, lemma_lex_le_trans, str_le};
use vstd::prelude::*;

verus! {

/// The largest number of events (and of refresh markers) the store
/// can hold: ids are store-assigned 32-bit integers starting at 1.
pub const MAX_RECORDS: usize = 0x7fff_fffe;

/// Mathematical form of the store.
pub ghost struct StoreView {
    pub events: Seq<EventView>,
    pub refreshes: Seq<RefreshView>,
}

/// The durable record keeper: stored events and refresh markers.
/// Events are never updated or removed; refresh markers are appended
/// once per completed ingestion pass.
pub struct EventStore {
    events: Vec<Event>,
    refreshes: Vec<Refresh>,
}

impl View for EventStore {
    type V = StoreView;

    closed spec fn view(&self) -> StoreView {
        StoreView { events: self.events.deep_view(), refreshes: self.refreshes.deep_view() }
    }
}

/// The store's invariant: ids run 1, 2, ... in insertion order, the
/// record counts fit the id space, and every event's source is
/// registered.
pub open spec fn store_wf(s: StoreView) -> bool {
    &&& s.events.len() <= MAX_RECORDS
    &&& s.refreshes.len() <= MAX_RECORDS
    &&& forall|i: int| 0 <= i < s.events.len() ==> (#[trigger] s.events[i]).id == i + 1
    &&& forall|i: int| 0 <= i < s.events.len() ==> (#[trigger] s.events[i]).wf()
    &&& forall|i: int| 0 <= i < s.refreshes.len() ==> (#[trigger] s.refreshes[i]).id == i + 1
}

/// The store after ingesting the candidates in order, inserting each
/// that has no dedup-key match among the events already present —
/// including those this very ingestion inserted before it.
pub open spec fn spec_ingest(events: Seq<EventView>, cands: Seq<NewEventView>) -> Seq<EventView>
    decreases cands.len(),
{
    if cands.len() == 0 {
        events
    } else {
        let after = if spec_is_new(cands[0], events) {
            events.push(event_of(cands[0], events.len() as int + 1))
        } else {
            events
        };
        spec_ingest(after, cands.skip(1))
    }
}

/// The candidate events that one source's extraction output yields
/// once dates are normalized, over the first `k` raw candidates,
/// stopped by the first unparseable date.
pub open spec fn spec_new_events_upto(
    source: EventSource,
    cands: Seq<RawCandidateView>,
    k: int,
) -> Result<Seq<NewEventView>, ScrapeErrorView>
    decreases (if k >= 0 { k } else { 0 }),
{
    if k <= 0 {
        Ok(Seq::empty())
    } else {
        match spec_new_events_upto(source, cands, k - 1) {
            Err(e) => Err(e),
            Ok(evs) => match spec_normalize(cands[k - 1].date_info) {
                None => Err(
                    ScrapeErrorView::DateParse {
                        source,
                        raw: spec_normalize_err_text(cands[k - 1].date_info),
                    },
                ),
                Some(dates) => Ok(
                    evs.push(
                        NewEventView {
                            href: cands[k - 1].href,
                            title: cands[k - 1].title,
                            subtitle: cands[k - 1].subtitle,
                            synopsis: cands[k - 1].synopsis,
                            event_date: dates.0,
                            event_end_date: dates.1,
                            source: source.spec_name(),
                        },
                    ),
                ),
            },
        }
    }
}

pub open spec fn spec_new_events(source: EventSource, cands: Seq<RawCandidateView>) -> Result<
    Seq<NewEventView>,
    ScrapeErrorView,
> {
    spec_new_events_upto(source, cands, cands.len() as int)
}

/// What one source's ingestion step does to the stored events:
/// extract, normalize, deduplicate, insert. An error leaves the events
/// unchanged; the store refuses a batch that could not fit the id
/// space.
pub open spec fn spec_scrape(
    source: EventSource,
    events: Seq<EventView>,
    nodes: Seq<FlatNodeView>,
) -> Result<Seq<EventView>, ScrapeErrorView> {
    match spec_extract(source, nodes) {
        Err(e) => Err(e),
        Ok(cands) => match spec_new_events(source, cands) {
            Err(e) => Err(e),
            Ok(nevs) => if events.len() + nevs.len() <= MAX_RECORDS {
                Ok(spec_ingest(events, nevs))
            } else {
                Err(ScrapeErrorView::Store { source, error: StoreError::IdsExhausted })
            },
        },
    }
}

/// One source's page, as fetched by the caller.
pub struct SourcePage {
    pub source: EventSource,
    pub html: String,
}

pub ghost struct SourcePageView {
    pub source: EventSource,
    pub html: Seq<char>,
}

impl View for SourcePage {
    type V = SourcePageView;

    open spec fn view(&self) -> SourcePageView {
        SourcePageView { source: self.source, html: self.html@ }
    }
}

impl DeepView for SourcePage {
    type V = SourcePageView;

    open spec fn deep_view(&self) -> SourcePageView {
        self.view()
    }
}

/// What a whole ingestion pass reports: how many events it inserted
/// and which sources failed, in registry order.
pub struct PassOutcome {
    pub inserted: usize,
    pub failures: Vec<ScrapeError>,
}

pub ghost struct PassView {
    pub events: Seq<EventView>,
    pub failures: Seq<ScrapeErrorView>,
}

/// The stored events and the failure list after the first `k` pages
/// of a pass: each page's source either extends the events or appends
/// its failure, isolated from the others.
pub open spec fn spec_pass(
    events: Seq<EventView>,
    pages: Seq<SourcePageView>,
    k: int,
) -> PassView
    decreases (if k >= 0 { k } else { 0 }),
{
    if k <= 0 {
        PassView { events, failures: Seq::empty() }
    } else {
        let prev = spec_pass(events, pages, k - 1);
        match spec_scrape(pages[k - 1].source, prev.events, dom_of(pages[k - 1].html)) {
            Ok(after) => PassView { events: after, failures: prev.failures },
            Err(e) => PassView { events: prev.events, failures: prev.failures.push(e) },
        }
    }
}

/// Make an owned copy of a refresh marker with the same view.
fn copy_refresh(m: &Refresh) -> (r: Refresh)
    ensures
        r@ == m@,
{
    Refresh { id: m.id, refresh_dt: m.refresh_dt.clone(), total_added: m.total_added }
}

impl EventStore {
    /// An empty store.
    pub fn new() -> (r: EventStore)
        ensures
            r@.events.len() == 0,
            r@.refreshes.len() == 0,
            store_wf(r@),
    {
        let r = EventStore { events: Vec::new(), refreshes: Vec::new() };
        proof {
            assert(r@.events =~= Seq::<EventView>::empty());
            assert(r@.refreshes =~= Seq::<RefreshView>::empty());
        }
        r
    }

    /// All currently stored events, in insertion order.
    pub fn all_events(&self) -> (r: Vec<Event>)
        ensures
            r.deep_view() == self@.events,
    {
        let mut out: Vec<Event> = Vec::new();
        let mut i: usize = 0;
        proof {
            assert(out.deep_view() =~= self@.events.take(0));
        }
        while i < self.events.len()
            invariant
                0 <= i <= self.events@.len(),
                self@.events.len() == self.events@.len(),
                out.deep_view() == self@.events.take(i as int),
            decreases self.events@.len() - i,
        {
            let ghost before = out.deep_view();
            out.push(copy_event(&self.events[i]));
            proof {
                assert(out.deep_view() =~= before.push(self@.events[i as int]));
                assert(self@.events.take(i + 1) =~= self@.events.take(i as int).push(
                    self@.events[i as int],
                ));
            }
            i = i + 1;
        }
        proof {
            assert(self@.events.take(self@.events.len() as int) =~= self@.events);
        }
        out
    }

    /// Insert one candidate as a new stored event, assigning the next
    /// id. Succeeds (inserting exactly one row) unless the id space is
    /// exhausted; the deduplicator is the caller's concern.
    pub fn create_event(&mut self, candidate: NewEvent) -> (r: Result<usize, StoreError>)
        requires
            store_wf(old(self)@),
            candidate@.wf(),
        ensures
            store_wf(final(self)@),
            final(self)@.refreshes == old(self)@.refreshes,
            (r is Ok) == (old(self)@.events.len() < MAX_RECORDS),
            r matches Ok(n) ==> n == 1 && final(self)@.events == old(self)@.events.push(
                event_of(candidate@, old(self)@.events.len() as int + 1),
            ),
            r is Err ==> final(self)@ == old(self)@ && r == Err::<usize, StoreError>(
                StoreError::IdsExhausted,
            ),
    {
        if self.events.len() >= MAX_RECORDS {
            return Err(StoreError::IdsExhausted);
        }
        let ghost before = self@.events;
        let id = (self.events.len() + 1) as i32;
        let ev = Event {
            id,
            href: candidate.href,
            title: candidate.title,
            subtitle: candidate.subtitle,
            synopsis: candidate.synopsis,
            event_date: candidate.event_date,
            event_end_date: candidate.event_end_date,
            source: candidate.source,
        };
        self.events.push(ev);
        proof {
            assert(self@.events =~= before.push(event_of(candidate@, before.len() as int + 1)));
        }
        Ok(1)
    }

    /// Ingest a batch of candidates in order, inserting each that the
    /// deduplicator finds new against the store as it grows. Refused
    /// as a whole when the batch could not fit the id space.
    pub fn ingest_candidates(&mut self, candidates: &Vec<NewEvent>) -> (r: Result<
        usize,
        StoreError,
    >)
        requires
            store_wf(old(self)@),
            forall|i: int|
                0 <= i < candidates.deep_view().len() ==> (#[trigger] candidates.deep_view()[
                    i
                ]).wf(),
        ensures
            store_wf(final(self)@),
            final(self)@.refreshes == old(self)@.refreshes,
            (r is Ok) == (old(self)@.events.len() + candidates.deep_view().len() <= MAX_RECORDS),
            r matches Ok(n) ==> final(self)@.events == spec_ingest(
                old(self)@.events,
                candidates.deep_view(),
            ) && n == final(self)@.events.len() - old(self)@.events.len(),
            r is Err ==> final(self)@ == old(self)@ && r == Err::<usize, StoreError>(
                StoreError::IdsExhausted,
            ),
    {
        let ghost cands = candidates.deep_view();
        if candidates.len() > MAX_RECORDS - self.events.len() {
            return Err(StoreError::IdsExhausted);
        }
        let start = self.events.len();
        let mut k: usize = 0;
        proof {
            assert(cands.skip(0) =~= cands);
        }
        while k < candidates.len()
            invariant
                0 <= k <= candidates@.len(),
                cands == candidates.deep_view(),
                cands.len() == candidates@.len(),
                forall|i: int| 0 <= i < cands.len() ==> (#[trigger] cands[i]).wf(),
                store_wf(self@),
                self@.refreshes == old(self)@.refreshes,
                self@.events.len() + (cands.len() - k) <= MAX_RECORDS,
                spec_ingest(old(self)@.events, cands) == spec_ingest(
                    self@.events,
                    cands.skip(k as int),
                ),
                self@.events.len() >= old(self)@.events.len(),
            decreases candidates@.len() - k,
        {
            let ghost cur = self@.events;
            let c = &candidates[k];
            proof {
                assert(cands.skip(k as int)[0] == cands[k as int]);
                assert(cands.skip(k as int).skip(1) =~= cands.skip(k + 1));
            }
            if is_new(c, &self.events) {
                let id = (self.events.len() + 1) as i32;
                let ev = Event {
                    id,
                    href: c.href.clone(),
                    title: c.title.clone(),
                    subtitle: match &c.subtitle {
                        Some(s) => Some(s.clone()),
                        None => None,
                    },
                    synopsis: c.synopsis.clone(),
                    event_date: c.event_date.clone(),
                    event_end_date: match &c.event_end_date {
                        Some(s) => Some(s.clone()),
                        None => None,
                    },
                    source: c.source.clone(),
                };
                self.events.push(ev);
                proof {
                    assert(self@.events =~= cur.push(event_of(cands[k as int], cur.len() as int + 1)));
                }
            }
            k = k + 1;
        }
        proof {
            assert(cands.skip(cands.len() as int) =~= Seq::<NewEventView>::empty());
        }
        Ok(self.events.len() - start)
    }

    /// One source's ingestion step over a parsed document: extract,
    /// normalize, deduplicate, insert; returns how many events it
    /// inserted. Succeeds exactly when the source's rule succeeds on
    /// the document, every date parses, and the batch fits the store;
    /// on an error the store is unchanged.
    pub fn scrape_events(&mut self, source: EventSource, nodes: &Vec<FlatNode>) -> (r: Result<
        usize,
        ScrapeError,
    >)
        requires
            store_wf(old(self)@),
        ensures
            store_wf(final(self)@),
            final(self)@.refreshes == old(self)@.refreshes,
            (r is Ok) == (spec_scrape(source, old(self)@.events, nodes.deep_view()) is Ok),
            r matches Ok(n) ==> spec_scrape(source, old(self)@.events, nodes.deep_view()) == Ok::<
                Seq<EventView>,
                ScrapeErrorView,
            >(final(self)@.events) && n == final(self)@.events.len() - old(self)@.events.len(),
            r matches Err(e) ==> spec_scrape(source, old(self)@.events, nodes.deep_view()) == Err::<
                Seq<EventView>,
                ScrapeErrorView,
            >(e@) && final(self)@ == old(self)@,
    {
        let cands = match extract(source, nodes) {
            Ok(cs) => cs,
            Err(e) => {
                return Err(e);
            },
        };
        let ghost cvs = cands.deep_view();
        let mut nevs: Vec<NewEvent> = Vec::new();
        let mut k: usize = 0;
        proof {
            assert(nevs.deep_view() =~= Seq::<NewEventView>::empty());
        }
        while k < cands.len()
            invariant
                0 <= k <= cands@.len(),
                cvs == cands.deep_view(),
                cvs.len() == cands@.len(),
                self@ == old(self)@,
                store_wf(self@),
                spec_extract(source, nodes.deep_view()) == Ok::<
                    Seq<RawCandidateView>,
                    ScrapeErrorView,
                >(cvs),
                spec_new_events_upto(source, cvs, k as int) == Ok::<
                    Seq<NewEventView>,
                    ScrapeErrorView,
                >(nevs.deep_view()),
                forall|i: int|
                    0 <= i < nevs.deep_view().len() ==> (#[trigger] nevs.deep_view()[i]).wf(),
            decreases cands@.len() - k,
        {
            let ghost before = nevs.deep_view();
            let c = &cands[k];
            match normalize(source, &c.date_info) {
                Ok(dates) => {
                    let (event_date, event_end_date) = dates;
                    let ne = NewEvent {
                        href: c.href.clone(),
                        title: c.title.clone(),
                        subtitle: match &c.subtitle {
                            Some(s) => Some(s.clone()),
                            None => None,
                        },
                        synopsis: c.synopsis.clone(),
                        event_date,
                        event_end_date,
                        source: source.as_str().to_owned(),
                    };
                    let ghost nev = ne@;
                    nevs.push(ne);
                    proof {
                        crate::sources::lemma_spec_name_registered(source);
                        assert(nev.wf());
                        assert(nevs.deep_view() =~= before.push(nev));
                    }
                },
                Err(e) => {
                    proof {
                        lemma_new_events_upto_err(source, cvs, k + 1, cvs.len() as int);
                    }
                    return Err(e);
                },
            }
            k = k + 1;
        }
        match self.ingest_candidates(&nevs) {
            Ok(n) => Ok(n),
            Err(e) => Err(ScrapeError::Store { source, error: e }),
        }
    }

    /// One source's ingestion step from page text: parse, then
    /// extract, normalize, deduplicate, insert.
    pub fn scrape_html(&mut self, source: EventSource, html: &str) -> (r: Result<
        usize,
        ScrapeError,
    >)
        requires
            store_wf(old(self)@),
        ensures
            store_wf(final(self)@),
            final(self)@.refreshes == old(self)@.refreshes,
            (r is Ok) == (spec_scrape(source, old(self)@.events, dom_of(html@)) is Ok),
            r matches Ok(n) ==> spec_scrape(source, old(self)@.events, dom_of(html@)) == Ok::<
                Seq<EventView>,
                ScrapeErrorView,
            >(final(self)@.events) && n == final(self)@.events.len() - old(self)@.events.len(),
            r matches Err(e) ==> spec_scrape(source, old(self)@.events, dom_of(html@)) == Err::<
                Seq<EventView>,
                ScrapeErrorView,
            >(e@) && final(self)@ == old(self)@,
    {
        let nodes = parse_document(html);
        self.scrape_events(source, &nodes)
    }

    /// Scrape all the given pages in order, isolating failures per
    /// source: a broken source reports its error in the outcome and
    /// the others still run. Returns the total inserted count and the
    /// failures.
    pub fn scrape_all_events(&mut self, pages: &Vec<SourcePage>) -> (r: PassOutcome)
        requires
            store_wf(old(self)@),
        ensures
            store_wf(final(self)@),
            final(self)@.refreshes == old(self)@.refreshes,
            final(self)@.events == spec_pass(
                old(self)@.events,
                pages.deep_view(),
                pages.deep_view().len() as int,
            ).events,
            r.failures.deep_view() == spec_pass(
                old(self)@.events,
                pages.deep_view(),
                pages.deep_view().len() as int,
            ).failures,
            r.inserted == final(self)@.events.len() - old(self)@.events.len(),
    {
        let ghost pvs = pages.deep_view();
        let start = self.events.len();
        let mut failures: Vec<ScrapeError> = Vec::new();
        let mut k: usize = 0;
        proof {
            assert(failures.deep_view() =~= Seq::<ScrapeErrorView>::empty());
        }
        while k < pages.len()
            invariant
                0 <= k <= pages@.len(),
                pvs == pages.deep_view(),
                pvs.len() == pages@.len(),
                store_wf(self@),
                self@.refreshes == old(self)@.refreshes,
                self@.events == spec_pass(old(self)@.events, pvs, k as int).events,
                failures.deep_view() == spec_pass(old(self)@.events, pvs, k as int).failures,
                self@.events.len() >= old(self)@.events.len(),
                start == old(self)@.events.len(),
            decreases pages@.len() - k,
        {
            let ghost before_failures = failures.deep_view();
            let page = &pages[k];
            match self.scrape_html(page.source, page.html.as_str()) {
                Ok(_) => {},
                Err(e) => {
                    let ghost ev = e@;
                    failures.push(e);
                    proof {
                        assert(failures.deep_view() =~= before_failures.push(ev));
                    }
                },
            }
            k = k + 1;
        }
        PassOutcome { inserted: self.events.len() - start, failures }
    }

    /// Append the marker of a completed ingestion pass: when it ran
    /// (an RFC 3339 timestamp) and how many events it added.
    pub fn create_refresh(&mut self, refresh_dt: &str, total_added: i32) -> (r: Result<
        usize,
        StoreError,
    >)
        requires
            store_wf(old(self)@),
        ensures
            store_wf(final(self)@),
            final(self)@.events == old(self)@.events,
            (r is Ok) == (old(self)@.refreshes.len() < MAX_RECORDS),
            r matches Ok(n) ==> n == 1 && final(self)@.refreshes == old(self)@.refreshes.push(
                RefreshView {
                    id: old(self)@.refreshes.len() as int + 1,
                    refresh_dt: refresh_dt@,
                    total_added: total_added as int,
                },
            ),
            r is Err ==> final(self)@ == old(self)@ && r == Err::<usize, StoreError>(
                StoreError::IdsExhausted,
            ),
    {
        if self.refreshes.len() >= MAX_RECORDS {
            return Err(StoreError::IdsExhausted);
        }
        let ghost before = self@.refreshes;
        let id = (self.refreshes.len() + 1) as i32;
        self.refreshes.push(Refresh { id, refresh_dt: refresh_dt.to_owned(), total_added });
        proof {
            assert(self@.refreshes =~= before.push(
                RefreshView {
                    id: before.len() as int + 1,
                    refresh_dt: refresh_dt@,
                    total_added: total_added as int,
                },
            ));
        }
        Ok(1)
    }

    /// The most recent refresh marker: the first marker whose
    /// timestamp text is lexicographically greatest (RFC 3339 text
    /// sorts chronologically), or `None` when no pass has completed.
    pub fn latest_refresh(&self) -> (r: Option<Refresh>)
        ensures
            (r is Some) == (self@.refreshes.len() > 0),
            r matches Some(m) ==> exists|i: int|
                {
                    &&& 0 <= i < self@.refreshes.len()
                    &&& m@ == self@.refreshes[i]
                    &&& forall|j: int|
                        0 <= j < self@.refreshes.len() ==> lex_le(
                            (#[trigger] self@.refreshes[j]).refresh_dt,
                            self@.refreshes[i].refresh_dt,
                        )
                    &&& forall|j: int|
                        0 <= j < i ==> !lex_le(
                            self@.refreshes[i].refresh_dt,
                            (#[trigger] self@.refreshes[j]).refresh_dt,
                        )
                },
    {
        if self.refreshes.len() == 0 {
            return None;
        }
        let mut best: usize = 0;
        let mut i: usize = 1;
        proof {
            lemma_lex_le_refl(self@.refreshes[0].refresh_dt);
        }
        while i < self.refreshes.len()
            invariant
                0 <= best < i <= self.refreshes@.len(),
                self@.refreshes.len() == self.refreshes@.len(),
                forall|j: int|
                    0 <= j < i ==> lex_le(
                        (#[trigger] self@.refreshes[j]).refresh_dt,
                        self@.refreshes[best as int].refresh_dt,
                    ),
                forall|j: int|
                    0 <= j < best ==> !lex_le(
                        self@.refreshes[best as int].refresh_dt,
                        (#[trigger] self@.refreshes[j]).refresh_dt,
                    ),
            decreases self.refreshes@.len() - i,
        {
            if !str_le(
                self.refreshes[i].refresh_dt.as_str(),
                self.refreshes[best].refresh_dt.as_str(),
            ) {
                proof {
                    lemma_lex_le_total(
                        self@.refreshes[i as int].refresh_dt,
                        self@.refreshes[best as int].refresh_dt,
                    );
                    assert forall|j: int| 0 <= j < i + 1 implies lex_le(
                        (#[trigger] self@.refreshes[j]).refresh_dt,
                        self@.refreshes[i as int].refresh_dt,
                    ) by {
                        if j < i {
                            lemma_lex_le_trans(
                                self@.refreshes[j].refresh_dt,
                                self@.refreshes[best as int].refresh_dt,
                                self@.refreshes[i as int].refresh_dt,
                            );
                        } else {
                            lemma_lex_le_refl(self@.refreshes[i as int].refresh_dt);
                        }
                    }
                    assert forall|j: int| 0 <= j < i implies !lex_le(
                        self@.refreshes[i as int].refresh_dt,
                        (#[trigger] self@.refreshes[j]).refresh_dt,
                    ) by {
                        if lex_le(self@.refreshes[i as int].refresh_dt, self@.refreshes[j].refresh_dt) {
                            lemma_lex_le_trans(
                                self@.refreshes[i as int].refresh_dt,
                                self@.refreshes[j].refresh_dt,
                                self@.refreshes[best as int].refresh_dt,
                            );
                        }
                    }
                }
                best = i;
            } else {
                proof {
                    lemma_lex_le_refl(self@.refreshes[i as int].refresh_dt);
                }
            }
            i = i + 1;
        }
        Some(copy_refresh(&self.refreshes[best]))
    }

    /// Run the compound retrieval filter over the stored events.
    pub fn filtered_events(&self, criteria: &FilterCriteria) -> (r: Vec<Event>)
        ensures
            r.deep_view() == spec_filtered_events(self@.events, criteria@),
            sorted_by_date(r.deep_view()),
    {
        crate::query::filtered_events(&self.events, criteria)
    }

    /// The smallest and largest stored event date, or `None` when the
    /// store is empty.
    pub fn total_event_range(&self) -> (r: Option<(String, String)>)
        ensures
            (r is Some) == (self@.events.len() > 0),
            r matches Some(range) ==> {
                &&& exists|i: int|
                    0 <= i < self@.events.len() && range.0@ == (#[trigger] self@.events[
                        i
                    ]).event_date
                &&& exists|i: int|
                    0 <= i < self@.events.len() && range.1@ == (#[trigger] self@.events[
                        i
                    ]).event_date
                &&& forall|i: int|
                    0 <= i < self@.events.len() ==> lex_le(
                        range.0@,
                        (#[trigger] self@.events[i]).event_date,
                    )
                &&& forall|i: int|
                    0 <= i < self@.events.len() ==> lex_le(
                        (#[trigger] self@.events[i]).event_date,
                        range.1@,
                    )
            },
    {
        crate::query::total_event_range(&self.events)
    }
}

/// Once a prefix of the raw candidates fails to normalize, the whole
/// batch fails the same way.
proof fn lemma_new_events_upto_err(
    source: EventSource,
    cands: Seq<RawCandidateView>,
    k: int,
    n: int,
)
    requires
        0 <= k <= n,
        spec_new_events_upto(source, cands, k) is Err,
    ensures
        spec_new_events_upto(source, cands, n) == spec_new_events_upto(source, cands, k),
    decreases n - k,
{
    if k < n {
        lemma_new_events_upto_err(source, cands, k + 1, n);
    }
}

/// The rate limit on re-ingestion: a refresh should run when none has
/// completed yet, or when the last one completed at least a day ago. A
/// marker whose timestamp text does not parse cannot decide this and
/// is reported instead.
pub fn should_refresh(last: Option<&Refresh>, now_epoch: i64) -> (r: Result<
    bool,
    MarkerParseError,
>)
    ensures
        last is None ==> r == Ok::<bool, MarkerParseError>(true),
        last matches Some(m) ==> match crate::normalize::rfc3339_to_epoch(m@.refresh_dt) {
            Some(ts) => r matches Ok(b) && b == (now_epoch - ts >= 86400),
            None => r matches Err(e) && e@.raw == m@.refresh_dt,
        },
{
    match last {
        None => Ok(true),
        Some(m) => match crate::normalize::parse_rfc3339_epoch(m.refresh_dt.as_str()) {
            Some(ts) => Ok((now_epoch as i128) - (ts as i128) >= 86400),
            None => Err(MarkerParseError { raw: m.refresh_dt.clone() }),
        },
    }
}

} // verus!
