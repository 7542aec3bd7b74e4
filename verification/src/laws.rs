//! The library's laws: properties that relate several operations,
//! stated over the same spec functions the operations' contracts use.

use crate::model::{event_of, same_event, same_key, spec_is_new, EventView, NewEventView};
use crate::query::{
    event_matches, date_in_range, source_matches, spec_filter, spec_filtered_events,
    lemma_sort_by_date_multiset, CriteriaView, some_enabled,
};
use crate::sources::{is_registered_name, spec_all_sources, EventSource};
use crate::extract::spec_extract;
use crate::store::{spec_ingest, spec_new_events, spec_scrape, MAX_RECORDS};
use crate::text::{lemma_lex_le_refl, lex_le};
use vstd::prelude::*;

verus! {

/// Ingesting a batch never removes or changes what was stored before:
/// the prior events stay, as a prefix.
proof fn lemma_ingest_keeps_prefix(events: Seq<EventView>, cands: Seq<NewEventView>)
    ensures
        spec_ingest(events, cands).len() >= events.len(),
        forall|i: int|
            0 <= i < events.len() ==> #[trigger] spec_ingest(events, cands)[i] == events[i],
    decreases cands.len(),
{
    if cands.len() > 0 {
        let after = if spec_is_new(cands[0], events) {
            events.push(event_of(cands[0], events.len() as int + 1))
        } else {
            events
        };
        lemma_ingest_keeps_prefix(after, cands.skip(1));
    }
}

/// After a batch is ingested, every candidate of the batch has a
/// dedup-key match among the stored events.
proof fn lemma_ingest_covers(events: Seq<EventView>, cands: Seq<NewEventView>)
    ensures
        forall|k: int|
            0 <= k < cands.len() ==> !spec_is_new(#[trigger] cands[k], spec_ingest(events, cands)),
    decreases cands.len(),
{
    if cands.len() > 0 {
        let c0 = cands[0];
        let after = if spec_is_new(c0, events) {
            events.push(event_of(c0, events.len() as int + 1))
        } else {
            events
        };
        let fin = spec_ingest(events, cands);
        assert(fin == spec_ingest(after, cands.skip(1)));
        lemma_ingest_covers(after, cands.skip(1));
        lemma_ingest_keeps_prefix(after, cands.skip(1));
        // the head candidate has a match in `after`, which survives
        // into the final events
        if spec_is_new(c0, events) {
            assert(after[events.len() as int] == event_of(c0, events.len() as int + 1));
            assert(same_event(fin[events.len() as int], c0));
            assert(!spec_is_new(c0, fin));
        } else {
            let j = choose|j: int| 0 <= j < events.len() && same_event(events[j], c0);
            assert(after[j] == events[j]);
            assert(same_event(fin[j], c0));
            assert(!spec_is_new(c0, fin));
        }
        assert forall|k: int| 0 <= k < cands.len() implies !spec_is_new(
            #[trigger] cands[k],
            fin,
        ) by {
            if k > 0 {
                assert(cands.skip(1)[k - 1] == cands[k]);
            }
        }
    }
}

/// Ingesting a batch in which nothing is new leaves the store as it
/// was.
proof fn lemma_ingest_all_matched(events: Seq<EventView>, cands: Seq<NewEventView>)
    requires
        forall|k: int| 0 <= k < cands.len() ==> !spec_is_new(#[trigger] cands[k], events),
    ensures
        spec_ingest(events, cands) == events,
    decreases cands.len(),
{
    if cands.len() > 0 {
        assert(!spec_is_new(cands[0], events));
        assert forall|k: int| 0 <= k < cands.skip(1).len() implies !spec_is_new(
            #[trigger] cands.skip(1)[k],
            events,
        ) by {
            assert(cands.skip(1)[k] == cands[k + 1]);
        }
        lemma_ingest_all_matched(events, cands.skip(1));
    }
}

/// Idempotence of ingestion: a second ingestion of the same candidate
/// batch — an unchanged source document — inserts nothing, whatever
/// was stored before and however the batch overlaps it.
pub proof fn lemma_ingest_idempotent(events: Seq<EventView>, cands: Seq<NewEventView>)
    ensures
        spec_ingest(spec_ingest(events, cands), cands) == spec_ingest(events, cands),
{
    let first = spec_ingest(events, cands);
    lemma_ingest_covers(events, cands);
    lemma_ingest_all_matched(first, cands);
}

/// Idempotence of one source's ingestion step: after a step over some
/// document succeeds, running the same step over the unchanged
/// document inserts nothing — whenever the second step returns events
/// they are exactly the first step's events, and the second step can
/// only be refused when the id space no longer admits re-checking the
/// batch (in which case the step's own contract leaves the store
/// unchanged as well).
pub proof fn lemma_scrape_idempotent(
    source: EventSource,
    events: Seq<EventView>,
    nodes: Seq<crate::dom::FlatNodeView>,
)
    requires
        spec_scrape(source, events, nodes) is Ok,
    ensures
        spec_scrape(source, spec_scrape(source, events, nodes)->Ok_0, nodes) matches Ok(second)
            ==> second == spec_scrape(source, events, nodes)->Ok_0,
        spec_scrape(source, events, nodes)->Ok_0.len() + spec_new_events(
            source,
            spec_extract(source, nodes)->Ok_0,
        )->Ok_0.len() <= MAX_RECORDS ==> spec_scrape(
            source,
            spec_scrape(source, events, nodes)->Ok_0,
            nodes,
        ) is Ok,
{
    let cands = spec_extract(source, nodes)->Ok_0;
    let nevs = spec_new_events(source, cands)->Ok_0;
    let first = spec_scrape(source, events, nodes)->Ok_0;
    assert(first == spec_ingest(events, nevs));
    lemma_ingest_covers(events, nevs);
    lemma_ingest_all_matched(first, nevs);
    assert(spec_ingest(first, nevs) == first);
}

/// The dedup equality contract: two candidates identical in href,
/// title, synopsis, event_date and source — however their subtitle or
/// end date differ — are the same event. Once either is ingested, the
/// other is no longer new, so ingesting both stores only one.
pub proof fn lemma_dedup_key_contract(
    events: Seq<EventView>,
    c1: NewEventView,
    c2: NewEventView,
)
    requires
        same_key(c1, c2),
    ensures
        !spec_is_new(c2, spec_ingest(events, seq![c1])),
        spec_ingest(events, seq![c1, c2]) == spec_ingest(events, seq![c1]),
{
    let one = seq![c1];
    let two = seq![c1, c2];
    let after = if spec_is_new(c1, events) {
        events.push(event_of(c1, events.len() as int + 1))
    } else {
        events
    };
    assert(one.skip(1) =~= Seq::<NewEventView>::empty());
    assert(one[0] == c1);
    assert(spec_ingest(after, Seq::<NewEventView>::empty()) == after);
    assert(spec_ingest(events, one) == after);
    if spec_is_new(c1, events) {
        assert(after[events.len() as int] == event_of(c1, events.len() as int + 1));
        assert(same_event(after[events.len() as int], c2));
        assert(!spec_is_new(c2, after));
    } else {
        let j = choose|j: int| 0 <= j < events.len() && same_event(events[j], c1);
        assert(same_event(after[j], c2));
        assert(!spec_is_new(c2, after));
    }
    assert(two[0] == c1);
    assert(two.skip(1) =~= seq![c2]);
    assert(spec_ingest(events, two) == spec_ingest(after, seq![c2]));
    assert(seq![c2].skip(1) =~= Seq::<NewEventView>::empty());
    assert(spec_ingest(after, seq![c2]) == after);
}

/// A matching event is among the filtered ones.
proof fn lemma_filter_contains(evs: Seq<EventView>, c: CriteriaView, i: int)
    requires
        0 <= i < evs.len(),
        event_matches(evs[i], c),
    ensures
        spec_filter(evs, c).contains(evs[i]),
    decreases evs.len(),
{
    if i == evs.len() - 1 {
        let f = spec_filter(evs, c);
        assert(f.last() == evs[i]);
        assert(f[f.len() - 1] == evs[i]);
    } else {
        assert(evs.drop_last()[i] == evs[i]);
        lemma_filter_contains(evs.drop_last(), c, i);
        let f0 = spec_filter(evs.drop_last(), c);
        let j = choose|j: int| 0 <= j < f0.len() && f0[j] == evs[i];
        assert(spec_filter(evs, c)[j] == evs[i]);
    }
}

/// The inclusive range boundary: an event whose date equals the begin
/// or the end of a well-formed range, and which passes the other two
/// filter dimensions, appears in the filtered results.
pub proof fn lemma_inclusive_range_boundary(evs: Seq<EventView>, c: CriteriaView, i: int)
    requires
        0 <= i < evs.len(),
        source_matches(evs[i].source, c.sources),
        crate::query::title_matches(evs[i].title, c.title_like),
        lex_le(c.begin_date, c.end_date),
        evs[i].event_date == c.begin_date || evs[i].event_date == c.end_date,
    ensures
        spec_filtered_events(evs, c).contains(evs[i]),
{
    broadcast use vstd::seq_lib::group_to_multiset_ensures;

    lemma_lex_le_refl(evs[i].event_date);
    assert(date_in_range(evs[i].event_date, c.begin_date, c.end_date));
    lemma_filter_contains(evs, c, i);
    lemma_sort_by_date_multiset(spec_filter(evs, c));
    assert(spec_filter(evs, c).to_multiset().count(evs[i]) > 0);
    assert(spec_filtered_events(evs, c).to_multiset().count(evs[i]) > 0);
}

/// With no enabled source, an event's source passes the filter exactly
/// as it would with every registered source enabled.
proof fn lemma_source_fallback_pointwise(e: EventView, none_on: Seq<EventSource>)
    requires
        e.wf(),
        !some_enabled(none_on),
    ensures
        source_matches(e.source, none_on) == source_matches(e.source, spec_all_sources()),
{
    let all = spec_all_sources();
    assert(all[0].is_enabled());
    assert(some_enabled(all));
    assert(source_matches(e.source, none_on) == is_registered_name(e.source));
    if is_registered_name(e.source) {
        if e.source == EventSource::CoBerlin(true).spec_name() {
            assert(all[0].is_enabled() && e.source == all[0].spec_name());
        } else if e.source == EventSource::DeutscheOperBerlin(true).spec_name() {
            assert(all[1].is_enabled() && e.source == all[1].spec_name());
        } else if e.source == EventSource::Gorki(true).spec_name() {
            assert(all[2].is_enabled() && e.source == all[2].spec_name());
        } else {
            assert(all[3].is_enabled() && e.source == all[3].spec_name());
        }
        assert(source_matches(e.source, all));
    } else {
        assert forall|i: int|
            0 <= i < all.len() && all[i].is_enabled() implies e.source != all[i].spec_name() by {
            crate::sources::lemma_spec_name_registered(all[i]);
        }
        assert(!source_matches(e.source, all));
    }
}

/// Criteria that agree on every event agree on the filtered
/// subsequence.
proof fn lemma_filter_congruent(evs: Seq<EventView>, c1: CriteriaView, c2: CriteriaView)
    requires
        forall|i: int|
            0 <= i < evs.len() ==> event_matches(#[trigger] evs[i], c1) == event_matches(
                evs[i],
                c2,
            ),
    ensures
        spec_filter(evs, c1) == spec_filter(evs, c2),
    decreases evs.len(),
{
    if evs.len() > 0 {
        assert forall|i: int|
            0 <= i < evs.drop_last().len() implies event_matches(
            #[trigger] evs.drop_last()[i],
            c1,
        ) == event_matches(evs.drop_last()[i], c2) by {
            assert(evs.drop_last()[i] == evs[i]);
        }
        lemma_filter_congruent(evs.drop_last(), c1, c2);
        assert(evs.last() == evs[evs.len() - 1]);
    }
}

/// The zero-source fallback: over well-formed stored events, retrieval
/// with an empty enabled-source set returns exactly what retrieval
/// with all registered sources enabled returns.
pub proof fn lemma_zero_source_fallback(
    evs: Seq<EventView>,
    none_on: CriteriaView,
    all_on: CriteriaView,
)
    requires
        forall|i: int| 0 <= i < evs.len() ==> (#[trigger] evs[i]).wf(),
        !some_enabled(none_on.sources),
        all_on.sources == spec_all_sources(),
        all_on.title_like == none_on.title_like,
        all_on.begin_date == none_on.begin_date,
        all_on.end_date == none_on.end_date,
    ensures
        spec_filtered_events(evs, none_on) == spec_filtered_events(evs, all_on),
{
    assert forall|i: int|
        0 <= i < evs.len() implies event_matches(#[trigger] evs[i], none_on) == event_matches(
        evs[i],
        all_on,
    ) by {
        lemma_source_fallback_pointwise(evs[i], none_on.sources);
    }
    lemma_filter_congruent(evs, none_on, all_on);
}

} // verus!
