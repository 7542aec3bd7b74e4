//! The compound retrieval filter over stored events.
//!
//! A query combines three independent dimensions: an enabled-source
//! set (falling back to every registered source when none is enabled,
//! so that an empty selection never degenerates to an always-false
//! predicate), a title substring, and an inclusive date range compared
//! on the canonical ISO-8601 date strings. Results are ordered by
//! `event_date` ascending; there is no secondary sort key, so events
//! with equal dates keep their store order (the sort is stable, and
//! the contract pins the exact output).

use crate::model::{Event, EventView};
use crate::sources::{is_registered_name, EventSource};
use crate::text::{
    contains_seq, contains_sub, lemma_lex_le_refl, lemma_lex_le_total, lemma_lex_le_trans, lex_le,
    str_eq, str_le,
};
use vstd::prelude::*;

verus! {

/// Mathematical form of the retrieval criteria.
pub ghost struct CriteriaView {
    pub sources: Seq<EventSource>,
    pub title_like: Seq<char>,
    pub begin_date: Seq<char>,
    pub end_date: Seq<char>,
}

/// Retrieval criteria: a request-scoped value, never shared state.
pub struct FilterCriteria {
    pub sources: Vec<EventSource>,
    pub title_like: String,
    pub begin_date: String,
    pub end_date: String,
}

impl View for FilterCriteria {
    type V = CriteriaView;

    open spec fn view(&self) -> CriteriaView {
        CriteriaView {
            sources: self.sources@,
            title_like: self.title_like@,
            begin_date: self.begin_date@,
            end_date: self.end_date@,
        }
    }
}

/// Whether any source of the request's set is enabled.
pub open spec fn some_enabled(sources: Seq<EventSource>) -> bool {
    exists|i: int| 0 <= i < sources.len() && sources[i].is_enabled()
}

/// The source filter. With at least one enabled source, an event
/// matches when its source is one of the enabled ones; with none, the
/// filter falls back to all registered sources.
pub open spec fn source_matches(src_name: Seq<char>, sources: Seq<EventSource>) -> bool {
    if some_enabled(sources) {
        exists|i: int|
            0 <= i < sources.len() && sources[i].is_enabled() && src_name == sources[i].spec_name()
    } else {
        is_registered_name(src_name)
    }
}

/// The title filter: an empty or wildcard pattern matches everything,
/// any other pattern must occur in the title as a substring.
pub open spec fn title_matches(title: Seq<char>, pat: Seq<char>) -> bool {
    pat.len() == 0 || pat == seq!['%'] || contains_seq(title, pat)
}

/// The date filter: inclusive range on the canonical date strings.
pub open spec fn date_in_range(d: Seq<char>, begin: Seq<char>, end: Seq<char>) -> bool {
    lex_le(begin, d) && lex_le(d, end)
}

/// One event against all three filter dimensions.
pub open spec fn event_matches(e: EventView, c: CriteriaView) -> bool {
    &&& source_matches(e.source, c.sources)
    &&& title_matches(e.title, c.title_like)
    &&& date_in_range(e.event_date, c.begin_date, c.end_date)
}

/// The subsequence of `evs` whose members match `c`, in store order.
pub open spec fn spec_filter(evs: Seq<EventView>, c: CriteriaView) -> Seq<EventView>
    decreases evs.len(),
{
    if evs.len() == 0 {
        Seq::empty()
    } else if event_matches(evs.last(), c) {
        spec_filter(evs.drop_last(), c).push(evs.last())
    } else {
        spec_filter(evs.drop_last(), c)
    }
}

/// Insert `e` after every member of `s` whose date is not greater, so
/// that a run of equal dates keeps insertion order.
pub open spec fn spec_insert_by_date(s: Seq<EventView>, e: EventView) -> Seq<EventView>
    decreases s.len(),
{
    if s.len() == 0 {
        seq![e]
    } else if lex_le(s.last().event_date, e.event_date) {
        s.push(e)
    } else {
        spec_insert_by_date(s.drop_last(), e).push(s.last())
    }
}

/// Stable insertion sort by `event_date`.
pub open spec fn spec_sort_by_date(s: Seq<EventView>) -> Seq<EventView>
    decreases s.len(),
{
    if s.len() == 0 {
        Seq::empty()
    } else {
        spec_insert_by_date(spec_sort_by_date(s.drop_last()), s.last())
    }
}

/// Non-decreasing by date under plain string comparison.
pub open spec fn sorted_by_date(s: Seq<EventView>) -> bool {
    forall|i: int, j: int| 0 <= i < j < s.len() ==> lex_le(s[i].event_date, s[j].event_date)
}

/// What retrieval returns: the matching events, ordered by date.
pub open spec fn spec_filtered_events(evs: Seq<EventView>, c: CriteriaView) -> Seq<EventView> {
    spec_sort_by_date(spec_filter(evs, c))
}

proof fn lemma_insert_by_date_sorted(s: Seq<EventView>, e: EventView)
    requires
        sorted_by_date(s),
    ensures
        sorted_by_date(spec_insert_by_date(s, e)),
        spec_insert_by_date(s, e).len() == s.len() + 1,
        forall|k: int|
            0 <= k < spec_insert_by_date(s, e).len() ==> (spec_insert_by_date(s, e)[k] == e
                || exists|m: int| 0 <= m < s.len() && spec_insert_by_date(s, e)[k] == s[m]),
    decreases s.len(),
{
    let r = spec_insert_by_date(s, e);
    if s.len() == 0 {
    } else if lex_le(s.last().event_date, e.event_date) {
        assert forall|i: int, j: int| 0 <= i < j < r.len() implies lex_le(
            r[i].event_date,
            r[j].event_date,
        ) by {
            if j == r.len() - 1 {
                if i < s.len() - 1 {
                    lemma_lex_le_trans(s[i].event_date, s.last().event_date, e.event_date);
                }
            }
        }
        assert forall|k: int| 0 <= k < r.len() implies (r[k] == e || exists|m: int|
            0 <= m < s.len() && r[k] == s[m]) by {
            if k < s.len() {
                assert(r[k] == s[k]);
            }
        }
    } else {
        let s0 = s.drop_last();
        assert(sorted_by_date(s0));
        lemma_insert_by_date_sorted(s0, e);
        let r0 = spec_insert_by_date(s0, e);
        lemma_lex_le_total(s.last().event_date, e.event_date);
        // every member of r0 is e or a member of s0, and both sort
        // below s.last()
        assert forall|i: int, j: int| 0 <= i < j < r.len() implies lex_le(
            r[i].event_date,
            r[j].event_date,
        ) by {
            if j == r.len() - 1 {
                assert(r[j] == s.last());
                assert(r[i] == r0[i]);
                if r0[i] == e {
                    assert(lex_le(e.event_date, s.last().event_date));
                } else {
                    let m = choose|m: int| 0 <= m < s0.len() && r0[i] == s0[m];
                    assert(s0[m] == s[m]);
                    assert(lex_le(s[m].event_date, s.last().event_date));
                }
            } else {
                assert(r[i] == r0[i]);
                assert(r[j] == r0[j]);
            }
        }
        assert forall|k: int| 0 <= k < r.len() implies (r[k] == e || exists|m: int|
            0 <= m < s.len() && r[k] == s[m]) by {
            if k < r.len() - 1 {
                assert(r[k] == r0[k]);
                if r0[k] != e {
                    let m = choose|m: int| 0 <= m < s0.len() && r0[k] == s0[m];
                    assert(r[k] == s[m]);
                }
            } else {
                assert(r[k] == s.last());
                assert(r[k] == s[s.len() - 1]);
            }
        }
    }
}

/// The sort returns a non-decreasing sequence (the canonical date
/// ordering of retrieval results).
pub proof fn lemma_sort_by_date_sorted(s: Seq<EventView>)
    ensures
        sorted_by_date(spec_sort_by_date(s)),
    decreases s.len(),
{
    if s.len() > 0 {
        lemma_sort_by_date_sorted(s.drop_last());
        lemma_insert_by_date_sorted(spec_sort_by_date(s.drop_last()), s.last());
    }
}

/// The sort only reorders: the result carries exactly the members of
/// its input.
pub proof fn lemma_insert_by_date_multiset(s: Seq<EventView>, e: EventView)
    ensures
        spec_insert_by_date(s, e).to_multiset() == s.to_multiset().insert(e),
    decreases s.len(),
{
    broadcast use vstd::seq_lib::group_to_multiset_ensures;

    if s.len() == 0 {
        assert(spec_insert_by_date(s, e) =~= Seq::empty().push(e));
        assert(s =~= Seq::<EventView>::empty());
    } else if lex_le(s.last().event_date, e.event_date) {
    } else {
        lemma_insert_by_date_multiset(s.drop_last(), e);
        assert(s.drop_last().push(s.last()) =~= s);
    }
}

pub proof fn lemma_sort_by_date_multiset(s: Seq<EventView>)
    ensures
        spec_sort_by_date(s).to_multiset() == s.to_multiset(),
    decreases s.len(),
{
    broadcast use vstd::seq_lib::group_to_multiset_ensures;

    if s.len() > 0 {
        lemma_sort_by_date_multiset(s.drop_last());
        lemma_insert_by_date_multiset(spec_sort_by_date(s.drop_last()), s.last());
        assert(s.drop_last().push(s.last()) =~= s);
    }
}

/// Make an owned copy of a stored event with the same view.
pub fn copy_event(e: &Event) -> (r: Event)
    ensures
        r@ == e@,
{
    Event {
        id: e.id,
        href: e.href.clone(),
        title: e.title.clone(),
        subtitle: match &e.subtitle {
            Some(s) => Some(s.clone()),
            None => None,
        },
        synopsis: e.synopsis.clone(),
        event_date: e.event_date.clone(),
        event_end_date: match &e.event_end_date {
            Some(s) => Some(s.clone()),
            None => None,
        },
        source: e.source.clone(),
    }
}

/// Whether the event's source is one of the registered sources.
fn registered_source(e: &Event) -> (r: bool)
    ensures
        r == is_registered_name(e@.source),
{
    let name = e.source.as_str();
    str_eq(name, "CoBerlin") || str_eq(name, "DeutscheOperBerlin") || str_eq(name, "Gorki")
        || str_eq(name, "Berghain")
}

/// Whether any source in the list is enabled.
fn any_enabled(sources: &Vec<EventSource>) -> (r: bool)
    ensures
        r == some_enabled(sources@),
{
    let mut i: usize = 0;
    while i < sources.len()
        invariant
            0 <= i <= sources@.len(),
            forall|k: int| 0 <= k < i ==> !sources@[k].is_enabled(),
        decreases sources@.len() - i,
    {
        if sources[i].enabled() {
            return true;
        }
        i = i + 1;
    }
    false
}

/// One event against the three filter dimensions.
pub fn matches_criteria(e: &Event, c: &FilterCriteria) -> (r: bool)
    ensures
        r == event_matches(e@, c@),
{
    // Source dimension, with the zero-source fallback applied
    // explicitly before any per-source test.
    let src_ok: bool;
    if any_enabled(&c.sources) {
        let mut found = false;
        let mut i: usize = 0;
        while i < c.sources.len()
            invariant
                0 <= i <= c.sources@.len(),
                found == exists|k: int|
                    0 <= k < i && c.sources@[k].is_enabled() && e@.source == c.sources@[
                        k
                    ].spec_name(),
            decreases c.sources@.len() - i,
        {
            let s = c.sources[i];
            if s.enabled() && str_eq(e.source.as_str(), s.as_str()) {
                found = true;
            }
            i = i + 1;
        }
        src_ok = found;
    } else {
        src_ok = registered_source(e);
    }
    if !src_ok {
        return false;
    }

    // Title dimension.
    let pat = c.title_like.as_str();
    let title_ok: bool;
    if pat.unicode_len() == 0 {
        title_ok = true;
    } else if str_eq(pat, "%") {
        proof {
            reveal_strlit("%");
            assert(c@.title_like =~= seq!['%']);
        }
        title_ok = true;
    } else {
        proof {
            reveal_strlit("%");
        }
        title_ok = contains_sub(e.title.as_str(), pat);
        proof {
            if c@.title_like == seq!['%'] {
                assert(c@.title_like =~= "%"@);
            }
        }
    }
    if !title_ok {
        return false;
    }

    // Date dimension: inclusive on both endpoints.
    str_le(c.begin_date.as_str(), e.event_date.as_str()) && str_le(
        e.event_date.as_str(),
        c.end_date.as_str(),
    )
}

/// Insert an event into a date-ordered vector, after every entry whose
/// date is not greater.
fn insert_by_date(out: &mut Vec<Event>, e: Event)
    ensures
        final(out).deep_view() == spec_insert_by_date(old(out).deep_view(), e@),
{
    let ghost full = out.deep_view();
    let ghost ev = e@;
    let mut pos: usize = out.len();
    proof {
        assert(full.take(pos as int) =~= full);
        assert(full.skip(pos as int) =~= Seq::<EventView>::empty());
        assert(spec_insert_by_date(full, ev) =~= spec_insert_by_date(full.take(pos as int), ev)
            + full.skip(pos as int));
    }
    while pos > 0 && !str_le(out[pos - 1].event_date.as_str(), e.event_date.as_str())
        invariant
            0 <= pos <= out@.len(),
            out.deep_view() == full,
            e@ == ev,
            spec_insert_by_date(full, ev) == spec_insert_by_date(full.take(pos as int), ev)
                + full.skip(pos as int),
        decreases pos,
    {
        proof {
            let p = pos as int;
            let prefix = full.take(p);
            assert(prefix.last() == full[p - 1]);
            assert(!lex_le(full[p - 1].event_date, ev.event_date));
            assert(spec_insert_by_date(prefix, ev) == spec_insert_by_date(
                prefix.drop_last(),
                ev,
            ).push(prefix.last()));
            assert(prefix.drop_last() =~= full.take(p - 1));
            assert(spec_insert_by_date(full.take(p - 1), ev).push(full[p - 1]) + full.skip(p)
                =~= spec_insert_by_date(full.take(p - 1), ev) + full.skip(p - 1));
        }
        pos = pos - 1;
    }
    proof {
        let p = pos as int;
        let prefix = full.take(p);
        if pos == 0 {
            assert(prefix.len() == 0);
            assert(spec_insert_by_date(prefix, ev) =~= prefix.push(ev));
        } else {
            assert(prefix.last() == full[p - 1]);
            assert(lex_le(full[p - 1].event_date, ev.event_date));
            assert(spec_insert_by_date(prefix, ev) == prefix.push(ev));
        }
        assert(spec_insert_by_date(full, ev) == full.take(p).push(ev) + full.skip(p));
    }
    out.insert(pos, e);
    proof {
        let p = pos as int;
        assert(out.deep_view() =~= full.take(p).push(ev) + full.skip(p));
    }
}

/// Run the compound filter over the stored events and return the
/// matching ones ordered by date.
///
/// The result is exactly the matching subsequence of `events`, stably
/// sorted by `event_date`: non-decreasing by plain string comparison,
/// with equal dates keeping store order.
pub fn filtered_events(events: &Vec<Event>, criteria: &FilterCriteria) -> (r: Vec<Event>)
    ensures
        r.deep_view() == spec_filtered_events(events.deep_view(), criteria@),
        sorted_by_date(r.deep_view()),
{
    let ghost evs = events.deep_view();
    let mut matching: Vec<Event> = Vec::new();
    let mut i: usize = 0;
    proof {
        assert(evs.take(0) =~= Seq::<EventView>::empty());
    }
    while i < events.len()
        invariant
            0 <= i <= events@.len(),
            evs == events.deep_view(),
            matching.deep_view() == spec_filter(evs.take(i as int), criteria@),
        decreases events@.len() - i,
    {
        let ghost before = matching.deep_view();
        if matches_criteria(&events[i], criteria) {
            matching.push(copy_event(&events[i]));
            proof {
                assert(matching.deep_view() =~= before.push(evs[i as int]));
            }
        }
        proof {
            let t = evs.take(i + 1);
            assert(t.drop_last() =~= evs.take(i as int));
            assert(t.last() == evs[i as int]);
        }
        i = i + 1;
    }
    proof {
        assert(evs.take(evs.len() as int) =~= evs);
    }

    let ghost picked = matching.deep_view();
    let mut result: Vec<Event> = Vec::new();
    let mut k: usize = 0;
    proof {
        assert(picked.take(0) =~= Seq::<EventView>::empty());
    }
    while k < matching.len()
        invariant
            0 <= k <= matching@.len(),
            picked == matching.deep_view(),
            result.deep_view() == spec_sort_by_date(picked.take(k as int)),
        decreases matching@.len() - k,
    {
        insert_by_date(&mut result, copy_event(&matching[k]));
        proof {
            let t = picked.take(k + 1);
            assert(t.drop_last() =~= picked.take(k as int));
            assert(t.last() == picked[k as int]);
        }
        k = k + 1;
    }
    proof {
        assert(picked.take(picked.len() as int) =~= picked);
        lemma_sort_by_date_sorted(picked);
    }
    result
}

/// The smallest and largest stored event date, or `None` when nothing
/// is stored: the default bounds for a date-range query.
pub fn total_event_range(events: &Vec<Event>) -> (r: Option<(String, String)>)
    ensures
        (r is Some) == (events.deep_view().len() > 0),
        r matches Some(range) ==> {
            &&& exists|i: int|
                0 <= i < events.deep_view().len() && range.0@ == events.deep_view()[i].event_date
            &&& exists|i: int|
                0 <= i < events.deep_view().len() && range.1@ == events.deep_view()[i].event_date
            &&& forall|i: int|
                0 <= i < events.deep_view().len() ==> lex_le(
                    range.0@,
                    events.deep_view()[i].event_date,
                )
            &&& forall|i: int|
                0 <= i < events.deep_view().len() ==> lex_le(
                    events.deep_view()[i].event_date,
                    range.1@,
                )
        },
{
    let ghost evs = events.deep_view();
    if events.len() == 0 {
        return None;
    }
    let mut begin = events[0].event_date.clone();
    let mut end = events[0].event_date.clone();
    let mut i: usize = 1;
    proof {
        lemma_lex_le_refl(evs[0].event_date);
        assert(begin@ == evs[0].event_date);
        assert(end@ == evs[0].event_date);
    }
    while i < events.len()
        invariant
            1 <= i <= events@.len(),
            evs == events.deep_view(),
            evs.len() == events@.len(),
            exists|m: int| 0 <= m < i && begin@ == evs[m].event_date,
            exists|m: int| 0 <= m < i && end@ == evs[m].event_date,
            forall|m: int| 0 <= m < i ==> lex_le(begin@, evs[m].event_date),
            forall|m: int| 0 <= m < i ==> lex_le(evs[m].event_date, end@),
        decreases events@.len() - i,
    {
        let d = &events[i].event_date;
        if str_le(d.as_str(), begin.as_str()) {
            proof {
                lemma_lex_le_refl(evs[i as int].event_date);
                assert forall|m: int| 0 <= m < i + 1 implies lex_le(
                    evs[i as int].event_date,
                    evs[m].event_date,
                ) by {
                    if m < i {
                        lemma_lex_le_trans(evs[i as int].event_date, begin@, evs[m].event_date);
                    }
                }
            }
            begin = d.clone();
        } else {
            proof {
                lemma_lex_le_total(evs[i as int].event_date, begin@);
            }
        }
        let d2 = &events[i].event_date;
        if str_le(end.as_str(), d2.as_str()) {
            proof {
                lemma_lex_le_refl(evs[i as int].event_date);
                assert forall|m: int| 0 <= m < i + 1 implies lex_le(
                    evs[m].event_date,
                    evs[i as int].event_date,
                ) by {
                    if m < i {
                        lemma_lex_le_trans(evs[m].event_date, end@, evs[i as int].event_date);
                    }
                }
            }
            end = d2.clone();
        } else {
            proof {
                lemma_lex_le_total(end@, evs[i as int].event_date);
            }
        }
        i = i + 1;
    }
    Some((begin, end))
}

} // verus!
