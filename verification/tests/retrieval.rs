// The retrieval query: source set with zero-source fallback, title
// substring, inclusive date range, and the date ordering.

use event_aggregator::model::NewEvent;
use event_aggregator::query::FilterCriteria;
use event_aggregator::sources::EventSource;
use event_aggregator::store::EventStore;
use event_aggregator::text::{contains_sub, contains_word, str_eq, str_le};

fn seeded_store() -> EventStore {
    let mut store = EventStore::new();
    let rows = [
        ("Jazz Night", "/e/jazz", "2020-06-15", EventSource::CoBerlin(true)),
        ("Classical Evening", "/e/classical", "2020-01-01", EventSource::CoBerlin(true)),
        ("Klubnacht", "/e/klub", "2020-12-31", EventSource::Berghain(true)),
    ];
    for (title, href, date, src) in rows {
        store
            .create_event(NewEvent::new(title, None, href, "about", date, None, src))
            .unwrap();
    }
    store
}

fn criteria(
    sources: Vec<EventSource>,
    title_like: &str,
    begin_date: &str,
    end_date: &str,
) -> FilterCriteria {
    FilterCriteria {
        sources,
        title_like: title_like.to_string(),
        begin_date: begin_date.to_string(),
        end_date: end_date.to_string(),
    }
}

// Range filter scenario: events on 2020-01-01, 2020-06-15, 2020-12-31;
// the range [2020-01-01, 2020-06-30] returns the first two, date
// ascending.
#[test]
fn range_filter_scenario() {
    let store = seeded_store();
    let r = store.filtered_events(&criteria(
        EventSource::all(),
        "",
        "2020-01-01",
        "2020-06-30",
    ));
    assert_eq!(r.len(), 2);
    assert_eq!(r[0].event_date, "2020-01-01");
    assert_eq!(r[1].event_date, "2020-06-15");
}

// Title substring scenario: "azz" matches only "Jazz Night".
#[test]
fn title_substring_scenario() {
    let store = seeded_store();
    let r = store.filtered_events(&criteria(
        EventSource::all(),
        "azz",
        "2020-01-01",
        "2020-12-31",
    ));
    assert_eq!(r.len(), 1);
    assert_eq!(r[0].title, "Jazz Night");
}

// An event whose date equals either range endpoint is included.
#[test]
fn range_boundaries_are_inclusive() {
    let store = seeded_store();
    let at_begin = store.filtered_events(&criteria(
        EventSource::all(),
        "",
        "2020-01-01",
        "2020-01-01",
    ));
    assert_eq!(at_begin.len(), 1);
    assert_eq!(at_begin[0].event_date, "2020-01-01");
    let at_end = store.filtered_events(&criteria(
        EventSource::all(),
        "",
        "2020-07-01",
        "2020-12-31",
    ));
    assert_eq!(at_end.len(), 1);
    assert_eq!(at_end[0].event_date, "2020-12-31");
}

// Zero-source fallback: no enabled source behaves as all sources
// enabled, never as an always-false predicate.
#[test]
fn zero_source_fallback() {
    let store = seeded_store();
    let all_disabled: Vec<EventSource> =
        EventSource::all().into_iter().map(|s| s.toggle()).collect();
    let with_none = store.filtered_events(&criteria(all_disabled, "", "2020-01-01", "2020-12-31"));
    let with_all = store.filtered_events(&criteria(
        EventSource::all(),
        "",
        "2020-01-01",
        "2020-12-31",
    ));
    assert_eq!(with_none.len(), 3);
    assert_eq!(with_none.len(), with_all.len());
    for (a, b) in with_none.iter().zip(with_all.iter()) {
        assert_eq!(a.id, b.id);
    }
    // an empty source list falls back the same way
    let with_empty = store.filtered_events(&criteria(Vec::new(), "", "2020-01-01", "2020-12-31"));
    assert_eq!(with_empty.len(), 3);
}

#[test]
fn source_filter_restricts_to_enabled() {
    let store = seeded_store();
    let only_club = vec![EventSource::CoBerlin(false), EventSource::Berghain(true)];
    let r = store.filtered_events(&criteria(only_club, "", "2020-01-01", "2020-12-31"));
    assert_eq!(r.len(), 1);
    assert_eq!(r[0].source, "Berghain");
}

// Results are non-decreasing by event_date, and events with equal
// dates keep store order.
#[test]
fn ordering_is_stable_by_date() {
    let mut store = EventStore::new();
    let rows = [
        ("C", "/e/c", "2020-05-05"),
        ("A", "/e/a", "2020-01-01"),
        ("B1", "/e/b1", "2020-03-03"),
        ("B2", "/e/b2", "2020-03-03"),
        ("B0", "/e/b0", "2020-03-03"),
    ];
    for (title, href, date) in rows {
        store
            .create_event(NewEvent::new(
                title,
                None,
                href,
                "about",
                date,
                None,
                EventSource::CoBerlin(true),
            ))
            .unwrap();
    }
    let r = store.filtered_events(&criteria(
        EventSource::all(),
        "",
        "2020-01-01",
        "2020-12-31",
    ));
    let titles: Vec<&str> = r.iter().map(|e| e.title.as_str()).collect();
    assert_eq!(titles, ["A", "B1", "B2", "B0", "C"]);
    for w in r.windows(2) {
        assert!(w[0].event_date <= w[1].event_date);
    }
}

#[test]
fn wildcard_and_empty_title_patterns_match_everything() {
    let store = seeded_store();
    let with_empty = store.filtered_events(&criteria(
        EventSource::all(),
        "",
        "2020-01-01",
        "2020-12-31",
    ));
    let with_wildcard = store.filtered_events(&criteria(
        EventSource::all(),
        "%",
        "2020-01-01",
        "2020-12-31",
    ));
    assert_eq!(with_empty.len(), 3);
    assert_eq!(with_wildcard.len(), 3);
}

#[test]
fn empty_result_is_not_an_error() {
    let store = seeded_store();
    let r = store.filtered_events(&criteria(
        EventSource::all(),
        "no such title",
        "2020-01-01",
        "2020-12-31",
    ));
    assert!(r.is_empty());
}

#[test]
fn total_event_range_bounds() {
    let store = seeded_store();
    let (begin, end) = store.total_event_range().unwrap();
    assert_eq!(begin, "2020-01-01");
    assert_eq!(end, "2020-12-31");
    assert!(EventStore::new().total_event_range().is_none());
}

#[test]
fn text_utilities() {
    assert!(str_le("2020-01-01", "2020-06-30"));
    assert!(!str_le("2020-07-01", "2020-06-30"));
    assert!(str_le("abc", "abc"));
    assert!(str_le("ab", "abc"));

    assert!(str_eq("same", "same"));
    assert!(!str_eq("same", "sam"));

    assert!(contains_sub("Jazz Night", "azz"));
    assert!(contains_sub("Jazz Night", ""));
    assert!(!contains_sub("Classical", "azz"));

    assert!(contains_word("one two three", "two"));
    assert!(!contains_word("onetwo three", "two"));
    assert!(contains_word("upcoming-event other", "upcoming-event"));
    assert!(!contains_word("x", ""));
}

#[test]
fn source_registry() {
    let all = EventSource::all();
    assert_eq!(all.len(), 4);
    let names: Vec<&str> = all.iter().map(|s| s.as_str()).collect();
    assert_eq!(names, ["CoBerlin", "DeutscheOperBerlin", "Gorki", "Berghain"]);
    assert!(all.iter().all(|s| s.enabled()));

    let s = EventSource::CoBerlin(true);
    assert!(!s.toggle().enabled());
    assert!(s.toggle().toggle().enabled());
    assert_eq!(s.markup_name(), "source-coberlin");
    assert_eq!(s.pretty_name(), "C/O Berlin");
    assert_eq!(EventSource::Berghain(true).pretty_name(), "Berghain");
    assert_eq!(s.url("en/calender"), "http://www.co-berlin.org/en/calender");
    assert_eq!(s.url_calendar(), "http://www.co-berlin.org/en/calender");
    assert_eq!(
        EventSource::Berghain(false).url_calendar(),
        "http://berghain.de/en/program"
    );
    assert!(s.has_extraction_rule());
    assert!(!EventSource::Gorki(true).has_extraction_rule());
}
