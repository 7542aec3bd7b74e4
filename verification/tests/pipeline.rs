// Ingestion pipeline: extraction through the real HTML parser,
// normalization, deduplication, store inserts, and the refresh rate limit.

use event_aggregator::errors::{ExtractField, ScrapeError};
use event_aggregator::extract::extract;
use event_aggregator::dom::parse_document;
use event_aggregator::model::NewEvent;
use event_aggregator::normalize::{clean_date_text, normalize, RawDateInfo};
use event_aggregator::sources::EventSource;
use event_aggregator::store::{should_refresh, EventStore, SourcePage};

const CO_SINGLE: &str = r#"
<html><body><div class="seite-c-single">
  <div class="calender-text">
    <a href="en/exhibit-1">more</a>
    <div class="article-over-title"><span class="article-date">
      <span class="date-display-single">17/02/20</span>
    </span></div>
    <h2 class="article-title">Light Show</h2>
    <div class="article-subtitle">A retrospective</div>
    <div class="article-text">Photographs from five decades.</div>
  </div>
</div></body></html>"#;

const CO_RANGE: &str = r#"
<html><body><div class="seite-c-single">
  <div class="calender-text">
    <a href="en/exhibit-2">more</a>
    <div class="article-over-title"><span class="article-date">
      <span class="date-display-range">
        <span class="date-display-start">01/03/20</span>
        <span class="date-display-end">15/06/20</span>
      </span>
    </span></div>
    <h2 class="article-title">Spring Series</h2>
    <div class="article-text">Group exhibition.</div>
  </div>
</div></body></html>"#;

const BH_PAGE: &str = r#"
<html><body>
  <a class="upcoming-event" href="events/123">
    <p>
      Friday
      17.04.2020
      start
      23:59
    </p>
    <h2>Klubnacht</h2>
    <h3>Main Floor</h3>
    <h4>DJ One</h4>
    <h4>DJ Two</h4>
  </a>
</body></html>"#;

#[test]
fn test_new_post() {
    let test = NewEvent::new(
        "Test Event",
        Some("It's not a real event".into()),
        "#",
        "Some really cool thing you don't want to miss",
        "2020-02-17",
        Some("2020-02-18".into()),
        EventSource::CoBerlin(true),
    );

    let mut store = EventStore::new();

    assert_eq!(store.create_event(test).unwrap(), 1)
}

#[test]
fn coberlin_single_date_extraction() {
    let nodes = parse_document(CO_SINGLE);
    let cands = extract(EventSource::CoBerlin(true), &nodes).unwrap();
    assert_eq!(cands.len(), 1);
    let c = &cands[0];
    assert_eq!(c.href, "http://www.co-berlin.org/en/exhibit-1");
    assert_eq!(c.title, "Light Show");
    assert_eq!(c.subtitle.as_deref(), Some("A retrospective"));
    assert_eq!(c.synopsis, "Photographs from five decades.");
    match &c.date_info {
        RawDateInfo::Single(s) => assert_eq!(s.trim(), "17/02/20"),
        other => panic!("expected a single date, got {:?}", other),
    }
}

#[test]
fn coberlin_range_extraction_and_normalization() {
    let nodes = parse_document(CO_RANGE);
    let cands = extract(EventSource::CoBerlin(true), &nodes).unwrap();
    assert_eq!(cands.len(), 1);
    let c = &cands[0];
    assert_eq!(c.subtitle, None);
    let begin_end = normalize(EventSource::CoBerlin(true), &c.date_info).unwrap();
    assert_eq!(begin_end.0, "2020-03-01");
    assert_eq!(begin_end.1.as_deref(), Some("2020-06-15"));
}

#[test]
fn coberlin_missing_title_is_extraction_error() {
    let html = r#"<html><body><div class="seite-c-single"><div class="calender-text">
        <a href="en/x">more</a>
        <div class="article-over-title"><span class="article-date">
          <span class="date-display-single">17/02/20</span>
        </span></div>
        <div class="article-text">No title node here.</div>
    </div></div></body></html>"#;
    let nodes = parse_document(html);
    match extract(EventSource::CoBerlin(true), &nodes) {
        Err(ScrapeError::Extraction { field, .. }) => assert_eq!(field, ExtractField::Title),
        other => panic!("expected a title extraction error, got {:?}", other),
    }
}

#[test]
fn coberlin_missing_date_is_extraction_error() {
    let html = r#"<html><body><div class="seite-c-single"><div class="calender-text">
        <a href="en/x">more</a>
        <h2 class="article-title">Untimed</h2>
        <div class="article-text">No date block.</div>
    </div></div></body></html>"#;
    let nodes = parse_document(html);
    match extract(EventSource::CoBerlin(true), &nodes) {
        Err(ScrapeError::Extraction { field, .. }) => assert_eq!(field, ExtractField::Date),
        other => panic!("expected a date extraction error, got {:?}", other),
    }
}

#[test]
fn berghain_extraction_and_datetime_normalization() {
    let nodes = parse_document(BH_PAGE);
    let cands = extract(EventSource::Berghain(true), &nodes).unwrap();
    assert_eq!(cands.len(), 1);
    let c = &cands[0];
    assert_eq!(c.href, "http://berghain.de/events/123");
    assert_eq!(c.title, "Klubnacht");
    assert_eq!(c.subtitle.as_deref(), Some("Main Floor"));
    assert_eq!(c.synopsis, "DJ OneDJ Two");
    let dates = normalize(EventSource::Berghain(true), &c.date_info).unwrap();
    assert_eq!(dates.0, "2020-04-17T23:59");
    assert_eq!(dates.1, None);
}

#[test]
fn clean_date_text_drops_spaces_and_newlines() {
    assert_eq!(
        clean_date_text("\n  Friday\n17.04.2020\nstart\n23:59\n "),
        "Friday17.04.2020start23:59"
    );
    assert_eq!(clean_date_text(""), "");
    assert_eq!(clean_date_text("a b\nc"), "abc");
}

#[test]
fn unparseable_date_is_date_parse_error() {
    let r = normalize(
        EventSource::CoBerlin(true),
        &RawDateInfo::Single("not a date".to_string()),
    );
    match r {
        Err(ScrapeError::DateParse { raw, .. }) => assert_eq!(raw, "not a date"),
        other => panic!("expected a date parse error, got {:?}", other),
    }
    // a wrong weekday does not parse in the club-listing notation
    let r2 = normalize(
        EventSource::Berghain(true),
        &RawDateInfo::DateTime("Monday17.04.2020start23:59".to_string()),
    );
    assert!(r2.is_err());
}

#[test]
fn range_with_bad_end_reports_the_end_text() {
    let r = normalize(
        EventSource::CoBerlin(true),
        &RawDateInfo::Range("01/03/20".to_string(), "banana".to_string()),
    );
    match r {
        Err(ScrapeError::DateParse { raw, .. }) => assert_eq!(raw, "banana"),
        other => panic!("expected a date parse error, got {:?}", other),
    }
}

// A registered source with no extraction rule reports itself as
// unimplemented rather than as an empty success, and a pass records
// that instead of counting the source as checked.
#[test]
fn unimplemented_source_is_not_empty_success() {
    let nodes = parse_document("<html><body></body></html>");
    match extract(EventSource::Gorki(true), &nodes) {
        Err(ScrapeError::NotImplemented { source }) => {
            assert_eq!(source.as_str(), "Gorki");
        },
        other => panic!("expected not-implemented, got {:?}", other),
    }

    let mut store = EventStore::new();
    let outcome = store.scrape_all_events(&vec![SourcePage {
        source: EventSource::DeutscheOperBerlin(true),
        html: "<html><body></body></html>".to_string(),
    }]);
    assert_eq!(outcome.inserted, 0);
    assert_eq!(outcome.failures.len(), 1);
    assert!(matches!(
        outcome.failures[0],
        ScrapeError::NotImplemented { .. }
    ));
    // the pass did not silently claim the source was checked
    assert!(store.latest_refresh().is_none());
    assert!(store.all_events().is_empty());
}

// Basic insert+dedup: re-running ingestion with an identical candidate
// leaves exactly one matching row.
#[test]
fn basic_insert_dedup_scenario() {
    let mut store = EventStore::new();
    let make = || {
        NewEvent::new(
            "Show",
            None,
            "/e/1",
            "X",
            "2020-02-17",
            None,
            EventSource::CoBerlin(true),
        )
    };
    let first = store.ingest_candidates(&vec![make()]).unwrap();
    assert_eq!(first, 1);
    let second = store.ingest_candidates(&vec![make()]).unwrap();
    assert_eq!(second, 0);
    let rows: Vec<_> = store
        .all_events()
        .into_iter()
        .filter(|e| {
            e.href == "/e/1"
                && e.title == "Show"
                && e.synopsis == "X"
                && e.event_date == "2020-02-17"
                && e.source == "CoBerlin"
        })
        .collect();
    assert_eq!(rows.len(), 1);
}

// Dedup equality contract: candidates differing only in subtitle or
// end date are the same event; only one is ever stored.
#[test]
fn dedup_ignores_subtitle_and_end_date() {
    let mut store = EventStore::new();
    let c1 = NewEvent::new(
        "Show",
        Some("first subtitle".into()),
        "/e/1",
        "X",
        "2020-02-17",
        Some("2020-02-18".into()),
        EventSource::CoBerlin(true),
    );
    let c2 = NewEvent::new(
        "Show",
        Some("second subtitle".into()),
        "/e/1",
        "X",
        "2020-02-17",
        None,
        EventSource::CoBerlin(true),
    );
    let inserted = store.ingest_candidates(&vec![c1, c2]).unwrap();
    assert_eq!(inserted, 1);
    assert_eq!(store.all_events().len(), 1);
}

// Dedup key includes the source: the same fields under another source
// are another event.
#[test]
fn dedup_distinguishes_sources() {
    let mut store = EventStore::new();
    let c1 = NewEvent::new("Show", None, "/e/1", "X", "2020-02-17", None, EventSource::CoBerlin(true));
    let c2 = NewEvent::new("Show", None, "/e/1", "X", "2020-02-17", None, EventSource::Berghain(true));
    assert_eq!(store.ingest_candidates(&vec![c1, c2]).unwrap(), 2);
}

// Idempotence: ingesting an unchanged document a second time inserts
// zero events.
#[test]
fn scrape_twice_inserts_once() {
    let mut store = EventStore::new();
    let n1 = store.scrape_html(EventSource::CoBerlin(true), CO_SINGLE).unwrap();
    assert_eq!(n1, 1);
    let n2 = store.scrape_html(EventSource::CoBerlin(true), CO_SINGLE).unwrap();
    assert_eq!(n2, 0);
    assert_eq!(store.all_events().len(), 1);
}

#[test]
fn scrape_stores_normalized_dates_and_ids() {
    let mut store = EventStore::new();
    store.scrape_html(EventSource::CoBerlin(true), CO_SINGLE).unwrap();
    store.scrape_html(EventSource::Berghain(true), BH_PAGE).unwrap();
    let events = store.all_events();
    assert_eq!(events.len(), 2);
    assert_eq!(events[0].id, 1);
    assert_eq!(events[0].event_date, "2020-02-17");
    assert_eq!(events[0].source, "CoBerlin");
    assert_eq!(events[1].id, 2);
    assert_eq!(events[1].event_date, "2020-04-17T23:59");
    assert_eq!(events[1].source, "Berghain");
}

#[test]
fn extraction_yields_event_nodes_in_document_order() {
    let html = r#"<html><body><div class="seite-c-single">
      <div class="calender-text">
        <a href="en/a">more</a>
        <div class="article-over-title"><span class="article-date">
          <span class="date-display-single">01/01/20</span></span></div>
        <h2 class="article-title">First</h2>
        <div class="article-text">one</div>
      </div>
      <div class="calender-text">
        <a href="en/b">more</a>
        <div class="article-over-title"><span class="article-date">
          <span class="date-display-single">02/01/20</span></span></div>
        <h2 class="article-title">Second</h2>
        <div class="article-text">two</div>
      </div>
    </div></body></html>"#;
    let nodes = parse_document(html);
    let cands = extract(EventSource::CoBerlin(true), &nodes).unwrap();
    assert_eq!(cands.len(), 2);
    assert_eq!(cands[0].title, "First");
    assert_eq!(cands[1].title, "Second");
    // a node outside the enclosing single-page block is not an event
    let stray = r#"<html><body><div class="calender-text"><a href="en/x">x</a>
        </div></body></html>"#;
    let stray_nodes = parse_document(stray);
    assert_eq!(extract(EventSource::CoBerlin(true), &stray_nodes).unwrap().len(), 0);
}

// Two identical event blocks on one page yield one stored row: the
// deduplicator checks each candidate against the store as it grows.
#[test]
fn duplicate_blocks_within_one_page_store_once() {
    let block = r#"
      <div class="calender-text">
        <a href="en/dup">more</a>
        <div class="article-over-title"><span class="article-date">
          <span class="date-display-single">17/02/20</span></span></div>
        <h2 class="article-title">Same Show</h2>
        <div class="article-text">same text</div>
      </div>"#;
    let page = format!(
        "<html><body><div class=\"seite-c-single\">{}{}</div></body></html>",
        block, block
    );
    let mut store = EventStore::new();
    let n = store.scrape_html(EventSource::CoBerlin(true), &page).unwrap();
    assert_eq!(n, 1);
    assert_eq!(store.all_events().len(), 1);
}

#[test]
fn pass_isolates_failures_per_source() {
    let mut store = EventStore::new();
    let pages = vec![
        SourcePage { source: EventSource::Gorki(true), html: "<p></p>".to_string() },
        SourcePage { source: EventSource::CoBerlin(true), html: CO_SINGLE.to_string() },
    ];
    let outcome = store.scrape_all_events(&pages);
    assert_eq!(outcome.inserted, 1);
    assert_eq!(outcome.failures.len(), 1);
    assert_eq!(store.all_events().len(), 1);
}

#[test]
fn refresh_markers_and_rate_limit() {
    let mut store = EventStore::new();
    assert!(store.latest_refresh().is_none());
    // with no marker a refresh is allowed
    assert_eq!(should_refresh(None, 0).unwrap(), true);

    store.create_refresh("2020-01-01T00:00:00+00:00", 5).unwrap();
    store.create_refresh("2020-01-03T00:00:00+00:00", 2).unwrap();
    store.create_refresh("2020-01-02T00:00:00+00:00", 1).unwrap();
    let latest = store.latest_refresh().unwrap();
    assert_eq!(latest.refresh_dt, "2020-01-03T00:00:00+00:00");
    assert_eq!(latest.total_added, 2);
    assert_eq!(latest.id, 2);

    // 2020-01-03T00:00:00Z is epoch 1578009600
    let base = 1_578_009_600_i64;
    assert_eq!(should_refresh(Some(&latest), base + 86_399).unwrap(), false);
    assert_eq!(should_refresh(Some(&latest), base + 86_400).unwrap(), true);

    let bad = event_aggregator::model::Refresh {
        id: 9,
        refresh_dt: "yesterday-ish".to_string(),
        total_added: 0,
    };
    let err = should_refresh(Some(&bad), base).unwrap_err();
    assert_eq!(err.raw, "yesterday-ish");
}

#[test]
fn error_descriptions() {
    let e = ScrapeError::NotImplemented { source: EventSource::Gorki(true) };
    assert_eq!(e.describe(), "no extraction rule implemented");
    let d = ScrapeError::DateParse {
        source: EventSource::CoBerlin(true),
        raw: "x".to_string(),
    };
    assert_eq!(d.describe(), "unparseable date text");
}
