//! The static catalog of known event sources.
//!
//! Each source carries its per-request "enabled" flag in its variant
//! payload; the flag controls filtering and which sources an ingestion
//! pass consults, and is never persisted. Two sources have implemented
//! extraction rules; the others are registered but stubbed, and an
//! ingestion pass reports them as unimplemented rather than as empty
//! calendars.

use vstd::prelude::*;
use vstd::string::StringExecFns;

verus! {

/// All the registered event source calendars.
#[derive(Clone, Copy, Debug, PartialEq, Eq, Structural)]
pub enum EventSource {
    CoBerlin(bool),
    DeutscheOperBerlin(bool),
    Gorki(bool),
    Berghain(bool),
}

/// The fixed, order-stable list of registered sources, all enabled.
pub open spec fn spec_all_sources() -> Seq<EventSource> {
    seq![
        EventSource::CoBerlin(true),
        EventSource::DeutscheOperBerlin(true),
        EventSource::Gorki(true),
        EventSource::Berghain(true),
    ]
}

/// Whether `name` is the identity name of some registered source.
pub open spec fn is_registered_name(name: Seq<char>) -> bool {
    ||| name == EventSource::CoBerlin(true).spec_name()
    ||| name == EventSource::DeutscheOperBerlin(true).spec_name()
    ||| name == EventSource::Gorki(true).spec_name()
    ||| name == EventSource::Berghain(true).spec_name()
}

/// Every source's identity name is registered, whatever its enabled
/// flag.
pub proof fn lemma_spec_name_registered(s: EventSource)
    ensures
        is_registered_name(s.spec_name()),
{
}

impl EventSource {
    /// Get all the registered event sources to iterate over.
    pub fn all() -> (r: Vec<EventSource>)
        ensures
            r@ == spec_all_sources(),
    {
        let mut v: Vec<EventSource> = Vec::new();
        v.push(EventSource::CoBerlin(true));
        v.push(EventSource::DeutscheOperBerlin(true));
        v.push(EventSource::Gorki(true));
        v.push(EventSource::Berghain(true));
        proof {
            assert(v@ =~= spec_all_sources());
        }
        v
    }

    /// The identity name, independent of the enabled flag.
    pub open spec fn spec_name(self) -> Seq<char> {
        match self {
            EventSource::CoBerlin(_) => "CoBerlin"@,
            EventSource::DeutscheOperBerlin(_) => "DeutscheOperBerlin"@,
            EventSource::Gorki(_) => "Gorki"@,
            EventSource::Berghain(_) => "Berghain"@,
        }
    }

    pub fn as_str(self) -> (r: &'static str)
        ensures
            r@ == self.spec_name(),
    {
        match self {
            EventSource::CoBerlin(_) => "CoBerlin",
            EventSource::DeutscheOperBerlin(_) => "DeutscheOperBerlin",
            EventSource::Gorki(_) => "Gorki",
            EventSource::Berghain(_) => "Berghain",
        }
    }

    pub open spec fn is_enabled(self) -> bool {
        match self {
            EventSource::CoBerlin(b) => b,
            EventSource::DeutscheOperBerlin(b) => b,
            EventSource::Gorki(b) => b,
            EventSource::Berghain(b) => b,
        }
    }

    /// Check whether this source is enabled for the current request.
    pub fn enabled(self) -> (r: bool)
        ensures
            r == self.is_enabled(),
    {
        match self {
            EventSource::CoBerlin(b) => b,
            EventSource::DeutscheOperBerlin(b) => b,
            EventSource::Gorki(b) => b,
            EventSource::Berghain(b) => b,
        }
    }

    pub open spec fn spec_toggle(self) -> EventSource {
        match self {
            EventSource::CoBerlin(b) => EventSource::CoBerlin(!b),
            EventSource::DeutscheOperBerlin(b) => EventSource::DeutscheOperBerlin(!b),
            EventSource::Gorki(b) => EventSource::Gorki(!b),
            EventSource::Berghain(b) => EventSource::Berghain(!b),
        }
    }

    /// A copy of this source with the enabled flag inverted; a pure
    /// transformation, never a mutation of shared registry state.
    pub fn toggle(self) -> (r: EventSource)
        ensures
            r == self.spec_toggle(),
            r.is_enabled() == !self.is_enabled(),
            r.spec_name() == self.spec_name(),
    {
        match self {
            EventSource::CoBerlin(b) => EventSource::CoBerlin(!b),
            EventSource::DeutscheOperBerlin(b) => EventSource::DeutscheOperBerlin(!b),
            EventSource::Gorki(b) => EventSource::Gorki(!b),
            EventSource::Berghain(b) => EventSource::Berghain(!b),
        }
    }

    /// Whether this source has an implemented extraction rule, as
    /// opposed to being registered but stubbed.
    pub open spec fn spec_has_extraction_rule(self) -> bool {
        match self {
            EventSource::CoBerlin(_) => true,
            EventSource::Berghain(_) => true,
            EventSource::DeutscheOperBerlin(_) => false,
            EventSource::Gorki(_) => false,
        }
    }

    pub fn has_extraction_rule(self) -> (r: bool)
        ensures
            r == self.spec_has_extraction_rule(),
    {
        match self {
            EventSource::CoBerlin(_) => true,
            EventSource::Berghain(_) => true,
            EventSource::DeutscheOperBerlin(_) => false,
            EventSource::Gorki(_) => false,
        }
    }

    /// Name for use in HTML markup, e.g. a checkbox id.
    pub open spec fn spec_markup_name(self) -> Seq<char> {
        match self {
            EventSource::CoBerlin(_) => "source-coberlin"@,
            EventSource::DeutscheOperBerlin(_) => "source-deutscheoperberlin"@,
            EventSource::Gorki(_) => "source-gorki"@,
            EventSource::Berghain(_) => "source-berghain"@,
        }
    }

    pub fn markup_name(self) -> (r: String)
        ensures
            r@ == self.spec_markup_name(),
    {
        let s = match self {
            EventSource::CoBerlin(_) => "source-coberlin",
            EventSource::DeutscheOperBerlin(_) => "source-deutscheoperberlin",
            EventSource::Gorki(_) => "source-gorki",
            EventSource::Berghain(_) => "source-berghain",
        };
        s.to_owned()
    }

    /// Display name for page rendering.
    pub fn pretty_name(self) -> (r: &'static str)
        ensures
            r@ == self.spec_pretty_name(),
    {
        match self {
            EventSource::CoBerlin(_) => "C/O Berlin",
            _ => self.as_str(),
        }
    }

    pub open spec fn spec_pretty_name(self) -> Seq<char> {
        match self {
            EventSource::CoBerlin(_) => "C/O Berlin"@,
            _ => self.spec_name(),
        }
    }

    /// Base URL of the source's website.
    pub open spec fn spec_url_base(self) -> Seq<char> {
        match self {
            EventSource::CoBerlin(_) => "http://www.co-berlin.org"@,
            EventSource::DeutscheOperBerlin(_) => "https://www.deutscheoperberlin.de"@,
            EventSource::Gorki(_) => "https://gorki.de"@,
            EventSource::Berghain(_) => "http://berghain.de"@,
        }
    }

    fn url_base(self) -> (r: &'static str)
        ensures
            r@ == self.spec_url_base(),
    {
        match self {
            EventSource::CoBerlin(_) => "http://www.co-berlin.org",
            EventSource::DeutscheOperBerlin(_) => "https://www.deutscheoperberlin.de",
            EventSource::Gorki(_) => "https://gorki.de",
            EventSource::Berghain(_) => "http://berghain.de",
        }
    }

    /// The URL under this source's site for the (site-relative) path `uri`.
    pub open spec fn spec_url(self, uri: Seq<char>) -> Seq<char> {
        self.spec_url_base() + "/"@ + uri
    }

    /// Build an absolute URL from a site-relative path.
    pub fn url(self, uri: &str) -> (r: String)
        ensures
            r@ == self.spec_url(uri@),
    {
        let mut s = self.url_base().to_owned();
        s.append("/");
        s.append(uri);
        s
    }

    /// Path of the source's calendar page under its base URL.
    pub open spec fn spec_calendar_path(self) -> Seq<char> {
        match self {
            EventSource::CoBerlin(_) => "en/calender"@,
            EventSource::DeutscheOperBerlin(_) => "en_EN/calendar"@,
            EventSource::Gorki(_) => "en/programme/2018/08/all"@,
            EventSource::Berghain(_) => "en/program"@,
        }
    }

    /// Full URL of the calendar page to fetch for this source.
    pub fn url_calendar(self) -> (r: String)
        ensures
            r@ == self.spec_url(self.spec_calendar_path()),
    {
        let uri = match self {
            EventSource::CoBerlin(_) => "en/calender",
            EventSource::DeutscheOperBerlin(_) => "en_EN/calendar",
            EventSource::Gorki(_) => "en/programme/2018/08/all",
            EventSource::Berghain(_) => "en/program",
        };
        self.url(uri)
    }
}

} // verus!
