//! Per-source extraction rules.
//!
//! Each source with an implemented rule owns one procedure that walks
//! the parsed document and yields raw candidate events; the rule is
//! selected by the source's identity over a closed set of variants. A
//! missing required field fails with an extraction error naming the
//! source, the field and the event node, rather than aborting the
//! whole pipeline; a registered source without a rule yields an
//! explicit "not implemented" outcome, distinguishable from an empty
//! calendar.

use crate::dom::{
    attr_of, find_desc_class, find_desc_named, first_desc_class, first_desc_named, has_class,
    ancestor_has_class, is_strict_ancestor, node_text, spec_ancestor_has_class, spec_attr,
    spec_has_class, spec_is_named, subtree_text, FlatNode, FlatNodeView,
};
use crate::errors::{ExtractField, ScrapeError, ScrapeErrorView};
use crate::normalize::{RawDateInfo, RawDateInfoView};
use crate::sources::EventSource;
use vstd::prelude::*;
use vstd::string::StringExecFns;

verus! {

/// A candidate event as extraction found it: absolute link, the text
/// fields, and raw date information for the normalizer.
#[derive(Debug)]
pub struct RawCandidate {
    pub href: String,
    pub title: String,
    pub subtitle: Option<String>,
    pub synopsis: String,
    pub date_info: RawDateInfo,
}

pub ghost struct RawCandidateView {
    pub href: Seq<char>,
    pub title: Seq<char>,
    pub subtitle: Option<Seq<char>>,
    pub synopsis: Seq<char>,
    pub date_info: RawDateInfoView,
}

impl View for RawCandidate {
    type V = RawCandidateView;

    open spec fn view(&self) -> RawCandidateView {
        RawCandidateView {
            href: self.href@,
            title: self.title@,
            subtitle: self.subtitle.deep_view(),
            synopsis: self.synopsis@,
            date_info: self.date_info@,
        }
    }
}

impl DeepView for RawCandidate {
    type V = RawCandidateView;

    open spec fn deep_view(&self) -> RawCandidateView {
        self.view()
    }
}

/// Whether arena node `j` is an event node for this source's rule.
pub open spec fn is_event_node(source: EventSource, nodes: Seq<FlatNodeView>, j: int) -> bool {
    match source {
        EventSource::CoBerlin(_) => spec_has_class(nodes[j], "calender-text"@)
            && spec_ancestor_has_class(nodes, j, "seite-c-single"@),
        EventSource::Berghain(_) => spec_has_class(nodes[j], "upcoming-event"@),
        _ => false,
    }
}

/// The date information the gallery rule reads under event node `j`:
/// inside the over-title's date node, either a begin/end display range
/// or a single display date.
pub open spec fn spec_co_date(
    source: EventSource,
    nodes: Seq<FlatNodeView>,
    j: int,
) -> Result<RawDateInfoView, ScrapeErrorView> {
    match first_desc_class(nodes, j, 0, "article-over-title"@) {
        None => Err(ScrapeErrorView::Extraction { source, field: ExtractField::Date, node_index: j }),
        Some(ot) => match first_desc_class(nodes, ot, 0, "article-date"@) {
            None => Err(
                ScrapeErrorView::Extraction { source, field: ExtractField::Date, node_index: j },
            ),
            Some(dn) => match first_desc_class(nodes, dn, 0, "date-display-range"@) {
                Some(div) => match first_desc_class(nodes, div, 0, "date-display-start"@) {
                    None => Err(
                        ScrapeErrorView::Extraction {
                            source,
                            field: ExtractField::Date,
                            node_index: j,
                        },
                    ),
                    Some(bs) => match first_desc_class(nodes, div, 0, "date-display-end"@) {
                        None => Err(
                            ScrapeErrorView::Extraction {
                                source,
                                field: ExtractField::Date,
                                node_index: j,
                            },
                        ),
                        Some(es) => Ok(
                            RawDateInfoView::Range(
                                subtree_text(nodes, bs),
                                subtree_text(nodes, es),
                            ),
                        ),
                    },
                },
                None => match first_desc_class(nodes, dn, 0, "date-display-single"@) {
                    None => Err(
                        ScrapeErrorView::Extraction {
                            source,
                            field: ExtractField::Date,
                            node_index: j,
                        },
                    ),
                    Some(sn) => Ok(RawDateInfoView::Single(subtree_text(nodes, sn))),
                },
            },
        },
    }
}

/// The gallery rule for one event node: link from the first anchor,
/// date information, title, optional subtitle, synopsis.
pub open spec fn spec_co_candidate(
    source: EventSource,
    nodes: Seq<FlatNodeView>,
    j: int,
) -> Result<RawCandidateView, ScrapeErrorView> {
    match first_desc_named(nodes, j, 0, "a"@) {
        None => Err(ScrapeErrorView::Extraction { source, field: ExtractField::Href, node_index: j }),
        Some(a) => match spec_attr(nodes[a], "href"@) {
            None => Err(
                ScrapeErrorView::Extraction { source, field: ExtractField::Href, node_index: j },
            ),
            Some(h) => match spec_co_date(source, nodes, j) {
                Err(e) => Err(e),
                Ok(date_info) => match first_desc_class(nodes, j, 0, "article-title"@) {
                    None => Err(
                        ScrapeErrorView::Extraction {
                            source,
                            field: ExtractField::Title,
                            node_index: j,
                        },
                    ),
                    Some(tn) => match first_desc_class(nodes, j, 0, "article-text"@) {
                        None => Err(
                            ScrapeErrorView::Extraction {
                                source,
                                field: ExtractField::Synopsis,
                                node_index: j,
                            },
                        ),
                        Some(sy) => Ok(
                            RawCandidateView {
                                href: source.spec_url(h),
                                title: subtree_text(nodes, tn),
                                subtitle: match first_desc_class(nodes, j, 0, "article-subtitle"@) {
                                    Some(sb) => Some(subtree_text(nodes, sb)),
                                    None => None,
                                },
                                synopsis: subtree_text(nodes, sy),
                                date_info,
                            },
                        ),
                    },
                },
            },
        },
    }
}

/// The combined text of the subtrees of all descendants of `j` named
/// `h4`, over arena indices below `k`.
pub open spec fn h4_texts_upto(nodes: Seq<FlatNodeView>, j: int, k: int) -> Seq<char>
    decreases (if k >= 0 { k } else { 0 }),
{
    if k <= 0 {
        Seq::empty()
    } else {
        h4_texts_upto(nodes, j, k - 1) + (if is_strict_ancestor(nodes, j, k - 1) && spec_is_named(
            nodes[k - 1],
            "h4"@,
        ) {
            subtree_text(nodes, k - 1)
        } else {
            Seq::empty()
        })
    }
}

/// The club rule's synopsis: the concatenated text of every `h4`
/// descendant, in document order.
pub open spec fn spec_h4_texts(nodes: Seq<FlatNodeView>, j: int) -> Seq<char> {
    h4_texts_upto(nodes, j, nodes.len() as int)
}

/// The club rule for one event node: link from the node's own anchor
/// attribute, date-and-time text from the first paragraph, title and
/// subtitle from the first two headings, synopsis from the `h4`
/// headings.
pub open spec fn spec_bh_candidate(
    source: EventSource,
    nodes: Seq<FlatNodeView>,
    j: int,
) -> Result<RawCandidateView, ScrapeErrorView> {
    match spec_attr(nodes[j], "href"@) {
        None => Err(ScrapeErrorView::Extraction { source, field: ExtractField::Href, node_index: j }),
        Some(h) => match first_desc_named(nodes, j, 0, "p"@) {
            None => Err(
                ScrapeErrorView::Extraction { source, field: ExtractField::Date, node_index: j },
            ),
            Some(pn) => match first_desc_named(nodes, j, 0, "h2"@) {
                None => Err(
                    ScrapeErrorView::Extraction {
                        source,
                        field: ExtractField::Title,
                        node_index: j,
                    },
                ),
                Some(tn) => match first_desc_named(nodes, j, 0, "h3"@) {
                    None => Err(
                        ScrapeErrorView::Extraction {
                            source,
                            field: ExtractField::Subtitle,
                            node_index: j,
                        },
                    ),
                    Some(sb) => Ok(
                        RawCandidateView {
                            href: source.spec_url(h),
                            title: subtree_text(nodes, tn),
                            subtitle: Some(subtree_text(nodes, sb)),
                            synopsis: spec_h4_texts(nodes, j),
                            date_info: RawDateInfoView::DateTime(subtree_text(nodes, pn)),
                        },
                    ),
                },
            },
        },
    }
}

/// The rule for one event node of a source that has one.
pub open spec fn spec_node_candidate(
    source: EventSource,
    nodes: Seq<FlatNodeView>,
    j: int,
) -> Result<RawCandidateView, ScrapeErrorView> {
    match source {
        EventSource::CoBerlin(_) => spec_co_candidate(source, nodes, j),
        EventSource::Berghain(_) => spec_bh_candidate(source, nodes, j),
        _ => Err(ScrapeErrorView::NotImplemented { source }),
    }
}

/// Extraction over the event nodes with arena index below `k`, in
/// document order, stopped by the first failing node.
pub open spec fn spec_extract_upto(
    source: EventSource,
    nodes: Seq<FlatNodeView>,
    k: int,
) -> Result<Seq<RawCandidateView>, ScrapeErrorView>
    decreases (if k >= 0 { k } else { 0 }),
{
    if k <= 0 {
        Ok(Seq::empty())
    } else {
        match spec_extract_upto(source, nodes, k - 1) {
            Err(e) => Err(e),
            Ok(cs) => if is_event_node(source, nodes, k - 1) {
                match spec_node_candidate(source, nodes, k - 1) {
                    Ok(c) => Ok(cs.push(c)),
                    Err(e) => Err(e),
                }
            } else {
                Ok(cs)
            },
        }
    }
}

/// What extraction yields for a source over a parsed document: the
/// candidates of its event nodes in document order, the first
/// extraction failure, or "not implemented" for a stubbed source.
pub open spec fn spec_extract(source: EventSource, nodes: Seq<FlatNodeView>) -> Result<
    Seq<RawCandidateView>,
    ScrapeErrorView,
> {
    if source.spec_has_extraction_rule() {
        spec_extract_upto(source, nodes, nodes.len() as int)
    } else {
        Err(ScrapeErrorView::NotImplemented { source })
    }
}

/// Whether arena node `j` is an event node for this source's rule.
fn event_node(source: EventSource, nodes: &Vec<FlatNode>, j: usize) -> (r: bool)
    requires
        j < nodes@.len(),
    ensures
        r == is_event_node(source, nodes.deep_view(), j as int),
{
    match source {
        EventSource::CoBerlin(_) => has_class(nodes, j, "calender-text") && ancestor_has_class(
            nodes,
            j,
            "seite-c-single",
        ),
        EventSource::Berghain(_) => has_class(nodes, j, "upcoming-event"),
        _ => false,
    }
}

/// The gallery rule's date information under event node `j`.
fn co_date(source: EventSource, nodes: &Vec<FlatNode>, j: usize) -> (r: Result<
    RawDateInfo,
    ScrapeError,
>)
    requires
        j < nodes@.len(),
    ensures
        (r is Ok) == (spec_co_date(source, nodes.deep_view(), j as int) is Ok),
        r matches Ok(d) ==> spec_co_date(source, nodes.deep_view(), j as int) == Ok::<
            RawDateInfoView,
            ScrapeErrorView,
        >(d@),
        r matches Err(e) ==> spec_co_date(source, nodes.deep_view(), j as int) == Err::<
            RawDateInfoView,
            ScrapeErrorView,
        >(e@),
{
    let date_err = ScrapeError::Extraction { source, field: ExtractField::Date, node_index: j };
    let ot = match find_desc_class(nodes, j, "article-over-title") {
        Some(ot) => ot,
        None => {
            return Err(date_err);
        },
    };
    let dn = match find_desc_class(nodes, ot, "article-date") {
        Some(dn) => dn,
        None => {
            return Err(date_err);
        },
    };
    match find_desc_class(nodes, dn, "date-display-range") {
        Some(div) => {
            let bs = match find_desc_class(nodes, div, "date-display-start") {
                Some(bs) => bs,
                None => {
                    return Err(date_err);
                },
            };
            let es = match find_desc_class(nodes, div, "date-display-end") {
                Some(es) => es,
                None => {
                    return Err(date_err);
                },
            };
            Ok(RawDateInfo::Range(node_text(nodes, bs), node_text(nodes, es)))
        },
        None => {
            match find_desc_class(nodes, dn, "date-display-single") {
                Some(sn) => Ok(RawDateInfo::Single(node_text(nodes, sn))),
                None => Err(date_err),
            }
        },
    }
}

/// The gallery rule for one event node.
fn co_candidate(source: EventSource, nodes: &Vec<FlatNode>, j: usize) -> (r: Result<
    RawCandidate,
    ScrapeError,
>)
    requires
        j < nodes@.len(),
    ensures
        (r is Ok) == (spec_co_candidate(source, nodes.deep_view(), j as int) is Ok),
        r matches Ok(c) ==> spec_co_candidate(source, nodes.deep_view(), j as int) == Ok::<
            RawCandidateView,
            ScrapeErrorView,
        >(c@),
        r matches Err(e) ==> spec_co_candidate(source, nodes.deep_view(), j as int) == Err::<
            RawCandidateView,
            ScrapeErrorView,
        >(e@),
{
    let a = match find_desc_named(nodes, j, "a") {
        Some(a) => a,
        None => {
            return Err(
                ScrapeError::Extraction { source, field: ExtractField::Href, node_index: j },
            );
        },
    };
    let h = match attr_of(nodes, a, "href") {
        Some(h) => h,
        None => {
            return Err(
                ScrapeError::Extraction { source, field: ExtractField::Href, node_index: j },
            );
        },
    };
    let href = source.url(h);
    let date_info = match co_date(source, nodes, j) {
        Ok(d) => d,
        Err(e) => {
            return Err(e);
        },
    };
    let tn = match find_desc_class(nodes, j, "article-title") {
        Some(tn) => tn,
        None => {
            return Err(
                ScrapeError::Extraction { source, field: ExtractField::Title, node_index: j },
            );
        },
    };
    let sy = match find_desc_class(nodes, j, "article-text") {
        Some(sy) => sy,
        None => {
            return Err(
                ScrapeError::Extraction { source, field: ExtractField::Synopsis, node_index: j },
            );
        },
    };
    let subtitle = match find_desc_class(nodes, j, "article-subtitle") {
        Some(sb) => Some(node_text(nodes, sb)),
        None => None,
    };
    Ok(
        RawCandidate {
            href,
            title: node_text(nodes, tn),
            subtitle,
            synopsis: node_text(nodes, sy),
            date_info,
        },
    )
}

/// Collect the concatenated text of every `h4` descendant of `j`.
fn h4_texts(nodes: &Vec<FlatNode>, j: usize) -> (r: String)
    requires
        j < nodes@.len(),
    ensures
        r@ == spec_h4_texts(nodes.deep_view(), j as int),
{
    let ghost all = nodes.deep_view();
    let mut out = String::new();
    let mut k: usize = 0;
    while k < nodes.len()
        invariant
            0 <= k <= nodes@.len(),
            all == nodes.deep_view(),
            all.len() == nodes@.len(),
            j < nodes@.len(),
            out@ == h4_texts_upto(all, j as int, k as int),
        decreases nodes@.len() - k,
    {
        if crate::dom::has_ancestor(nodes, j, k) && crate::dom::is_named(nodes, k, "h4") {
            let t = node_text(nodes, k);
            out.append(t.as_str());
        } else {
            proof {
                assert(out@ + Seq::<char>::empty() =~= out@);
            }
        }
        k = k + 1;
    }
    out
}

/// The club rule for one event node.
fn bh_candidate(source: EventSource, nodes: &Vec<FlatNode>, j: usize) -> (r: Result<
    RawCandidate,
    ScrapeError,
>)
    requires
        j < nodes@.len(),
    ensures
        (r is Ok) == (spec_bh_candidate(source, nodes.deep_view(), j as int) is Ok),
        r matches Ok(c) ==> spec_bh_candidate(source, nodes.deep_view(), j as int) == Ok::<
            RawCandidateView,
            ScrapeErrorView,
        >(c@),
        r matches Err(e) ==> spec_bh_candidate(source, nodes.deep_view(), j as int) == Err::<
            RawCandidateView,
            ScrapeErrorView,
        >(e@),
{
    let h = match attr_of(nodes, j, "href") {
        Some(h) => h,
        None => {
            return Err(
                ScrapeError::Extraction { source, field: ExtractField::Href, node_index: j },
            );
        },
    };
    let href = source.url(h);
    let pn = match find_desc_named(nodes, j, "p") {
        Some(pn) => pn,
        None => {
            return Err(
                ScrapeError::Extraction { source, field: ExtractField::Date, node_index: j },
            );
        },
    };
    let tn = match find_desc_named(nodes, j, "h2") {
        Some(tn) => tn,
        None => {
            return Err(
                ScrapeError::Extraction { source, field: ExtractField::Title, node_index: j },
            );
        },
    };
    let sb = match find_desc_named(nodes, j, "h3") {
        Some(sb) => sb,
        None => {
            return Err(
                ScrapeError::Extraction { source, field: ExtractField::Subtitle, node_index: j },
            );
        },
    };
    Ok(
        RawCandidate {
            href,
            title: node_text(nodes, tn),
            subtitle: Some(node_text(nodes, sb)),
            synopsis: h4_texts(nodes, j),
            date_info: RawDateInfo::DateTime(node_text(nodes, pn)),
        },
    )
}

/// The rule for one event node of a source that has one.
fn node_candidate(source: EventSource, nodes: &Vec<FlatNode>, j: usize) -> (r: Result<
    RawCandidate,
    ScrapeError,
>)
    requires
        j < nodes@.len(),
    ensures
        (r is Ok) == (spec_node_candidate(source, nodes.deep_view(), j as int) is Ok),
        r matches Ok(c) ==> spec_node_candidate(source, nodes.deep_view(), j as int) == Ok::<
            RawCandidateView,
            ScrapeErrorView,
        >(c@),
        r matches Err(e) ==> spec_node_candidate(source, nodes.deep_view(), j as int) == Err::<
            RawCandidateView,
            ScrapeErrorView,
        >(e@),
{
    match source {
        EventSource::CoBerlin(_) => co_candidate(source, nodes, j),
        EventSource::Berghain(_) => bh_candidate(source, nodes, j),
        _ => Err(ScrapeError::NotImplemented { source }),
    }
}

/// Walk a parsed document and yield the source's candidate events in
/// document order. Succeeds exactly when the source has an extraction
/// rule and every event node yields its required fields; the first
/// failing node's error is returned, and a stubbed source reports
/// "not implemented" rather than an empty success.
pub fn extract(source: EventSource, nodes: &Vec<FlatNode>) -> (r: Result<
    Vec<RawCandidate>,
    ScrapeError,
>)
    ensures
        (r is Ok) == (spec_extract(source, nodes.deep_view()) is Ok),
        r matches Ok(cs) ==> spec_extract(source, nodes.deep_view()) == Ok::<
            Seq<RawCandidateView>,
            ScrapeErrorView,
        >(cs.deep_view()),
        r matches Err(e) ==> spec_extract(source, nodes.deep_view()) == Err::<
            Seq<RawCandidateView>,
            ScrapeErrorView,
        >(e@),
{
    let ghost all = nodes.deep_view();
    if !source.has_extraction_rule() {
        return Err(ScrapeError::NotImplemented { source });
    }
    let mut out: Vec<RawCandidate> = Vec::new();
    let mut j: usize = 0;
    proof {
        assert(out.deep_view() =~= Seq::<RawCandidateView>::empty());
    }
    while j < nodes.len()
        invariant
            0 <= j <= nodes@.len(),
            all == nodes.deep_view(),
            all.len() == nodes@.len(),
            spec_extract_upto(source, all, j as int) == Ok::<Seq<RawCandidateView>, ScrapeErrorView>(
                out.deep_view(),
            ),
        decreases nodes@.len() - j,
    {
        let ghost before = out.deep_view();
        if event_node(source, nodes, j) {
            match node_candidate(source, nodes, j) {
                Ok(c) => {
                    let ghost cv = c@;
                    out.push(c);
                    proof {
                        assert(out.deep_view() =~= before.push(cv));
                    }
                },
                Err(e) => {
                    proof {
                        assert(spec_extract_upto(source, all, j + 1) == Err::<
                            Seq<RawCandidateView>,
                            ScrapeErrorView,
                        >(e@));
                        lemma_extract_upto_err(source, all, j + 1, all.len() as int);
                    }
                    return Err(e);
                },
            }
        }
        j = j + 1;
    }
    Ok(out)
}

/// Once a prefix fails, extraction over any longer prefix fails the
/// same way.
proof fn lemma_extract_upto_err(
    source: EventSource,
    nodes: Seq<FlatNodeView>,
    k: int,
    n: int,
)
    requires
        0 <= k <= n,
        spec_extract_upto(source, nodes, k) is Err,
    ensures
        spec_extract_upto(source, nodes, n) == spec_extract_upto(source, nodes, k),
    decreases n - k,
{
    if k < n {
        lemma_extract_upto_err(source, nodes, k + 1, n);
    }
}

} // verus!
