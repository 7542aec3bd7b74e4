//! A plain-value model of a parsed HTML document.
//!
//! The outside HTML parser turns page text into a flat arena of nodes
//! in document order, each knowing its parent; this module declares
//! that arena as a type of the library's own and gives verified
//! queries over it: class and name predicates, ancestor walks, first
//! matching descendant, and the combined text of a subtree. Extraction
//! rules are then ordinary verified code over these queries.
//!
//! An arena index `j` is in the subtree of `i` when the parent chain
//! from `j` reaches `i` through strictly decreasing indices; the
//! parser only produces arenas where a parent precedes its children,
//! and on such arenas index order is document pre-order.

use crate::text::{has_word, str_eq};
use vstd::prelude::*;
use vstd::string::StringExecFns;

verus! {

/// One attribute of an HTML element.
#[derive(Debug, Clone)]
pub struct HtmlAttr {
    pub name: String,
    pub value: String,
}

pub ghost struct AttrView {
    pub name: Seq<char>,
    pub value: Seq<char>,
}

impl View for HtmlAttr {
    type V = AttrView;

    open spec fn view(&self) -> AttrView {
        AttrView { name: self.name@, value: self.value@ }
    }
}

impl DeepView for HtmlAttr {
    type V = AttrView;

    open spec fn deep_view(&self) -> AttrView {
        self.view()
    }
}

/// What one node of the document holds.
#[derive(Debug, Clone)]
pub enum NodeData {
    Element { name: String, attrs: Vec<HtmlAttr> },
    Text(String),
    Comment,
}

pub ghost enum NodeDataView {
    Element { name: Seq<char>, attrs: Seq<AttrView> },
    Text(Seq<char>),
    Comment,
}

impl View for NodeData {
    type V = NodeDataView;

    open spec fn view(&self) -> NodeDataView {
        match self {
            NodeData::Element { name, attrs } => NodeDataView::Element {
                name: name@,
                attrs: attrs.deep_view(),
            },
            NodeData::Text(t) => NodeDataView::Text(t@),
            NodeData::Comment => NodeDataView::Comment,
        }
    }
}

impl DeepView for NodeData {
    type V = NodeDataView;

    open spec fn deep_view(&self) -> NodeDataView {
        self.view()
    }
}

/// One node of the flat arena: its parent's index (parents precede
/// children in arenas the parser produces) and its data.
#[derive(Debug, Clone)]
pub struct FlatNode {
    pub parent: Option<usize>,
    pub data: NodeData,
}

pub ghost struct FlatNodeView {
    pub parent: Option<int>,
    pub data: NodeDataView,
}

impl View for FlatNode {
    type V = FlatNodeView;

    open spec fn view(&self) -> FlatNodeView {
        FlatNodeView {
            parent: match self.parent {
                Some(p) => Some(p as int),
                None => None,
            },
            data: self.data@,
        }
    }
}

impl DeepView for FlatNode {
    type V = FlatNodeView;

    open spec fn deep_view(&self) -> FlatNodeView {
        self.view()
    }
}

/// The node arena that parsing the given page text yields, in document
/// order.
pub uninterp spec fn dom_of(html: Seq<char>) -> Seq<FlatNodeView>;

/// Relies on select's `Document::from(&str)`: it parses HTML text into
/// a flat arena of nodes in document order, each node carrying its
/// parent's index and either an element (name and attributes), a text
/// run, or a comment. The arena is a function of the page text alone.
#[verifier::external_body]
fn parse_html(html: &str) -> (r: Vec<FlatNode>)
    ensures
        r.deep_view() == dom_of(html@),
{
    let doc = select::document::Document::from(html);
    doc.nodes.into_iter().map(|raw| FlatNode {
        parent: raw.parent,
        data: match raw.data {
            select::node::Data::Text(t) => NodeData::Text(t.to_string()),
            select::node::Data::Element(name, attrs) => NodeData::Element {
                name: name.local.to_string(),
                attrs: attrs.into_iter()
                    .map(|(n, v)| HtmlAttr { name: n.local.to_string(), value: v.to_string() })
                    .collect(),
            },
            select::node::Data::Comment(_) => NodeData::Comment,
        },
    }).collect()
}

/// Parse page text into the library's node arena.
pub fn parse_document(html: &str) -> (r: Vec<FlatNode>)
    ensures
        r.deep_view() == dom_of(html@),
{
    parse_html(html)
}

/// The element name of a node, or `None` for text and comments.
pub open spec fn spec_node_name(n: FlatNodeView) -> Option<Seq<char>> {
    match n.data {
        NodeDataView::Element { name, .. } => Some(name),
        _ => None,
    }
}

/// The first attribute of the list named `key`, as the parser's
/// attribute lookup returns it.
pub open spec fn attr_lookup(attrs: Seq<AttrView>, key: Seq<char>) -> Option<Seq<char>>
    decreases attrs.len(),
{
    if attrs.len() == 0 {
        None
    } else if attrs[0].name == key {
        Some(attrs[0].value)
    } else {
        attr_lookup(attrs.skip(1), key)
    }
}

/// The value of attribute `key` on node `n`, if `n` is an element that
/// has it.
pub open spec fn spec_attr(n: FlatNodeView, key: Seq<char>) -> Option<Seq<char>> {
    match n.data {
        NodeDataView::Element { attrs, .. } => attr_lookup(attrs, key),
        _ => None,
    }
}

/// Whether `class` is one of the whitespace-separated words of the
/// node's `class` attribute.
pub open spec fn spec_has_class(n: FlatNodeView, class: Seq<char>) -> bool {
    match spec_attr(n, "class"@) {
        Some(v) => has_word(v, class),
        None => false,
    }
}

/// Whether node `n` is an element named `name`.
pub open spec fn spec_is_named(n: FlatNodeView, name: Seq<char>) -> bool {
    spec_node_name(n) == Some(name)
}

/// Whether node `i`'s parent chain reaches `a` through strictly
/// decreasing indices.
pub open spec fn is_strict_ancestor(nodes: Seq<FlatNodeView>, a: int, i: int) -> bool
    decreases (if i >= 0 { i } else { 0 }),
{
    0 <= i < nodes.len() && match nodes[i].parent {
        Some(p) => 0 <= p < i && (p == a || is_strict_ancestor(nodes, a, p)),
        None => false,
    }
}

/// Whether some ancestor of `i` satisfies `spec_has_class` for
/// `class`.
pub open spec fn spec_ancestor_has_class(nodes: Seq<FlatNodeView>, i: int, class: Seq<char>) -> bool
    decreases (if i >= 0 { i } else { 0 }),
{
    0 <= i < nodes.len() && match nodes[i].parent {
        Some(p) => 0 <= p < i && (spec_has_class(nodes[p], class) || spec_ancestor_has_class(
            nodes,
            p,
            class,
        )),
        None => false,
    }
}

/// Node `j` lies in the subtree rooted at `root` (including the root
/// itself).
pub open spec fn in_subtree(nodes: Seq<FlatNodeView>, root: int, j: int) -> bool {
    0 <= j < nodes.len() && (j == root || is_strict_ancestor(nodes, root, j))
}

/// The element name of node `i`, or `None` for text and comments.
pub fn node_name<'a>(nodes: &'a Vec<FlatNode>, i: usize) -> (r: Option<&'a str>)
    requires
        i < nodes@.len(),
    ensures
        match r {
            Some(s) => spec_node_name(nodes.deep_view()[i as int]) == Some(s@),
            None => spec_node_name(nodes.deep_view()[i as int]) is None,
        },
{
    match &nodes[i].data {
        NodeData::Element { name, .. } => Some(name.as_str()),
        _ => None,
    }
}

/// The value of attribute `key` on node `i`.
pub fn attr_of<'a>(nodes: &'a Vec<FlatNode>, i: usize, key: &str) -> (r: Option<&'a str>)
    requires
        i < nodes@.len(),
    ensures
        match r {
            Some(s) => spec_attr(nodes.deep_view()[i as int], key@) == Some(s@),
            None => spec_attr(nodes.deep_view()[i as int], key@) is None,
        },
{
    proof {
        assert(nodes.deep_view()[i as int] == nodes@[i as int].deep_view());
    }
    match &nodes[i].data {
        NodeData::Element { attrs, .. } => {
            let ghost all = attrs.deep_view();
            proof {
                assert(nodes@[i as int].data matches NodeData::Element { name: _, attrs: a }
                    && a.deep_view() == all);
                assert(spec_attr(nodes.deep_view()[i as int], key@) == attr_lookup(all, key@));
            }
            let mut k: usize = 0;
            proof {
                assert(all.skip(0) =~= all);
            }
            while k < attrs.len()
                invariant
                    0 <= k <= attrs@.len(),
                    i < nodes@.len(),
                    all == attrs.deep_view(),
                    all.len() == attrs@.len(),
                    spec_attr(nodes.deep_view()[i as int], key@) == attr_lookup(all, key@),
                    attr_lookup(all, key@) == attr_lookup(all.skip(k as int), key@),
                decreases attrs@.len() - k,
            {
                if str_eq(attrs[k].name.as_str(), key) {
                    proof {
                        assert(all.skip(k as int)[0] == all[k as int]);
                        assert(attr_lookup(all.skip(k as int), key@) == Some(all[k as int].value));
                        assert(spec_attr(nodes.deep_view()[i as int], key@) == attr_lookup(
                            all,
                            key@,
                        ));
                    }
                    return Some(attrs[k].value.as_str());
                }
                proof {
                    assert(all.skip(k as int)[0] == all[k as int]);
                    assert(all.skip(k as int).skip(1) =~= all.skip(k as int + 1));
                }
                k = k + 1;
            }
            assert(all.skip(k as int).len() == 0);
            None
        },
        _ => None,
    }
}

/// Whether node `i` is an element whose `class` attribute contains the
/// word `class`.
pub fn has_class(nodes: &Vec<FlatNode>, i: usize, class: &str) -> (r: bool)
    requires
        i < nodes@.len(),
    ensures
        r == spec_has_class(nodes.deep_view()[i as int], class@),
{
    match attr_of(nodes, i, "class") {
        Some(v) => crate::text::contains_word(v, class),
        None => false,
    }
}

/// Whether node `i` is an element named `name`.
pub fn is_named(nodes: &Vec<FlatNode>, i: usize, name: &str) -> (r: bool)
    requires
        i < nodes@.len(),
    ensures
        r == spec_is_named(nodes.deep_view()[i as int], name@),
{
    match node_name(nodes, i) {
        Some(s) => str_eq(s, name),
        None => false,
    }
}

/// Whether the parent chain of `i` reaches `anc`.
pub fn has_ancestor(nodes: &Vec<FlatNode>, anc: usize, i: usize) -> (r: bool)
    requires
        i < nodes@.len(),
    ensures
        r == is_strict_ancestor(nodes.deep_view(), anc as int, i as int),
    decreases i,
{
    match nodes[i].parent {
        None => false,
        Some(p) => {
            if p < i {
                if p == anc {
                    true
                } else {
                    has_ancestor(nodes, anc, p)
                }
            } else {
                false
            }
        },
    }
}

/// Whether some ancestor of `i` has class `class`.
pub fn ancestor_has_class(nodes: &Vec<FlatNode>, i: usize, class: &str) -> (r: bool)
    requires
        i < nodes@.len(),
    ensures
        r == spec_ancestor_has_class(nodes.deep_view(), i as int, class@),
    decreases i,
{
    match nodes[i].parent {
        None => false,
        Some(p) => {
            if p < i {
                if has_class(nodes, p, class) {
                    true
                } else {
                    ancestor_has_class(nodes, p, class)
                }
            } else {
                false
            }
        },
    }
}

/// The text a node contributes on its own: its content for a text
/// node, nothing otherwise.
pub open spec fn own_text(n: FlatNodeView) -> Seq<char> {
    match n.data {
        NodeDataView::Text(t) => t,
        _ => Seq::empty(),
    }
}

/// The combined text of the subtree of `root`, over arena indices
/// below `k`.
pub open spec fn text_upto(nodes: Seq<FlatNodeView>, root: int, k: int) -> Seq<char>
    decreases (if k >= 0 { k } else { 0 }),
{
    if k <= 0 {
        Seq::empty()
    } else {
        text_upto(nodes, root, k - 1) + (if in_subtree(nodes, root, k - 1) {
            own_text(nodes[k - 1])
        } else {
            Seq::empty()
        })
    }
}

/// The combined textual content of node `root` and all its
/// descendants, in document order.
pub open spec fn subtree_text(nodes: Seq<FlatNodeView>, root: int) -> Seq<char> {
    text_upto(nodes, root, nodes.len() as int)
}

/// Collect the combined textual content of the subtree of `root`.
pub fn node_text(nodes: &Vec<FlatNode>, root: usize) -> (r: String)
    requires
        root < nodes@.len(),
    ensures
        r@ == subtree_text(nodes.deep_view(), root as int),
{
    let ghost all = nodes.deep_view();
    let mut out = String::new();
    let mut j: usize = 0;
    while j < nodes.len()
        invariant
            0 <= j <= nodes@.len(),
            all == nodes.deep_view(),
            all.len() == nodes@.len(),
            root < nodes@.len(),
            out@ == text_upto(all, root as int, j as int),
        decreases nodes@.len() - j,
    {
        let inside = j == root || has_ancestor(nodes, root, j);
        if inside {
            match &nodes[j].data {
                NodeData::Text(t) => {
                    out.append(t.as_str());
                },
                _ => {
                    proof {
                        assert(out@ + own_text(all[j as int]) =~= out@);
                    }
                },
            }
        } else {
            proof {
                assert(out@ + Seq::<char>::empty() =~= out@);
            }
        }
        j = j + 1;
    }
    out
}

/// The first index at or after `from` that lies in the subtree of
/// `root` (excluding the root itself) and has class `class`.
pub open spec fn first_desc_class(
    nodes: Seq<FlatNodeView>,
    root: int,
    from: int,
    class: Seq<char>,
) -> Option<int>
    decreases nodes.len() - from when 0 <= from <= nodes.len()
{
    if from >= nodes.len() {
        None
    } else if is_strict_ancestor(nodes, root, from) && spec_has_class(nodes[from], class) {
        Some(from)
    } else {
        first_desc_class(nodes, root, from + 1, class)
    }
}

/// The first index at or after `from` in the subtree of `root`
/// (excluding the root) that is an element named `name`.
pub open spec fn first_desc_named(
    nodes: Seq<FlatNodeView>,
    root: int,
    from: int,
    name: Seq<char>,
) -> Option<int>
    decreases nodes.len() - from when 0 <= from <= nodes.len()
{
    if from >= nodes.len() {
        None
    } else if is_strict_ancestor(nodes, root, from) && spec_is_named(nodes[from], name) {
        Some(from)
    } else {
        first_desc_named(nodes, root, from + 1, name)
    }
}

/// Find the first descendant of `root` (in document order) with class
/// `class`.
pub fn find_desc_class(nodes: &Vec<FlatNode>, root: usize, class: &str) -> (r: Option<usize>)
    requires
        root < nodes@.len(),
    ensures
        match r {
            Some(j) => j < nodes@.len() && first_desc_class(nodes.deep_view(), root as int, 0, class@)
                == Some(j as int),
            None => first_desc_class(nodes.deep_view(), root as int, 0, class@) is None,
        },
{
    let ghost all = nodes.deep_view();
    let mut j: usize = 0;
    while j < nodes.len()
        invariant
            0 <= j <= nodes@.len(),
            all == nodes.deep_view(),
            all.len() == nodes@.len(),
            root < nodes@.len(),
            first_desc_class(all, root as int, 0, class@) == first_desc_class(
                all,
                root as int,
                j as int,
                class@,
            ),
        decreases nodes@.len() - j,
    {
        if has_ancestor(nodes, root, j) && has_class(nodes, j, class) {
            return Some(j);
        }
        j = j + 1;
    }
    None
}

/// Find the first descendant of `root` (in document order) that is an
/// element named `name`.
pub fn find_desc_named(nodes: &Vec<FlatNode>, root: usize, name: &str) -> (r: Option<usize>)
    requires
        root < nodes@.len(),
    ensures
        match r {
            Some(j) => j < nodes@.len() && first_desc_named(nodes.deep_view(), root as int, 0, name@)
                == Some(j as int),
            None => first_desc_named(nodes.deep_view(), root as int, 0, name@) is None,
        },
{
    let ghost all = nodes.deep_view();
    let mut j: usize = 0;
    while j < nodes.len()
        invariant
            0 <= j <= nodes@.len(),
            all == nodes.deep_view(),
            all.len() == nodes@.len(),
            root < nodes@.len(),
            first_desc_named(all, root as int, 0, name@) == first_desc_named(
                all,
                root as int,
                j as int,
                name@,
            ),
        decreases nodes@.len() - j,
    {
        if has_ancestor(nodes, root, j) && is_named(nodes, j, name) {
            return Some(j);
        }
        j = j + 1;
    }
    None
}

} // verus!
