//! Reading `uiautomator` hierarchy dumps: the XML tree, the nodes it
//! describes, and lookups of interactive elements in it.
use vstd::prelude::*;
use crate::error::{ErrorKind, McpError};
use crate::text::{append_str, chars_eq, chars_of, contains, contains_chars, lower, lower_chars, lower_str, str_eq, string_of, trim, trimmed};
use crate::ui::{MatchCandidates, NormalizedUiNode, UiBounds, UiSelector, matches_text, opt_view, parse_bounds, selector_matches, spec_parse_bounds, spec_selector_matches, text_matches};
use crate::verification::{opt_str};

verus! {

/// An attribute of an XML element.
#[derive(Debug, Clone)]
pub struct XmlAttribute {
    pub namespace: Option<String>,
    pub name: String,
    pub value: String,
}

/// A node of a parsed XML document, in document order: its kind, element
/// name and attributes, its parent, and the last node of its subtree.
#[derive(Debug, Clone)]
pub struct XmlNode {
    pub is_element: bool,
    pub name: String,
    pub attributes: Vec<XmlAttribute>,
    pub parent: Option<usize>,
    pub last_descendant: Option<usize>,
}

/// The plain value of an attribute.
pub struct AttributeView {
    pub namespace: Option<Seq<char>>,
    pub name: Seq<char>,
    pub value: Seq<char>,
}

/// The plain value of a node.
pub struct NodeView {
    pub is_element: bool,
    pub name: Seq<char>,
    pub attributes: Seq<AttributeView>,
    pub parent: Option<int>,
    pub last_descendant: Option<int>,
}

impl View for XmlAttribute {
    type V = AttributeView;

    open spec fn view(&self) -> AttributeView {
        AttributeView { namespace: opt_view(self.namespace), name: self.name@, value: self.value@ }
    }
}

impl View for XmlNode {
    type V = NodeView;

    open spec fn view(&self) -> NodeView {
        NodeView {
            is_element: self.is_element,
            name: self.name@,
            attributes: self.attributes@.map_values(|a: XmlAttribute| a@),
            parent: match self.parent {
                Some(p) => Some(p as int),
                None => None,
            },
            last_descendant: match self.last_descendant {
                Some(l) => Some(l as int),
                None => None,
            },
        }
    }
}

/// The nodes of a document as plain values.
pub open spec fn doc_view(d: Seq<XmlNode>) -> Seq<NodeView> {
    d.map_values(|n: XmlNode| n@)
}

/// What `roxmltree::Document::parse` makes of a text: its nodes in
/// document order, or the parse error's message.
pub uninterp spec fn parsed_xml(xml: Seq<char>) -> Result<Seq<NodeView>, Seq<char>>;

/// Each node's parent comes before it, and its subtree runs from it to its
/// last descendant.
pub open spec fn well_formed(d: Seq<NodeView>) -> bool {
    forall|i: int|
        0 <= i < d.len() ==> {
            &&& (#[trigger] d[i]).last_descendant matches Some(l) && i <= l < d.len()
            &&& d[i].parent matches Some(p) ==> 0 <= p < i
        }
}

/// Parses an XML document with `roxmltree::Document::parse`.
///
/// The result is named by `parsed_xml`; besides, the nodes come in
/// document order (the order of roxmltree's node ids), so a parent comes
/// before its children and a subtree is the run from a node to its last
/// descendant.
#[verifier::external_body]
fn parse_xml_document(xml: &str) -> (r: Result<Vec<XmlNode>, String>)
    ensures
        match r {
            Ok(nodes) => parsed_xml(xml@) == Ok::<Seq<NodeView>, Seq<char>>(doc_view(nodes@))
                && well_formed(doc_view(nodes@)),
            Err(e) => parsed_xml(xml@) == Err::<Seq<NodeView>, Seq<char>>(e@),
        },
{
    let doc = roxmltree::Document::parse(xml).map_err(|e| e.to_string())?;
    Ok(doc.descendants().map(|n| XmlNode {
        is_element: n.is_element(),
        name: n.tag_name().name().to_string(),
        attributes: n.attributes().map(|a| XmlAttribute {
            namespace: a.namespace().map(str::to_string),
            name: a.name().to_string(),
            value: a.value().to_string(),
        }).collect(),
        parent: n.parent().map(|p| p.id().get_usize()),
        last_descendant: n.descendants().last().map(|l| l.id().get_usize()),
    }).collect())
}

// ---------------------------------------------------------------------------
// Attributes.
// ---------------------------------------------------------------------------

/// The value of the first attribute named `name` without a namespace.
pub open spec fn attr_in(attrs: Seq<AttributeView>, name: Seq<char>) -> Option<Seq<char>>
    decreases attrs.len(),
{
    if attrs.len() == 0 {
        None
    } else if attrs[0].namespace is None && attrs[0].name == name {
        Some(attrs[0].value)
    } else {
        attr_in(attrs.drop_first(), name)
    }
}

pub open spec fn node_attr(n: NodeView, name: Seq<char>) -> Option<Seq<char>> {
    attr_in(n.attributes, name)
}

/// `Node::attribute`.
pub fn attribute<'a>(node: &'a XmlNode, name: &str) -> (r: Option<&'a str>)
    ensures
        opt_str(r) == node_attr(node@, name@),
{
    let ghost av = node@.attributes;
    assert(av.subrange(0, av.len() as int) =~= av);
    let mut i: usize = 0;
    while i < node.attributes.len()
        invariant
            i <= node.attributes@.len(),
            av == node@.attributes,
            av.len() == node.attributes@.len(),
            attr_in(av.subrange(i as int, av.len() as int), name@) == attr_in(av, name@),
        decreases node.attributes.len() - i,
    {
        let ghost rest = av.subrange(i as int, av.len() as int);
        let a = &node.attributes[i];
        assert(rest[0] == a@);
        if a.namespace.is_none() && str_eq(a.name.as_str(), name) {
            return Some(a.value.as_str());
        }
        assert(rest.drop_first() =~= av.subrange(i + 1, av.len() as int));
        i = i + 1;
    }
    assert(av.subrange(i as int, av.len() as int) =~= Seq::<AttributeView>::empty());
    None
}

/// The attribute's value trimmed, when it is not blank.
pub open spec fn spec_non_empty_attr(n: NodeView, name: Seq<char>) -> Option<Seq<char>> {
    match node_attr(n, name) {
        Some(v) => if trim(v).len() > 0 {
            Some(trim(v))
        } else {
            None
        },
        None => None,
    }
}

pub fn non_empty_attr(node: &XmlNode, name: &str) -> (r: Option<String>)
    ensures
        opt_view(r) == spec_non_empty_attr(node@, name@),
{
    match attribute(node, name) {
        Some(v) => {
            let t = trimmed(v);
            if t.len() > 0 {
                Some(string_of(t.as_slice()))
            } else {
                None
            }
        },
        None => None,
    }
}

/// The attribute is `true`.
pub open spec fn spec_bool_attr(n: NodeView, name: Seq<char>) -> bool {
    node_attr(n, name) == Some("true"@)
}

pub fn bool_attr(node: &XmlNode, name: &str) -> (r: bool)
    ensures
        r == spec_bool_attr(node@, name@),
{
    match attribute(node, name) {
        Some(v) => str_eq(v, "true"),
        None => false,
    }
}

/// The attribute is `true`, or missing.
pub open spec fn spec_bool_attr_default_true(n: NodeView, name: Seq<char>) -> bool {
    match node_attr(n, name) {
        Some(v) => v == "true"@,
        None => true,
    }
}

pub fn bool_attr_default_true(node: &XmlNode, name: &str) -> (r: bool)
    ensures
        r == spec_bool_attr_default_true(node@, name@),
{
    match attribute(node, name) {
        Some(v) => str_eq(v, "true"),
        None => true,
    }
}

// ---------------------------------------------------------------------------
// Nodes of the hierarchy.
// ---------------------------------------------------------------------------

/// A `<node>` element of the hierarchy.
pub open spec fn is_ui_node(n: NodeView) -> bool {
    n.is_element && n.name == "node"@
}

fn is_ui_node_exec(n: &XmlNode) -> (r: bool)
    ensures
        r == is_ui_node(n@),
{
    n.is_element && str_eq(n.name.as_str(), "node")
}

/// The text, else the content description, of a node.
pub open spec fn own_label(n: NodeView) -> Option<Seq<char>> {
    match spec_non_empty_attr(n, "text"@) {
        Some(t) => Some(t),
        None => spec_non_empty_attr(n, "content-desc"@),
    }
}

/// The first label of a `<node>` among the nodes from `from` up to `to`.
pub open spec fn first_descendant_label(d: Seq<NodeView>, from: int, to: int) -> Option<Seq<char>>
    decreases to - from,
{
    if from >= to || from < 0 || from >= d.len() {
        None
    } else if is_ui_node(d[from]) && own_label(d[from]) is Some {
        own_label(d[from])
    } else {
        first_descendant_label(d, from + 1, to)
    }
}

/// The end of a node's subtree (one past its last descendant).
pub open spec fn subtree_end(d: Seq<NodeView>, i: int) -> int {
    match d[i].last_descendant {
        Some(l) => l + 1,
        None => i + 1,
    }
}

/// The label of a node: its text, else its content description, else for
/// an interactive node the first label of a `<node>` inside it.
pub open spec fn spec_semantic_label(d: Seq<NodeView>, i: int) -> Option<Seq<char>> {
    match own_label(d[i]) {
        Some(l) => Some(l),
        None => if spec_bool_attr(d[i], "clickable"@) || spec_bool_attr(d[i], "focusable"@) {
            first_descendant_label(d, i + 1, subtree_end(d, i))
        } else {
            None
        },
    }
}

fn own_label_exec(n: &XmlNode) -> (r: Option<String>)
    ensures
        opt_view(r) == own_label(n@),
{
    match non_empty_attr(n, "text") {
        Some(t) => Some(t),
        None => non_empty_attr(n, "content-desc"),
    }
}

fn last_of(doc: &Vec<XmlNode>, i: usize) -> (r: usize)
    requires
        well_formed(doc_view(doc@)),
        i < doc@.len(),
    ensures
        r as int == subtree_end(doc_view(doc@), i as int),
        i < r <= doc@.len(),
{
    let ghost d = doc_view(doc@);
    assert(d[i as int] == doc@[i as int]@);
    assert(d[i as int].last_descendant matches Some(l) && i <= l < d.len());
    let n = doc.len();
    match doc[i].last_descendant {
        Some(l) => {
            assert(d[i as int].last_descendant == Some(l as int));
            assert(d.len() == doc@.len());
            assert(l < n);
            l + 1
        },
        None => i + 1,
    }
}

pub fn semantic_label_from_xml(doc: &Vec<XmlNode>, i: usize) -> (r: Option<String>)
    requires
        well_formed(doc_view(doc@)),
        i < doc@.len(),
    ensures
        opt_view(r) == spec_semantic_label(doc_view(doc@), i as int),
{
    let ghost d = doc_view(doc@);
    let node = &doc[i];
    assert(d[i as int] == node@);
    match own_label_exec(node) {
        Some(l) => {
            return Some(l);
        },
        None => {},
    }
    if !(bool_attr(node, "clickable") || bool_attr(node, "focusable")) {
        return None;
    }
    let end = last_of(doc, i);
    let mut j: usize = i + 1;
    while j < end
        invariant
            i < j <= end <= doc@.len(),
            d == doc_view(doc@),
            end as int == subtree_end(d, i as int),
            own_label(d[i as int]) is None,
            spec_bool_attr(d[i as int], "clickable"@) || spec_bool_attr(d[i as int], "focusable"@),
            first_descendant_label(d, j as int, end as int) == first_descendant_label(
                d,
                i + 1,
                end as int,
            ),
        decreases end - j,
    {
        assert(d[j as int] == doc@[j as int]@);
        if is_ui_node_exec(&doc[j]) {
            match own_label_exec(&doc[j]) {
                Some(l) => {
                    return Some(l);
                },
                None => {},
            }
        }
        j = j + 1;
    }
    None
}

/// The bounds of an interactive node (clickable or focusable), when they
/// parse.
pub open spec fn spec_interactive_bounds(n: NodeView) -> Option<UiBounds> {
    if spec_bool_attr(n, "clickable"@) || spec_bool_attr(n, "focusable"@) {
        match node_attr(n, "bounds"@) {
            Some(b) => spec_parse_bounds(b),
            None => None,
        }
    } else {
        None
    }
}

pub fn interactive_bounds_from_node(node: &XmlNode) -> (r: Option<UiBounds>)
    ensures
        r == spec_interactive_bounds(node@),
{
    if bool_attr(node, "clickable") || bool_attr(node, "focusable") {
        match attribute(node, "bounds") {
            Some(b) => parse_bounds(b),
            None => None,
        }
    } else {
        None
    }
}

/// The bounds attribute, when it parses.
pub open spec fn spec_node_bounds(n: NodeView) -> Option<UiBounds> {
    match node_attr(n, "bounds"@) {
        Some(b) => spec_parse_bounds(b),
        None => None,
    }
}

/// `r` is the normalized form of node `i`.
pub open spec fn normalized_from(d: Seq<NodeView>, i: int, r: NormalizedUiNode) -> bool {
    let n = d[i];
    &&& opt_view(r.class_name) == spec_non_empty_attr(n, "class"@)
    &&& opt_view(r.package_name) == spec_non_empty_attr(n, "package"@)
    &&& opt_view(r.text) == spec_non_empty_attr(n, "text"@)
    &&& opt_view(r.semantic_label) == spec_semantic_label(d, i)
    &&& opt_view(r.content_desc) == spec_non_empty_attr(n, "content-desc"@)
    &&& opt_view(r.resource_id) == spec_non_empty_attr(n, "resource-id"@)
    &&& r.clickable == spec_bool_attr(n, "clickable"@)
    &&& r.focusable == spec_bool_attr(n, "focusable"@)
    &&& r.enabled == spec_bool_attr_default_true(n, "enabled"@)
    &&& r.selected == spec_bool_attr(n, "selected"@)
    &&& r.checked == spec_bool_attr(n, "checked"@)
    &&& r.focused == spec_bool_attr(n, "focused"@)
    &&& r.scrollable == spec_bool_attr(n, "scrollable"@)
    &&& r.long_clickable == spec_bool_attr(n, "long-clickable"@)
    &&& r.bounds == spec_node_bounds(n)
    &&& r.center == match spec_node_bounds(n) {
        Some(b) => Some(b.spec_center()),
        None => None,
    }
}

pub fn normalized_ui_node_from_xml(doc: &Vec<XmlNode>, i: usize) -> (r: NormalizedUiNode)
    requires
        well_formed(doc_view(doc@)),
        i < doc@.len(),
    ensures
        normalized_from(doc_view(doc@), i as int, r),
{
    let node = &doc[i];
    assert(doc_view(doc@)[i as int] == node@);
    let bounds = match attribute(node, "bounds") {
        Some(b) => parse_bounds(b),
        None => None,
    };
    NormalizedUiNode {
        class_name: non_empty_attr(node, "class"),
        package_name: non_empty_attr(node, "package"),
        text: non_empty_attr(node, "text"),
        semantic_label: semantic_label_from_xml(doc, i),
        content_desc: non_empty_attr(node, "content-desc"),
        resource_id: non_empty_attr(node, "resource-id"),
        clickable: bool_attr(node, "clickable"),
        focusable: bool_attr(node, "focusable"),
        enabled: bool_attr_default_true(node, "enabled"),
        selected: bool_attr(node, "selected"),
        checked: bool_attr(node, "checked"),
        focused: bool_attr(node, "focused"),
        scrollable: bool_attr(node, "scrollable"),
        long_clickable: bool_attr(node, "long-clickable"),
        center: match bounds {
            Some(b) => Some(b.center()),
            None => None,
        },
        bounds,
    }
}

/// The positions of the `<node>` elements among the first `k` nodes.
pub open spec fn ui_node_indices(d: Seq<NodeView>, k: int) -> Seq<int>
    decreases k,
{
    if k <= 0 {
        Seq::<int>::empty()
    } else if is_ui_node(d[k - 1]) {
        ui_node_indices(d, k - 1).push(k - 1)
    } else {
        ui_node_indices(d, k - 1)
    }
}

proof fn lemma_ui_node_indices_bounds(d: Seq<NodeView>, k: int)
    requires
        0 <= k,
    ensures
        forall|j: int|
            0 <= j < ui_node_indices(d, k).len() ==> 0 <= #[trigger] ui_node_indices(d, k)[j] < k,
    decreases k,
{
    if k > 0 {
        lemma_ui_node_indices_bounds(d, k - 1);
        let prev = ui_node_indices(d, k - 1);
        if is_ui_node(d[k - 1]) {
            assert forall|j: int| 0 <= j < prev.push(k - 1).len() implies 0 <= #[trigger] prev.push(
                k - 1,
            )[j] < k by {
                if j < prev.len() {
                    assert(prev.push(k - 1)[j] == prev[j]);
                }
            }
        }
    }
}

/// The error a hierarchy that does not parse is reported with.
pub open spec fn parse_error(xml: Seq<char>) -> Option<Seq<char>> {
    match parsed_xml(xml) {
        Ok(_) => None,
        Err(m) => Some(m),
    }
}

/// The `<node>` elements of a hierarchy, normalized, in document order.
pub fn parse_ui_nodes_from_xml(xml: &str) -> (r: Result<Vec<NormalizedUiNode>, McpError>)
    ensures
        match parsed_xml(xml@) {
            Err(m) => r matches Err(e) && e.kind == ErrorKind::InternalError && e.message@ == m,
            Ok(d) => r matches Ok(ns) && {
                let idx = ui_node_indices(d, d.len() as int);
                &&& ns@.len() == idx.len()
                &&& forall|k: int| 0 <= k < idx.len() ==> normalized_from(d, idx[k], #[trigger] ns@[k])
            },
        },
{
    let doc = match parse_xml_document(xml) {
        Ok(d) => d,
        Err(e) => {
            return Err(McpError::internal_error(e));
        },
    };
    let ghost d = doc_view(doc@);
    let mut out: Vec<NormalizedUiNode> = Vec::new();
    let mut i: usize = 0;
    while i < doc.len()
        invariant
            i <= doc@.len(),
            d == doc_view(doc@),
            well_formed(d),
            out@.len() == ui_node_indices(d, i as int).len(),
            forall|k: int|
                0 <= k < out@.len() ==> normalized_from(d, ui_node_indices(d, i as int)[k], #[trigger] out@[k]),
        decreases doc.len() - i,
    {
        assert(d[i as int] == doc@[i as int]@);
        if is_ui_node_exec(&doc[i]) {
            let n = normalized_ui_node_from_xml(&doc, i);
            let ghost before = out@;
            out.push(n);
            assert forall|k: int| 0 <= k < out@.len() implies normalized_from(
                d,
                ui_node_indices(d, i + 1)[k],
                #[trigger] out@[k],
            ) by {
                if k < before.len() {
                    assert(out@[k] == before[k]);
                }
            }
        }
        i = i + 1;
    }
    Ok(out)
}


// ---------------------------------------------------------------------------
// Finding interactive elements.
// ---------------------------------------------------------------------------

/// A `<node>` among positions `from` up to `to` shows `wanted` in its text
/// or content description (as `matches_text` compares).
pub open spec fn descendant_text_match(d: Seq<NodeView>, from: int, to: int, wanted: Seq<char>, exact: bool) -> bool {
    exists|j: int|
        from <= j < to && 0 <= j < d.len() && is_ui_node(#[trigger] d[j]) && (text_matches(
            spec_non_empty_attr(d[j], "text"@),
            wanted,
            exact,
        ) || text_matches(spec_non_empty_attr(d[j], "content-desc"@), wanted, exact))
}

/// The selector without its label criterion.
pub open spec fn without_label(sel: UiSelector) -> UiSelector {
    UiSelector { label: None, label_exact: None, ..sel }
}

/// Node `i` (normalized as `n`) is what the selector asks for: it matches
/// the selector, or it matches all but the label and a `<node>` inside it
/// shows the (trimmed, non-blank) label.
pub open spec fn spec_interactive_match(d: Seq<NodeView>, i: int, n: NormalizedUiNode, sel: UiSelector) -> bool {
    spec_selector_matches(n, sel) || match sel.label {
        Some(l) => trim(l@).len() > 0 && spec_selector_matches(n, without_label(sel))
            && descendant_text_match(d, i + 1, subtree_end(d, i), trim(l@), sel.label_exact == Some(true)),
        None => false,
    }
}

pub fn interactive_selector_matches(
    doc: &Vec<XmlNode>,
    i: usize,
    normalized: &NormalizedUiNode,
    selector: &UiSelector,
) -> (r: bool)
    requires
        well_formed(doc_view(doc@)),
        i < doc@.len(),
    ensures
        r == spec_interactive_match(doc_view(doc@), i as int, *normalized, *selector),
{
    let ghost d = doc_view(doc@);
    if selector_matches(normalized, selector) {
        return true;
    }
    let label = match &selector.label {
        Some(l) => l,
        None => {
            return false;
        },
    };
    let wanted = trimmed(label.as_str());
    if wanted.len() == 0 {
        return false;
    }
    let mut without = selector.duplicate();
    without.label = None;
    without.label_exact = None;
    assert(without == without_label(*selector));
    if !selector_matches(normalized, &without) {
        return false;
    }
    let exact = match selector.label_exact {
        Some(b) => b,
        None => false,
    };
    let end = last_of(doc, i);
    let mut j: usize = i + 1;
    while j < end
        invariant
            i < j <= end <= doc@.len(),
            d == doc_view(doc@),
            end as int == subtree_end(d, i as int),
            selector.label == Some(*label),
            wanted@ == trim(label@),
            wanted@.len() > 0,
            spec_selector_matches(*normalized, without_label(*selector)),
            exact == (selector.label_exact == Some(true)),
            forall|k: int|
                i + 1 <= k < j ==> !(is_ui_node(#[trigger] d[k]) && (text_matches(
                    spec_non_empty_attr(d[k], "text"@),
                    wanted@,
                    exact,
                ) || text_matches(spec_non_empty_attr(d[k], "content-desc"@), wanted@, exact))),
        decreases end - j,
    {
        assert(d[j as int] == doc@[j as int]@);
        if is_ui_node_exec(&doc[j]) {
            let t = non_empty_attr(&doc[j], "text");
            let c = non_empty_attr(&doc[j], "content-desc");
            if matches_text(t.as_ref(), wanted.as_slice(), exact) || matches_text(
                c.as_ref(),
                wanted.as_slice(),
                exact,
            ) {
                assert(descendant_text_match(d, i + 1, end as int, wanted@, exact));
                return true;
            }
        }
        j = j + 1;
    }
    false
}

/// The nearest node from `i` up its ancestors (itself first) with
/// interactive bounds, and those bounds.
pub open spec fn interactive_ancestor(d: Seq<NodeView>, i: int) -> Option<(int, UiBounds)>
    decreases i,
{
    if i < 0 || i >= d.len() {
        None
    } else {
        match spec_interactive_bounds(d[i]) {
            Some(b) => Some((i, b)),
            None => match d[i].parent {
                Some(p) => if 0 <= p < i {
                    interactive_ancestor(d, p)
                } else {
                    None
                },
                None => None,
            },
        }
    }
}

fn interactive_ancestor_exec(doc: &Vec<XmlNode>, i: usize) -> (r: Option<(usize, UiBounds)>)
    requires
        well_formed(doc_view(doc@)),
        i < doc@.len(),
    ensures
        match interactive_ancestor(doc_view(doc@), i as int) {
            Some((j, b)) => r matches Some((rj, rb)) && rj == j && rb == b && j < doc@.len(),
            None => r is None,
        },
{
    let ghost d = doc_view(doc@);
    let mut j: usize = i;
    loop
        invariant
            j < doc@.len(),
            d == doc_view(doc@),
            well_formed(d),
            interactive_ancestor(d, j as int) == interactive_ancestor(d, i as int),
        decreases j,
    {
        assert(d[j as int] == doc@[j as int]@);
        match interactive_bounds_from_node(&doc[j]) {
            Some(b) => {
                return Some((j, b));
            },
            None => {},
        }
        match doc[j].parent {
            Some(p) => {
                assert(d[j as int].parent == Some(p as int));
                assert(d[j as int].parent matches Some(q) ==> 0 <= q < j);
                j = p;
            },
            None => {
                return None;
            },
        }
    }
}

/// One interactive match: the position of the node it stands for, and the
/// bounds it is reported with.
pub open spec fn pick(d: Seq<NodeView>, ns: Seq<NormalizedUiNode>, sel: UiSelector, i: int) -> Option<(int, Option<UiBounds>)> {
    if !spec_interactive_match(d, i, ns[i], sel) {
        None
    } else {
        match interactive_ancestor(d, i) {
            Some((j, b)) => Some((j, Some(b))),
            None => Some((i, ns[i].bounds)),
        }
    }
}

/// The interactive matches of the nodes at `idx`, in order, each bounds
/// reported once.
pub open spec fn picks(d: Seq<NodeView>, ns: Seq<NormalizedUiNode>, sel: UiSelector, idx: Seq<int>) -> Seq<(int, Option<UiBounds>)>
    decreases idx.len(),
{
    if idx.len() == 0 {
        Seq::empty()
    } else {
        let prev = picks(d, ns, sel, idx.drop_last());
        match pick(d, ns, sel, idx.last()) {
            None => prev,
            Some((j, b)) => if exists|k: int| 0 <= k < prev.len() && (#[trigger] prev[k]).1 == b {
                prev
            } else {
                prev.push((j, b))
            },
        }
    }
}

/// `r` is node `n` reported with bounds `b`.
pub open spec fn reported_as(r: NormalizedUiNode, n: NormalizedUiNode, b: Option<UiBounds>) -> bool {
    r == NormalizedUiNode {
        bounds: b,
        center: match b {
            Some(bb) => Some(bb.spec_center()),
            None => None,
        },
        ..n
    }
}

/// `ns` holds each node of the document, normalized.
pub open spec fn normalized_all(d: Seq<NodeView>, ns: Seq<NormalizedUiNode>) -> bool {
    ns.len() == d.len() && forall|i: int| 0 <= i < d.len() ==> normalized_from(d, i, #[trigger] ns[i])
}

fn normalize_all(doc: &Vec<XmlNode>) -> (r: Vec<NormalizedUiNode>)
    requires
        well_formed(doc_view(doc@)),
    ensures
        normalized_all(doc_view(doc@), r@),
{
    let mut out: Vec<NormalizedUiNode> = Vec::new();
    let mut i: usize = 0;
    while i < doc.len()
        invariant
            i <= doc@.len(),
            well_formed(doc_view(doc@)),
            out@.len() == i,
            forall|k: int| 0 <= k < i ==> normalized_from(doc_view(doc@), k, #[trigger] out@[k]),
        decreases doc.len() - i,
    {
        out.push(normalized_ui_node_from_xml(doc, i));
        i = i + 1;
    }
    out
}

/// `ms` are the interactive matches of `sel` in the document whose nodes
/// `ns` holds normalized.
#[verifier::opaque]
pub open spec fn interactive_result(
    d: Seq<NodeView>,
    sel: UiSelector,
    ms: Seq<NormalizedUiNode>,
    ns: Seq<NormalizedUiNode>,
) -> bool {
    let ps = picks(d, ns, sel, ui_node_indices(d, d.len() as int));
    &&& normalized_all(d, ns)
    &&& ms.len() == ps.len()
    &&& forall|k: int| 0 <= k < ps.len() ==> reported_as(#[trigger] ms[k], ns[ps[k].0], ps[k].1)
}

/// The matches of a selector among the interactive elements of a
/// hierarchy: each `<node>` the selector designates stands for its nearest
/// interactive ancestor (itself first), reported with that ancestor's
/// bounds; a match whose bounds were already reported is dropped.
pub fn find_interactive_ui_node(xml: &str, selector: &UiSelector) -> (r: Result<MatchCandidates, McpError>)
    ensures
        parsed_xml(xml@) matches Err(m) ==> (r matches Err(e) && e.kind == ErrorKind::InternalError
            && e.message@ == m),
        parsed_xml(xml@) matches Ok(d) ==> (r matches Ok(c) && exists|ns: Seq<NormalizedUiNode>|
            #[trigger] interactive_result(d, *selector, c.matches@, ns)),
{
    let doc = match parse_xml_document(xml) {
        Ok(d) => d,
        Err(e) => {
            return Err(McpError::internal_error(e));
        },
    };
    let ghost d = doc_view(doc@);
    let all = normalize_all(&doc);
    let ghost ns = all@;
    let mut matches: Vec<NormalizedUiNode> = Vec::new();
    let ghost mut ps: Seq<(int, Option<UiBounds>)> = Seq::empty();
    let mut i: usize = 0;
    while i < doc.len()
        invariant
            i <= doc@.len(),
            d == doc_view(doc@),
            parsed_xml(xml@) == Ok::<Seq<NodeView>, Seq<char>>(d),
            well_formed(d),
            ns == all@,
            normalized_all(d, ns),
            ps == picks(d, ns, *selector, ui_node_indices(d, i as int)),
            matches@.len() == ps.len(),
            forall|k: int| 0 <= k < ps.len() ==> 0 <= (#[trigger] ps[k]).0 < d.len(),
            forall|k: int| 0 <= k < ps.len() ==> reported_as(#[trigger] matches@[k], ns[ps[k].0], ps[k].1),
        decreases doc.len() - i,
    {
        assert(d[i as int] == doc@[i as int]@);
        assert(ui_node_indices(d, i + 1) == if is_ui_node(d[i as int]) {
            ui_node_indices(d, i as int).push(i as int)
        } else {
            ui_node_indices(d, i as int)
        });
        if is_ui_node_exec(&doc[i]) {
            assert(ui_node_indices(d, i as int).push(i as int).drop_last() =~= ui_node_indices(
                d,
                i as int,
            ));
            if interactive_selector_matches(&doc, i, &all[i], selector) {
                let (j, bounds) = match interactive_ancestor_exec(&doc, i) {
                    Some((j, b)) => (j, Some(b)),
                    None => (i, all[i].bounds),
                };
                let seen = bounds_reported(&matches, bounds);
                assert(seen == exists|q: int| 0 <= q < ps.len() && (#[trigger] ps[q]).1 == bounds) by {
                    if seen {
                        let q = choose|q: int| 0 <= q < matches@.len() && (#[trigger] matches@[q]).bounds == bounds;
                        assert(reported_as(matches@[q], ns[ps[q].0], ps[q].1));
                    }
                    if exists|q: int| 0 <= q < ps.len() && (#[trigger] ps[q]).1 == bounds {
                        let q = choose|q: int| 0 <= q < ps.len() && (#[trigger] ps[q]).1 == bounds;
                        assert(reported_as(matches@[q], ns[ps[q].0], ps[q].1));
                    }
                }
                if !seen {
                    let base = all[j].duplicate();
                    let entry = NormalizedUiNode {
                        center: match bounds {
                            Some(b) => Some(b.center()),
                            None => None,
                        },
                        bounds,
                        ..base
                    };
                    let ghost before = matches@;
                    matches.push(entry);
                    proof {
                        ps = ps.push((j as int, bounds));
                        assert forall|q: int| 0 <= q < ps.len() implies reported_as(
                            #[trigger] matches@[q],
                            ns[ps[q].0],
                            ps[q].1,
                        ) by {
                            if q < before.len() {
                                assert(matches@[q] == before[q]);
                            }
                        }
                    }
                }
            }
        }
        i = i + 1;
    }
    assert(ps == picks(d, ns, *selector, ui_node_indices(d, d.len() as int)));
    let c = MatchCandidates { matches };
    assert(interactive_result(d, *selector, c.matches@, ns)) by {
        reveal(interactive_result);
    }
    assert(parsed_xml(xml@) == Ok::<Seq<NodeView>, Seq<char>>(d));
    let r: Result<MatchCandidates, McpError> = Ok(c);
    assert(r matches Ok(cc) && cc.matches@ == c.matches@);
    assert(exists|ns2: Seq<NormalizedUiNode>| #[trigger] interactive_result(d, *selector, c.matches@, ns2));
    assert(parsed_xml(xml@)->Ok_0 == d);
    assert(parsed_xml(xml@) matches Ok(dd) && dd == d);
    r
}

fn bounds_reported(matches: &Vec<NormalizedUiNode>, bounds: Option<UiBounds>) -> (r: bool)
    ensures
        r == exists|q: int| 0 <= q < matches@.len() && (#[trigger] matches@[q]).bounds == bounds,
{
    let mut k: usize = 0;
    while k < matches.len()
        invariant
            k <= matches@.len(),
            forall|q: int| 0 <= q < k ==> (#[trigger] matches@[q]).bounds != bounds,
        decreases matches.len() - k,
    {
        if matches[k].bounds == bounds {
            return true;
        }
        k = k + 1;
    }
    false
}

/// Where a label was found.
#[derive(Debug, Clone, Copy, PartialEq, Eq)]
pub struct UiNodeMatch {
    pub bounds: UiBounds,
}

/// An attribute value shows `wanted` (already lower-cased): equal to it
/// after trimming, ignoring ASCII case, or containing it in lower case.
pub open spec fn shows_label(o: Option<Seq<char>>, wanted: Seq<char>) -> bool {
    match o {
        Some(v) => lower(trim(v)) == lower(wanted) || contains(lower(v), wanted),
        None => false,
    }
}

/// The bounds a labelled node is tapped at: its nearest interactive
/// ancestor's (itself first), else its own.
pub open spec fn label_bounds(d: Seq<NodeView>, i: int) -> Option<UiBounds> {
    match interactive_ancestor(d, i) {
        Some((_, b)) => Some(b),
        None => spec_node_bounds(d[i]),
    }
}

/// The node at `i` is a labelled `<node>` with bounds.
pub open spec fn label_hit(d: Seq<NodeView>, i: int, wanted: Seq<char>) -> bool {
    &&& is_ui_node(d[i])
    &&& shows_label(node_attr(d[i], "text"@), wanted) || shows_label(node_attr(d[i], "content-desc"@), wanted)
    &&& label_bounds(d, i) is Some
}

fn shows_label_exec(o: Option<&str>, wanted: &[char]) -> (r: bool)
    ensures
        r == shows_label(opt_str(o), wanted@),
{
    match o {
        Some(v) => {
            let t = trimmed(v);
            let lt = lower_chars(t.as_slice());
            let lw = lower_chars(wanted);
            let lv = lower_str(v);
            chars_eq(lt.as_slice(), lw.as_slice()) || contains_chars(lv.as_slice(), wanted)
        },
        None => false,
    }
}

/// The first labelled `<node>` with bounds from position `k` on.
pub open spec fn first_label_hit(d: Seq<NodeView>, w: Seq<char>, k: int) -> Option<int>
    decreases d.len() - k,
{
    if k < 0 || k >= d.len() {
        None
    } else if label_hit(d, k, w) {
        Some(k)
    } else {
        first_label_hit(d, w, k + 1)
    }
}

/// The bounds of the first `<node>` that shows the label (trimmed, in
/// ASCII lower case) and has bounds; an error when there is none.
pub fn find_ui_node_by_label(xml: &str, label: &str) -> (r: Result<UiNodeMatch, McpError>)
    ensures
        match parsed_xml(xml@) {
            Err(m) => r matches Err(e) && e.kind == ErrorKind::InternalError && e.message@ == m,
            Ok(d) => match first_label_hit(d, lower(trim(label@)), 0) {
                Some(i) => r matches Ok(m) && label_bounds(d, i) == Some(m.bounds),
                None => r matches Err(e) && e.kind == ErrorKind::InternalError && e.message@
                    == "no ui node matched label '"@ + label@ + "'"@,
            },
        },
{
    let doc = match parse_xml_document(xml) {
        Ok(d) => d,
        Err(e) => {
            return Err(McpError::internal_error(e));
        },
    };
    let ghost d = doc_view(doc@);
    let t = trimmed(label);
    let wanted = lower_chars(t.as_slice());
    let mut i: usize = 0;
    while i < doc.len()
        invariant
            i <= doc@.len(),
            d == doc_view(doc@),
            parsed_xml(xml@) == Ok::<Seq<NodeView>, Seq<char>>(d),
            well_formed(d),
            wanted@ == lower(trim(label@)),
            first_label_hit(d, wanted@, i as int) == first_label_hit(d, wanted@, 0),
        decreases doc.len() - i,
    {
        assert(d[i as int] == doc@[i as int]@);
        if is_ui_node_exec(&doc[i]) {
            let hit = shows_label_exec(attribute(&doc[i], "text"), wanted.as_slice())
                || shows_label_exec(attribute(&doc[i], "content-desc"), wanted.as_slice());
            if hit {
                let bounds = match interactive_ancestor_exec(&doc, i) {
                    Some((_, b)) => Some(b),
                    None => match attribute(&doc[i], "bounds") {
                        Some(b) => parse_bounds(b),
                        None => None,
                    },
                };
                match bounds {
                    Some(b) => {
                        assert(label_hit(d, i as int, wanted@));
                        assert(label_bounds(d, i as int) == Some(b));
                        return Ok(UiNodeMatch { bounds: b });
                    },
                    None => {},
                }
            }
        }
        i = i + 1;
    }
    let mut m = chars_of("no ui node matched label '");
    append_str(&mut m, label);
    append_str(&mut m, "'");
    Err(McpError::internal_error(string_of(m.as_slice())))
}

} // verus!
