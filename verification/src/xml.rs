//! XML documents as a flat list of nodes in document order, and the queries that the feed
//! readers make of them.
use vstd::prelude::*;

use crate::text::{chars_of, same_chars};

verus! {

/// An attribute: namespace, local name and value.
pub type XmlAttribute = (Option<String>, String, String);

/// A node of a parsed document. `text` is the node's text: for an element, the text of its
/// first child when that child is text.
#[derive(Clone, Debug)]
pub struct XmlNode {
    pub id: usize,
    pub parent: Option<usize>,
    pub element: bool,
    pub namespace: Option<String>,
    pub name: String,
    pub text: Option<String>,
    pub attributes: Vec<XmlAttribute>,
}

/// The text of an optional string.
pub open spec fn opt_chars(s: Option<String>) -> Option<Seq<char>> {
    match s {
        Some(x) => Some(x@),
        None => None,
    }
}

/// The nodes of the document that `roxmltree::Document::parse` builds from `xml`, in
/// document order (what `descendants` of the document yields), or the parse error's text.
pub uninterp spec fn xml_nodes(xml: Seq<char>) -> Result<Seq<XmlNode>, Seq<char>>;

/// Whether a node list has the shape of a parsed document: the document node first, without
/// a parent, distinct ids, and an element among the children of the document node.
pub open spec fn document_shaped(nodes: Seq<XmlNode>) -> bool {
    &&& nodes.len() > 0
    &&& nodes[0].parent is None
    &&& forall|i: int, j: int|
        0 <= i < nodes.len() && 0 <= j < nodes.len() && i != j ==> #[trigger] nodes[i].id
            != #[trigger] nodes[j].id
    &&& exists|j: int|
        0 <= j < nodes.len() && #[trigger] nodes[j].element && nodes[j].parent
            == Some(nodes[0].id)
}

/// Parses an XML document into its nodes.
/// Trusted: calls `roxmltree::Document::parse`, lists `descendants` of the document with
/// each node's id, parent id, whether it is an element, tag name, `text` and attributes; the outcome is named
/// `xml_nodes`. A parsed document starts with the document node and has a root element.
#[verifier::external_body]
pub(crate) fn parse_xml(xml: &str) -> (r: Result<Vec<XmlNode>, String>)
    ensures
        match r {
            Ok(v) => xml_nodes(xml@) == Ok::<Seq<XmlNode>, Seq<char>>(v@) && document_shaped(v@),
            Err(e) => xml_nodes(xml@) == Err::<Seq<XmlNode>, Seq<char>>(e@),
        },
{
    let doc = roxmltree::Document::parse(xml).map_err(|e| e.to_string())?;
    Ok(doc.descendants().map(|n| XmlNode {
        id: n.id().get_usize(),
        parent: n.parent().map(|p| p.id().get_usize()),
        element: n.is_element(),
        namespace: n.tag_name().namespace().map(String::from),
        name: n.tag_name().name().into(),
        text: n.text().map(String::from),
        attributes: n.attributes().map(|a| (a.namespace().map(String::from), a.name().into(), a.value().into())).collect(),
    }).collect())
}

/// Whether node `j` is a child of node `e`.
pub open spec fn is_child(nodes: Seq<XmlNode>, e: int, j: int) -> bool {
    nodes[j].parent == Some(nodes[e].id)
}

/// Whether node `j` is an element named `name` in namespace `ns` (`Node::has_tag_name`).
pub open spec fn has_tag(nodes: Seq<XmlNode>, j: int, ns: Seq<char>, name: Seq<char>) -> bool {
    &&& nodes[j].element
    &&& opt_chars(nodes[j].namespace) == Some(ns)
    &&& nodes[j].name@ == name
}

/// The children of node `e` among the first `k` nodes, in document order.
pub open spec fn children_upto(nodes: Seq<XmlNode>, e: int, k: int) -> Seq<int>
    decreases k,
{
    if k <= 0 {
        seq![]
    } else if is_child(nodes, e, k - 1) {
        children_upto(nodes, e, k - 1).push(k - 1)
    } else {
        children_upto(nodes, e, k - 1)
    }
}

/// The children of node `e`, in document order.
pub open spec fn children(nodes: Seq<XmlNode>, e: int) -> Seq<int> {
    children_upto(nodes, e, nodes.len() as int)
}

/// The first index in `kids` whose node is tagged `(ns, name)`, from position `from` on.
pub open spec fn first_tagged_from(
    nodes: Seq<XmlNode>,
    kids: Seq<int>,
    ns: Seq<char>,
    name: Seq<char>,
    from: int,
) -> Option<int>
    decreases kids.len() - from,
{
    if from >= kids.len() || from < 0 {
        None
    } else if has_tag(nodes, kids[from], ns, name) {
        Some(kids[from])
    } else {
        first_tagged_from(nodes, kids, ns, name, from + 1)
    }
}

/// The first child of `e` tagged `(ns, name)` (what `children().find(has_tag_name)` finds).
pub open spec fn first_child_tagged(nodes: Seq<XmlNode>, e: int, ns: Seq<char>, name: Seq<char>) -> Option<int> {
    first_tagged_from(nodes, children(nodes, e), ns, name, 0)
}

/// The text of the first child of `e` tagged `(ns, name)`, if that child has text.
pub open spec fn child_text(nodes: Seq<XmlNode>, e: int, ns: Seq<char>, name: Seq<char>) -> Option<Seq<char>> {
    match first_child_tagged(nodes, e, ns, name) {
        Some(j) => opt_chars(nodes[j].text),
        None => None,
    }
}

/// The children of `e` tagged `(ns, name)`, in order.
pub open spec fn tagged_children(nodes: Seq<XmlNode>, e: int, ns: Seq<char>, name: Seq<char>) -> Seq<int> {
    children(nodes, e).filter(|j: int| has_tag(nodes, j, ns, name))
}

/// The value of the attribute without namespace named `name` among the first `k`
/// attributes of a node (the first such attribute, as `Node::attribute` finds it).
pub open spec fn attribute_upto(attrs: Seq<XmlAttribute>, name: Seq<char>, k: int) -> Option<
    Seq<char>,
>
    decreases k,
{
    if k <= 0 {
        None
    } else {
        match attribute_upto(attrs, name, k - 1) {
            Some(v) => Some(v),
            None => if attrs[k - 1].0 is None && attrs[k - 1].1@ == name {
                Some(attrs[k - 1].2@)
            } else {
                None
            },
        }
    }
}

/// The value of a node's attribute without namespace named `name`.
pub open spec fn attribute_of(n: XmlNode, name: Seq<char>) -> Option<Seq<char>> {
    attribute_upto(n.attributes@, name, n.attributes@.len() as int)
}

/// The first element child of the document node (`Document::root_element`).
pub open spec fn root_element_from(nodes: Seq<XmlNode>, kids: Seq<int>, from: int) -> int
    decreases kids.len() - from,
{
    if from >= kids.len() || from < 0 {
        0
    } else if nodes[kids[from]].element {
        kids[from]
    } else {
        root_element_from(nodes, kids, from + 1)
    }
}

/// The root element of a parsed document.
pub open spec fn root_element(nodes: Seq<XmlNode>) -> int {
    root_element_from(nodes, children(nodes, 0), 0)
}

/// Whether every index in `kids` is a node index.
pub open spec fn indices_in(nodes: Seq<XmlNode>, kids: Seq<int>) -> bool {
    forall|i: int| 0 <= i < kids.len() ==> 0 <= #[trigger] kids[i] < nodes.len()
}

proof fn lemma_children_upto(nodes: Seq<XmlNode>, e: int, k: int)
    requires
        0 <= k <= nodes.len(),
    ensures
        indices_in(nodes, children_upto(nodes, e, k)),
        forall|i: int|
            0 <= i < children_upto(nodes, e, k).len() ==> children_upto(nodes, e, k)[i] < k
                && is_child(nodes, e, #[trigger] children_upto(nodes, e, k)[i]),
        forall|j: int|
            0 <= j < k && is_child(nodes, e, j) ==> #[trigger] children_upto(nodes, e, k).contains(
                j,
            ),
    decreases k,
{
    if k > 0 {
        lemma_children_upto(nodes, e, k - 1);
        let prev = children_upto(nodes, e, k - 1);
        if is_child(nodes, e, k - 1) {
            assert(children_upto(nodes, e, k) == prev.push(k - 1));
            assert forall|j: int|
                0 <= j < k && is_child(nodes, e, j) implies #[trigger] children_upto(
                nodes,
                e,
                k,
            ).contains(j) by {
                if j < k - 1 {
                    assert(prev.contains(j));
                    let q = choose|q: int| 0 <= q < prev.len() && #[trigger] prev[q] == j;
                    assert(children_upto(nodes, e, k)[q] == j);
                } else {
                    assert(children_upto(nodes, e, k)[prev.len() as int] == j);
                }
            }
        }
    }
}

/// The indices of the children of node `e`, in document order.
pub fn child_indices(nodes: &Vec<XmlNode>, e: usize) -> (r: Vec<usize>)
    requires
        e < nodes@.len(),
    ensures
        r@.map_values(|i: usize| i as int) == children(nodes@, e as int),
        forall|i: int| 0 <= i < r@.len() ==> #[trigger] r@[i] < nodes@.len(),
{
    let target = nodes[e].id;
    let mut r: Vec<usize> = Vec::new();
    let mut k: usize = 0;
    while k < nodes.len()
        invariant
            0 <= k <= nodes@.len(),
            e < nodes@.len(),
            target == nodes@[e as int].id,
            r@.map_values(|i: usize| i as int) == children_upto(nodes@, e as int, k as int),
            forall|i: int| 0 <= i < r@.len() ==> #[trigger] r@[i] < k,
        decreases nodes@.len() - k,
    {
        let is_kid = match nodes[k].parent {
            Some(p) => p == target,
            None => false,
        };
        if is_kid {
            let ghost before = r@;
            r.push(k);
            assert(r@.map_values(|i: usize| i as int) =~= before.map_values(|i: usize| i as int).push(
                k as int,
            ));
        }
        k = k + 1;
    }
    r
}

/// Whether an optional string equals the given text.
fn opt_is(s: &Option<String>, t: &[char]) -> (r: bool)
    ensures
        r == (opt_chars(*s) == Some(t@)),
{
    match s {
        Some(x) => {
            let xv = chars_of(x.as_str());
            same_chars(xv.as_slice(), t)
        },
        None => false,
    }
}

/// Whether node `j` is tagged `(ns, name)`.
pub fn node_has_tag(nodes: &Vec<XmlNode>, j: usize, ns: &[char], name: &[char]) -> (r: bool)
    requires
        j < nodes@.len(),
    ensures
        r == has_tag(nodes@, j as int, ns@, name@),
{
    let n = &nodes[j];
    if !n.element {
        return false;
    }
    if !opt_is(&n.namespace, ns) {
        return false;
    }
    let nv = chars_of(n.name.as_str());
    same_chars(nv.as_slice(), name)
}

/// The first of `kids` tagged `(ns, name)`.
pub fn find_tagged(nodes: &Vec<XmlNode>, kids: &Vec<usize>, ns: &[char], name: &[char]) -> (r: Option<
    usize,
>)
    requires
        forall|i: int| 0 <= i < kids@.len() ==> #[trigger] kids@[i] < nodes@.len(),
    ensures
        match r {
            Some(j) => j < nodes@.len() && first_tagged_from(
                nodes@,
                kids@.map_values(|i: usize| i as int),
                ns@,
                name@,
                0,
            ) == Some(j as int),
            None => first_tagged_from(
                nodes@,
                kids@.map_values(|i: usize| i as int),
                ns@,
                name@,
                0,
            ) is None,
        },
{
    let ghost ks = kids@.map_values(|i: usize| i as int);
    let mut t: usize = 0;
    while t < kids.len()
        invariant
            0 <= t <= kids@.len(),
            ks == kids@.map_values(|i: usize| i as int),
            forall|i: int| 0 <= i < kids@.len() ==> #[trigger] kids@[i] < nodes@.len(),
            first_tagged_from(nodes@, ks, ns@, name@, 0) == first_tagged_from(
                nodes@,
                ks,
                ns@,
                name@,
                t as int,
            ),
        decreases kids@.len() - t,
    {
        if node_has_tag(nodes, kids[t], ns, name) {
            return Some(kids[t]);
        }
        t = t + 1;
    }
    None
}

/// The value of a node's attribute without namespace named `name`.
pub fn node_attribute(n: &XmlNode, name: &[char]) -> (r: Option<String>)
    ensures
        opt_chars(r) == attribute_of(*n, name@),
{
    let mut k: usize = 0;
    while k < n.attributes.len()
        invariant
            0 <= k <= n.attributes@.len(),
            attribute_upto(n.attributes@, name@, k as int) is None,
        decreases n.attributes@.len() - k,
    {
        let a = &n.attributes[k];
        let an = chars_of(a.1.as_str());
        if a.0.is_none() && same_chars(an.as_slice(), name) {
            let v = a.2.clone();
            proof {
                lemma_attribute_found(n.attributes@, name@, k as int);
            }
            return Some(v);
        }
        k = k + 1;
    }
    None
}

proof fn lemma_attribute_found(attrs: Seq<XmlAttribute>, name: Seq<char>, k: int)
    requires
        0 <= k < attrs.len(),
        attribute_upto(attrs, name, k) is None,
        attrs[k].0 is None && attrs[k].1@ == name,
    ensures
        attribute_upto(attrs, name, attrs.len() as int) == Some(attrs[k].2@),
{
    lemma_attribute_stable(attrs, name, k + 1, attrs.len() as int);
}

proof fn lemma_attribute_stable(attrs: Seq<XmlAttribute>, name: Seq<char>, k: int, m: int)
    requires
        1 <= k <= m <= attrs.len(),
        attribute_upto(attrs, name, k) is Some,
    ensures
        attribute_upto(attrs, name, m) == attribute_upto(attrs, name, k),
    decreases m,
{
    if m > k {
        lemma_attribute_stable(attrs, name, k, m - 1);
    }
}

/// The root element of a parsed document.
pub fn root_element_index(nodes: &Vec<XmlNode>) -> (r: usize)
    requires
        document_shaped(nodes@),
    ensures
        r as int == root_element(nodes@),
        r < nodes@.len(),
        nodes@[r as int].element,
{
    let kids = child_indices(nodes, 0);
    let ghost ks = kids@.map_values(|i: usize| i as int);
    proof {
        lemma_children_upto(nodes@, 0, nodes@.len() as int);
        let j = choose|j: int|
            0 <= j < nodes@.len() && #[trigger] nodes@[j].element
                && nodes@[j].parent == Some(nodes@[0].id);
        assert(ks.contains(j));
    }
    let mut t: usize = 0;
    while t < kids.len()
        invariant
            0 <= t <= kids@.len(),
            ks == kids@.map_values(|i: usize| i as int),
            ks == children(nodes@, 0),
            forall|i: int| 0 <= i < kids@.len() ==> #[trigger] kids@[i] < nodes@.len(),
            root_element(nodes@) == root_element_from(nodes@, ks, t as int),
            exists|q: int| t <= q < ks.len() && nodes@[#[trigger] ks[q]].element,
        decreases kids@.len() - t,
    {
        if nodes[kids[t]].element {
            return kids[t];
        }
        t = t + 1;
    }
    proof {
        let q = choose|q: int| t <= q < ks.len() && nodes@[#[trigger] ks[q]].element;
    }
    0
}

} // verus!
