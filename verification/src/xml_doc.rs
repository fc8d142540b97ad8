//! XML documents as the schema reader sees them: elements with their
//! attributes (in document order, kept in xmltree's `IndexMap`) and their
//! children, read by taking pieces out one after the other.
use vstd::prelude::*;

use indexmap::IndexMap;

use crate::names::{opt_str_view, XsdIoError, XsdName, XsdParseError, XsdType};
use crate::runtime::FromXmlString;
use crate::text::{concat, concat3, str_eq, strs_view};

verus! {

#[verifier::external_type_specification]
#[verifier::external_body]
#[verifier::reject_recursive_types(K)]
#[verifier::reject_recursive_types(V)]
#[verifier::reject_recursive_types(S)]
pub struct ExIndexMap<K, V, S>(indexmap::IndexMap<K, V, S>);

#[verifier::external_type_specification]
#[verifier::external_body]
pub struct ExXmlTreeNode(xmltree::XMLNode);

/// The attributes that an `IndexMap` holds, in its order.
pub uninterp spec fn attribute_entries(m: IndexMap<String, String>) -> Seq<(Seq<char>, Seq<char>)>;

/// What an xmltree node holds: for an element, its name, attributes and
/// children.
pub uninterp spec fn node_contents(n: xmltree::XMLNode) -> XmlNodeView;

/// What xmltree's `Element::parse` makes of a document: its root element,
/// or the text of its error.
pub uninterp spec fn parsed_xml(bytes: Seq<u8>) -> Result<XmlTreeView, Seq<char>>;

/// `IndexMap::remove`: takes out the attribute named `key`, putting the
/// last attribute in its place (as `swap_remove` does).
#[verifier::external_body]
fn attrs_remove(m: &mut IndexMap<String, String>, key: &str) -> (r: Option<String>)
    ensures
        ({
            let old_a = attribute_entries(*old(m));
            let p = attr_pos(old_a, key@);
            &&& match r {
                Some(v) => p >= 0 && v@ == old_a[p].1,
                None => p < 0,
            }
            &&& attribute_entries(*final(m)) == swap_out(old_a, p)
        }),
{
    m.remove(key)
}

/// `IndexMap::contains_key`.
#[verifier::external_body]
fn attrs_contains(m: &IndexMap<String, String>, key: &str) -> (r: bool)
    ensures
        r == (attr_pos(attribute_entries(*m), key@) >= 0),
{
    m.contains_key(key)
}

/// `IndexMap::drain(..)`: takes out all attributes, in order.
#[verifier::external_body]
fn attrs_drain(m: &mut IndexMap<String, String>) -> (r: Vec<(String, String)>)
    ensures
        pairs_view(r@) == attribute_entries(*old(m)),
        attribute_entries(*final(m)) == Seq::<(Seq<char>, Seq<char>)>::empty(),
{
    m.drain(..).collect()
}

/// `IndexMap::iter`: the attributes, in order.
#[verifier::external_body]
fn attrs_list(m: &IndexMap<String, String>) -> (r: Vec<(String, String)>)
    ensures
        pairs_view(r@) == attribute_entries(*m),
{
    m.iter().map(|(k, v)| (k.clone(), v.clone())).collect()
}

/// `IndexMap::new`: no attributes.
#[verifier::external_body]
fn attrs_new() -> (r: IndexMap<String, String>)
    ensures
        attribute_entries(r) == Seq::<(Seq<char>, Seq<char>)>::empty(),
{
    IndexMap::new()
}

/// `IndexMap::clone`: the same attributes, in the same order.
#[verifier::external_body]
fn attrs_clone(m: &IndexMap<String, String>) -> (r: IndexMap<String, String>)
    ensures
        attribute_entries(r) == attribute_entries(*m),
{
    m.clone()
}

/// Whether two attribute lists hold the same attributes, in any order, as
/// maps compare.
pub open spec fn same_attrs(a: Seq<(Seq<char>, Seq<char>)>, b: Seq<(Seq<char>, Seq<char>)>) -> bool {
    a.len() == b.len() && forall|i: int| 0 <= i < a.len() ==> b.contains(#[trigger] a[i])
}

/// `IndexMap`'s `==`: as many entries, and each key of `a` found in `b`
/// with the same value (keys are never repeated in a map).
#[verifier::external_body]
fn attrs_eq(a: &IndexMap<String, String>, b: &IndexMap<String, String>) -> (r: bool)
    ensures
        r == same_attrs(attribute_entries(*a), attribute_entries(*b)),
{
    a == b
}

/// xmltree's `Element::parse` on a document: its root element, as a node,
/// or its error as text.
#[verifier::external_body]
fn xml_parse(buffer: &[u8]) -> (r: Result<xmltree::XMLNode, String>)
    ensures
        match r {
            Ok(n) => node_contents(n) is Element && parsed_xml(buffer@) == Ok::<XmlTreeView, Seq<char>>(
                node_contents(n)->Element_0,
            ),
            Err(m) => parsed_xml(buffer@) == Err::<XmlTreeView, Seq<char>>(m@),
        },
{
    xmltree::Element::parse(buffer).map(xmltree::XMLNode::Element).map_err(|e| e.to_string())
}

/// An xmltree node as an `XmlNode`: an element keeps its name, attributes
/// and children; comments and processing instructions become `Other`.
#[verifier::external_body]
fn node_of(n: xmltree::XMLNode) -> (r: XmlNode)
    ensures
        node_view(r) == node_contents(n),
{
    match n {
        xmltree::XMLNode::Element(e) => XmlNode::Element(
            XmlTree { name: e.name, attributes: e.attributes, children: e.children.into_iter().map(node_of).collect() },
        ),
        xmltree::XMLNode::Text(t) => XmlNode::Text(t),
        xmltree::XMLNode::CData(t) => XmlNode::CData(t),
        xmltree::XMLNode::Comment(_) => XmlNode::Other,
        xmltree::XMLNode::ProcessingInstruction(..) => XmlNode::Other,
    }
}

pub open spec fn pairs_view(v: Seq<(String, String)>) -> Seq<(Seq<char>, Seq<char>)> {
    v.map_values(|p: (String, String)| (p.0@, p.1@))
}

/// The index of the attribute named `key`, or -1.
pub open spec fn attr_pos(a: Seq<(Seq<char>, Seq<char>)>, key: Seq<char>) -> int
    decreases a.len(),
{
    if a.len() == 0 {
        -1
    } else if a[0].0 == key {
        0
    } else {
        let r = attr_pos(a.drop_first(), key);
        if r < 0 {
            -1
        } else {
            r + 1
        }
    }
}

/// The attributes without the one at `p` (none where `p` is negative), the
/// last one moved into its place.
pub open spec fn swap_out(a: Seq<(Seq<char>, Seq<char>)>, p: int) -> Seq<(Seq<char>, Seq<char>)> {
    if p < 0 {
        a
    } else if p == a.len() - 1 {
        a.drop_last()
    } else {
        a.update(p, a.last()).drop_last()
    }
}

// ----- trees -----

/// A node of an XML tree.
pub enum XmlNode {
    Element(XmlTree),
    Text(String),
    CData(String),
    Other,
}

/// An XML element: its name, attributes and children.
pub struct XmlTree {
    pub name: String,
    pub attributes: IndexMap<String, String>,
    pub children: Vec<XmlNode>,
}

pub enum XmlNodeView {
    Element(XmlTreeView),
    Text(Seq<char>),
    CData(Seq<char>),
    Other,
}

pub struct XmlTreeView {
    pub name: Seq<char>,
    pub attributes: Seq<(Seq<char>, Seq<char>)>,
    pub children: Seq<XmlNodeView>,
}

pub open spec fn tree_view(t: XmlTree) -> XmlTreeView
    decreases t,
{
    XmlTreeView {
        name: t.name@,
        attributes: attribute_entries(t.attributes),
        children: nodes_view(t.children@),
    }
}

pub open spec fn node_view(n: XmlNode) -> XmlNodeView
    decreases n,
{
    match n {
        XmlNode::Element(t) => XmlNodeView::Element(tree_view(t)),
        XmlNode::Text(s) => XmlNodeView::Text(s@),
        XmlNode::CData(s) => XmlNodeView::CData(s@),
        XmlNode::Other => XmlNodeView::Other,
    }
}

pub open spec fn nodes_view(s: Seq<XmlNode>) -> Seq<XmlNodeView>
    decreases s,
{
    if s.len() == 0 {
        seq![]
    } else {
        nodes_view(s.drop_last()).push(node_view(s.last()))
    }
}

pub proof fn lemma_nodes_view(s: Seq<XmlNode>)
    ensures
        nodes_view(s).len() == s.len(),
        forall|j: int| 0 <= j < s.len() ==> #[trigger] nodes_view(s)[j] == node_view(s[j]),
    decreases s.len(),
{
    if s.len() > 0 {
        lemma_nodes_view(s.drop_last());
    }
}

impl View for XmlTree {
    type V = XmlTreeView;

    open spec fn view(&self) -> XmlTreeView {
        tree_view(*self)
    }
}


// ----- what a reader takes out of an element -----

/// Whether a node is an element named `name`.
pub open spec fn is_named(n: XmlNodeView, name: Seq<char>) -> bool {
    n matches XmlNodeView::Element(t) && t.name == name
}

/// The child elements named `name`, in order.
pub open spec fn named_children(cs: Seq<XmlNodeView>, name: Seq<char>) -> Seq<XmlTreeView>
    decreases cs.len(),
{
    if cs.len() == 0 {
        seq![]
    } else {
        let rest = named_children(cs.drop_last(), name);
        if is_named(cs.last(), name) {
            rest.push(cs.last()->Element_0)
        } else {
            rest
        }
    }
}

/// The children without the elements named `name`.
pub open spec fn without_named(cs: Seq<XmlNodeView>, name: Seq<char>) -> Seq<XmlNodeView>
    decreases cs.len(),
{
    if cs.len() == 0 {
        seq![]
    } else {
        let rest = without_named(cs.drop_last(), name);
        if is_named(cs.last(), name) {
            rest
        } else {
            rest.push(cs.last())
        }
    }
}

/// The child elements, in order.
pub open spec fn element_children(cs: Seq<XmlNodeView>) -> Seq<XmlTreeView>
    decreases cs.len(),
{
    if cs.len() == 0 {
        seq![]
    } else {
        let rest = element_children(cs.drop_last());
        match cs.last() {
            XmlNodeView::Element(t) => rest.push(t),
            _ => rest,
        }
    }
}

/// The children that are not elements.
pub open spec fn other_nodes(cs: Seq<XmlNodeView>) -> Seq<XmlNodeView>
    decreases cs.len(),
{
    if cs.len() == 0 {
        seq![]
    } else {
        let rest = other_nodes(cs.drop_last());
        match cs.last() {
            XmlNodeView::Element(_) => rest,
            _ => rest.push(cs.last()),
        }
    }
}

/// The text and character data of the children, in order.
pub open spec fn text_pieces(cs: Seq<XmlNodeView>) -> Seq<Seq<char>>
    decreases cs.len(),
{
    if cs.len() == 0 {
        seq![]
    } else {
        let rest = text_pieces(cs.drop_last());
        match cs.last() {
            XmlNodeView::Text(s) => rest.push(s),
            XmlNodeView::CData(s) => rest.push(s),
            _ => rest,
        }
    }
}

/// The text of an element: its text pieces put together, none where it has
/// none.
pub open spec fn text_of(t: XmlTreeView) -> Option<Seq<char>> {
    let ps = text_pieces(t.children);
    if ps.len() == 0 {
        None
    } else {
        Some(crate::text::concat_all(ps))
    }
}

/// A schema element being read, with the namespace that names without one
/// take.
pub struct XMLElement {
    pub element: XmlTree,
    pub default_namespace: Option<String>,
}

pub struct XMLElementView {
    pub element: XmlTreeView,
    pub default_namespace: Option<Seq<char>>,
}

impl View for XMLElement {
    type V = XMLElementView;

    open spec fn view(&self) -> XMLElementView {
        XMLElementView { element: tree_view(self.element), default_namespace: opt_str_view(self.default_namespace) }
    }
}

/// Whether two trees are equal as `==` compares them: the same name, the
/// same attributes in any order, and children equal one by one.
pub open spec fn tree_same(a: XmlTreeView, b: XmlTreeView) -> bool
    decreases a,
{
    &&& a.name == b.name
    &&& same_attrs(a.attributes, b.attributes)
    &&& a.children.len() == b.children.len()
    &&& forall|i: int| 0 <= i < a.children.len() ==> match (#[trigger] a.children[i], b.children[i]) {
        (XmlNodeView::Element(x), XmlNodeView::Element(y)) => {
            &&& decreases_to!(a => x)
            &&& tree_same(x, y)
        },
        (XmlNodeView::Text(x), XmlNodeView::Text(y)) => x == y,
        (XmlNodeView::CData(x), XmlNodeView::CData(y)) => x == y,
        (XmlNodeView::Other, XmlNodeView::Other) => true,
        _ => false,
    }
}

/// Whether two elements being read are equal as `==` compares them.
pub open spec fn elem_same(a: XMLElementView, b: XMLElementView) -> bool {
    tree_same(a.element, b.element) && a.default_namespace == b.default_namespace
}

/// How many attributes and children an element still holds.
pub open spec fn weight(e: XMLElementView) -> nat {
    e.element.attributes.len() + e.element.children.len()
}

/// Whether reading left `e2` of `e` as it was, or took something out of it.
pub open spec fn taken_from(e2: XMLElementView, e: XMLElementView) -> bool {
    elem_same(e2, e) || weight(e2) < weight(e)
}

pub proof fn lemma_tree_same_refl(a: XmlTreeView)
    ensures
        tree_same(a, a),
    decreases a,
{
    assert forall|i: int| 0 <= i < a.attributes.len() implies a.attributes.contains(#[trigger] a.attributes[i]) by {}
    assert forall|i: int| 0 <= i < a.children.len() implies match (#[trigger] a.children[i], a.children[i]) {
        (XmlNodeView::Element(x), XmlNodeView::Element(y)) => {
            &&& decreases_to!(a => x)
            &&& tree_same(x, y)
        },
        (XmlNodeView::Text(x), XmlNodeView::Text(y)) => x == y,
        (XmlNodeView::CData(x), XmlNodeView::CData(y)) => x == y,
        (XmlNodeView::Other, XmlNodeView::Other) => true,
        _ => false,
    } by {
        match a.children[i] {
            XmlNodeView::Element(x) => {
                assert(decreases_to!(a => x));
                lemma_tree_same_refl(x);
            },
            _ => {},
        }
    }
}

pub proof fn lemma_elem_same_refl(e: XMLElementView)
    ensures
        elem_same(e, e),
        taken_from(e, e),
{
    lemma_tree_same_refl(e.element);
}

fn clone_tree(t: &XmlTree) -> (r: XmlTree)
    ensures
        r@ == t@,
    decreases t@,
{
    let mut children: Vec<XmlNode> = Vec::new();
    let mut i: usize = 0;
    proof {
        lemma_nodes_view(t.children@);
    }
    while i < t.children.len()
        invariant
            i <= t.children@.len(),
            children@.len() == i,
            forall|j: int| 0 <= j < i ==> node_view(#[trigger] children@[j]) == node_view(t.children@[j]),
            nodes_view(t.children@).len() == t.children@.len(),
            forall|j: int| 0 <= j < t.children@.len() ==> #[trigger] nodes_view(t.children@)[j] == node_view(t.children@[j]),
        decreases t.children@.len() - i,
    {
        let n = match &t.children[i] {
            XmlNode::Element(c) => {
                proof {
                    assert(t@.children[i as int] == XmlNodeView::Element(c@));
                    assert(t@.children.contains(XmlNodeView::Element(c@)));
                    crate::schema_read::lemma_child_smaller(t@, c@);
                }
                XmlNode::Element(clone_tree(c))
            },
            XmlNode::Text(x) => XmlNode::Text(x.clone()),
            XmlNode::CData(x) => XmlNode::CData(x.clone()),
            XmlNode::Other => XmlNode::Other,
        };
        children.push(n);
        i += 1;
    }
    proof {
        lemma_nodes_view(children@);
    }
    assert(nodes_view(children@) =~= nodes_view(t.children@));
    XmlTree { name: t.name.clone(), attributes: attrs_clone(&t.attributes), children }
}

fn trees_equal(a: &XmlTree, b: &XmlTree) -> (r: bool)
    ensures
        r == tree_same(a@, b@),
    decreases a@,
{
    if !str_eq(a.name.as_str(), b.name.as_str()) || !attrs_eq(&a.attributes, &b.attributes)
        || a.children.len() != b.children.len() {
        proof {
            lemma_nodes_view(a.children@);
            lemma_nodes_view(b.children@);
        }
        return false;
    }
    proof {
        lemma_nodes_view(a.children@);
        lemma_nodes_view(b.children@);
    }
    let mut i: usize = 0;
    while i < a.children.len()
        invariant
            i <= a.children@.len(),
            a.children@.len() == b.children@.len(),
            a@.name == b@.name,
            same_attrs(a@.attributes, b@.attributes),
            a@.children.len() == a.children@.len(),
            b@.children.len() == b.children@.len(),
            forall|j: int| 0 <= j < a.children@.len() ==> #[trigger] a@.children[j] == node_view(a.children@[j]),
            forall|j: int| 0 <= j < b.children@.len() ==> #[trigger] b@.children[j] == node_view(b.children@[j]),
            forall|j: int| 0 <= j < i ==> match (#[trigger] a@.children[j], b@.children[j]) {
                (XmlNodeView::Element(x), XmlNodeView::Element(y)) => {
                    &&& decreases_to!(a@ => x)
                    &&& tree_same(x, y)
                },
                (XmlNodeView::Text(x), XmlNodeView::Text(y)) => x == y,
                (XmlNodeView::CData(x), XmlNodeView::CData(y)) => x == y,
                (XmlNodeView::Other, XmlNodeView::Other) => true,
                _ => false,
            },
        decreases a.children@.len() - i,
    {
        let same = match (&a.children[i], &b.children[i]) {
            (XmlNode::Element(x), XmlNode::Element(y)) => {
                proof {
                    assert(a@.children[i as int] == XmlNodeView::Element(x@));
                    assert(a@.children.contains(XmlNodeView::Element(x@)));
                    crate::schema_read::lemma_child_smaller(a@, x@);
                }
                trees_equal(x, y)
            },
            (XmlNode::Text(x), XmlNode::Text(y)) => str_eq(x.as_str(), y.as_str()),
            (XmlNode::CData(x), XmlNode::CData(y)) => str_eq(x.as_str(), y.as_str()),
            (XmlNode::Other, XmlNode::Other) => true,
            _ => false,
        };
        if !same {
            return false;
        }
        i += 1;
    }
    true
}

impl XMLElement {
    /// A copy of the element.
    pub fn duplicate(&self) -> (r: XMLElement)
        ensures
            r@ == self@,
    {
        let default_namespace = match &self.default_namespace {
            Some(n) => Some(n.clone()),
            None => None,
        };
        XMLElement { element: clone_tree(&self.element), default_namespace }
    }

    /// Whether the two elements are equal (see `elem_same`).
    pub fn same_as(&self, other: &XMLElement) -> (r: bool)
        ensures
            r == elem_same(self@, other@),
    {
        let ns = match (&self.default_namespace, &other.default_namespace) {
            (Some(x), Some(y)) => str_eq(x.as_str(), y.as_str()),
            (None, None) => true,
            _ => false,
        };
        ns && trees_equal(&self.element, &other.element)
    }
}

/// Whether `e` is a reading error of the node `node` with the message
/// `msg`.
pub open spec fn parse_error_is(e: XsdIoError, node: Seq<char>, msg: Seq<char>) -> bool {
    e matches XsdIoError::XsdParseError(p) && p.node_name@ == node && p.msg@ == msg
}

pub(crate) fn parse_error(node: String, msg: String) -> (r: XsdIoError)
    ensures
        parse_error_is(r, node@, msg@),
{
    XsdIoError::XsdParseError(XsdParseError { node_name: node, msg })
}

proof fn lemma_named_children_push(cs: Seq<XmlNodeView>, n: XmlNodeView, name: Seq<char>)
    ensures
        named_children(cs.push(n), name) == if is_named(n, name) {
            named_children(cs, name).push(n->Element_0)
        } else {
            named_children(cs, name)
        },
        without_named(cs.push(n), name) == if is_named(n, name) {
            without_named(cs, name)
        } else {
            without_named(cs, name).push(n)
        },
        element_children(cs.push(n)) == match n {
            XmlNodeView::Element(t) => element_children(cs).push(t),
            _ => element_children(cs),
        },
        other_nodes(cs.push(n)) == match n {
            XmlNodeView::Element(_) => other_nodes(cs),
            _ => other_nodes(cs).push(n),
        },
        text_pieces(cs.push(n)) == match n {
            XmlNodeView::Text(s) => text_pieces(cs).push(s),
            XmlNodeView::CData(s) => text_pieces(cs).push(s),
            _ => text_pieces(cs),
        },
{
    assert(cs.push(n).drop_last() =~= cs);
}

impl XMLElement {
    /// Reads a document with xmltree; its root element, without a default
    /// namespace.
    pub fn parse(buffer: &[u8]) -> (r: Result<Self, String>)
        ensures
            match r {
                Ok(x) => parsed_xml(buffer@) == Ok::<XmlTreeView, Seq<char>>(x@.element) && x.default_namespace is None,
                Err(m) => parsed_xml(buffer@) == Err::<XmlTreeView, Seq<char>>(m@),
            },
    {
        match xml_parse(buffer) {
            Ok(n) => match node_of(n) {
                XmlNode::Element(t) => Ok(XMLElement { element: t, default_namespace: None }),
                _ => vstd::pervasive::unreached(),
            },
            Err(m) => Err(m),
        }
    }

    /// Reads a document and puts its root element in an element named
    /// `root`.
    pub fn parse_hack(buffer: &[u8]) -> (r: Result<Self, String>)
        ensures
            match r {
                Ok(x) => parsed_xml(buffer@) matches Ok(t) && x@.element == (XmlTreeView {
                    name: "root"@,
                    attributes: seq![],
                    children: seq![XmlNodeView::Element(t)],
                }) && x.default_namespace is None,
                Err(m) => parsed_xml(buffer@) == Err::<XmlTreeView, Seq<char>>(m@),
            },
    {
        let inner = match Self::parse(buffer) {
            Ok(x) => x,
            Err(m) => return Err(m),
        };
        let children = vec![XmlNode::Element(inner.element)];
        proof {
            lemma_nodes_view(children@);
            assert(nodes_view(children@) =~= seq![node_view(children@[0])]);
        }
        let root = XmlTree { name: "root".to_owned(), attributes: attrs_new(), children };
        Ok(XMLElement { element: root, default_namespace: None })
    }

    /// The element's name.
    pub fn name(&self) -> (r: &str)
        ensures
            r@ == self@.element.name,
    {
        self.element.name.as_str()
    }

    /// A name read from `name`, taking the element's default namespace
    /// where it has none.
    pub fn new_name(&self, name: &str, ty: XsdType) -> (r: XsdName)
        ensures
            r@.ty == ty,
            match crate::text::split_once_spec(name@, ':') {
                Some((lhs, rhs)) => r@.namespace == Some(lhs) && r@.local_name == rhs,
                None => r@.local_name == name@ && r@.namespace == self@.default_namespace,
            },
    {
        match &self.default_namespace {
            Some(ns) => XsdName::new_namespace(name, ty, Some(ns.as_str())),
            None => XsdName::new_namespace(name, ty, None),
        }
    }

    /// The element's name, owned.
    pub fn node_name(&self) -> (r: String)
        ensures
            r@ == self@.element.name,
    {
        self.element.name.clone()
    }

    /// Checks that the element is named `name`.
    pub fn check_name(&self, name: &str) -> (r: Result<(), XsdIoError>)
        ensures
            match r {
                Ok(_) => self@.element.name == name@,
                Err(e) => self@.element.name != name@ && parse_error_is(
                    e,
                    self@.element.name,
                    "Unexpected element name "@ + name@ + " expected "@ + self@.element.name,
                ),
            },
    {
        if !str_eq(self.element.name.as_str(), name) {
            let a = concat3("Unexpected element name ", name, " expected ");
            let msg = concat(a.as_str(), self.element.name.as_str());
            Err(parse_error(self.node_name(), msg))
        } else {
            Ok(())
        }
    }

    /// Takes out the child elements named `name`, in order.
    pub fn get_children(&mut self, name: &str) -> (r: Vec<XMLElement>)
        ensures
            r@.len() == named_children(old(self)@.element.children, name@).len(),
            forall|i: int| 0 <= i < r@.len() ==> (#[trigger] r@[i])@ == (XMLElementView {
                element: named_children(old(self)@.element.children, name@)[i],
                default_namespace: old(self)@.default_namespace,
            }),
            final(self)@ == (XMLElementView {
                element: XmlTreeView {
                    children: without_named(old(self)@.element.children, name@),
                    ..old(self)@.element
                },
                ..old(self)@
            }),
    {
        let mut taken: Vec<XMLElement> = Vec::new();
        let mut kept: Vec<XmlNode> = Vec::new();
        let mut children = Vec::new();
        std::mem::swap(&mut children, &mut self.element.children);
        let ghost cs = nodes_view(children@);
        proof {
            lemma_nodes_view(children@);
        }
        let n = children.len();
        let mut rest = children;
        assert(nodes_view(kept@) =~= seq![]);
        let mut i: usize = 0;
        while i < n
            invariant
                i <= n,
                n == cs.len(),
                rest@.len() == n - i,
                forall|j: int| 0 <= j < n - i ==> node_view(#[trigger] rest@[j]) == cs[i + j],
                nodes_view(kept@) == without_named(cs.take(i as int), name@),
                taken@.len() == named_children(cs.take(i as int), name@).len(),
                forall|j: int| 0 <= j < taken@.len() ==> (#[trigger] taken@[j])@ == (XMLElementView {
                    element: named_children(cs.take(i as int), name@)[j],
                    default_namespace: opt_str_view(self.default_namespace),
                }),
                self.default_namespace == old(self).default_namespace,
                self.element.name == old(self).element.name,
                self.element.attributes == old(self).element.attributes,
            decreases n - i,
        {
            let ghost prev = rest@;
            let node = rest.remove(0);
            proof {
                assert(node_view(node) == cs[i as int]);
                assert forall|j: int| 0 <= j < n - (i + 1) implies node_view(#[trigger] rest@[j]) == cs[i + 1 + j] by {
                    assert(rest@[j] == prev[j + 1]);
                }
                assert(cs.take(i + 1) =~= cs.take(i as int).push(cs[i as int]));
                lemma_named_children_push(cs.take(i as int), cs[i as int], name@);
            }
            match node {
                XmlNode::Element(t) => {
                    if str_eq(t.name.as_str(), name) {
                        let ns = crate::names::clone_opt_str(&self.default_namespace);
                        taken.push(XMLElement { element: t, default_namespace: ns });
                    } else {
                        let ghost before = kept@;
                        let nd = XmlNode::Element(t);
                        proof {
                            crate::xml_doc::lemma_nodes_push(before, nd);
                        }
                        kept.push(nd);
                    }
                },
                other => {
                    let ghost before = kept@;
                    proof {
                        crate::xml_doc::lemma_nodes_push(before, other);
                    }
                    kept.push(other);
                },
            }
            i += 1;
        }
        assert(cs.take(n as int) =~= cs);
        self.element.children = kept;
        taken
    }
}

proof fn lemma_nodes_push(s: Seq<XmlNode>, n: XmlNode)
    ensures
        nodes_view(s.push(n)) == nodes_view(s).push(node_view(n)),
{
    assert(s.push(n).drop_last() =~= s);
}


/// The names of the child elements, separated by commas.
pub open spec fn child_names(t: XmlTreeView) -> Seq<Seq<char>> {
    element_children(t.children).map_values(|c: XmlTreeView| c.name)
}

/// The names of the attributes.
pub open spec fn attr_names(a: Seq<(Seq<char>, Seq<char>)>) -> Seq<Seq<char>> {
    a.map_values(|p: (Seq<char>, Seq<char>)| p.0)
}

/// What `finalize` reports, where it reports anything.
pub open spec fn unused_message(t: XmlTreeView, allow_attrs: bool, allow_children: bool) -> Seq<char> {
    let ce = crate::text::join_spec(child_names(t), ", "@);
    let ae = crate::text::join_spec(attr_names(t.attributes), ", "@);
    let head = "Unused nodes found in "@ + t.name + "; "@;
    let with_children = if ce.len() != 0 && !allow_children {
        head + "[extra children] "@ + ce
    } else {
        head
    };
    if ae.len() != 0 && !allow_attrs {
        (if ce.len() != 0 && !allow_children {
            with_children + "; "@
        } else {
            with_children
        }) + "[extra attributes] "@ + ae
    } else {
        with_children
    }
}

/// Whether `finalize` accepts the element.
pub open spec fn nothing_unused(t: XmlTreeView, allow_attrs: bool, allow_children: bool) -> bool {
    (crate::text::join_spec(child_names(t), ", "@).len() == 0 || allow_children) && (crate::text::join_spec(
        attr_names(t.attributes),
        ", "@,
    ).len() == 0 || allow_attrs)
}

/// The element after its attribute `name` is read: taken out, the last
/// attribute moved into its place.
pub open spec fn without_attr(e: XMLElementView, name: Seq<char>) -> XMLElementView {
    XMLElementView {
        element: XmlTreeView {
            attributes: swap_out(e.element.attributes, attr_pos(e.element.attributes, name)),
            ..e.element
        },
        ..e
    }
}

/// The value of the attribute `name`, if the element has it.
pub open spec fn attr_value(e: XMLElementView, name: Seq<char>) -> Option<Seq<char>> {
    let p = attr_pos(e.element.attributes, name);
    if p >= 0 {
        Some(e.element.attributes[p].1)
    } else {
        None
    }
}

/// Whether the elements `cs` are the first of the children `kids` (with the
/// namespace `d`), in order, and `outs` what `func` gave back for each.
pub open spec fn handed_out<T, F: Fn(XMLElement) -> T>(
    cs: Seq<XMLElement>,
    outs: Seq<T>,
    kids: Seq<XmlTreeView>,
    d: Option<Seq<char>>,
    func: F,
) -> bool {
    &&& cs.len() == outs.len()
    &&& cs.len() <= kids.len()
    &&& forall|i: int| 0 <= i < cs.len() ==> (#[trigger] cs[i])@ == (XMLElementView { element: kids[i], default_namespace: d })
    &&& forall|i: int| 0 <= i < cs.len() ==> func.ensures((cs[i],), #[trigger] outs[i])
}

/// The values kept from `outs`, in order: those given back as `Ok(Some(..))`.
pub open spec fn kept_values<T>(outs: Seq<Result<Option<T>, XsdIoError>>) -> Seq<T>
    decreases outs.len(),
{
    if outs.len() == 0 {
        seq![]
    } else {
        let rest = kept_values(outs.drop_last());
        match outs.last() {
            Ok(Some(v)) => rest.push(v),
            _ => rest,
        }
    }
}

/// Whether `r` is how handing out `n` children ends after `outs`: with the
/// kept values once every child gave no error, or with the first error.
pub open spec fn filter_ends<T>(outs: Seq<Result<Option<T>, XsdIoError>>, n: nat, r: Result<Vec<T>, XsdIoError>) -> bool {
    match r {
        Ok(v) => outs.len() == n && (forall|i: int| 0 <= i < outs.len() ==> (#[trigger] outs[i]) is Ok) && v@
            == kept_values(outs),
        Err(e) => outs.len() > 0 && outs.last() == Err::<Option<T>, XsdIoError>(e) && forall|i: int|
            0 <= i < outs.len() - 1 ==> (#[trigger] outs[i]) is Ok,
    }
}

/// Whether `r` is how handing out `n` children ends after `outs`: with every
/// value once no child gave an error, or with the first error.
pub open spec fn map_ends<T>(outs: Seq<Result<T, XsdIoError>>, n: nat, r: Result<Vec<T>, XsdIoError>) -> bool {
    match r {
        Ok(v) => outs.len() == n && v@.len() == n && forall|i: int|
            0 <= i < n ==> outs[i] == Ok::<T, XsdIoError>(#[trigger] v@[i]),
        Err(e) => outs.len() > 0 && outs.last() == Err::<T, XsdIoError>(e) && forall|i: int|
            0 <= i < outs.len() - 1 ==> (#[trigger] outs[i]) is Ok,
    }
}

impl XMLElement {
    /// Takes out the one child element named `name`; another number of
    /// them is an error (they are taken out all the same).
    pub fn get_child(&mut self, name: &str) -> (r: Result<XMLElement, XsdIoError>)
        ensures
            ({
                let kids = named_children(old(self)@.element.children, name@);
                &&& final(self)@ == (XMLElementView {
                    element: XmlTreeView {
                        children: without_named(old(self)@.element.children, name@),
                        ..old(self)@.element
                    },
                    ..old(self)@
                })
                &&& match r {
                    Ok(c) => kids.len() == 1 && c@ == (XMLElementView {
                        element: kids[0],
                        default_namespace: old(self)@.default_namespace,
                    }),
                    Err(e) => kids.len() != 1 && parse_error_is(
                        e,
                        old(self)@.element.name,
                        "Expected 1 child named "@ + name@ + " found "@ + crate::xsdgen::decimal(kids.len()),
                    ),
                }
            }),
    {
        let mut output = self.get_children(name);
        if output.len() != 1 {
            let a = concat3("Expected 1 child named ", name, " found ");
            let msg = concat(a.as_str(), crate::xsdgen::decimal_string(output.len()).as_str());
            return Err(parse_error(self.node_name(), msg));
        }
        Ok(output.remove(0))
    }

    /// Takes out the child element named `name`, if there is one; more than
    /// one is an error (they are taken out all the same).
    pub fn try_get_child(&mut self, name: &str) -> (r: Result<Option<XMLElement>, XsdIoError>)
        ensures
            ({
                let kids = named_children(old(self)@.element.children, name@);
                &&& final(self)@ == (XMLElementView {
                    element: XmlTreeView {
                        children: without_named(old(self)@.element.children, name@),
                        ..old(self)@.element
                    },
                    ..old(self)@
                })
                &&& match r {
                    Ok(Some(c)) => kids.len() == 1 && c@ == (XMLElementView {
                        element: kids[0],
                        default_namespace: old(self)@.default_namespace,
                    }),
                    Ok(None) => kids.len() == 0,
                    Err(e) => kids.len() > 1 && parse_error_is(
                        e,
                        old(self)@.element.name,
                        "Expected 0 or 1 children named "@ + name@ + " found "@ + crate::xsdgen::decimal(kids.len()),
                    ),
                }
            }),
    {
        let mut output = self.get_children(name);
        if output.len() > 1 {
            let a = concat3("Expected 0 or 1 children named ", name, " found ");
            let msg = concat(a.as_str(), crate::xsdgen::decimal_string(output.len()).as_str());
            return Err(parse_error(self.node_name(), msg));
        }
        if output.len() == 0 {
            Ok(None)
        } else {
            Ok(Some(output.remove(0)))
        }
    }

    /// Takes out the one child element named `name` and hands it to
    /// `func`; another number of them is an error (they are taken out all
    /// the same).
    pub fn get_child_with<T>(&mut self, name: &str, func: impl FnOnce(XMLElement) -> Result<T, XsdIoError>) -> (r: Result<
        T,
        XsdIoError,
    >)
        requires
            forall|c: XMLElement| func.requires((c,)),
        ensures
            ({
                let kids = named_children(old(self)@.element.children, name@);
                &&& final(self)@ == (XMLElementView {
                    element: XmlTreeView {
                        children: without_named(old(self)@.element.children, name@),
                        ..old(self)@.element
                    },
                    ..old(self)@
                })
                &&& if kids.len() == 1 {
                    exists|c: XMLElement|
                        #[trigger] func.ensures((c,), r) && c@ == (XMLElementView {
                            element: kids[0],
                            default_namespace: old(self)@.default_namespace,
                        })
                } else {
                    r matches Err(e) && parse_error_is(
                        e,
                        old(self)@.element.name,
                        "Expected 1 child named "@ + name@ + " found "@ + crate::xsdgen::decimal(kids.len()),
                    )
                }
            }),
    {
        let child = self.get_child(name)?;
        func(child)
    }

    /// Takes out the child element named `name`, if there is one, and hands
    /// it to `func`; more than one is an error (they are taken out all the
    /// same).
    pub fn try_get_child_with<T>(
        &mut self,
        name: &str,
        func: impl FnOnce(XMLElement) -> Result<T, XsdIoError>,
    ) -> (r: Result<Option<T>, XsdIoError>)
        requires
            forall|c: XMLElement| func.requires((c,)),
        ensures
            ({
                let kids = named_children(old(self)@.element.children, name@);
                &&& final(self)@ == (XMLElementView {
                    element: XmlTreeView {
                        children: without_named(old(self)@.element.children, name@),
                        ..old(self)@.element
                    },
                    ..old(self)@
                })
                &&& if kids.len() == 0 {
                    r matches Ok(None)
                } else if kids.len() == 1 {
                    exists|c: XMLElement, out: Result<T, XsdIoError>|
                        #[trigger] func.ensures((c,), out) && c@ == (XMLElementView {
                            element: kids[0],
                            default_namespace: old(self)@.default_namespace,
                        }) && r == match out {
                            Ok(v) => Ok::<Option<T>, XsdIoError>(Some(v)),
                            Err(e) => Err(e),
                        }
                } else {
                    r matches Err(e) && parse_error_is(
                        e,
                        old(self)@.element.name,
                        "Expected 0 or 1 children named "@ + name@ + " found "@ + crate::xsdgen::decimal(kids.len()),
                    )
                }
            }),
    {
        match self.try_get_child(name)? {
            Some(child) => match func(child) {
                Ok(v) => Ok(Some(v)),
                Err(e) => Err(e),
            },
            None => Ok(None),
        }
    }

    /// Takes out the child elements named `name` and hands each, in order,
    /// to `func`, keeping what it gives back where it gives something; its
    /// first error is returned.
    pub fn get_children_with_filter<T>(
        &mut self,
        name: &str,
        func: impl Fn(XMLElement) -> Result<Option<T>, XsdIoError>,
    ) -> (r: Result<Vec<T>, XsdIoError>)
        requires
            forall|c: XMLElement| func.requires((c,)),
        ensures
            ({
                let kids = named_children(old(self)@.element.children, name@);
                &&& final(self)@ == (XMLElementView {
                    element: XmlTreeView {
                        children: without_named(old(self)@.element.children, name@),
                        ..old(self)@.element
                    },
                    ..old(self)@
                })
                &&& exists|cs: Seq<XMLElement>, outs: Seq<Result<Option<T>, XsdIoError>>|
                    #[trigger] handed_out(cs, outs, kids, old(self)@.default_namespace, func) && filter_ends(outs, kids.len(), r)
            }),
    {
        let ghost d = self@.default_namespace;
        let ghost kids = named_children(self@.element.children, name@);
        let children = self.get_children(name);
        let ghost after = self@;
        let mut output: Vec<T> = Vec::new();
        let ghost mut cs: Seq<XMLElement> = seq![];
        let ghost mut outs: Seq<Result<Option<T>, XsdIoError>> = seq![];
        let mut rest = children;
        let ghost n = rest@.len();
        while rest.len() > 0
            invariant
                n == kids.len(),
                self@ == after,
                after == (XMLElementView {
                    element: XmlTreeView {
                        children: without_named(old(self)@.element.children, name@),
                        ..old(self)@.element
                    },
                    ..old(self)@
                }),
                d == old(self)@.default_namespace,
                kids == named_children(old(self)@.element.children, name@),
                rest@.len() + cs.len() == n,
                forall|c: XMLElement| func.requires((c,)),
                forall|i: int| 0 <= i < rest@.len() ==> (#[trigger] rest@[i])@ == (XMLElementView {
                    element: kids[cs.len() + i],
                    default_namespace: d,
                }),
                handed_out(cs, outs, kids, d, func),
                forall|i: int| 0 <= i < outs.len() ==> (#[trigger] outs[i]) is Ok,
                output@ == kept_values(outs),
            decreases rest@.len(),
        {
            let child = rest.remove(0);
            let ghost c = child;
            let ghost prev = outs;
            let out = func(child);
            proof {
                cs = cs.push(c);
                outs = outs.push(out);
                assert(outs.drop_last() =~= prev);
            }
            match out {
                Ok(Some(v)) => {
                    output.push(v);
                },
                Ok(None) => {},
                Err(e) => {
                    assert(handed_out(cs, outs, kids, d, func));
                    assert(filter_ends(outs, kids.len(), Err::<Vec<T>, XsdIoError>(e)));
                    return Err(e);
                },
            }
        }
        assert(handed_out(cs, outs, kids, d, func));
        Ok(output)
    }

    /// Takes out the child elements named `name` and hands each, in order,
    /// to `func`, keeping what it gives back; its first error is returned.
    pub fn get_children_with<T>(&mut self, name: &str, func: impl Fn(XMLElement) -> Result<T, XsdIoError>) -> (r: Result<
        Vec<T>,
        XsdIoError,
    >)
        requires
            forall|c: XMLElement| func.requires((c,)),
        ensures
            ({
                let kids = named_children(old(self)@.element.children, name@);
                &&& final(self)@ == (XMLElementView {
                    element: XmlTreeView {
                        children: without_named(old(self)@.element.children, name@),
                        ..old(self)@.element
                    },
                    ..old(self)@
                })
                &&& exists|cs: Seq<XMLElement>, outs: Seq<Result<T, XsdIoError>>|
                    #[trigger] handed_out(cs, outs, kids, old(self)@.default_namespace, func) && map_ends(outs, kids.len(), r)
            }),
    {
        let ghost d = self@.default_namespace;
        let ghost kids = named_children(self@.element.children, name@);
        let children = self.get_children(name);
        let ghost after = self@;
        let mut output: Vec<T> = Vec::new();
        let ghost mut cs: Seq<XMLElement> = seq![];
        let ghost mut outs: Seq<Result<T, XsdIoError>> = seq![];
        let mut rest = children;
        let ghost n = rest@.len();
        while rest.len() > 0
            invariant
                n == kids.len(),
                self@ == after,
                after == (XMLElementView {
                    element: XmlTreeView {
                        children: without_named(old(self)@.element.children, name@),
                        ..old(self)@.element
                    },
                    ..old(self)@
                }),
                d == old(self)@.default_namespace,
                kids == named_children(old(self)@.element.children, name@),
                rest@.len() + cs.len() == n,
                forall|c: XMLElement| func.requires((c,)),
                forall|i: int| 0 <= i < rest@.len() ==> (#[trigger] rest@[i])@ == (XMLElementView {
                    element: kids[cs.len() + i],
                    default_namespace: d,
                }),
                handed_out(cs, outs, kids, d, func),
                output@.len() == outs.len(),
                forall|i: int| 0 <= i < outs.len() ==> outs[i] == Ok::<T, XsdIoError>(#[trigger] output@[i]),
            decreases rest@.len(),
        {
            let child = rest.remove(0);
            let ghost c = child;
            let ghost prev = outs;
            let out = func(child);
            proof {
                cs = cs.push(c);
                outs = outs.push(out);
                assert forall|i: int| 0 <= i < outs.len() - 1 implies (#[trigger] outs[i]) is Ok by {
                    assert(outs[i] == prev[i]);
                    assert(prev[i] == Ok::<T, XsdIoError>(output@[i]));
                }
            }
            match out {
                Ok(v) => {
                    output.push(v);
                },
                Err(e) => {
                    assert(handed_out(cs, outs, kids, d, func));
                    assert(map_ends(outs, kids.len(), Err::<Vec<T>, XsdIoError>(e)));
                    return Err(e);
                },
            }
        }
        assert(handed_out(cs, outs, kids, d, func));
        Ok(output)
    }

    /// Takes out the attribute `name` and reads it as a `T`; its absence
    /// gives `T`'s default value.
    pub fn get_attribute_default<T: Default + FromXmlString>(&mut self, name: &str) -> (r: Result<T, XsdIoError>)
        ensures
            final(self)@ == without_attr(old(self)@, name@),
            match (attr_value(old(self)@, name@), r) {
                (None, Ok(v)) => call_ensures(T::default, (), v),
                (Some(text), Ok(v)) => T::reads_as(text, v),
                (Some(text), Err(e)) => exists|m: Seq<char>|
                    T::fails_with(text, m) && #[trigger] parse_error_is(
                        e,
                        old(self)@.element.name,
                        "error converting "@ + name@ + " from text: "@ + m,
                    ),
                _ => false,
            },
    {
        match self.try_get_attribute(name)? {
            Some(output) => Ok(output),
            None => Ok(T::default()),
        }
    }

    /// Whether the element has an attribute named `name`.
    pub fn has_attr(&self, name: &str) -> (r: bool)
        ensures
            r == (attr_pos(self@.element.attributes, name@) >= 0),
    {
        attrs_contains(&self.element.attributes, name)
    }

    /// Takes out all child elements, in order; other nodes stay.
    pub fn get_all_children(&mut self) -> (r: Vec<XMLElement>)
        ensures
            r@.len() == element_children(old(self)@.element.children).len(),
            forall|i: int| 0 <= i < r@.len() ==> (#[trigger] r@[i])@ == (XMLElementView {
                element: element_children(old(self)@.element.children)[i],
                default_namespace: old(self)@.default_namespace,
            }),
            final(self)@ == (XMLElementView {
                element: XmlTreeView { children: other_nodes(old(self)@.element.children), ..old(self)@.element },
                ..old(self)@
            }),
    {
        let mut taken: Vec<XMLElement> = Vec::new();
        let mut kept: Vec<XmlNode> = Vec::new();
        let mut children = Vec::new();
        std::mem::swap(&mut children, &mut self.element.children);
        let ghost cs = nodes_view(children@);
        proof {
            lemma_nodes_view(children@);
        }
        let n = children.len();
        let mut rest = children;
        assert(nodes_view(kept@) =~= seq![]);
        let mut i: usize = 0;
        while i < n
            invariant
                i <= n,
                n == cs.len(),
                rest@.len() == n - i,
                forall|j: int| 0 <= j < n - i ==> node_view(#[trigger] rest@[j]) == cs[i + j],
                nodes_view(kept@) == other_nodes(cs.take(i as int)),
                taken@.len() == element_children(cs.take(i as int)).len(),
                forall|j: int| 0 <= j < taken@.len() ==> (#[trigger] taken@[j])@ == (XMLElementView {
                    element: element_children(cs.take(i as int))[j],
                    default_namespace: opt_str_view(self.default_namespace),
                }),
                self.default_namespace == old(self).default_namespace,
                self.element.name == old(self).element.name,
                self.element.attributes == old(self).element.attributes,
            decreases n - i,
        {
            let ghost prev = rest@;
            let node = rest.remove(0);
            proof {
                assert(node_view(node) == cs[i as int]);
                assert forall|j: int| 0 <= j < n - (i + 1) implies node_view(#[trigger] rest@[j]) == cs[i + 1 + j] by {
                    assert(rest@[j] == prev[j + 1]);
                }
                assert(cs.take(i + 1) =~= cs.take(i as int).push(cs[i as int]));
                lemma_named_children_push(cs.take(i as int), cs[i as int], seq![]);
            }
            match node {
                XmlNode::Element(t) => {
                    let ns = crate::names::clone_opt_str(&self.default_namespace);
                    taken.push(XMLElement { element: t, default_namespace: ns });
                },
                other => {
                    let ghost before = kept@;
                    proof {
                        lemma_nodes_push(before, other);
                    }
                    kept.push(other);
                },
            }
            i += 1;
        }
        assert(cs.take(n as int) =~= cs);
        self.element.children = kept;
        taken
    }

    /// Takes out the attribute `name` and reads its value, if the element
    /// has it.
    pub fn try_get_attribute<T: FromXmlString>(&mut self, name: &str) -> (r: Result<Option<T>, XsdIoError>)
        ensures
            final(self)@ == without_attr(old(self)@, name@),
            match (attr_value(old(self)@, name@), r) {
                (None, Ok(None)) => true,
                (Some(text), Ok(Some(v))) => T::reads_as(text, v),
                (Some(text), Err(e)) => exists|m: Seq<char>|
                    T::fails_with(text, m) && #[trigger] parse_error_is(
                        e,
                        old(self)@.element.name,
                        "error converting "@ + name@ + " from text: "@ + m,
                    ),
                _ => false,
            },
    {
        proof {
            lemma_attr_pos(self@.element.attributes, name@);
        }
        let value = attrs_remove(&mut self.element.attributes, name);
        match value {
            Some(v) => match T::from_xml(v.as_str()) {
                Ok(x) => Ok(Some(x)),
                Err(m) => {
                    let a = concat3("error converting ", name, " from text: ");
                    let msg = concat(a.as_str(), m.as_str());
                    let e = parse_error(self.node_name(), msg);
                    assert(parse_error_is(e, old(self)@.element.name, "error converting "@ + name@ + " from text: "@ + m@));
                    Err(e)
                },
            },
            None => Ok(None),
        }
    }

    /// Takes out the attribute `name` and reads its value; its absence is
    /// an error.
    pub fn get_attribute<T: FromXmlString>(&mut self, name: &str) -> (r: Result<T, XsdIoError>)
        ensures
            final(self)@ == without_attr(old(self)@, name@),
            match (attr_value(old(self)@, name@), r) {
                (None, Err(e)) => parse_error_is(e, old(self)@.element.name, name@ + " not found"@),
                (Some(text), Ok(v)) => T::reads_as(text, v),
                (Some(text), Err(e)) => exists|m: Seq<char>|
                    T::fails_with(text, m) && #[trigger] parse_error_is(
                        e,
                        old(self)@.element.name,
                        "error converting "@ + name@ + " from text: "@ + m,
                    ),
                _ => false,
            },
    {
        match self.try_get_attribute(name) {
            Ok(Some(v)) => Ok(v),
            Ok(None) => Err(parse_error(self.node_name(), concat(name, " not found"))),
            Err(e) => Err(e),
        }
    }

    /// Takes out all remaining attributes, in order.
    pub fn get_remaining_attributes(&mut self) -> (r: Vec<(String, String)>)
        ensures
            pairs_view(r@) == old(self)@.element.attributes,
            final(self)@ == (XMLElementView {
                element: XmlTreeView { attributes: seq![], ..old(self)@.element },
                ..old(self)@
            }),
    {
        attrs_drain(&mut self.element.attributes)
    }

    /// Reads the element's text, if it has any.
    pub fn try_get_content<T: FromXmlString>(&mut self) -> (r: Result<Option<T>, XsdIoError>)
        ensures
            final(self)@ == old(self)@,
            match (text_of(old(self)@.element), r) {
                (None, Ok(None)) => true,
                (Some(text), Ok(Some(v))) => T::reads_as(text, v),
                (Some(text), Err(e)) => exists|m: Seq<char>|
                    T::fails_with(text, m) && #[trigger] parse_error_is(
                        e,
                        old(self)@.element.name,
                        "could not parse node content from text: "@ + m,
                    ),
                _ => false,
            },
    {
        match self.text() {
            Some(v) => match T::from_xml(v.as_str()) {
                Ok(x) => Ok(Some(x)),
                Err(m) => {
                    let msg = concat("could not parse node content from text: ", m.as_str());
                    let e = parse_error(self.node_name(), msg);
                    assert(parse_error_is(e, old(self)@.element.name, "could not parse node content from text: "@ + m@));
                    Err(e)
                },
            },
            None => Ok(None),
        }
    }

    /// Reads the element's text; its absence is an error.
    pub fn get_content<T: FromXmlString>(&mut self) -> (r: Result<T, XsdIoError>)
        ensures
            final(self)@ == old(self)@,
            match (text_of(old(self)@.element), r) {
                (None, Err(e)) => parse_error_is(e, old(self)@.element.name, "no text found"@),
                (Some(text), Ok(v)) => T::reads_as(text, v),
                (Some(text), Err(e)) => exists|m: Seq<char>|
                    T::fails_with(text, m) && #[trigger] parse_error_is(
                        e,
                        old(self)@.element.name,
                        "could not parse node content from text: "@ + m,
                    ),
                _ => false,
            },
    {
        match self.try_get_content() {
            Ok(Some(v)) => Ok(v),
            Ok(None) => Err(parse_error(self.node_name(), "no text found".to_owned())),
            Err(e) => Err(e),
        }
    }

    pub(crate) fn text(&self) -> (r: Option<String>)
        ensures
            match r {
                Some(t) => text_of(self@.element) == Some(t@),
                None => text_of(self@.element) is None,
            },
    {
        let ghost cs = nodes_view(self.element.children@);
        proof {
            lemma_nodes_view(self.element.children@);
        }
        let mut found = false;
        let mut out = String::new();
        let mut i: usize = 0;
        assert(crate::text::concat_all(text_pieces(cs.take(0))) =~= seq![]) by {
            assert(cs.take(0) =~= Seq::<XmlNodeView>::empty());
        }
        while i < self.element.children.len()
            invariant
                i <= self.element.children@.len(),
                cs == nodes_view(self.element.children@),
                cs.len() == self.element.children@.len(),
                forall|j: int| 0 <= j < cs.len() ==> #[trigger] cs[j] == node_view(self.element.children@[j]),
                found == (text_pieces(cs.take(i as int)).len() > 0),
                out@ == crate::text::concat_all(text_pieces(cs.take(i as int))),
            decreases self.element.children@.len() - i,
        {
            proof {
                assert(cs.take(i + 1) =~= cs.take(i as int).push(cs[i as int]));
                lemma_named_children_push(cs.take(i as int), cs[i as int], seq![]);
            }
            match &self.element.children[i] {
                XmlNode::Text(t) => {
                    proof {
                        crate::text::lemma_concat_all_push(text_pieces(cs.take(i as int)), t@);
                    }
                    out.push_str(t.as_str());
                    found = true;
                },
                XmlNode::CData(t) => {
                    proof {
                        crate::text::lemma_concat_all_push(text_pieces(cs.take(i as int)), t@);
                    }
                    out.push_str(t.as_str());
                    found = true;
                },
                _ => {},
            }
            i += 1;
        }
        assert(cs.take(i as int) =~= cs);
        if found {
            Some(out)
        } else {
            None
        }
    }

    /// Accepts the element where nothing is left in it: no child elements
    /// unless `allow_extra_children`, no attributes unless
    /// `allow_extra_attributes`; otherwise reports what is left.
    pub fn finalize(self, allow_extra_attributes: bool, allow_extra_children: bool) -> (r: Result<(), XsdIoError>)
        ensures
            match r {
                Ok(_) => nothing_unused(self@.element, allow_extra_attributes, allow_extra_children),
                Err(e) => !nothing_unused(self@.element, allow_extra_attributes, allow_extra_children)
                    && parse_error_is(
                    e,
                    self@.element.name,
                    unused_message(self@.element, allow_extra_attributes, allow_extra_children),
                ),
            },
    {
        let ghost t = self@.element;
        let names = self.child_names_exec();
        let child_errs = crate::text::join(&names, ", ");
        let attrs = attrs_list(&self.element.attributes);
        let mut keys: Vec<String> = Vec::new();
        let mut i: usize = 0;
        while i < attrs.len()
            invariant
                i <= attrs@.len(),
                pairs_view(attrs@) == t.attributes,
                strs_view(keys@) == attr_names(t.attributes.take(i as int)),
            decreases attrs@.len() - i,
        {
            keys.push(attrs[i].0.clone());
            proof {
                assert(attr_names(t.attributes.take(i + 1)) =~= attr_names(t.attributes.take(i as int)).push(
                    t.attributes[i as int].0,
                ));
                assert(pairs_view(attrs@)[i as int] == (attrs@[i as int].0@, attrs@[i as int].1@));
            }
            i += 1;
        }
        assert(t.attributes.take(i as int) =~= t.attributes);
        let attr_errs = crate::text::join(&keys, ", ");
        let ce = crate::text::chars_of(child_errs.as_str()).len();
        let ae = crate::text::chars_of(attr_errs.as_str()).len();
        if (ce == 0 || allow_extra_children) && (ae == 0 || allow_extra_attributes) {
            Ok(())
        } else {
            let mut text = concat3("Unused nodes found in ", self.element.name.as_str(), "; ");
            let mut include_space = false;
            if ce != 0 && !allow_extra_children {
                text.push_str("[extra children] ");
                text.push_str(child_errs.as_str());
                include_space = true;
            }
            if ae != 0 && !allow_extra_attributes {
                if include_space {
                    text.push_str("; ");
                }
                text.push_str("[extra attributes] ");
                text.push_str(attr_errs.as_str());
            }
            assert(text@ =~= unused_message(t, allow_extra_attributes, allow_extra_children));
            Err(parse_error(self.node_name(), text))
        }
    }

    fn child_names_exec(&self) -> (r: Vec<String>)
        ensures
            strs_view(r@) == child_names(self@.element),
    {
        let ghost cs = nodes_view(self.element.children@);
        proof {
            lemma_nodes_view(self.element.children@);
        }
        let mut out: Vec<String> = Vec::new();
        let mut i: usize = 0;
        while i < self.element.children.len()
            invariant
                i <= self.element.children@.len(),
                cs == nodes_view(self.element.children@),
                cs.len() == self.element.children@.len(),
                forall|j: int| 0 <= j < cs.len() ==> #[trigger] cs[j] == node_view(self.element.children@[j]),
                strs_view(out@) == element_children(cs.take(i as int)).map_values(|c: XmlTreeView| c.name),
            decreases self.element.children@.len() - i,
        {
            proof {
                assert(cs.take(i + 1) =~= cs.take(i as int).push(cs[i as int]));
                lemma_named_children_push(cs.take(i as int), cs[i as int], seq![]);
            }
            match &self.element.children[i] {
                XmlNode::Element(c) => {
                    let ghost prev = out@;
                    out.push(c.name.clone());
                    proof {
                        assert(strs_view(out@) =~= strs_view(prev).push(c.name@));
                        assert(element_children(cs.take(i + 1)).map_values(|c: XmlTreeView| c.name) =~= element_children(
                            cs.take(i as int),
                        ).map_values(|c: XmlTreeView| c.name).push(c.name@));
                    }
                },
                _ => {},
            }
            i += 1;
        }
        assert(cs.take(i as int) =~= cs);
        out
    }
}

proof fn lemma_attr_pos(a: Seq<(Seq<char>, Seq<char>)>, key: Seq<char>)
    ensures
        -1 <= attr_pos(a, key) < a.len(),
        attr_pos(a, key) >= 0 ==> a[attr_pos(a, key)].0 == key,
    decreases a.len(),
{
    if a.len() > 0 {
        lemma_attr_pos(a.drop_first(), key);
    }
}

/// The element `e` with its children named `name` taken out.
pub open spec fn without_children(e: XMLElementView, name: Seq<char>) -> XMLElementView {
    XMLElementView { element: XmlTreeView { children: without_named(e.element.children, name), ..e.element }, ..e }
}

proof fn lemma_without_named_len(cs: Seq<XmlNodeView>, name: Seq<char>)
    ensures
        without_named(cs, name).len() + named_children(cs, name).len() == cs.len(),
        named_children(cs, name).len() == 0 ==> without_named(cs, name) == cs,
    decreases cs.len(),
{
    if cs.len() > 0 {
        lemma_without_named_len(cs.drop_last(), name);
        if named_children(cs, name).len() == 0 {
            assert(cs.drop_last().push(cs.last()) =~= cs);
        }
    }
}

/// Taking out an attribute leaves the element as it was or lighter.
pub proof fn lemma_taken_attr(e: XMLElementView, name: Seq<char>)
    ensures
        taken_from(without_attr(e, name), e),
{
    lemma_attr_pos(e.element.attributes, name);
    lemma_elem_same_refl(e);
    if attr_pos(e.element.attributes, name) < 0 {
        assert(without_attr(e, name) == e);
    }
}

/// Taking out the children named `name` leaves the element as it was or
/// lighter.
pub proof fn lemma_taken_children(e: XMLElementView, name: Seq<char>)
    ensures
        taken_from(without_children(e, name), e),
{
    lemma_without_named_len(e.element.children, name);
    lemma_elem_same_refl(e);
    if named_children(e.element.children, name).len() == 0 {
        assert(without_children(e, name) == e);
    }
}

} // verus!
