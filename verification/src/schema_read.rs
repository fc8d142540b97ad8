//! Reading the components of a schema from its elements.
use vstd::prelude::*;

use crate::components::{
    Annotation, Enumeration, Import, List,
};
use crate::names::{opt_name_view, opt_str_view, XsdIoError, XsdName, XsdNameView, XsdType};
use crate::text::{replace_char, replace_char_spec, strs_view};
use crate::xml_doc::{
    attr_value, element_children, named_children, nothing_unused, other_nodes, parse_error, parse_error_is,
    text_of, without_attr, without_named, XMLElement, XMLElementView, XmlNodeView, XmlTreeView,
};

verus! {

// ----- children are smaller than their parent -----

/// Whether every node of `cur` is a node of `orig`.
pub open spec fn within(cur: Seq<XmlNodeView>, orig: Seq<XmlNodeView>) -> bool {
    forall|x: XmlNodeView| #[trigger] cur.contains(x) ==> orig.contains(x)
}

proof fn lemma_push_contains<A>(s: Seq<A>, a: A, x: A)
    ensures
        s.push(a).contains(x) <==> (s.contains(x) || x == a),
{
    if s.push(a).contains(x) {
        let k = choose|k: int| 0 <= k < s.push(a).len() && s.push(a)[k] == x;
        if k < s.len() {
            assert(s[k] == x);
        }
    }
    if s.contains(x) {
        let k = choose|k: int| 0 <= k < s.len() && s[k] == x;
        assert(s.push(a)[k] == x);
    }
    if x == a {
        assert(s.push(a)[s.len() as int] == x);
    }
}

proof fn lemma_drop_last_within<A>(s: Seq<A>, x: A)
    requires
        s.len() > 0,
        s.drop_last().contains(x),
    ensures
        s.contains(x),
{
    let k = choose|k: int| 0 <= k < s.drop_last().len() && s.drop_last()[k] == x;
    assert(s[k] == x);
}

pub(crate) proof fn lemma_without_named_within(cs: Seq<XmlNodeView>, name: Seq<char>)
    ensures
        within(without_named(cs, name), cs),
    decreases cs.len(),
{
    if cs.len() > 0 {
        lemma_without_named_within(cs.drop_last(), name);
        assert forall|x: XmlNodeView| #[trigger] without_named(cs, name).contains(x) implies cs.contains(x) by {
            let rest = without_named(cs.drop_last(), name);
            lemma_push_contains(rest, cs.last(), x);
            if rest.contains(x) {
                lemma_drop_last_within(cs, x);
            } else {
                assert(cs[cs.len() - 1] == x);
            }
        }
    }
}

proof fn lemma_other_nodes_within(cs: Seq<XmlNodeView>)
    ensures
        within(other_nodes(cs), cs),
    decreases cs.len(),
{
    if cs.len() > 0 {
        lemma_other_nodes_within(cs.drop_last());
        assert forall|x: XmlNodeView| #[trigger] other_nodes(cs).contains(x) implies cs.contains(x) by {
            let rest = other_nodes(cs.drop_last());
            lemma_push_contains(rest, cs.last(), x);
            if rest.contains(x) {
                lemma_drop_last_within(cs, x);
            } else {
                assert(cs[cs.len() - 1] == x);
            }
        }
    }
}

pub(crate) proof fn lemma_named_child_in(cs: Seq<XmlNodeView>, name: Seq<char>, i: int)
    requires
        0 <= i < named_children(cs, name).len(),
    ensures
        cs.contains(XmlNodeView::Element(named_children(cs, name)[i])),
    decreases cs.len(),
{
    if cs.len() > 0 {
        let rest = named_children(cs.drop_last(), name);
        if i < rest.len() {
            lemma_named_child_in(cs.drop_last(), name, i);
            lemma_drop_last_within(cs, XmlNodeView::Element(named_children(cs, name)[i]));
        } else {
            assert(cs[cs.len() - 1] == XmlNodeView::Element(named_children(cs, name)[i]));
        }
    }
}

pub(crate) proof fn lemma_element_child_in(cs: Seq<XmlNodeView>, i: int)
    requires
        0 <= i < element_children(cs).len(),
    ensures
        cs.contains(XmlNodeView::Element(element_children(cs)[i])),
    decreases cs.len(),
{
    if cs.len() > 0 {
        let rest = element_children(cs.drop_last());
        if i < rest.len() {
            lemma_element_child_in(cs.drop_last(), i);
            lemma_drop_last_within(cs, XmlNodeView::Element(element_children(cs)[i]));
        } else {
            assert(cs[cs.len() - 1] == XmlNodeView::Element(element_children(cs)[i]));
        }
    }
}

/// Once the children named `name` are taken out, none is left.
pub(crate) proof fn lemma_none_left(cs: Seq<XmlNodeView>, name: Seq<char>)
    ensures
        named_children(without_named(cs, name), name).len() == 0,
    decreases cs.len(),
{
    if cs.len() > 0 {
        lemma_none_left(cs.drop_last(), name);
        let rest = without_named(cs.drop_last(), name);
        if !crate::xml_doc::is_named(cs.last(), name) {
            assert(without_named(cs, name).drop_last() =~= rest);
        }
    }
}

pub(crate) proof fn lemma_child_smaller(orig: XmlTreeView, kid: XmlTreeView)
    requires
        orig.children.contains(XmlNodeView::Element(kid)),
    ensures
        decreases_to!(orig => kid),
{
    let j = choose|j: int| 0 <= j < orig.children.len() && orig.children[j] == XmlNodeView::Element(kid);
    assert(decreases_to!(orig => orig.children[j]->Element_0));
}

/// What reading keeps of an element: its name, its namespace, and children
/// taken from those of `orig`.
pub open spec fn keeps(e: XMLElementView, e0: XMLElementView, orig: XmlTreeView) -> bool {
    &&& e.element.name == e0.element.name
    &&& e.element.attributes == e0.element.attributes
    &&& e.default_namespace == e0.default_namespace
    &&& within(e.element.children, orig.children)
}

/// Takes out the children named `name`; each is a child of `orig`.
pub(crate) fn take_children(element: &mut XMLElement, name: &str, Ghost(orig): Ghost<XmlTreeView>) -> (r: Vec<XMLElement>)
    requires
        within(old(element)@.element.children, orig.children),
    ensures
        keeps(final(element)@, old(element)@, orig),
        forall|i: int| 0 <= i < r@.len() ==> orig.children.contains(XmlNodeView::Element(#[trigger] r@[i]@.element)),
        forall|i: int| 0 <= i < r@.len() ==> (#[trigger] r@[i])@.default_namespace == old(element)@.default_namespace,
        r@.len() == crate::schema_spec::kids(old(element)@, name@).len(),
        forall|i: int| 0 <= i < r@.len() ==> (#[trigger] r@[i])@ == crate::schema_spec::kid(
            old(element)@,
            crate::schema_spec::kids(old(element)@, name@)[i],
        ),
        final(element)@ == crate::schema_spec::taken(old(element)@, name@),
{
    let ghost cs = element@.element.children;
    let r = element.get_children(name);
    proof {
        lemma_without_named_within(cs, name@);
        assert forall|i: int| 0 <= i < r@.len() implies orig.children.contains(XmlNodeView::Element(#[trigger] r@[i]@.element)) by {
            lemma_named_child_in(cs, name@, i);
        }
    }
    r
}

/// Takes out the child named `name`, if there is one; more than one is an
/// error.
pub(crate) fn take_child(element: &mut XMLElement, name: &str, Ghost(orig): Ghost<XmlTreeView>) -> (r: Result<Option<XMLElement>, XsdIoError>)
    requires
        within(old(element)@.element.children, orig.children),
    ensures
        r matches Err(e) ==> e is XsdParseError,
        keeps(final(element)@, old(element)@, orig),
        final(element)@.element.children == without_named(old(element)@.element.children, name@),
        r matches Ok(Some(c)) ==> orig.children.contains(XmlNodeView::Element(c@.element)) && c@.default_namespace
            == old(element)@.default_namespace && named_children(old(element)@.element.children, name@).len() == 1,
        final(element)@ == crate::schema_spec::taken(old(element)@, name@),
        match r {
            Ok(Some(c)) => crate::schema_spec::kids(old(element)@, name@).len() == 1 && c@ == crate::schema_spec::kid(
                old(element)@,
                crate::schema_spec::kids(old(element)@, name@)[0],
            ),
            Ok(None) => crate::schema_spec::kids(old(element)@, name@).len() == 0,
            Err(_) => crate::schema_spec::kids(old(element)@, name@).len() > 1,
        },
{
    let ghost cs = element@.element.children;
    let r = element.try_get_child(name);
    proof {
        lemma_without_named_within(cs, name@);
        if r is Ok && r->Ok_0 is Some {
            lemma_named_child_in(cs, name@, 0);
        }
    }
    r
}

/// Takes out all child elements; each is a child of `orig`.
pub(crate) fn take_all_children(element: &mut XMLElement, Ghost(orig): Ghost<XmlTreeView>) -> (r: Vec<XMLElement>)
    requires
        within(old(element)@.element.children, orig.children),
    ensures
        keeps(final(element)@, old(element)@, orig),
        r@.len() == element_children(old(element)@.element.children).len(),
        forall|i: int| 0 <= i < r@.len() ==> orig.children.contains(XmlNodeView::Element(#[trigger] r@[i]@.element)),
        forall|i: int| 0 <= i < r@.len() ==> (#[trigger] r@[i])@.default_namespace == old(element)@.default_namespace,
        forall|i: int| 0 <= i < r@.len() ==> (#[trigger] r@[i])@ == crate::schema_spec::kid(
            old(element)@,
            element_children(old(element)@.element.children)[i],
        ),
        final(element)@ == (XMLElementView {
            element: XmlTreeView { children: other_nodes(old(element)@.element.children), ..old(element)@.element },
            ..old(element)@
        }),
{
    let ghost cs = element@.element.children;
    let r = element.get_all_children();
    proof {
        lemma_other_nodes_within(cs);
        assert forall|i: int| 0 <= i < r@.len() implies orig.children.contains(XmlNodeView::Element(#[trigger] r@[i]@.element)) by {
            lemma_element_child_in(cs, i);
        }
    }
    r
}

/// Whether reading an element as `tag` fails exactly where its name is
/// another, with the error that says so.
pub open spec fn tag_checked<T>(e: XMLElementView, tag: Seq<char>, r: Result<T, XsdIoError>) -> bool {
    &&& r is Ok ==> e.element.name == tag
    &&& e.element.name != tag ==> (r matches Err(x) && parse_error_is(
        x,
        e.element.name,
        "Unexpected element name "@ + tag + " expected "@ + e.element.name,
    ))
}

/// The name that `text` reads as, of kind `ty`, in the namespace `ns`
/// where it names none.
pub open spec fn name_read(text: Seq<char>, ty: XsdType, ns: Option<Seq<char>>) -> XsdNameView {
    match crate::text::split_once_spec(text, ':') {
        Some((lhs, rhs)) => XsdNameView { namespace: Some(lhs), local_name: rhs, ty },
        None => XsdNameView { namespace: ns, local_name: text, ty },
    }
}

/// An optional attribute read as a name.
pub open spec fn opt_name_read(text: Option<Seq<char>>, ty: XsdType, ns: Option<Seq<char>>) -> Option<XsdNameView> {
    match text {
        Some(t) => Some(name_read(t, ty, ns)),
        None => None,
    }
}

pub(crate) fn read_name(element: &XMLElement, text: &str, ty: XsdType) -> (r: XsdName)
    ensures
        r@ == name_read(text@, ty, element@.default_namespace),
{
    element.new_name(text, ty)
}

pub(crate) fn read_opt_name(element: &XMLElement, text: Option<String>, ty: XsdType) -> (r: Option<XsdName>)
    ensures
        opt_name_view(r) == opt_name_read(opt_str_view(text), ty, element@.default_namespace),
{
    match text {
        Some(t) => Some(read_name(element, t.as_str(), ty)),
        None => None,
    }
}

pub(crate) fn read_opt_plain_name(text: Option<String>, ty: XsdType) -> (r: Option<XsdName>)
    ensures
        opt_name_view(r) == opt_name_read(opt_str_view(text), ty, None),
{
    match text {
        Some(t) => Some(XsdName::new(t.as_str(), ty)),
        None => None,
    }
}

/// The documentation that an annotation keeps of its `documentation`
/// children: the text of each that has one, tabs widened to two spaces.
pub open spec fn doc_texts(kids: Seq<XmlTreeView>) -> Seq<Seq<char>>
    decreases kids.len(),
{
    if kids.len() == 0 {
        seq![]
    } else {
        let rest = doc_texts(kids.drop_last());
        match text_of(kids.last()) {
            Some(t) => rest.push(replace_char_spec(t, '\t', "  "@)),
            None => rest,
        }
    }
}

impl Annotation {
    /// Reads an `annotation` element: its `id` and the text of its
    /// `documentation` children.
    pub fn parse(element: XMLElement) -> (r: Result<Annotation, XsdIoError>)
        ensures
            r matches Err(e) ==> e is XsdParseError,
            tag_checked(element@, "annotation"@, r),
            r is Ok <==> crate::schema_spec::annotation_reads(element@),
            r matches Ok(a) ==> crate::schema_rel::annotation_is(element@, a),
            r matches Ok(a) ==> opt_str_view(a.id) == attr_value(element@, "id"@) && strs_view(a.documentation@)
                == doc_texts(named_children(element@.element.children, "documentation"@)),
    {
        let mut element = element;
        element.check_name("annotation")?;
        let id: Option<String> = element.try_get_attribute("id")?;
        let ghost e1 = element@;
        let kids = element.get_children("documentation");
        let ghost ks = named_children(e1.element.children, "documentation"@);
        let mut documentation: Vec<String> = Vec::new();
        let mut i: usize = 0;
        while i < kids.len()
            invariant
                i <= kids@.len(),
                kids@.len() == ks.len(),
                forall|j: int| 0 <= j < kids@.len() ==> (#[trigger] kids@[j])@.element == ks[j],
                strs_view(documentation@) == doc_texts(ks.take(i as int)),
            decreases kids@.len() - i,
        {
            proof {
                assert(ks.take(i + 1).drop_last() =~= ks.take(i as int));
            }
            match kids[i].text() {
                Some(t) => {
                    let d = replace_char(t.as_str(), '\t', "  ");
                    let ghost prev = documentation@;
                    documentation.push(d);
                    proof {
                        assert(strs_view(documentation@) =~= strs_view(prev).push(d@));
                    }
                },
                None => {},
            }
            i += 1;
        }
        proof {
            assert(ks.take(i as int) =~= ks);
        }
        element.finalize(false, false)?;
        Ok(Annotation { id, documentation })
    }
}

impl Import {
    /// Reads an `import` element: its `id`, `namespace` and
    /// `schemaLocation`, each where it is given.
    pub fn parse(element: XMLElement) -> (r: Result<Import, XsdIoError>)
        ensures
            r matches Err(e) ==> e is XsdParseError,
            ({
                let e1 = without_attr(element@, "id"@);
                let e2 = without_attr(e1, "namespace"@);
                r matches Ok(i) && opt_str_view(i.id) == attr_value(element@, "id"@) && opt_str_view(i.namespace)
                    == attr_value(e1, "namespace"@) && opt_str_view(i.schema_location) == attr_value(
                    e2,
                    "schemaLocation"@,
                )
            }),
    {
        let mut element = element;
        let id: Option<String> = element.try_get_attribute("id")?;
        let namespace: Option<String> = element.try_get_attribute("namespace")?;
        let schema_location: Option<String> = element.try_get_attribute("schemaLocation")?;
        Ok(Import { id, namespace, schema_location })
    }
}

impl Enumeration {
    /// Reads an `enumeration` facet: its `value`, which must be given, and
    /// nothing else.
    pub fn parse(element: XMLElement) -> (r: Result<Enumeration, XsdIoError>)
        ensures
            r matches Err(e) ==> e is XsdParseError,
            tag_checked(element@, "enumeration"@, r),
            ({
                let ok = element@.element.name == "enumeration"@ && attr_value(element@, "value"@) is Some
                    && nothing_unused(without_attr(element@, "value"@).element, false, false);
                &&& r is Ok <==> ok
                &&& r matches Ok(e) ==> Some(e.value@) == attr_value(element@, "value"@)
            }),
    {
        let mut element = element;
        element.check_name("enumeration")?;
        let value: String = element.get_attribute("value")?;
        element.finalize(false, false)?;
        Ok(Enumeration { value })
    }
}

impl List {
    /// Reads a `list`: its `itemType`, which must be given, read as a
    /// simple type's name, and nothing else.
    pub fn parse(element: XMLElement) -> (r: Result<List, XsdIoError>)
        ensures
            r matches Err(e) ==> e is XsdParseError,
            tag_checked(element@, "list"@, r),
            ({
                let ok = element@.element.name == "list"@ && attr_value(element@, "itemType"@) is Some
                    && nothing_unused(without_attr(element@, "itemType"@).element, false, false);
                &&& r is Ok <==> ok
                &&& r matches Ok(l) ==> l.item_type@ == name_read(
                    attr_value(element@, "itemType"@)->Some_0,
                    XsdType::SimpleType,
                    element@.default_namespace,
                )
            }),
    {
        let mut element = element;
        element.check_name("list")?;
        let item: String = element.get_attribute("itemType")?;
        let item_type = read_name(&element, item.as_str(), XsdType::SimpleType);
        element.finalize(false, false)?;
        Ok(List { item_type })
    }
}

pub(crate) fn bad_node(element: &XMLElement, msg: &str) -> (r: XsdIoError)
    ensures
        parse_error_is(r, element@.element.name, msg@),
{
    parse_error(element.node_name(), msg.to_owned())
}

} // verus!
