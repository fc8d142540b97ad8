//! When reading a schema element succeeds: for each component, the
//! element's name, the attributes that must be present or readable, the
//! number of children of each kind, what each child must satisfy, the rules
//! between parts, and that nothing is left over once all is read.
use vstd::prelude::*;

use crate::components::RestrictionParentType;
use crate::runtime::FromXmlString;
use crate::schema_read::{lemma_child_smaller, lemma_named_child_in, lemma_element_child_in, within};
use crate::xml_doc::{
    attr_value, element_children, named_children, nothing_unused, other_nodes, without_attr, without_named,
    XMLElementView, XmlNodeView, XmlTreeView,
};

verus! {

/// The element after its children named `name` are taken out.
pub open spec fn taken(e: XMLElementView, name: Seq<char>) -> XMLElementView {
    XMLElementView { element: XmlTreeView { children: without_named(e.element.children, name), ..e.element }, ..e }
}

/// The children of `e` named `name`.
pub open spec fn kids(e: XMLElementView, name: Seq<char>) -> Seq<XmlTreeView> {
    named_children(e.element.children, name)
}

/// A child element as it is read: with the namespace of its parent.
pub open spec fn kid(e: XMLElementView, t: XmlTreeView) -> XMLElementView {
    XMLElementView { element: t, default_namespace: e.default_namespace }
}

/// Whether an attribute's text, where present, reads as a `T`.
pub open spec fn text_reads<T: FromXmlString>(text: Option<Seq<char>>) -> bool {
    match text {
        Some(t) => !exists|m: Seq<char>| #[trigger] T::fails_with(t, m),
        None => true,
    }
}

/// Whether the facet `name` of `e` is read: at most one such child, whose
/// `value` is present and reads as a `T`.
pub open spec fn facet_reads<T: FromXmlString>(e: XMLElementView, name: Seq<char>) -> bool {
    let k = kids(e, name);
    k.len() <= 1 && (k.len() == 1 ==> attr_value(kid(e, k[0]), "value"@) is Some && text_reads::<T>(
        attr_value(kid(e, k[0]), "value"@),
    ))
}

/// Whether each child named `name` has a `value`.
pub open spec fn values_read(e: XMLElementView, name: Seq<char>) -> bool {
    forall|i: int| 0 <= i < kids(e, name).len() ==> attr_value(kid(e, #[trigger] kids(e, name)[i]), "value"@) is Some
}

/// How many of three facts hold.
pub open spec fn holds_count(a: bool, b: bool, c: bool) -> int {
    (if a { 1int } else { 0int }) + (if b { 1int } else { 0int }) + (if c { 1int } else { 0int })
}

/// Elements taken from children that lie within `orig` are smaller than
/// `orig`, and what is left still lies within it.
pub proof fn lemma_named_smaller(orig: XmlTreeView, cs: Seq<XmlNodeView>, name: Seq<char>)
    requires
        within(cs, orig.children),
    ensures
        forall|i: int| 0 <= i < named_children(cs, name).len() ==> decreases_to!(orig => #[trigger] named_children(cs, name)[i]),
        within(without_named(cs, name), orig.children),
{
    assert forall|i: int| 0 <= i < named_children(cs, name).len() implies decreases_to!(orig => #[trigger] named_children(cs, name)[i]) by {
        lemma_named_child_in(cs, name, i);
        lemma_child_smaller(orig, named_children(cs, name)[i]);
    }
    crate::schema_read::lemma_without_named_within(cs, name);
}

/// The child elements of `orig` are smaller than it.
pub proof fn lemma_elements_smaller(orig: XmlTreeView)
    ensures
        forall|i: int| 0 <= i < element_children(orig.children).len() ==> decreases_to!(orig => #[trigger] element_children(orig.children)[i]),
{
    assert forall|i: int| 0 <= i < element_children(orig.children).len() implies decreases_to!(orig => #[trigger] element_children(orig.children)[i]) by {
        lemma_element_child_in(orig.children, i);
        lemma_child_smaller(orig, element_children(orig.children)[i]);
    }
}

/// Whether `Annotation::parse` reads `e`.
pub open spec fn annotation_reads(e: XMLElementView) -> bool {
    let e1 = without_attr(e, "id"@);
    let e2 = taken(e1, "documentation"@);
    e.element.name == "annotation"@ && nothing_unused(e2.element, false, false)
}

/// Whether `List::parse` reads `e`.
pub open spec fn list_reads(e: XMLElementView) -> bool {
    e.element.name == "list"@ && attr_value(e, "itemType"@) is Some && nothing_unused(
        without_attr(e, "itemType"@).element,
        false,
        false,
    )
}

/// Whether at most one child named `name` is there, and it is an
/// annotation that reads.
pub open spec fn annotation_child_reads(e: XMLElementView, name: Seq<char>) -> bool {
    let k = kids(e, name);
    k.len() <= 1 && (k.len() == 1 ==> annotation_reads(kid(e, k[0])))
}

/// Whether `Attribute::parse` reads `e`.
pub open spec fn attribute_reads(e: XMLElementView) -> bool
    decreases e.element, 1int,
{
    let e1 = without_attr(e, "name"@);
    let e2 = without_attr(e1, "ref"@);
    let e3 = without_attr(e2, "type"@);
    let has_name = attr_value(e, "name"@) is Some;
    let has_ref = attr_value(e1, "ref"@) is Some;
    let has_type = attr_value(e2, "type"@) is Some;
    let st = kids(e3, "simpleType"@);
    let e4 = taken(e3, "simpleType"@);
    let e5 = without_attr(e4, "use"@);
    let e6 = taken(e5, "annotation"@);
    let e8 = without_attr(without_attr(e6, "default"@), "fixed"@);
    proof {
        lemma_named_smaller(e.element, e.element.children, "simpleType"@);
    }
    &&& e.element.name == "attribute"@
    &&& !(has_name && has_ref)
    &&& st.len() <= 1
    &&& (st.len() == 1 ==> simple_type_reads(kid(e, st[0]), false))
    &&& text_reads::<crate::components::Required>(attr_value(e4, "use"@))
    &&& !(has_ref && (st.len() == 1 || has_type))
    &&& !(st.len() == 1 && has_type)
    &&& annotation_child_reads(e5, "annotation"@)
    &&& nothing_unused(e8.element, false, false)
}

/// Whether `AttributeGroup::parse` reads `e`.
pub open spec fn attribute_group_reads(e: XMLElementView) -> bool
    decreases e.element, 1int,
{
    let e1 = without_attr(e, "name"@);
    let e2 = without_attr(e1, "ref"@);
    let at = kids(e2, "attribute"@);
    let e3 = taken(e2, "attribute"@);
    let ag = kids(e3, "attributeGroup"@);
    let e4 = taken(e3, "attributeGroup"@);
    let e5 = taken(e4, "annotation"@);
    proof {
        lemma_named_smaller(e.element, e.element.children, "attribute"@);
        lemma_named_smaller(e.element, e3.element.children, "attributeGroup"@);
    }
    &&& e.element.name == "attributeGroup"@
    &&& !(attr_value(e, "name"@) is Some && attr_value(e1, "ref"@) is Some)
    &&& forall|i: int| 0 <= i < at.len() ==> attribute_reads(kid(e, #[trigger] at[i]))
    &&& forall|i: int| 0 <= i < ag.len() ==> attribute_group_reads(kid(e, #[trigger] ag[i]))
    &&& annotation_child_reads(e4, "annotation"@)
    &&& nothing_unused(e5.element, false, false)
}

/// Whether `SimpleType::parse` reads `e`, under the schema or not.
pub open spec fn simple_type_reads(e: XMLElementView, parent_is_schema: bool) -> bool
    decreases e.element, 1int,
{
    let rs = kids(e, "restriction"@);
    let e1 = taken(e, "restriction"@);
    let ls = kids(e1, "list"@);
    let e2 = taken(e1, "list"@);
    let us = kids(e2, "union"@);
    let e3 = taken(e2, "union"@);
    let has_name = attr_value(e3, "name"@) is Some;
    let e4 = without_attr(e3, "name"@);
    let e5 = taken(e4, "annotation"@);
    proof {
        lemma_named_smaller(e.element, e.element.children, "restriction"@);
        lemma_named_smaller(e.element, e1.element.children, "list"@);
        lemma_named_smaller(e.element, e2.element.children, "union"@);
    }
    &&& e.element.name == "simpleType"@
    &&& rs.len() <= 1
    &&& (rs.len() == 1 ==> restriction_reads(kid(e, rs[0]), RestrictionParentType::SimpleType))
    &&& ls.len() <= 1
    &&& (ls.len() == 1 ==> list_reads(kid(e, ls[0])))
    &&& us.len() <= 1
    &&& (us.len() == 1 ==> union_reads(kid(e, us[0])))
    &&& holds_count(rs.len() == 1, ls.len() == 1, us.len() == 1) <= 1
    &&& (parent_is_schema ==> has_name)
    &&& (!parent_is_schema ==> !has_name)
    &&& annotation_child_reads(e4, "annotation"@)
    &&& nothing_unused(e5.element, false, false)
}

/// Whether `Union::parse` reads `e`.
pub open spec fn union_reads(e: XMLElementView) -> bool
    decreases e.element, 1int,
{
    let e1 = without_attr(e, "memberTypes"@);
    let st = kids(e1, "simpleType"@);
    let e2 = taken(e1, "simpleType"@);
    proof {
        lemma_named_smaller(e.element, e.element.children, "simpleType"@);
    }
    &&& e.element.name == "union"@
    &&& forall|i: int| 0 <= i < st.len() ==> simple_type_reads(kid(e, #[trigger] st[i]), false)
    &&& nothing_unused(e2.element, false, false)
}

/// Whether what a restriction holds suits what it restricts.
pub open spec fn restriction_fits(
    parent: RestrictionParentType,
    choice: bool,
    group: bool,
    sequence: bool,
    attributes: nat,
    attribute_groups: nat,
) -> bool {
    match parent {
        RestrictionParentType::SimpleType => !choice && !group && !sequence && attributes == 0 && attribute_groups
            == 0,
        RestrictionParentType::ComplexContent => holds_count(choice, group, sequence) <= 1,
        RestrictionParentType::SimpleContent => !choice && !group && !sequence,
    }
}

/// Whether the facets of a restriction read, from `e` (what is left once
/// its particles are read and its `base` taken) on.
pub open spec fn facets_read(e: XMLElementView) -> bool {
    let f1 = taken(e, "minInclusive"@);
    let f2 = taken(f1, "maxInclusive"@);
    let f3 = taken(f2, "minExclusive"@);
    let f4 = taken(f3, "maxExclusive"@);
    let f5 = taken(f4, "totalDigits"@);
    let f6 = taken(f5, "fractionDigits"@);
    let f7 = taken(f6, "enumeration"@);
    let f8 = taken(f7, "pattern"@);
    let f9 = taken(f8, "length"@);
    let f10 = taken(f9, "minLength"@);
    let f11 = taken(f10, "maxLength"@);
    let f12 = taken(f11, "whitespace"@);
    &&& facet_reads::<i64>(e, "minInclusive"@)
    &&& facet_reads::<i64>(f1, "maxInclusive"@)
    &&& facet_reads::<i64>(f2, "minExclusive"@)
    &&& facet_reads::<i64>(f3, "maxExclusive"@)
    &&& facet_reads::<i64>(f4, "totalDigits"@)
    &&& facet_reads::<i64>(f5, "fractionDigits"@)
    &&& values_read(f6, "enumeration"@)
    &&& facet_reads::<String>(f7, "pattern"@)
    &&& facet_reads::<i64>(f8, "length"@)
    &&& facet_reads::<i64>(f9, "minLength"@)
    &&& facet_reads::<i64>(f10, "maxLength"@)
    &&& facet_reads::<crate::components::Whitespace>(f11, "whitespace"@)
    &&& nothing_unused(f12.element, false, false)
}

/// Whether `Restriction::parse` reads `e` as a restriction of `parent`.
pub open spec fn restriction_reads(e: XMLElementView, parent: RestrictionParentType) -> bool
    decreases e.element, 1int,
{
    let e1 = taken(e, "annotation"@);
    let at = kids(e1, "attribute"@);
    let e2 = taken(e1, "attribute"@);
    let ag = kids(e2, "attributeGroup"@);
    let e3 = taken(e2, "attributeGroup"@);
    let ch = kids(e3, "choice"@);
    let e4 = taken(e3, "choice"@);
    let gr = kids(e4, "group"@);
    let e5 = taken(e4, "group"@);
    let sq = kids(e5, "sequence"@);
    let e6 = taken(e5, "sequence"@);
    proof {
        lemma_named_smaller(e.element, e.element.children, "annotation"@);
        lemma_named_smaller(e.element, e1.element.children, "attribute"@);
        lemma_named_smaller(e.element, e2.element.children, "attributeGroup"@);
        lemma_named_smaller(e.element, e3.element.children, "choice"@);
        lemma_named_smaller(e.element, e4.element.children, "group"@);
        lemma_named_smaller(e.element, e5.element.children, "sequence"@);
    }
    &&& e.element.name == "restriction"@
    &&& annotation_child_reads(e, "annotation"@)
    &&& forall|i: int| 0 <= i < at.len() ==> attribute_reads(kid(e, #[trigger] at[i]))
    &&& forall|i: int| 0 <= i < ag.len() ==> attribute_group_reads(kid(e, #[trigger] ag[i]))
    &&& ch.len() <= 1 && (ch.len() == 1 ==> choice_reads(kid(e, ch[0])))
    &&& gr.len() <= 1 && (gr.len() == 1 ==> group_reads(kid(e, gr[0])))
    &&& sq.len() <= 1 && (sq.len() == 1 ==> sequence_reads(kid(e, sq[0])))
    &&& restriction_fits(parent, ch.len() == 1, gr.len() == 1, sq.len() == 1, at.len(), ag.len())
    &&& attr_value(e6, "base"@) is Some
    &&& facets_read(without_attr(e6, "base"@))
}

/// Whether `ComplexContent::parse` reads `e`.
pub open spec fn complex_content_reads(e: XMLElementView) -> bool
    decreases e.element, 1int,
{
    let ex = kids(e, "extension"@);
    let e1 = taken(e, "extension"@);
    let rs = kids(e1, "restriction"@);
    let e2 = taken(e1, "restriction"@);
    proof {
        lemma_named_smaller(e.element, e.element.children, "extension"@);
        lemma_named_smaller(e.element, e1.element.children, "restriction"@);
    }
    &&& e.element.name == "complexContent"@
    &&& ex.len() <= 1 && (ex.len() == 1 ==> extension_reads(kid(e, ex[0])))
    &&& rs.len() <= 1 && (rs.len() == 1 ==> restriction_reads(kid(e, rs[0]), RestrictionParentType::ComplexContent))
    &&& nothing_unused(e2.element, false, false)
}

/// Whether `SimpleContent::parse` reads `e`.
pub open spec fn simple_content_reads(e: XMLElementView) -> bool
    decreases e.element, 1int,
{
    let rs = kids(e, "restriction"@);
    let e1 = taken(e, "restriction"@);
    let ex = kids(e1, "extension"@);
    let e2 = taken(e1, "extension"@);
    proof {
        lemma_named_smaller(e.element, e.element.children, "restriction"@);
        lemma_named_smaller(e.element, e1.element.children, "extension"@);
    }
    &&& e.element.name == "simpleContent"@
    &&& rs.len() <= 1 && (rs.len() == 1 ==> restriction_reads(kid(e, rs[0]), RestrictionParentType::SimpleContent))
    &&& ex.len() <= 1 && (ex.len() == 1 ==> extension_reads(kid(e, ex[0])))
    &&& !(rs.len() == 1 && ex.len() == 1)
    &&& nothing_unused(e2.element, false, false)
}

/// Whether `Extension::parse` reads `e`.
pub open spec fn extension_reads(e: XMLElementView) -> bool
    decreases e.element, 1int,
{
    let at = kids(e, "attribute"@);
    let e1 = taken(e, "attribute"@);
    let ag = kids(e1, "attributeGroup"@);
    let e2 = taken(e1, "attributeGroup"@);
    let gr = kids(e2, "group"@);
    let e3 = taken(e2, "group"@);
    let ch = kids(e3, "choice"@);
    let e4 = taken(e3, "choice"@);
    let sq = kids(e4, "sequence"@);
    let e5 = taken(e4, "sequence"@);
    let e6 = without_attr(e5, "base"@);
    let e7 = taken(e6, "sequence"@);
    let e8 = taken(e7, "annotation"@);
    proof {
        lemma_named_smaller(e.element, e.element.children, "attribute"@);
        lemma_named_smaller(e.element, e1.element.children, "attributeGroup"@);
        lemma_named_smaller(e.element, e2.element.children, "group"@);
        lemma_named_smaller(e.element, e3.element.children, "choice"@);
        lemma_named_smaller(e.element, e4.element.children, "sequence"@);
    }
    &&& e.element.name == "extension"@
    &&& forall|i: int| 0 <= i < at.len() ==> attribute_reads(kid(e, #[trigger] at[i]))
    &&& forall|i: int| 0 <= i < ag.len() ==> attribute_group_reads(kid(e, #[trigger] ag[i]))
    &&& gr.len() <= 1 && (gr.len() == 1 ==> group_reads(kid(e, gr[0])))
    &&& ch.len() <= 1 && (ch.len() == 1 ==> choice_reads(kid(e, ch[0])))
    &&& sq.len() <= 1 && (sq.len() == 1 ==> sequence_reads(kid(e, sq[0])))
    &&& !((at.len() > 0 || ag.len() > 0) && (gr.len() == 1 || ch.len() == 1 || sq.len() == 1))
    &&& holds_count(gr.len() == 1, ch.len() == 1, sq.len() == 1) <= 1
    &&& attr_value(e5, "base"@) is Some
    &&& kids(e6, "sequence"@).len() == 0
    &&& annotation_child_reads(e7, "annotation"@)
    &&& nothing_unused(e8.element, false, false)
}

/// Whether `ComplexType::parse` reads `e`.
pub open spec fn complex_type_reads(e: XMLElementView) -> bool
    decreases e.element, 1int,
{
    let sc = kids(e, "simpleContent"@);
    let e1 = taken(e, "simpleContent"@);
    let cc = kids(e1, "complexContent"@);
    let e2 = taken(e1, "complexContent"@);
    let ch = kids(e2, "choice"@);
    let e3 = taken(e2, "choice"@);
    let gr = kids(e3, "group"@);
    let e4 = taken(e3, "group"@);
    let sq = kids(e4, "sequence"@);
    let e5 = taken(e4, "sequence"@);
    let at = kids(e5, "attribute"@);
    let e6 = taken(e5, "attribute"@);
    let ag = kids(e6, "attributeGroup"@);
    let e7 = taken(e6, "attributeGroup"@);
    let e8 = without_attr(e7, "name"@);
    let e9 = taken(e8, "annotation"@);
    proof {
        lemma_named_smaller(e.element, e.element.children, "simpleContent"@);
        lemma_named_smaller(e.element, e1.element.children, "complexContent"@);
        lemma_named_smaller(e.element, e2.element.children, "choice"@);
        lemma_named_smaller(e.element, e3.element.children, "group"@);
        lemma_named_smaller(e.element, e4.element.children, "sequence"@);
        lemma_named_smaller(e.element, e5.element.children, "attribute"@);
        lemma_named_smaller(e.element, e6.element.children, "attributeGroup"@);
    }
    let content = sc.len() == 1 || cc.len() == 1;
    &&& e.element.name == "complexType"@
    &&& sc.len() <= 1 && (sc.len() == 1 ==> simple_content_reads(kid(e, sc[0])))
    &&& cc.len() <= 1 && (cc.len() == 1 ==> complex_content_reads(kid(e, cc[0])))
    &&& ch.len() <= 1 && (ch.len() == 1 ==> choice_reads(kid(e, ch[0])))
    &&& gr.len() <= 1 && (gr.len() == 1 ==> group_reads(kid(e, gr[0])))
    &&& sq.len() <= 1 && (sq.len() == 1 ==> sequence_reads(kid(e, sq[0])))
    &&& forall|i: int| 0 <= i < at.len() ==> attribute_reads(kid(e, #[trigger] at[i]))
    &&& forall|i: int| 0 <= i < ag.len() ==> attribute_group_reads(kid(e, #[trigger] ag[i]))
    &&& !(sc.len() == 1 && cc.len() == 1)
    &&& !(content && (at.len() > 0 || ag.len() > 0 || gr.len() == 1 || ch.len() == 1 || sq.len() == 1))
    &&& holds_count(gr.len() == 1, ch.len() == 1, sq.len() == 1) <= 1
    &&& annotation_child_reads(e8, "annotation"@)
    &&& nothing_unused(e9.element, false, false)
}

/// Whether `minOccurs` and `maxOccurs` read, from `e` on, and what is left
/// after them.
pub open spec fn occurs_read(e: XMLElementView) -> bool {
    &&& text_reads::<u64>(attr_value(e, "minOccurs"@))
    &&& text_reads::<crate::components::MaxOccurences>(attr_value(without_attr(e, "minOccurs"@), "maxOccurs"@))
}

/// Whether `min` and `max` are what `minOccurs` and `maxOccurs` of `e`
/// read as: the value given, else 1.
pub open spec fn occurs_as(e: XMLElementView, min: u64, max: crate::components::MaxOccurences) -> bool {
    &&& match attr_value(e, "minOccurs"@) {
        Some(t) => <u64 as FromXmlString>::reads_as(t, min),
        None => min == 1,
    }
    &&& match attr_value(without_attr(e, "minOccurs"@), "maxOccurs"@) {
        Some(t) => <crate::components::MaxOccurences as FromXmlString>::reads_as(t, max),
        None => max == crate::components::MaxOccurences::Number { value: 1 },
    }
}

/// An element declaration once its name, reference, type children,
/// annotation, `type`, `final` and `block` are read: where its occurrences
/// are read.
pub open spec fn element_occurs_stage(e: XMLElementView) -> XMLElementView {
    let e2 = without_attr(without_attr(e, "name"@), "ref"@);
    let e5 = taken(taken(taken(e2, "complexType"@), "simpleType"@), "annotation"@);
    without_attr(without_attr(without_attr(e5, "type"@), "final"@), "block"@)
}

/// The element declaration where its `type` is read.
pub open spec fn element_type_stage(e: XMLElementView) -> XMLElementView {
    let e2 = without_attr(without_attr(e, "name"@), "ref"@);
    taken(taken(taken(e2, "complexType"@), "simpleType"@), "annotation"@)
}

/// A group once its name, reference, particles and `id` are read.
pub open spec fn group_occurs_stage(e: XMLElementView) -> XMLElementView {
    let e2 = without_attr(without_attr(e, "name"@), "ref"@);
    without_attr(taken(taken(e2, "sequence"@), "choice"@), "id"@)
}

/// A choice once its options and `id` are read.
pub open spec fn choice_occurs_stage(e: XMLElementView) -> XMLElementView {
    without_attr(
        XMLElementView { element: XmlTreeView { children: other_nodes(e.element.children), ..e.element }, ..e },
        "id"@,
    )
}

/// A restriction once its annotation, attributes and particles are read:
/// where its `base` is read.
pub open spec fn restriction_base_stage(e: XMLElementView) -> XMLElementView {
    let e3 = taken(taken(taken(e, "annotation"@), "attribute"@), "attributeGroup"@);
    taken(taken(taken(e3, "choice"@), "group"@), "sequence"@)
}

/// An extension once its attributes and particles are read: where its
/// `base` is read.
pub open spec fn extension_base_stage(e: XMLElementView) -> XMLElementView {
    let e2 = taken(taken(e, "attribute"@), "attributeGroup"@);
    taken(taken(taken(e2, "group"@), "choice"@), "sequence"@)
}

/// A simple type once its restriction, list and union are read: where its
/// `name` is read.
pub open spec fn simple_type_name_stage(e: XMLElementView) -> XMLElementView {
    taken(taken(taken(e, "restriction"@), "list"@), "union"@)
}

/// Whether `v` is what the facet `name` of `e` reads as: none without
/// such a child, else the reading of its `value`.
pub open spec fn facet_as<T: FromXmlString>(e: XMLElementView, name: Seq<char>, v: Option<T>) -> bool {
    let k = kids(e, name);
    match v {
        None => k.len() == 0,
        Some(val) => k.len() == 1 && (attr_value(kid(e, k[0]), "value"@) matches Some(t) && T::reads_as(t, val)),
    }
}

/// Whether `vs` are the `value`s of the children of `e` named `name`, in
/// order.
pub open spec fn values_as(e: XMLElementView, name: Seq<char>, vs: Seq<Seq<char>>) -> bool {
    &&& vs.len() == kids(e, name).len()
    &&& forall|i: int| 0 <= i < vs.len() ==> Some(#[trigger] vs[i]) == attr_value(kid(e, kids(e, name)[i]), "value"@)
}

/// Whether the facets of a restriction are what its children from `e` on
/// read as.
pub open spec fn facets_as(e: XMLElementView, x: crate::components::Restriction) -> bool {
    let f1 = taken(e, "minInclusive"@);
    let f2 = taken(f1, "maxInclusive"@);
    let f3 = taken(f2, "minExclusive"@);
    let f4 = taken(f3, "maxExclusive"@);
    let f5 = taken(f4, "totalDigits"@);
    let f6 = taken(f5, "fractionDigits"@);
    let f7 = taken(f6, "enumeration"@);
    let f8 = taken(f7, "pattern"@);
    let f9 = taken(f8, "length"@);
    let f10 = taken(f9, "minLength"@);
    let f11 = taken(f10, "maxLength"@);
    &&& facet_as::<i64>(e, "minInclusive"@, x.min_inclusive)
    &&& facet_as::<i64>(f1, "maxInclusive"@, x.max_inclusive)
    &&& facet_as::<i64>(f2, "minExclusive"@, x.min_exclusive)
    &&& facet_as::<i64>(f3, "maxExclusive"@, x.max_exclusive)
    &&& facet_as::<i64>(f4, "totalDigits"@, x.total_digits)
    &&& facet_as::<i64>(f5, "fractionDigits"@, x.fraction_digits)
    &&& values_as(f6, "enumeration"@, crate::text::strs_view(x.enumerations@))
    &&& facet_as::<String>(f7, "pattern"@, x.pattern)
    &&& facet_as::<i64>(f8, "length"@, x.length)
    &&& facet_as::<i64>(f9, "minLength"@, x.min_length)
    &&& facet_as::<i64>(f10, "maxLength"@, x.max_length)
    &&& facet_as::<crate::components::Whitespace>(f11, "whitespace"@, x.whitespace)
}

/// The element once `minOccurs` and `maxOccurs` are taken.
pub open spec fn without_occurs(e: XMLElementView) -> XMLElementView {
    without_attr(without_attr(e, "minOccurs"@), "maxOccurs"@)
}

/// Whether `Element::parse` reads `e`, under the schema or not.
pub open spec fn element_reads(e: XMLElementView, parent_is_schema: bool) -> bool
    decreases e.element, 1int,
{
    let e1 = without_attr(e, "name"@);
    let e2 = without_attr(e1, "ref"@);
    let has_name = attr_value(e, "name"@) is Some;
    let has_ref = attr_value(e1, "ref"@) is Some;
    let ct = kids(e2, "complexType"@);
    let e3 = taken(e2, "complexType"@);
    let st = kids(e3, "simpleType"@);
    let e4 = taken(e3, "simpleType"@);
    let e5 = taken(e4, "annotation"@);
    let e8 = without_attr(without_attr(without_attr(e5, "type"@), "final"@), "block"@);
    proof {
        lemma_named_smaller(e.element, e.element.children, "complexType"@);
        lemma_named_smaller(e.element, e3.element.children, "simpleType"@);
    }
    &&& e.element.name == "element"@
    &&& (parent_is_schema ==> has_name && !has_ref)
    &&& ct.len() <= 1 && (ct.len() == 1 ==> complex_type_reads(kid(e, ct[0])))
    &&& st.len() <= 1 && (st.len() == 1 ==> simple_type_reads(kid(e, st[0]), false))
    &&& !(st.len() == 1 && ct.len() == 1)
    &&& annotation_child_reads(e4, "annotation"@)
    &&& occurs_read(e8)
    &&& nothing_unused(without_occurs(e8).element, false, false)
}

/// Whether `Group::parse` reads `e`.
pub open spec fn group_reads(e: XMLElementView) -> bool
    decreases e.element, 1int,
{
    let e1 = without_attr(e, "name"@);
    let e2 = without_attr(e1, "ref"@);
    let sq = kids(e2, "sequence"@);
    let e3 = taken(e2, "sequence"@);
    let ch = kids(e3, "choice"@);
    let e4 = taken(e3, "choice"@);
    let e5 = without_attr(e4, "id"@);
    let e7 = without_occurs(e5);
    let e8 = taken(e7, "annotation"@);
    proof {
        lemma_named_smaller(e.element, e.element.children, "sequence"@);
        lemma_named_smaller(e.element, e3.element.children, "choice"@);
    }
    &&& e.element.name == "group"@
    &&& sq.len() <= 1 && (sq.len() == 1 ==> sequence_reads(kid(e, sq[0])))
    &&& ch.len() <= 1 && (ch.len() == 1 ==> choice_reads(kid(e, ch[0])))
    &&& !(attr_value(e, "name"@) is Some && attr_value(e1, "ref"@) is Some)
    &&& !(sq.len() == 1 && ch.len() == 1)
    &&& occurs_read(e5)
    &&& annotation_child_reads(e7, "annotation"@)
    &&& nothing_unused(e8.element, false, false)
}

/// Whether `Sequence::parse` reads `e`.
pub open spec fn sequence_reads(e: XMLElementView) -> bool
    decreases e.element, 1int,
{
    let e1 = without_attr(e, "id"@);
    let e3 = without_occurs(e1);
    let e4 = taken(e3, "annotation"@);
    let el = kids(e4, "element"@);
    let e5 = taken(e4, "element"@);
    let gr = kids(e5, "group"@);
    let e6 = taken(e5, "group"@);
    let ch = kids(e6, "choice"@);
    let e7 = taken(e6, "choice"@);
    let sq = kids(e7, "sequence"@);
    let e8 = taken(e7, "sequence"@);
    proof {
        lemma_named_smaller(e.element, e.element.children, "annotation"@);
        lemma_named_smaller(e.element, e4.element.children, "element"@);
        lemma_named_smaller(e.element, e5.element.children, "group"@);
        lemma_named_smaller(e.element, e6.element.children, "choice"@);
        lemma_named_smaller(e.element, e7.element.children, "sequence"@);
    }
    &&& e.element.name == "sequence"@
    &&& occurs_read(e1)
    &&& annotation_child_reads(e3, "annotation"@)
    &&& forall|i: int| 0 <= i < el.len() ==> element_reads(kid(e, #[trigger] el[i]), false)
    &&& forall|i: int| 0 <= i < gr.len() ==> group_reads(kid(e, #[trigger] gr[i]))
    &&& forall|i: int| 0 <= i < ch.len() ==> choice_reads(kid(e, #[trigger] ch[i]))
    &&& forall|i: int| 0 <= i < sq.len() ==> sequence_reads(kid(e, #[trigger] sq[i]))
    &&& nothing_unused(e8.element, false, false)
}

/// Whether a child of a choice reads as the particle its name says.
pub open spec fn particle_reads(k: XMLElementView) -> bool
    decreases k.element, 2int,
{
    if k.element.name == "element"@ {
        element_reads(k, false)
    } else if k.element.name == "group"@ {
        group_reads(k)
    } else if k.element.name == "choice"@ {
        choice_reads(k)
    } else if k.element.name == "sequence"@ {
        sequence_reads(k)
    } else {
        false
    }
}

/// Whether `Choice::parse` reads `e`: each child element is a particle
/// that reads.
pub open spec fn choice_reads(e: XMLElementView) -> bool
    decreases e.element, 1int,
{
    let all = element_children(e.element.children);
    let e1 = XMLElementView { element: XmlTreeView { children: other_nodes(e.element.children), ..e.element }, ..e };
    let e2 = without_attr(e1, "id"@);
    proof {
        lemma_elements_smaller(e.element);
    }
    &&& e.element.name == "choice"@
    &&& forall|i: int| 0 <= i < all.len() ==> particle_reads(kid(e, #[trigger] all[i]))
    &&& occurs_read(e2)
    &&& nothing_unused(without_occurs(e2).element, false, false)
}

/// Whether a child of the schema reads as the component its name says.
pub open spec fn schema_option_reads(k: XMLElementView) -> bool {
    if k.element.name == "annotation"@ {
        annotation_reads(k)
    } else if k.element.name == "import"@ {
        true
    } else if k.element.name == "element"@ {
        element_reads(k, true)
    } else if k.element.name == "simpleType"@ {
        simple_type_reads(k, true)
    } else if k.element.name == "complexType"@ {
        complex_type_reads(k)
    } else if k.element.name == "attribute"@ {
        attribute_reads(k)
    } else if k.element.name == "attributeGroup"@ {
        attribute_group_reads(k)
    } else if k.element.name == "group"@ {
        group_reads(k)
    } else {
        false
    }
}

/// The schema element once its target namespace is read: that namespace
/// becomes the one of names without a prefix.
pub open spec fn schema_scope(e: XMLElementView) -> XMLElementView {
    XMLElementView { default_namespace: attr_value(e, "targetNamespace"@), ..without_attr(e, "targetNamespace"@) }
}

/// Whether `Schema::parse` reads `e`.
pub open spec fn schema_reads(e: XMLElementView) -> bool {
    let e1 = schema_scope(e);
    let all = element_children(e1.element.children);
    let e2 = XMLElementView { element: XmlTreeView { children: other_nodes(e1.element.children), ..e1.element }, ..e1 };
    let e3 = without_attr(e2, "elementFormDefault"@);
    let e4 = without_attr(e3, "attributeFormDefault"@);
    &&& e.element.name == "schema"@
    &&& forall|i: int| 0 <= i < all.len() ==> schema_option_reads(kid(e1, #[trigger] all[i]))
    &&& text_reads::<crate::components::Qualification>(attr_value(e2, "elementFormDefault"@))
    &&& text_reads::<crate::components::Qualification>(attr_value(e3, "attributeFormDefault"@))
    &&& nothing_unused(XmlTreeView { attributes: seq![], ..e4.element }, false, false)
}


/// Whether `r` is a refusal of the element `e` itself: a reading error
/// that names `e`.
pub open spec fn refuses_itself<T>(r: Result<T, crate::names::XsdIoError>, e: XMLElementView) -> bool {
    r matches Err(crate::names::XsdIoError::XsdParseError(p)) && p.node_name@ == e.element.name
}

/// Whether reading the restriction `e` gets as far as the checks on its
/// own shape and they refuse it: particles or attributes that what it
/// restricts does not allow, or no `base`.
pub open spec fn restriction_shape_refused(e: XMLElementView, parent: RestrictionParentType) -> bool {
    let e1 = taken(e, "annotation"@);
    let at = kids(e1, "attribute"@);
    let e2 = taken(e1, "attribute"@);
    let ag = kids(e2, "attributeGroup"@);
    let e3 = taken(e2, "attributeGroup"@);
    let ch = kids(e3, "choice"@);
    let e4 = taken(e3, "choice"@);
    let gr = kids(e4, "group"@);
    let e5 = taken(e4, "group"@);
    let sq = kids(e5, "sequence"@);
    let e6 = taken(e5, "sequence"@);
    let fits = restriction_fits(parent, ch.len() == 1, gr.len() == 1, sq.len() == 1, at.len(), ag.len());
    &&& e.element.name == "restriction"@
    &&& annotation_child_reads(e, "annotation"@)
    &&& forall|i: int| 0 <= i < at.len() ==> attribute_reads(kid(e, #[trigger] at[i]))
    &&& forall|i: int| 0 <= i < ag.len() ==> attribute_group_reads(kid(e, #[trigger] ag[i]))
    &&& ch.len() <= 1 && (ch.len() == 1 ==> choice_reads(kid(e, ch[0])))
    &&& gr.len() <= 1 && (gr.len() == 1 ==> group_reads(kid(e, gr[0])))
    &&& sq.len() <= 1 && (sq.len() == 1 ==> sequence_reads(kid(e, sq[0])))
    &&& (!fits || attr_value(e6, "base"@) is None)
}

/// Whether reading the complex type `e` gets as far as the checks on its
/// own shape and they refuse it: both kinds of content, content beside
/// particles or attributes, or more than one particle.
pub open spec fn complex_type_shape_refused(e: XMLElementView) -> bool {
    let sc = kids(e, "simpleContent"@);
    let e1 = taken(e, "simpleContent"@);
    let cc = kids(e1, "complexContent"@);
    let e2 = taken(e1, "complexContent"@);
    let ch = kids(e2, "choice"@);
    let e3 = taken(e2, "choice"@);
    let gr = kids(e3, "group"@);
    let e4 = taken(e3, "group"@);
    let sq = kids(e4, "sequence"@);
    let e5 = taken(e4, "sequence"@);
    let at = kids(e5, "attribute"@);
    let e6 = taken(e5, "attribute"@);
    let ag = kids(e6, "attributeGroup"@);
    let content = sc.len() == 1 || cc.len() == 1;
    &&& e.element.name == "complexType"@
    &&& sc.len() <= 1 && (sc.len() == 1 ==> simple_content_reads(kid(e, sc[0])))
    &&& cc.len() <= 1 && (cc.len() == 1 ==> complex_content_reads(kid(e, cc[0])))
    &&& ch.len() <= 1 && (ch.len() == 1 ==> choice_reads(kid(e, ch[0])))
    &&& gr.len() <= 1 && (gr.len() == 1 ==> group_reads(kid(e, gr[0])))
    &&& sq.len() <= 1 && (sq.len() == 1 ==> sequence_reads(kid(e, sq[0])))
    &&& forall|i: int| 0 <= i < at.len() ==> attribute_reads(kid(e, #[trigger] at[i]))
    &&& forall|i: int| 0 <= i < ag.len() ==> attribute_group_reads(kid(e, #[trigger] ag[i]))
    &&& ((sc.len() == 1 && cc.len() == 1) || (content && (at.len() > 0 || ag.len() > 0 || gr.len() == 1 || ch.len()
        == 1 || sq.len() == 1)) || holds_count(gr.len() == 1, ch.len() == 1, sq.len() == 1) > 1)
}

/// Whether reading the element declaration `e` gets as far as the checks
/// on its own shape and they refuse it: at the top of a schema, no name or
/// a reference; or both a simple and a complex type.
pub open spec fn element_shape_refused(e: XMLElementView, parent_is_schema: bool) -> bool {
    let e1 = without_attr(e, "name"@);
    let e2 = without_attr(e1, "ref"@);
    let has_name = attr_value(e, "name"@) is Some;
    let has_ref = attr_value(e1, "ref"@) is Some;
    let ct = kids(e2, "complexType"@);
    let e3 = taken(e2, "complexType"@);
    let st = kids(e3, "simpleType"@);
    &&& e.element.name == "element"@
    &&& ((parent_is_schema && (!has_name || has_ref)) || {
        &&& ct.len() <= 1 && (ct.len() == 1 ==> complex_type_reads(kid(e, ct[0])))
        &&& st.len() <= 1 && (st.len() == 1 ==> simple_type_reads(kid(e, st[0]), false))
        &&& st.len() == 1 && ct.len() == 1
    })
}

/// Whether reading the attribute declaration `e` gets as far as the checks
/// on its own shape and they refuse it: a name beside a reference, a type
/// beside a reference, or both a type and a simple type.
pub open spec fn attribute_shape_refused(e: XMLElementView) -> bool {
    let e1 = without_attr(e, "name"@);
    let e2 = without_attr(e1, "ref"@);
    let e3 = without_attr(e2, "type"@);
    let has_name = attr_value(e, "name"@) is Some;
    let has_ref = attr_value(e1, "ref"@) is Some;
    let has_type = attr_value(e2, "type"@) is Some;
    let st = kids(e3, "simpleType"@);
    let e4 = taken(e3, "simpleType"@);
    &&& e.element.name == "attribute"@
    &&& ((has_name && has_ref) || {
        &&& st.len() <= 1
        &&& (st.len() == 1 ==> simple_type_reads(kid(e, st[0]), false))
        &&& text_reads::<crate::components::Required>(attr_value(e4, "use"@))
        &&& ((has_ref && (st.len() == 1 || has_type)) || (st.len() == 1 && has_type))
    })
}

/// Whether reading the simple type `e` gets as far as the checks on its own
/// shape and they refuse it: more than one of restriction, list and union,
/// or a name where the place does not call for one, or none where it does.
pub open spec fn simple_type_shape_refused(e: XMLElementView, parent_is_schema: bool) -> bool {
    let rs = kids(e, "restriction"@);
    let e1 = taken(e, "restriction"@);
    let ls = kids(e1, "list"@);
    let e2 = taken(e1, "list"@);
    let us = kids(e2, "union"@);
    let e3 = taken(e2, "union"@);
    let has_name = attr_value(e3, "name"@) is Some;
    &&& e.element.name == "simpleType"@
    &&& rs.len() <= 1 && (rs.len() == 1 ==> restriction_reads(kid(e, rs[0]), RestrictionParentType::SimpleType))
    &&& ls.len() <= 1 && (ls.len() == 1 ==> list_reads(kid(e, ls[0])))
    &&& us.len() <= 1 && (us.len() == 1 ==> union_reads(kid(e, us[0])))
    &&& (holds_count(rs.len() == 1, ls.len() == 1, us.len() == 1) > 1 || (parent_is_schema && !has_name) || (
    !parent_is_schema && has_name))
}

} // verus!
