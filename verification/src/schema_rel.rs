//! What reading a schema element gives back: for each component, how each
//! field of the value read follows from the element's attributes and
//! children, each child taken as its own reader reads it.
use vstd::prelude::*;

use crate::components::{
    Annotation, Attribute, AttributeGroup, Choice, ChoiceOptions, ComplexContent, ComplexType, Element, Extension,
    Group, Import, List, Qualification, Required, Restriction, RestrictionParentType, Schema, SchemaOptions, Sequence,
    SimpleContent, SimpleType, Union,
};
use crate::names::{opt_name_view, opt_str_view, XsdType};
use crate::runtime::FromXmlString;
use crate::schema_read::{doc_texts, name_read, opt_name_read};
use crate::schema_spec::{
    facets_as, kid, kids, lemma_elements_smaller, lemma_named_smaller, occurs_as, taken, without_occurs,
};
use crate::xml_doc::{
    attr_value, element_children, named_children, other_nodes, pairs_view, without_attr, XMLElementView, XmlTreeView,
};

verus! {

/// Whether `a` is the annotation read from `e`.
pub open spec fn annotation_is(e: XMLElementView, a: Annotation) -> bool {
    &&& opt_str_view(a.id) == attr_value(e, "id"@)
    &&& crate::text::strs_view(a.documentation@) == doc_texts(named_children(e.element.children, "documentation"@))
}

/// Whether `a` is the annotation child of `e` named `name`, if any.
pub open spec fn annotation_child_is(e: XMLElementView, name: Seq<char>, a: Option<Annotation>) -> bool {
    let k = kids(e, name);
    match a {
        None => k.len() == 0,
        Some(x) => k.len() == 1 && annotation_is(kid(e, k[0]), x),
    }
}

/// Whether `l` is the list read from `e`.
pub open spec fn list_is(e: XMLElementView, l: List) -> bool {
    l.item_type@ == name_read(attr_value(e, "itemType"@)->Some_0, XsdType::SimpleType, e.default_namespace)
}

/// Whether `i` is the import read from `e`.
pub open spec fn import_is(e: XMLElementView, i: Import) -> bool {
    let e1 = without_attr(e, "id"@);
    let e2 = without_attr(e1, "namespace"@);
    &&& opt_str_view(i.id) == attr_value(e, "id"@)
    &&& opt_str_view(i.namespace) == attr_value(e1, "namespace"@)
    &&& opt_str_view(i.schema_location) == attr_value(e2, "schemaLocation"@)
}

/// Whether `a` is the attribute declaration read from `e`.
pub open spec fn attribute_is(e: XMLElementView, a: Attribute) -> bool
    decreases e.element, 1int,
{
    let e1 = without_attr(e, "name"@);
    let e2 = without_attr(e1, "ref"@);
    let e3 = without_attr(e2, "type"@);
    let st = kids(e3, "simpleType"@);
    let e4 = taken(e3, "simpleType"@);
    let e5 = without_attr(e4, "use"@);
    let e6 = taken(e5, "annotation"@);
    let e7 = without_attr(e6, "default"@);
    proof {
        lemma_named_smaller(e.element, e.element.children, "simpleType"@);
    }
    &&& opt_name_view(a.name) == opt_name_read(attr_value(e, "name"@), XsdType::Attribute, e.default_namespace)
    &&& opt_name_view(a.reference) == opt_name_read(attr_value(e1, "ref"@), XsdType::Attribute, e.default_namespace)
    &&& opt_name_view(a.type_ref) == opt_name_read(attr_value(e2, "type"@), XsdType::SimpleType, None)
    &&& match a.simple_type {
        None => st.len() == 0,
        Some(x) => st.len() == 1 && simple_type_is(kid(e, st[0]), x, false),
    }
    &&& match attr_value(e4, "use"@) {
        Some(t) => <Required as FromXmlString>::reads_as(t, a.required),
        None => a.required == Required::Optional,
    }
    &&& annotation_child_is(e5, "annotation"@, a.annotation)
    &&& opt_str_view(a.default) == attr_value(e6, "default"@)
    &&& opt_str_view(a.fixed) == attr_value(e7, "fixed"@)
}

/// Whether `g` is the attribute group read from `e`.
pub open spec fn attribute_group_is(e: XMLElementView, g: AttributeGroup) -> bool
    decreases e.element, 1int,
{
    let e1 = without_attr(e, "name"@);
    let e2 = without_attr(e1, "ref"@);
    let at = kids(e2, "attribute"@);
    let e3 = taken(e2, "attribute"@);
    let ag = kids(e3, "attributeGroup"@);
    let e4 = taken(e3, "attributeGroup"@);
    proof {
        lemma_named_smaller(e.element, e.element.children, "attribute"@);
        lemma_named_smaller(e.element, e3.element.children, "attributeGroup"@);
    }
    &&& opt_name_view(g.name) == opt_name_read(attr_value(e, "name"@), XsdType::AttributeGroup, e.default_namespace)
    &&& opt_name_view(g.reference) == opt_name_read(
        attr_value(e1, "ref"@),
        XsdType::AttributeGroup,
        e.default_namespace,
    )
    &&& g.attributes@.len() == at.len()
    &&& forall|i: int| 0 <= i < at.len() ==> attribute_is(kid(e, #[trigger] at[i]), g.attributes@[i])
    &&& g.attribute_groups@.len() == ag.len()
    &&& forall|i: int| 0 <= i < ag.len() ==> attribute_group_is(kid(e, #[trigger] ag[i]), g.attribute_groups@[i])
    &&& annotation_child_is(e4, "annotation"@, g.annotation)
}

/// Whether `s` is the simple type read from `e`.
pub open spec fn simple_type_is(e: XMLElementView, s: SimpleType, parent_is_schema: bool) -> bool
    decreases e.element, 1int,
{
    let rs = kids(e, "restriction"@);
    let e1 = taken(e, "restriction"@);
    let ls = kids(e1, "list"@);
    let e2 = taken(e1, "list"@);
    let us = kids(e2, "union"@);
    let e3 = taken(e2, "union"@);
    let e4 = without_attr(e3, "name"@);
    proof {
        lemma_named_smaller(e.element, e.element.children, "restriction"@);
        lemma_named_smaller(e.element, e1.element.children, "list"@);
        lemma_named_smaller(e.element, e2.element.children, "union"@);
    }
    &&& match s.restriction {
        None => rs.len() == 0,
        Some(x) => rs.len() == 1 && restriction_is(kid(e, rs[0]), x, RestrictionParentType::SimpleType),
    }
    &&& match s.list {
        None => ls.len() == 0,
        Some(x) => ls.len() == 1 && list_is(kid(e, ls[0]), x),
    }
    &&& match s.union {
        None => us.len() == 0,
        Some(x) => us.len() == 1 && union_is(kid(e, us[0]), x),
    }
    &&& opt_name_view(s.name) == opt_name_read(attr_value(e3, "name"@), XsdType::SimpleType, e.default_namespace)
    &&& annotation_child_is(e4, "annotation"@, s.annotation)
}

/// Whether `u` is the union read from `e`.
pub open spec fn union_is(e: XMLElementView, u: Union) -> bool
    decreases e.element, 1int,
{
    let e1 = without_attr(e, "memberTypes"@);
    let st = kids(e1, "simpleType"@);
    proof {
        lemma_named_smaller(e.element, e.element.children, "simpleType"@);
    }
    &&& crate::schema_parse::names_view(u.member_types@) == crate::schema_parse::names_read(
        match attr_value(e, "memberTypes"@) {
            Some(t) => crate::schema_parse::words(t),
            None => Seq::<Seq<char>>::empty(),
        },
        XsdType::SimpleType,
        e.default_namespace,
    )
    &&& u.simple_types@.len() == st.len()
    &&& forall|i: int| 0 <= i < st.len() ==> simple_type_is(kid(e, #[trigger] st[i]), u.simple_types@[i], false)
}

/// Whether `x` is the restriction read from `e`, restricting what `parent`
/// says.
pub open spec fn restriction_is(e: XMLElementView, x: Restriction, parent: RestrictionParentType) -> bool
    decreases e.element, 1int,
{
    let e1 = taken(e, "annotation"@);
    let at = kids(e1, "attribute"@);
    let e2 = taken(e1, "attribute"@);
    let ag = kids(e2, "attributeGroup"@);
    let e3 = taken(e2, "attributeGroup"@);
    let ch = kids(e3, "choice"@);
    let e4 = taken(e3, "choice"@);
    let gr = kids(e4, "group"@);
    let e5 = taken(e4, "group"@);
    let sq = kids(e5, "sequence"@);
    let e6 = taken(e5, "sequence"@);
    proof {
        lemma_named_smaller(e.element, e.element.children, "annotation"@);
        lemma_named_smaller(e.element, e1.element.children, "attribute"@);
        lemma_named_smaller(e.element, e2.element.children, "attributeGroup"@);
        lemma_named_smaller(e.element, e3.element.children, "choice"@);
        lemma_named_smaller(e.element, e4.element.children, "group"@);
        lemma_named_smaller(e.element, e5.element.children, "sequence"@);
    }
    &&& annotation_child_is(e, "annotation"@, x.annotation)
    &&& x.attributes@.len() == at.len()
    &&& forall|i: int| 0 <= i < at.len() ==> attribute_is(kid(e, #[trigger] at[i]), x.attributes@[i])
    &&& x.attribute_groups@.len() == ag.len()
    &&& forall|i: int| 0 <= i < ag.len() ==> attribute_group_is(kid(e, #[trigger] ag[i]), x.attribute_groups@[i])
    &&& match x.choice {
        None => ch.len() == 0,
        Some(c) => ch.len() == 1 && choice_is(kid(e, ch[0]), c),
    }
    &&& match x.group {
        None => gr.len() == 0,
        Some(g) => gr.len() == 1 && group_is(kid(e, gr[0]), g),
    }
    &&& match x.sequence {
        None => sq.len() == 0,
        Some(q) => sq.len() == 1 && sequence_is(kid(e, sq[0]), q),
    }
    &&& x.base@ == name_read(attr_value(e6, "base"@)->Some_0, XsdType::SimpleType, e.default_namespace)
    &&& facets_as(without_attr(e6, "base"@), x)
}

/// Whether `c` is the complex content read from `e`.
pub open spec fn complex_content_is(e: XMLElementView, c: ComplexContent) -> bool
    decreases e.element, 1int,
{
    let ex = kids(e, "extension"@);
    let e1 = taken(e, "extension"@);
    let rs = kids(e1, "restriction"@);
    proof {
        lemma_named_smaller(e.element, e.element.children, "extension"@);
        lemma_named_smaller(e.element, e1.element.children, "restriction"@);
    }
    &&& match c.extension {
        None => ex.len() == 0,
        Some(x) => ex.len() == 1 && extension_is(kid(e, ex[0]), x),
    }
    &&& match c.restriction {
        None => rs.len() == 0,
        Some(x) => rs.len() == 1 && restriction_is(kid(e, rs[0]), x, RestrictionParentType::ComplexContent),
    }
}

/// Whether `c` is the simple content read from `e`.
pub open spec fn simple_content_is(e: XMLElementView, c: SimpleContent) -> bool
    decreases e.element, 1int,
{
    let rs = kids(e, "restriction"@);
    let e1 = taken(e, "restriction"@);
    let ex = kids(e1, "extension"@);
    proof {
        lemma_named_smaller(e.element, e.element.children, "restriction"@);
        lemma_named_smaller(e.element, e1.element.children, "extension"@);
    }
    &&& match c.restriction {
        None => rs.len() == 0,
        Some(x) => rs.len() == 1 && restriction_is(kid(e, rs[0]), x, RestrictionParentType::SimpleContent),
    }
    &&& match c.extension {
        None => ex.len() == 0,
        Some(x) => ex.len() == 1 && extension_is(kid(e, ex[0]), x),
    }
}

/// Whether `x` is the extension read from `e`.
pub open spec fn extension_is(e: XMLElementView, x: Extension) -> bool
    decreases e.element, 1int,
{
    let at = kids(e, "attribute"@);
    let e1 = taken(e, "attribute"@);
    let ag = kids(e1, "attributeGroup"@);
    let e2 = taken(e1, "attributeGroup"@);
    let gr = kids(e2, "group"@);
    let e3 = taken(e2, "group"@);
    let ch = kids(e3, "choice"@);
    let e4 = taken(e3, "choice"@);
    let e5 = taken(e4, "sequence"@);
    let e6 = without_attr(e5, "base"@);
    let sq = kids(e6, "sequence"@);
    let e7 = taken(e6, "sequence"@);
    proof {
        lemma_named_smaller(e.element, e.element.children, "attribute"@);
        lemma_named_smaller(e.element, e1.element.children, "attributeGroup"@);
        lemma_named_smaller(e.element, e2.element.children, "group"@);
        lemma_named_smaller(e.element, e3.element.children, "choice"@);
        lemma_named_smaller(e.element, e4.element.children, "sequence"@);
        lemma_named_smaller(e.element, e6.element.children, "sequence"@);
    }
    &&& x.attributes@.len() == at.len()
    &&& forall|i: int| 0 <= i < at.len() ==> attribute_is(kid(e, #[trigger] at[i]), x.attributes@[i])
    &&& x.attribute_groups@.len() == ag.len()
    &&& forall|i: int| 0 <= i < ag.len() ==> attribute_group_is(kid(e, #[trigger] ag[i]), x.attribute_groups@[i])
    &&& match x.group {
        None => gr.len() == 0,
        Some(g) => gr.len() == 1 && group_is(kid(e, gr[0]), g),
    }
    &&& match x.choice {
        None => ch.len() == 0,
        Some(c) => ch.len() == 1 && choice_is(kid(e, ch[0]), c),
    }
    &&& x.base@ == name_read(attr_value(e5, "base"@)->Some_0, XsdType::SimpleType, None)
    &&& match x.sequence {
        None => sq.len() == 0,
        Some(q) => sq.len() == 1 && sequence_is(kid(e, sq[0]), q),
    }
    &&& annotation_child_is(e7, "annotation"@, x.annotation)
}

/// Whether `c` is the complex type read from `e`.
pub open spec fn complex_type_is(e: XMLElementView, c: ComplexType) -> bool
    decreases e.element, 1int,
{
    let sc = kids(e, "simpleContent"@);
    let e1 = taken(e, "simpleContent"@);
    let cc = kids(e1, "complexContent"@);
    let e2 = taken(e1, "complexContent"@);
    let ch = kids(e2, "choice"@);
    let e3 = taken(e2, "choice"@);
    let gr = kids(e3, "group"@);
    let e4 = taken(e3, "group"@);
    let sq = kids(e4, "sequence"@);
    let e5 = taken(e4, "sequence"@);
    let at = kids(e5, "attribute"@);
    let e6 = taken(e5, "attribute"@);
    let ag = kids(e6, "attributeGroup"@);
    let e7 = taken(e6, "attributeGroup"@);
    let e8 = without_attr(e7, "name"@);
    proof {
        lemma_named_smaller(e.element, e.element.children, "simpleContent"@);
        lemma_named_smaller(e.element, e1.element.children, "complexContent"@);
        lemma_named_smaller(e.element, e2.element.children, "choice"@);
        lemma_named_smaller(e.element, e3.element.children, "group"@);
        lemma_named_smaller(e.element, e4.element.children, "sequence"@);
        lemma_named_smaller(e.element, e5.element.children, "attribute"@);
        lemma_named_smaller(e.element, e6.element.children, "attributeGroup"@);
    }
    &&& match c.simple_content {
        None => sc.len() == 0,
        Some(x) => sc.len() == 1 && simple_content_is(kid(e, sc[0]), x),
    }
    &&& match c.complex_content {
        None => cc.len() == 0,
        Some(x) => cc.len() == 1 && complex_content_is(kid(e, cc[0]), x),
    }
    &&& match c.choice {
        None => ch.len() == 0,
        Some(x) => ch.len() == 1 && choice_is(kid(e, ch[0]), x),
    }
    &&& match c.group {
        None => gr.len() == 0,
        Some(x) => gr.len() == 1 && group_is(kid(e, gr[0]), x),
    }
    &&& match c.sequence {
        None => sq.len() == 0,
        Some(x) => sq.len() == 1 && sequence_is(kid(e, sq[0]), x),
    }
    &&& c.attributes@.len() == at.len()
    &&& forall|i: int| 0 <= i < at.len() ==> attribute_is(kid(e, #[trigger] at[i]), c.attributes@[i])
    &&& c.attribute_groups@.len() == ag.len()
    &&& forall|i: int| 0 <= i < ag.len() ==> attribute_group_is(kid(e, #[trigger] ag[i]), c.attribute_groups@[i])
    &&& opt_name_view(c.name) == opt_name_read(attr_value(e7, "name"@), XsdType::ComplexType, e.default_namespace)
    &&& annotation_child_is(e8, "annotation"@, c.annotation)
}

/// Whether `x` is the element declaration read from `e`.
pub open spec fn element_is(e: XMLElementView, x: Element, parent_is_schema: bool) -> bool
    decreases e.element, 1int,
{
    let e1 = without_attr(e, "name"@);
    let e2 = without_attr(e1, "ref"@);
    let ct = kids(e2, "complexType"@);
    let e3 = taken(e2, "complexType"@);
    let st = kids(e3, "simpleType"@);
    let e4 = taken(e3, "simpleType"@);
    let e5 = taken(e4, "annotation"@);
    let e6 = without_attr(e5, "type"@);
    let e7 = without_attr(e6, "final"@);
    let e8 = without_attr(e7, "block"@);
    proof {
        lemma_named_smaller(e.element, e.element.children, "complexType"@);
        lemma_named_smaller(e.element, e3.element.children, "simpleType"@);
    }
    &&& opt_name_view(x.name) == opt_name_read(attr_value(e, "name"@), XsdType::Element, e.default_namespace)
    &&& opt_name_view(x.refers) == opt_name_read(attr_value(e1, "ref"@), XsdType::Element, None)
    &&& match x.complex_type {
        None => ct.len() == 0,
        Some(c) => ct.len() == 1 && complex_type_is(kid(e, ct[0]), c),
    }
    &&& match x.simple_type {
        None => st.len() == 0,
        Some(s) => st.len() == 1 && simple_type_is(kid(e, st[0]), s, false),
    }
    &&& annotation_child_is(e4, "annotation"@, x.annotation)
    &&& opt_name_view(x.kind) == opt_name_read(attr_value(e5, "type"@), XsdType::SimpleType, None)
    &&& opt_str_view(x.final_value) == attr_value(e6, "final"@)
    &&& opt_str_view(x.block) == attr_value(e7, "block"@)
    &&& occurs_as(e8, x.min_occurences, x.max_occurences)
}

/// Whether `g` is the group read from `e`.
pub open spec fn group_is(e: XMLElementView, g: Group) -> bool
    decreases e.element, 1int,
{
    let e1 = without_attr(e, "name"@);
    let e2 = without_attr(e1, "ref"@);
    let sq = kids(e2, "sequence"@);
    let e3 = taken(e2, "sequence"@);
    let ch = kids(e3, "choice"@);
    let e4 = taken(e3, "choice"@);
    let e5 = without_attr(e4, "id"@);
    proof {
        lemma_named_smaller(e.element, e.element.children, "sequence"@);
        lemma_named_smaller(e.element, e3.element.children, "choice"@);
    }
    &&& opt_name_view(g.name) == opt_name_read(attr_value(e, "name"@), XsdType::Group, e.default_namespace)
    &&& opt_name_view(g.refers) == opt_name_read(attr_value(e1, "ref"@), XsdType::Group, None)
    &&& match g.sequence {
        None => sq.len() == 0,
        Some(q) => sq.len() == 1 && sequence_is(kid(e, sq[0]), q),
    }
    &&& match g.choice {
        None => ch.len() == 0,
        Some(c) => ch.len() == 1 && choice_is(kid(e, ch[0]), c),
    }
    &&& opt_str_view(g.id) == attr_value(e4, "id"@)
    &&& occurs_as(e5, g.min_occurences, g.max_occurences)
    &&& annotation_child_is(without_occurs(e5), "annotation"@, g.annotation)
}

/// Whether `q` is the sequence read from `e`.
pub open spec fn sequence_is(e: XMLElementView, q: Sequence) -> bool
    decreases e.element, 1int,
{
    let e1 = without_attr(e, "id"@);
    let e3 = without_occurs(e1);
    let e4 = taken(e3, "annotation"@);
    let el = kids(e4, "element"@);
    let e5 = taken(e4, "element"@);
    let gr = kids(e5, "group"@);
    let e6 = taken(e5, "group"@);
    let ch = kids(e6, "choice"@);
    let e7 = taken(e6, "choice"@);
    let sq = kids(e7, "sequence"@);
    proof {
        lemma_named_smaller(e.element, e.element.children, "annotation"@);
        lemma_named_smaller(e.element, e4.element.children, "element"@);
        lemma_named_smaller(e.element, e5.element.children, "group"@);
        lemma_named_smaller(e.element, e6.element.children, "choice"@);
        lemma_named_smaller(e.element, e7.element.children, "sequence"@);
    }
    &&& opt_str_view(q.id) == attr_value(e, "id"@)
    &&& occurs_as(e1, q.min_occurences, q.max_occurences)
    &&& annotation_child_is(e3, "annotation"@, q.annotation)
    &&& q.elements@.len() == el.len()
    &&& forall|i: int| 0 <= i < el.len() ==> element_is(kid(e, #[trigger] el[i]), q.elements@[i], false)
    &&& q.groups@.len() == gr.len()
    &&& forall|i: int| 0 <= i < gr.len() ==> group_is(kid(e, #[trigger] gr[i]), q.groups@[i])
    &&& q.choices@.len() == ch.len()
    &&& forall|i: int| 0 <= i < ch.len() ==> choice_is(kid(e, #[trigger] ch[i]), q.choices@[i])
    &&& q.sequences@.len() == sq.len()
    &&& forall|i: int| 0 <= i < sq.len() ==> sequence_is(kid(e, #[trigger] sq[i]), q.sequences@[i])
}

/// Whether `o` is the particle read from the child `k` of a choice: the
/// kind its name says, read as that kind.
pub open spec fn option_is(k: XMLElementView, o: ChoiceOptions) -> bool
    decreases k.element, 2int,
{
    match o {
        ChoiceOptions::Element(x) => k.element.name == "element"@ && element_is(k, x, false),
        ChoiceOptions::Group(x) => k.element.name == "group"@ && group_is(k, x),
        ChoiceOptions::Choice(x) => k.element.name == "choice"@ && choice_is(k, x),
        ChoiceOptions::Sequence(x) => k.element.name == "sequence"@ && sequence_is(k, x),
    }
}

/// Whether `c` is the choice read from `e`.
pub open spec fn choice_is(e: XMLElementView, c: Choice) -> bool
    decreases e.element, 1int,
{
    let all = element_children(e.element.children);
    let e1 = XMLElementView { element: XmlTreeView { children: other_nodes(e.element.children), ..e.element }, ..e };
    proof {
        lemma_elements_smaller(e.element);
    }
    &&& c.children@.len() == all.len()
    &&& forall|i: int| 0 <= i < all.len() ==> option_is(kid(e, #[trigger] all[i]), c.children@[i])
    &&& opt_str_view(c.id) == attr_value(e1, "id"@)
    &&& occurs_as(without_attr(e1, "id"@), c.min_occurences, c.max_occurences)
}

/// Whether `o` is the component read from the child `k` of the schema: the
/// kind its name says, read as that kind.
pub open spec fn schema_option_is(k: XMLElementView, o: SchemaOptions) -> bool {
    match o {
        SchemaOptions::Annotation(x) => k.element.name == "annotation"@ && annotation_is(k, x),
        SchemaOptions::Import(x) => k.element.name == "import"@ && import_is(k, x),
        SchemaOptions::Element(x) => k.element.name == "element"@ && element_is(k, x, true),
        SchemaOptions::SimpleType(x) => k.element.name == "simpleType"@ && simple_type_is(k, x, true),
        SchemaOptions::ComplexType(x) => k.element.name == "complexType"@ && complex_type_is(k, x),
        SchemaOptions::Attribute(x) => k.element.name == "attribute"@ && attribute_is(k, x),
        SchemaOptions::AttributeGroup(x) => k.element.name == "attributeGroup"@ && attribute_group_is(k, x),
        SchemaOptions::Group(x) => k.element.name == "group"@ && group_is(k, x),
    }
}

/// Whether `q` is the form default that the attribute text `t` reads as:
/// `Unqualified` where it is absent.
pub open spec fn form_is(t: Option<Seq<char>>, q: Qualification) -> bool {
    match t {
        Some(s) => <Qualification as FromXmlString>::reads_as(s, q),
        None => q == Qualification::Unqualified,
    }
}

/// Whether `s` is the schema read from `e`: its target namespace, its
/// components in order (read in the target namespace), its form defaults
/// and the attributes left over.
pub open spec fn schema_is(e: XMLElementView, s: Schema) -> bool {
    let e1 = crate::schema_spec::schema_scope(e);
    let all = element_children(e1.element.children);
    let e2 = XMLElementView { element: XmlTreeView { children: other_nodes(e1.element.children), ..e1.element }, ..e1 };
    let e3 = without_attr(e2, "elementFormDefault"@);
    let e4 = without_attr(e3, "attributeFormDefault"@);
    &&& opt_str_view(s.target_namespace) == attr_value(e, "targetNamespace"@)
    &&& s.children@.len() == all.len()
    &&& forall|i: int| 0 <= i < all.len() ==> schema_option_is(kid(e1, #[trigger] all[i]), s.children@[i])
    &&& form_is(attr_value(e2, "elementFormDefault"@), s.element_form_default)
    &&& form_is(attr_value(e3, "attributeFormDefault"@), s.attribute_form_default)
    &&& pairs_view(s.extra@) == e4.element.attributes
}

} // verus!
