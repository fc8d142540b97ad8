//! Reading the nested components of a schema: each reads its own element
//! and the child elements it is made of, down to the leaves.
use vstd::prelude::*;

use crate::components::{
    Annotation, Attribute, AttributeGroup, Choice, ChoiceOptions, ComplexContent, ComplexType, Element,
    Extension, Group, List, MaxOccurences, Qualification, Required, Restriction, RestrictionParentType, Schema,
    SchemaOptions, Sequence, SimpleContent, SimpleType, Union, Whitespace, Import,
};
use crate::names::{opt_name_view, opt_str_view, XsdIoError, XsdName, XsdType};
use crate::runtime::FromXmlString;
use crate::schema_read::{
    bad_node, lemma_child_smaller, opt_name_read, read_name, read_opt_name, read_opt_plain_name, tag_checked,
    take_all_children, take_child, take_children, within,
};
use crate::text::{concat, concat3, str_eq};
use crate::schema_spec::{
    attribute_group_reads, attribute_reads, choice_reads, complex_content_reads, complex_type_reads, element_reads,
    extension_reads, group_reads, restriction_reads, sequence_reads, simple_content_reads, simple_type_reads,
    union_reads,
};
use crate::xml_doc::{attr_value, element_children, without_attr, XMLElement, XMLElementView, XmlNodeView, XmlTreeView};

verus! {

/// Whether each of `kids` is a child element of `orig`.
pub open spec fn kids_in(kids: Seq<XMLElement>, orig: XmlTreeView) -> bool {
    forall|i: int| 0 <= i < kids.len() ==> orig.children.contains(XmlNodeView::Element(#[trigger] kids[i]@.element))
}

/// How many of three options are present.
pub open spec fn present3<A, B, C>(a: Option<A>, b: Option<B>, c: Option<C>) -> int {
    (if a is Some { 1int } else { 0int }) + (if b is Some { 1int } else { 0int }) + (if c is Some { 1int } else { 0int })
}

fn count3<A, B, C>(a: &Option<A>, b: &Option<B>, c: &Option<C>) -> (r: u8)
    ensures
        r == present3(*a, *b, *c),
{
    let x: u8 = if a.is_some() { 1 } else { 0 };
    let y: u8 = if b.is_some() { 1 } else { 0 };
    let z: u8 = if c.is_some() { 1 } else { 0 };
    x + y + z
}

/// What a read attribute declaration satisfies: not both a name and a
/// reference; a reference comes without a type; not both a type and an
/// inline simple type.
pub open spec fn attribute_valid(a: Attribute) -> bool {
    &&& !(a.name is Some && a.reference is Some)
    &&& a.reference is Some ==> a.simple_type is None && a.type_ref is None
    &&& !(a.simple_type is Some && a.type_ref is Some)
}

/// What a read simple type satisfies: at most one of restriction, list and
/// union; a name exactly where its parent is the schema.
pub open spec fn simple_type_valid(s: SimpleType, parent_is_schema: bool) -> bool {
    &&& present3(s.restriction, s.list, s.union) <= 1
    &&& (parent_is_schema <==> s.name is Some)
}

/// What a read restriction satisfies, by what it restricts.
pub open spec fn restriction_valid(x: Restriction, parent: RestrictionParentType) -> bool {
    match parent {
        RestrictionParentType::SimpleType => present3(x.choice, x.group, x.sequence) == 0 && x.attributes@.len()
            == 0 && x.attribute_groups@.len() == 0,
        RestrictionParentType::ComplexContent => present3(x.choice, x.group, x.sequence) <= 1,
        RestrictionParentType::SimpleContent => present3(x.choice, x.group, x.sequence) == 0,
    }
}

/// What a read complex type satisfies: not both kinds of content; content
/// comes alone; at most one of group, choice and sequence.
pub open spec fn complex_type_valid(c: ComplexType) -> bool {
    &&& !(c.simple_content is Some && c.complex_content is Some)
    &&& (c.simple_content is Some || c.complex_content is Some) ==> c.attributes@.len() == 0
        && c.attribute_groups@.len() == 0 && present3(c.group, c.choice, c.sequence) == 0
    &&& present3(c.group, c.choice, c.sequence) <= 1
}

/// What a read element declaration satisfies: under the schema it has a
/// name and no reference; not both a simple and a complex type.
pub open spec fn element_valid(e: Element, parent_is_schema: bool) -> bool {
    &&& parent_is_schema ==> e.name is Some && e.refers is None
    &&& !(e.simple_type is Some && e.complex_type is Some)
}

/// What a read group satisfies: not both a name and a reference, not both
/// a sequence and a choice.
pub open spec fn group_valid(g: Group) -> bool {
    &&& !(g.name is Some && g.refers is Some)
    &&& !(g.sequence is Some && g.choice is Some)
}

/// What a read extension satisfies: attributes come without particles; at
/// most one of group, choice and sequence.
pub open spec fn extension_valid(x: Extension) -> bool {
    &&& (x.attributes@.len() > 0 || x.attribute_groups@.len() > 0) ==> present3(x.group, x.choice, x.sequence)
        == 0
    &&& present3(x.group, x.choice, x.sequence) <= 1
}

proof fn lemma_kids_rest(kids: Seq<XMLElement>, orig: XmlTreeView)
    requires
        kids.len() > 0,
        kids_in(kids, orig),
    ensures
        kids_in(kids.remove(0), orig),
        orig.children.contains(XmlNodeView::Element(kids[0]@.element)),
{
    assert forall|i: int| 0 <= i < kids.remove(0).len() implies orig.children.contains(
        XmlNodeView::Element(#[trigger] kids.remove(0)[i]@.element),
    ) by {
        assert(kids.remove(0)[i] == kids[i + 1]);
    }
}

#[verifier::loop_isolation(false)]
fn parse_attribute_list(
    kids: Vec<XMLElement>,
    Ghost(orig): Ghost<XmlTreeView>,
    Ghost(e0): Ghost<XMLElementView>,
    Ghost(ks): Ghost<Seq<XmlTreeView>>,
) -> (r: Result<
    Vec<Attribute>,
    XsdIoError,
>)
    requires
        kids_in(kids@, orig),
        kids@.len() == ks.len(),
        forall|i: int| 0 <= i < ks.len() ==> (#[trigger] kids@[i])@ == crate::schema_spec::kid(e0, ks[i]),
    ensures
        r matches Err(e) ==> e is XsdParseError,
        r matches Ok(v) ==> v@.len() == kids@.len(),
        r matches Ok(v) ==> forall|i: int| 0 <= i < ks.len() ==> crate::schema_rel::attribute_is(
            crate::schema_spec::kid(e0, #[trigger] ks[i]),
            v@[i],
        ),
        r is Ok <==> forall|i: int| 0 <= i < ks.len() ==> attribute_reads(crate::schema_spec::kid(e0, #[trigger] ks[i])),
    decreases orig, 0int,
{
    let ghost all = kids@;
    let mut kids = kids;
    let ghost n = kids@.len();
    let mut out: Vec<Attribute> = Vec::new();
    while kids.len() > 0
        invariant
            kids_in(kids@, orig),
            out@.len() + kids@.len() == n,
            all.len() == n,
            kids@ == all.skip(out@.len() as int),
            forall|j: int| 0 <= j < out@.len() ==> crate::schema_rel::attribute_is(
                crate::schema_spec::kid(e0, #[trigger] ks[j]),
                out@[j],
            ),
            forall|j: int| 0 <= j < out@.len() ==> attribute_reads(crate::schema_spec::kid(e0, #[trigger] ks[j])),
        decreases kids@.len(),
    {
        proof {
            lemma_kids_rest(kids@, orig);
        }
        let ghost k = out@.len() as int;
        let kid = kids.remove(0);
        assert(kid == all[k]);
        assert(kid@ == crate::schema_spec::kid(e0, ks[k]));
        proof {
            lemma_child_smaller(orig, kid@.element);
        }
        let a = Attribute::parse(kid)?;
        out.push(a);
        assert(kids@ =~= all.skip(out@.len() as int));
    }
    Ok(out)
}

#[verifier::loop_isolation(false)]
fn parse_attribute_group_list(
    kids: Vec<XMLElement>,
    Ghost(orig): Ghost<XmlTreeView>,
    Ghost(e0): Ghost<XMLElementView>,
    Ghost(ks): Ghost<Seq<XmlTreeView>>,
) -> (r: Result<
    Vec<AttributeGroup>,
    XsdIoError,
>)
    requires
        kids_in(kids@, orig),
        kids@.len() == ks.len(),
        forall|i: int| 0 <= i < ks.len() ==> (#[trigger] kids@[i])@ == crate::schema_spec::kid(e0, ks[i]),
    ensures
        r matches Err(e) ==> e is XsdParseError,
        r matches Ok(v) ==> v@.len() == kids@.len(),
        r matches Ok(v) ==> forall|i: int| 0 <= i < ks.len() ==> crate::schema_rel::attribute_group_is(
            crate::schema_spec::kid(e0, #[trigger] ks[i]),
            v@[i],
        ),
        r is Ok <==> forall|i: int| 0 <= i < ks.len() ==> attribute_group_reads(crate::schema_spec::kid(e0, #[trigger] ks[i])),
    decreases orig, 0int,
{
    let ghost all = kids@;
    let mut kids = kids;
    let ghost n = kids@.len();
    let mut out: Vec<AttributeGroup> = Vec::new();
    while kids.len() > 0
        invariant
            kids_in(kids@, orig),
            out@.len() + kids@.len() == n,
            all.len() == n,
            kids@ == all.skip(out@.len() as int),
            forall|j: int| 0 <= j < out@.len() ==> crate::schema_rel::attribute_group_is(
                crate::schema_spec::kid(e0, #[trigger] ks[j]),
                out@[j],
            ),
            forall|j: int| 0 <= j < out@.len() ==> attribute_group_reads(crate::schema_spec::kid(e0, #[trigger] ks[j])),
        decreases kids@.len(),
    {
        proof {
            lemma_kids_rest(kids@, orig);
        }
        let ghost k = out@.len() as int;
        let kid = kids.remove(0);
        assert(kid == all[k]);
        assert(kid@ == crate::schema_spec::kid(e0, ks[k]));
        proof {
            lemma_child_smaller(orig, kid@.element);
        }
        let a = AttributeGroup::parse(kid)?;
        out.push(a);
        assert(kids@ =~= all.skip(out@.len() as int));
    }
    Ok(out)
}

#[verifier::loop_isolation(false)]
fn parse_element_list(
    kids: Vec<XMLElement>,
    Ghost(orig): Ghost<XmlTreeView>,
    Ghost(e0): Ghost<XMLElementView>,
    Ghost(ks): Ghost<Seq<XmlTreeView>>,
) -> (r: Result<
    Vec<Element>,
    XsdIoError,
>)
    requires
        kids_in(kids@, orig),
        kids@.len() == ks.len(),
        forall|i: int| 0 <= i < ks.len() ==> (#[trigger] kids@[i])@ == crate::schema_spec::kid(e0, ks[i]),
    ensures
        r matches Err(e) ==> e is XsdParseError,
        r matches Ok(v) ==> v@.len() == kids@.len(),
        r matches Ok(v) ==> forall|i: int| 0 <= i < ks.len() ==> crate::schema_rel::element_is(
            crate::schema_spec::kid(e0, #[trigger] ks[i]),
            v@[i], false,
        ),
        r is Ok <==> forall|i: int| 0 <= i < ks.len() ==> element_reads(crate::schema_spec::kid(e0, #[trigger] ks[i]), false),
    decreases orig, 0int,
{
    let ghost all = kids@;
    let mut kids = kids;
    let ghost n = kids@.len();
    let mut out: Vec<Element> = Vec::new();
    while kids.len() > 0
        invariant
            kids_in(kids@, orig),
            out@.len() + kids@.len() == n,
            all.len() == n,
            kids@ == all.skip(out@.len() as int),
            forall|j: int| 0 <= j < out@.len() ==> crate::schema_rel::element_is(
                crate::schema_spec::kid(e0, #[trigger] ks[j]),
                out@[j], false,
            ),
            forall|j: int| 0 <= j < out@.len() ==> element_reads(crate::schema_spec::kid(e0, #[trigger] ks[j]), false),
        decreases kids@.len(),
    {
        proof {
            lemma_kids_rest(kids@, orig);
        }
        let ghost k = out@.len() as int;
        let kid = kids.remove(0);
        assert(kid == all[k]);
        assert(kid@ == crate::schema_spec::kid(e0, ks[k]));
        proof {
            lemma_child_smaller(orig, kid@.element);
        }
        let a = Element::parse(kid, false)?;
        out.push(a);
        assert(kids@ =~= all.skip(out@.len() as int));
    }
    Ok(out)
}

#[verifier::loop_isolation(false)]
fn parse_group_list(
    kids: Vec<XMLElement>,
    Ghost(orig): Ghost<XmlTreeView>,
    Ghost(e0): Ghost<XMLElementView>,
    Ghost(ks): Ghost<Seq<XmlTreeView>>,
) -> (r: Result<
    Vec<Group>,
    XsdIoError,
>)
    requires
        kids_in(kids@, orig),
        kids@.len() == ks.len(),
        forall|i: int| 0 <= i < ks.len() ==> (#[trigger] kids@[i])@ == crate::schema_spec::kid(e0, ks[i]),
    ensures
        r matches Err(e) ==> e is XsdParseError,
        r matches Ok(v) ==> v@.len() == kids@.len(),
        r matches Ok(v) ==> forall|i: int| 0 <= i < ks.len() ==> crate::schema_rel::group_is(
            crate::schema_spec::kid(e0, #[trigger] ks[i]),
            v@[i],
        ),
        r is Ok <==> forall|i: int| 0 <= i < ks.len() ==> group_reads(crate::schema_spec::kid(e0, #[trigger] ks[i])),
    decreases orig, 0int,
{
    let ghost all = kids@;
    let mut kids = kids;
    let ghost n = kids@.len();
    let mut out: Vec<Group> = Vec::new();
    while kids.len() > 0
        invariant
            kids_in(kids@, orig),
            out@.len() + kids@.len() == n,
            all.len() == n,
            kids@ == all.skip(out@.len() as int),
            forall|j: int| 0 <= j < out@.len() ==> crate::schema_rel::group_is(
                crate::schema_spec::kid(e0, #[trigger] ks[j]),
                out@[j],
            ),
            forall|j: int| 0 <= j < out@.len() ==> group_reads(crate::schema_spec::kid(e0, #[trigger] ks[j])),
        decreases kids@.len(),
    {
        proof {
            lemma_kids_rest(kids@, orig);
        }
        let ghost k = out@.len() as int;
        let kid = kids.remove(0);
        assert(kid == all[k]);
        assert(kid@ == crate::schema_spec::kid(e0, ks[k]));
        proof {
            lemma_child_smaller(orig, kid@.element);
        }
        let a = Group::parse(kid)?;
        out.push(a);
        assert(kids@ =~= all.skip(out@.len() as int));
    }
    Ok(out)
}

#[verifier::loop_isolation(false)]
fn parse_choice_list(
    kids: Vec<XMLElement>,
    Ghost(orig): Ghost<XmlTreeView>,
    Ghost(e0): Ghost<XMLElementView>,
    Ghost(ks): Ghost<Seq<XmlTreeView>>,
) -> (r: Result<
    Vec<Choice>,
    XsdIoError,
>)
    requires
        kids_in(kids@, orig),
        kids@.len() == ks.len(),
        forall|i: int| 0 <= i < ks.len() ==> (#[trigger] kids@[i])@ == crate::schema_spec::kid(e0, ks[i]),
    ensures
        r matches Err(e) ==> e is XsdParseError,
        r matches Ok(v) ==> v@.len() == kids@.len(),
        r matches Ok(v) ==> forall|i: int| 0 <= i < ks.len() ==> crate::schema_rel::choice_is(
            crate::schema_spec::kid(e0, #[trigger] ks[i]),
            v@[i],
        ),
        r is Ok <==> forall|i: int| 0 <= i < ks.len() ==> choice_reads(crate::schema_spec::kid(e0, #[trigger] ks[i])),
    decreases orig, 0int,
{
    let ghost all = kids@;
    let mut kids = kids;
    let ghost n = kids@.len();
    let mut out: Vec<Choice> = Vec::new();
    while kids.len() > 0
        invariant
            kids_in(kids@, orig),
            out@.len() + kids@.len() == n,
            all.len() == n,
            kids@ == all.skip(out@.len() as int),
            forall|j: int| 0 <= j < out@.len() ==> crate::schema_rel::choice_is(
                crate::schema_spec::kid(e0, #[trigger] ks[j]),
                out@[j],
            ),
            forall|j: int| 0 <= j < out@.len() ==> choice_reads(crate::schema_spec::kid(e0, #[trigger] ks[j])),
        decreases kids@.len(),
    {
        proof {
            lemma_kids_rest(kids@, orig);
        }
        let ghost k = out@.len() as int;
        let kid = kids.remove(0);
        assert(kid == all[k]);
        assert(kid@ == crate::schema_spec::kid(e0, ks[k]));
        proof {
            lemma_child_smaller(orig, kid@.element);
        }
        let a = Choice::parse(kid)?;
        out.push(a);
        assert(kids@ =~= all.skip(out@.len() as int));
    }
    Ok(out)
}

#[verifier::loop_isolation(false)]
fn parse_sequence_list(
    kids: Vec<XMLElement>,
    Ghost(orig): Ghost<XmlTreeView>,
    Ghost(e0): Ghost<XMLElementView>,
    Ghost(ks): Ghost<Seq<XmlTreeView>>,
) -> (r: Result<
    Vec<Sequence>,
    XsdIoError,
>)
    requires
        kids_in(kids@, orig),
        kids@.len() == ks.len(),
        forall|i: int| 0 <= i < ks.len() ==> (#[trigger] kids@[i])@ == crate::schema_spec::kid(e0, ks[i]),
    ensures
        r matches Err(e) ==> e is XsdParseError,
        r matches Ok(v) ==> v@.len() == kids@.len(),
        r matches Ok(v) ==> forall|i: int| 0 <= i < ks.len() ==> crate::schema_rel::sequence_is(
            crate::schema_spec::kid(e0, #[trigger] ks[i]),
            v@[i],
        ),
        r is Ok <==> forall|i: int| 0 <= i < ks.len() ==> sequence_reads(crate::schema_spec::kid(e0, #[trigger] ks[i])),
    decreases orig, 0int,
{
    let ghost all = kids@;
    let mut kids = kids;
    let ghost n = kids@.len();
    let mut out: Vec<Sequence> = Vec::new();
    while kids.len() > 0
        invariant
            kids_in(kids@, orig),
            out@.len() + kids@.len() == n,
            all.len() == n,
            kids@ == all.skip(out@.len() as int),
            forall|j: int| 0 <= j < out@.len() ==> crate::schema_rel::sequence_is(
                crate::schema_spec::kid(e0, #[trigger] ks[j]),
                out@[j],
            ),
            forall|j: int| 0 <= j < out@.len() ==> sequence_reads(crate::schema_spec::kid(e0, #[trigger] ks[j])),
        decreases kids@.len(),
    {
        proof {
            lemma_kids_rest(kids@, orig);
        }
        let ghost k = out@.len() as int;
        let kid = kids.remove(0);
        assert(kid == all[k]);
        assert(kid@ == crate::schema_spec::kid(e0, ks[k]));
        proof {
            lemma_child_smaller(orig, kid@.element);
        }
        let a = Sequence::parse(kid)?;
        out.push(a);
        assert(kids@ =~= all.skip(out@.len() as int));
    }
    Ok(out)
}

#[verifier::loop_isolation(false)]
fn parse_simple_type_list(
    kids: Vec<XMLElement>,
    Ghost(orig): Ghost<XmlTreeView>,
    Ghost(e0): Ghost<XMLElementView>,
    Ghost(ks): Ghost<Seq<XmlTreeView>>,
) -> (r: Result<
    Vec<SimpleType>,
    XsdIoError,
>)
    requires
        kids_in(kids@, orig),
        kids@.len() == ks.len(),
        forall|i: int| 0 <= i < ks.len() ==> (#[trigger] kids@[i])@ == crate::schema_spec::kid(e0, ks[i]),
    ensures
        r matches Err(e) ==> e is XsdParseError,
        r matches Ok(v) ==> v@.len() == kids@.len(),
        r matches Ok(v) ==> forall|i: int| 0 <= i < ks.len() ==> crate::schema_rel::simple_type_is(
            crate::schema_spec::kid(e0, #[trigger] ks[i]),
            v@[i], false,
        ),
        r is Ok <==> forall|i: int| 0 <= i < ks.len() ==> simple_type_reads(crate::schema_spec::kid(e0, #[trigger] ks[i]), false),
    decreases orig, 0int,
{
    let ghost all = kids@;
    let mut kids = kids;
    let ghost n = kids@.len();
    let mut out: Vec<SimpleType> = Vec::new();
    while kids.len() > 0
        invariant
            kids_in(kids@, orig),
            out@.len() + kids@.len() == n,
            all.len() == n,
            kids@ == all.skip(out@.len() as int),
            forall|j: int| 0 <= j < out@.len() ==> crate::schema_rel::simple_type_is(
                crate::schema_spec::kid(e0, #[trigger] ks[j]),
                out@[j], false,
            ),
            forall|j: int| 0 <= j < out@.len() ==> simple_type_reads(crate::schema_spec::kid(e0, #[trigger] ks[j]), false),
        decreases kids@.len(),
    {
        proof {
            lemma_kids_rest(kids@, orig);
        }
        let ghost k = out@.len() as int;
        let kid = kids.remove(0);
        assert(kid == all[k]);
        assert(kid@ == crate::schema_spec::kid(e0, ks[k]));
        proof {
            lemma_child_smaller(orig, kid@.element);
        }
        let a = SimpleType::parse(kid, false)?;
        out.push(a);
        assert(kids@ =~= all.skip(out@.len() as int));
    }
    Ok(out)
}

fn annotation_child(element: &mut XMLElement, Ghost(orig): Ghost<XmlTreeView>) -> (r: Result<
    Option<Annotation>,
    XsdIoError,
>)
    requires
        within(old(element)@.element.children, orig.children),
    ensures
        r matches Err(e) ==> e is XsdParseError,
        crate::schema_read::keeps(final(element)@, old(element)@, orig),
        final(element)@ == crate::schema_spec::taken(old(element)@, "annotation"@),
        r is Ok <==> crate::schema_spec::annotation_child_reads(old(element)@, "annotation"@),
        r matches Ok(a) ==> crate::schema_rel::annotation_child_is(old(element)@, "annotation"@, a),
        ({
            let k = crate::schema_spec::kids(old(element)@, "annotation"@);
            match r {
                Ok(None) => k.len() == 0,
                Ok(Some(a)) => k.len() == 1 && opt_str_view(a.id) == attr_value(
                    crate::schema_spec::kid(old(element)@, k[0]),
                    "id"@,
                ) && crate::text::strs_view(a.documentation@) == crate::schema_read::doc_texts(
                    crate::xml_doc::named_children(k[0].children, "documentation"@),
                ),
                Err(_) => true,
            }
        }),
{
    match take_child(element, "annotation", Ghost(orig))? {
        Some(c) => Ok(Some(Annotation::parse(c)?)),
        None => Ok(None),
    }
}


/// Whether `c` is white space in XML: a space, tab, line feed or carriage
/// return.
pub open spec fn is_xml_space(c: char) -> bool {
    c == ' ' || c == '\t' || c == '\n' || c == '\r'
}

/// The words of `s`: its runs of characters other than XML white space,
/// in order.
pub open spec fn words(s: Seq<char>) -> Seq<Seq<char>>
    decreases s.len(),
{
    if s.len() == 0 {
        seq![]
    } else {
        let w = words(s.drop_last());
        let c = s.last();
        if is_xml_space(c) {
            w
        } else if s.len() >= 2 && !is_xml_space(s[s.len() - 2]) && w.len() > 0 {
            w.update(w.len() - 1, w.last().push(c))
        } else {
            w.push(seq![c])
        }
    }
}

/// Splits `s` into its words.
fn split_words(s: &str) -> (r: Vec<String>)
    ensures
        crate::text::strs_view(r@) == words(s@),
{
    let cs = crate::text::chars_of(s);
    let ghost t = cs@;
    let mut out: Vec<String> = Vec::new();
    let mut start: usize = 0;
    let mut i: usize = 0;
    assert(t.take(0) =~= Seq::<char>::empty());
    while i < cs.len()
        invariant
            t == cs@,
            start <= i <= t.len(),
            (start < i) <==> (i > 0 && !is_xml_space(t[i - 1])),
            words(t.take(i as int)) == if start < i {
                crate::text::strs_view(out@).push(t.subrange(start as int, i as int))
            } else {
                crate::text::strs_view(out@)
            },
        decreases t.len() - i,
    {
        let c = cs[i];
        let ghost prev = words(t.take(i as int));
        assert(t.take(i + 1).drop_last() =~= t.take(i as int));
        assert(t.take(i + 1).last() == c);
        if c == ' ' || c == '\t' || c == '\n' || c == '\r' {
            if start < i {
                let w = crate::text::string_of_range(&cs, start, i);
                let ghost before = out@;
                out.push(w);
                assert(crate::text::strs_view(out@) =~= crate::text::strs_view(before).push(w@));
            }
            start = i + 1;
        } else {
            if start < i {
                assert(t.take(i + 1)[i - 1] == t[i - 1]);
                assert(t.subrange(start as int, i + 1) =~= t.subrange(start as int, i as int).push(c));
                assert(words(t.take(i + 1)) =~= prev.update(prev.len() - 1, prev.last().push(c)));
            } else {
                assert(t.subrange(start as int, i + 1) =~= seq![c]);
                if i > 0 {
                    assert(t.take(i + 1)[i - 1] == t[i - 1]);
                }
            }
        }
        i += 1;
    }
    assert(t.take(i as int) =~= t);
    if start < cs.len() {
        let w = crate::text::string_of_range(&cs, start, cs.len());
        let ghost before = out@;
        out.push(w);
        assert(crate::text::strs_view(out@) =~= crate::text::strs_view(before).push(w@));
    }
    out
}

/// The views of a sequence of names.
pub open spec fn names_view(v: Seq<XsdName>) -> Seq<crate::names::XsdNameView> {
    v.map_values(|n: XsdName| n@)
}

/// The names that `texts` read as, of kind `ty`, in the namespace `ns`
/// where they name none.
pub open spec fn names_read(texts: Seq<Seq<char>>, ty: XsdType, ns: Option<Seq<char>>) -> Seq<crate::names::XsdNameView> {
    texts.map_values(|t: Seq<char>| crate::schema_read::name_read(t, ty, ns))
}

fn names_of(element: &XMLElement, words: &Vec<String>, ty: XsdType) -> (r: Vec<XsdName>)
    ensures
        r@.len() == words@.len(),
        names_view(r@) == names_read(crate::text::strs_view(words@), ty, element@.default_namespace),
{
    let mut out: Vec<XsdName> = Vec::new();
    let mut i: usize = 0;
    while i < words.len()
        invariant
            i <= words@.len(),
            out@.len() == i,
            forall|j: int| 0 <= j < i ==> (#[trigger] out@[j])@ == crate::schema_read::name_read(
                words@[j]@,
                ty,
                element@.default_namespace,
            ),
        decreases words@.len() - i,
    {
        out.push(read_name(element, words[i].as_str(), ty));
        i += 1;
    }
    assert(names_view(out@) =~= names_read(crate::text::strs_view(words@), ty, element@.default_namespace));
    out
}

fn facet<T: FromXmlString>(element: &mut XMLElement, name: &str, Ghost(orig): Ghost<XmlTreeView>) -> (r: Result<
    Option<T>,
    XsdIoError,
>)
    requires
        within(old(element)@.element.children, orig.children),
    ensures
        r matches Err(e) ==> e is XsdParseError,
        crate::schema_read::keeps(final(element)@, old(element)@, orig),
        final(element)@ == crate::schema_spec::taken(old(element)@, name@),
        ({
            let k = crate::schema_spec::kids(old(element)@, name@);
            let text = attr_value(crate::schema_spec::kid(old(element)@, k[0]), "value"@);
            match r {
                Ok(None) => k.len() == 0,
                Ok(Some(v)) => k.len() == 1 && (text matches Some(t) && T::reads_as(t, v)),
                Err(_) => k.len() > 1 || (k.len() == 1 && (text is None || (text matches Some(t) && exists|m: Seq<char>|
                    #[trigger] T::fails_with(t, m)))),
            }
        }),
{
    let kid = take_child(element, name, Ghost(orig))?;
    match kid {
        Some(c) => {
            let mut c = c;
            match c.get_attribute("value") {
                Ok(v) => Ok(Some(v)),
                Err(e) => Err(e),
            }
        },
        None => Ok(None),
    }
}

fn facet_values(element: &mut XMLElement, name: &str, Ghost(orig): Ghost<XmlTreeView>) -> (r: Result<
    Vec<String>,
    XsdIoError,
>)
    requires
        within(old(element)@.element.children, orig.children),
    ensures
        r matches Err(e) ==> e is XsdParseError,
        crate::schema_read::keeps(final(element)@, old(element)@, orig),
        final(element)@ == crate::schema_spec::taken(old(element)@, name@),
        r is Ok <==> crate::schema_spec::values_read(old(element)@, name@),
        r matches Ok(v) ==> crate::schema_spec::values_as(old(element)@, name@, crate::text::strs_view(v@)),
{
    let ghost e0 = element@;
    let ghost ks = crate::schema_spec::kids(e0, name@);
    let mut kids = take_children(element, name, Ghost(orig));
    let ghost all = kids@;
    let ghost n = kids@.len();
    let mut out: Vec<String> = Vec::new();
    while kids.len() > 0
        invariant
            e0 == old(element)@,
            crate::schema_read::keeps(element@, e0, orig),
            element@ == crate::schema_spec::taken(e0, name@),
            all.len() == n,
            n == ks.len(),
            ks == crate::schema_spec::kids(e0, name@),
            forall|i: int| 0 <= i < n ==> (#[trigger] all[i])@ == crate::schema_spec::kid(e0, ks[i]),
            out@.len() + kids@.len() == n,
            kids@ == all.skip(out@.len() as int),
            forall|j: int| 0 <= j < out@.len() ==> attr_value(crate::schema_spec::kid(e0, #[trigger] ks[j]), "value"@) is Some,
            forall|j: int| 0 <= j < out@.len() ==> Some((#[trigger] out@[j])@) == attr_value(crate::schema_spec::kid(e0, ks[j]), "value"@),
        decreases kids@.len(),
    {
        let ghost k = out@.len() as int;
        let mut c = kids.remove(0);
        assert(c == all[k]);
        assert(c@ == crate::schema_spec::kid(e0, ks[k]));
        let v: String = match c.get_attribute("value") {
            Ok(v) => v,
            Err(e) => {
                assert(attr_value(crate::schema_spec::kid(e0, ks[k]), "value"@) is None);
                assert(!crate::schema_spec::values_read(e0, name@));
                return Err(e);
            },
        };
        out.push(v);
        assert(kids@ =~= all.skip(out@.len() as int));
    }
    assert(crate::schema_spec::values_as(e0, name@, crate::text::strs_view(out@)));
    Ok(out)
}

impl Attribute {
    /// Reads an `attribute` declaration.
    #[verifier::spinoff_prover]
    pub fn parse(element: XMLElement) -> (r: Result<Attribute, XsdIoError>)
        ensures
            crate::schema_spec::attribute_shape_refused(element@) ==> crate::schema_spec::refuses_itself(r, element@),
            r matches Err(e) ==> e is XsdParseError,
            tag_checked(element@, "attribute"@, r),
            r is Ok <==> attribute_reads(element@),
            r matches Ok(x) ==> crate::schema_rel::attribute_is(element@, x),
            r matches Ok(a) ==> opt_name_view(a.reference) == opt_name_read(
                attr_value(without_attr(element@, "name"@), "ref"@),
                XsdType::Attribute,
                element@.default_namespace,
            ) && opt_name_view(a.type_ref) == opt_name_read(
                attr_value(without_attr(without_attr(element@, "name"@), "ref"@), "type"@),
                XsdType::SimpleType,
                None,
            ),
            r matches Ok(a) ==> attribute_valid(a) && opt_name_view(a.name) == opt_name_read(
                attr_value(element@, "name"@),
                XsdType::Attribute,
                element@.default_namespace,
            ),
        decreases element@.element, 1int,
    {
        let ghost orig = element@.element;
        let ghost e0 = element@;
        let mut element = element;
        element.check_name("attribute")?;
        let name_text: Option<String> = element.try_get_attribute("name")?;
        let name = read_opt_name(&element, name_text, XsdType::Attribute);
        let ref_text: Option<String> = element.try_get_attribute("ref")?;
        let reference = read_opt_name(&element, ref_text, XsdType::Attribute);
        if name.is_some() && reference.is_some() {
            return Err(bad_node(&element, "name and ref cannot both present"));
        }
        let type_text: Option<String> = element.try_get_attribute("type")?;
        let type_ref = read_opt_plain_name(type_text, XsdType::SimpleType);
        let simple_type = match take_child(&mut element, "simpleType", Ghost(orig))? {
            Some(c) => {
                proof {
                    lemma_child_smaller(orig, c@.element);
                }
                Some(SimpleType::parse(c, false)?)
            },
            None => None,
        };
        let use_value: Option<Required> = element.try_get_attribute("use")?;
        let required = match use_value {
            Some(v) => v,
            None => Required::Optional,
        };
        if reference.is_some() && (simple_type.is_some() || type_ref.is_some()) {
            return Err(bad_node(&element, "type | simpleType cannot be present when ref is present"));
        }
        if simple_type.is_some() && type_ref.is_some() {
            return Err(bad_node(&element, "simpleType and type cannot both present"));
        }
        let annotation = annotation_child(&mut element, Ghost(orig))?;
        let default: Option<String> = element.try_get_attribute("default")?;
        let fixed: Option<String> = element.try_get_attribute("fixed")?;
        element.finalize(false, false)?;
        Ok(Attribute { annotation, name, type_ref, default, fixed, required, reference, simple_type })
    }
}

impl AttributeGroup {
    /// Reads an `attributeGroup` definition or reference.
    #[verifier::spinoff_prover]
    pub fn parse(element: XMLElement) -> (r: Result<AttributeGroup, XsdIoError>)
        ensures
            r matches Err(e) ==> e is XsdParseError,
            tag_checked(element@, "attributeGroup"@, r),
            r is Ok <==> attribute_group_reads(element@),
            r matches Ok(x) ==> crate::schema_rel::attribute_group_is(element@, x),
            r matches Ok(g) ==> !(g.name is Some && g.reference is Some) && opt_name_view(g.name) == opt_name_read(
                attr_value(element@, "name"@),
                XsdType::AttributeGroup,
                element@.default_namespace,
            ),
        decreases element@.element, 1int,
    {
        let ghost orig = element@.element;
        let ghost e0 = element@;
        let mut element = element;
        element.check_name("attributeGroup")?;
        let name_text: Option<String> = element.try_get_attribute("name")?;
        let name = read_opt_name(&element, name_text, XsdType::AttributeGroup);
        let ref_text: Option<String> = element.try_get_attribute("ref")?;
        let reference = read_opt_name(&element, ref_text, XsdType::AttributeGroup);
        if name.is_some() && reference.is_some() {
            return Err(bad_node(&element, "name and ref both present"));
        }
        let ghost before = element@;
        let kids = take_children(&mut element, "attribute", Ghost(orig));
        let attributes = parse_attribute_list(kids, Ghost(orig), Ghost(e0), Ghost(crate::schema_spec::kids(before, "attribute"@)))?;
        let ghost before = element@;
        let kids = take_children(&mut element, "attributeGroup", Ghost(orig));
        let attribute_groups = parse_attribute_group_list(kids, Ghost(orig), Ghost(e0), Ghost(crate::schema_spec::kids(before, "attributeGroup"@)))?;
        let annotation = annotation_child(&mut element, Ghost(orig))?;
        element.finalize(false, false)?;
        Ok(AttributeGroup { name, reference, annotation, attributes, attribute_groups })
    }
}

impl SimpleType {
    /// Reads a `simpleType`; `parent_is_schema` tells whether it stands
    /// directly in the schema, where it must have a name and elsewhere must
    /// not.
    #[verifier::spinoff_prover]
    pub fn parse(element: XMLElement, parent_is_schema: bool) -> (r: Result<SimpleType, XsdIoError>)
        ensures
            crate::schema_spec::simple_type_shape_refused(element@, parent_is_schema) ==> crate::schema_spec::refuses_itself(r, element@),
            r matches Err(e) ==> e is XsdParseError,
            tag_checked(element@, "simpleType"@, r),
            r is Ok <==> simple_type_reads(element@, parent_is_schema),
            r matches Ok(x) ==> crate::schema_rel::simple_type_is(element@, x, parent_is_schema),
            r matches Ok(x) ==> opt_name_view(x.name) == opt_name_read(
                attr_value(crate::schema_spec::simple_type_name_stage(element@), "name"@),
                XsdType::SimpleType,
                element@.default_namespace,
            ),
            r matches Ok(s) ==> simple_type_valid(s, parent_is_schema),
        decreases element@.element, 1int,
    {
        let ghost orig = element@.element;
        let ghost e0 = element@;
        let mut element = element;
        element.check_name("simpleType")?;
        let restriction = match take_child(&mut element, "restriction", Ghost(orig))? {
            Some(c) => {
                proof {
                    lemma_child_smaller(orig, c@.element);
                }
                Some(Restriction::parse(RestrictionParentType::SimpleType, c)?)
            },
            None => None,
        };
        let list = match take_child(&mut element, "list", Ghost(orig))? {
            Some(c) => Some(List::parse(c)?),
            None => None,
        };
        let union = match take_child(&mut element, "union", Ghost(orig))? {
            Some(c) => {
                proof {
                    lemma_child_smaller(orig, c@.element);
                }
                Some(Union::parse(c)?)
            },
            None => None,
        };
        if count3(&restriction, &list, &union) > 1 {
            return Err(bad_node(&element, "Two of (extension | restriction | union) cannot be present"));
        }
        let name_text: Option<String> = element.try_get_attribute("name")?;
        let name = read_opt_name(&element, name_text, XsdType::SimpleType);
        if parent_is_schema && name.is_none() {
            return Err(bad_node(&element, "The name attribute is required if the parent node is a schema."));
        } else if !parent_is_schema && name.is_some() {
            return Err(
                bad_node(&element, "The name attribute is not allowed if the parent of node is not a schema."),
            );
        }
        let annotation = annotation_child(&mut element, Ghost(orig))?;
        element.finalize(false, false)?;
        Ok(SimpleType { name, annotation, restriction, list, union })
    }
}

impl Union {
    /// Reads a `union`: the names in `memberTypes` and the inline simple
    /// types.
    #[verifier::spinoff_prover]
    pub fn parse(element: XMLElement) -> (r: Result<Union, XsdIoError>)
        ensures
            r matches Err(e) ==> e is XsdParseError,
            tag_checked(element@, "union"@, r),
            r is Ok <==> union_reads(element@),
            r matches Ok(x) ==> crate::schema_rel::union_is(element@, x),
            r matches Ok(u) ==> names_view(u.member_types@) == names_read(
                match attr_value(element@, "memberTypes"@) {
                    Some(t) => words(t),
                    None => Seq::<Seq<char>>::empty(),
                },
                XsdType::SimpleType,
                element@.default_namespace,
            ),
        decreases element@.element, 1int,
    {
        let ghost orig = element@.element;
        let ghost e0 = element@;
        let mut element = element;
        element.check_name("union")?;
        let member_text: Option<String> = element.try_get_attribute("memberTypes")?;
        let member_types = match member_text {
            Some(t) => {
                let words = split_words(t.as_str());
                names_of(&element, &words, XsdType::SimpleType)
            },
            None => Vec::new(),
        };
        let ghost before = element@;
        let kids = take_children(&mut element, "simpleType", Ghost(orig));
        let simple_types = parse_simple_type_list(kids, Ghost(orig), Ghost(e0), Ghost(crate::schema_spec::kids(before, "simpleType"@)))?;
        element.finalize(false, false)?;
        let u = Union { member_types, simple_types };
        assert(before == without_attr(e0, "memberTypes"@));
        assert(names_view(u.member_types@) == names_read(
            match attr_value(e0, "memberTypes"@) {
                Some(t) => words(t),
                None => Seq::<Seq<char>>::empty(),
            },
            XsdType::SimpleType,
            e0.default_namespace,
        ));
        assert(u.simple_types@.len() == crate::schema_spec::kids(before, "simpleType"@).len());
        assert(forall|i: int| 0 <= i < crate::schema_spec::kids(before, "simpleType"@).len() ==> crate::schema_rel::simple_type_is(crate::schema_spec::kid(e0, #[trigger] crate::schema_spec::kids(before, "simpleType"@)[i]), u.simple_types@[i], false));
        assert(crate::schema_rel::union_is(e0, u));
        Ok(u)
    }
}

impl Restriction {
    /// Reads a `restriction` of what `parent_type` says it restricts; which
    /// particles and attributes it may hold depends on that.
    #[verifier::spinoff_prover]
    #[verifier::rlimit(100)]
    pub fn parse(parent_type: RestrictionParentType, element: XMLElement) -> (r: Result<Restriction, XsdIoError>)
        ensures
            crate::schema_spec::restriction_shape_refused(element@, parent_type) ==> crate::schema_spec::refuses_itself(r, element@),
            r matches Err(e) ==> e is XsdParseError,
            tag_checked(element@, "restriction"@, r),
            r is Ok <==> restriction_reads(element@, parent_type),
            r matches Ok(x) ==> crate::schema_rel::restriction_is(element@, x, parent_type),
            r matches Ok(x) ==> x.base@ == crate::schema_read::name_read(
                attr_value(crate::schema_spec::restriction_base_stage(element@), "base"@)->Some_0,
                XsdType::SimpleType,
                element@.default_namespace,
            ) && crate::schema_spec::facets_as(
                without_attr(crate::schema_spec::restriction_base_stage(element@), "base"@),
                x,
            ),
            r matches Ok(x) ==> restriction_valid(x, parent_type),
        decreases element@.element, 1int,
    {
        let ghost orig = element@.element;
        let ghost e0 = element@;
        let mut element = element;
        element.check_name("restriction")?;
        let annotation = annotation_child(&mut element, Ghost(orig))?;
        let ghost before = element@;
        let kids = take_children(&mut element, "attribute", Ghost(orig));
        let attributes = parse_attribute_list(kids, Ghost(orig), Ghost(e0), Ghost(crate::schema_spec::kids(before, "attribute"@)))?;
        let ghost before = element@;
        let kids = take_children(&mut element, "attributeGroup", Ghost(orig));
        let attribute_groups = parse_attribute_group_list(kids, Ghost(orig), Ghost(e0), Ghost(crate::schema_spec::kids(before, "attributeGroup"@)))?;
        let choice = match take_child(&mut element, "choice", Ghost(orig))? {
            Some(c) => {
                proof {
                    lemma_child_smaller(orig, c@.element);
                }
                Some(Choice::parse(c)?)
            },
            None => None,
        };
        let group = match take_child(&mut element, "group", Ghost(orig))? {
            Some(c) => {
                proof {
                    lemma_child_smaller(orig, c@.element);
                }
                Some(Group::parse(c)?)
            },
            None => None,
        };
        let sequence = match take_child(&mut element, "sequence", Ghost(orig))? {
            Some(c) => {
                proof {
                    lemma_child_smaller(orig, c@.element);
                }
                Some(Sequence::parse(c)?)
            },
            None => None,
        };
        match parent_type {
            RestrictionParentType::SimpleType => {
                if choice.is_some() || group.is_some() || sequence.is_some() || attributes.len() > 0
                    || attribute_groups.len() > 0 {
                    return Err(
                        bad_node(
                            &element,
                            "choice | group | sequence | attribute | attributeGroup cannot be present in node when the parent is a simple type.",
                        ),
                    );
                }
            },
            RestrictionParentType::ComplexContent => {
                if count3(&choice, &group, &sequence) > 1 {
                    return Err(
                        bad_node(
                            &element,
                            "choice | group | sequence may be present in node when the parent is complex content.",
                        ),
                    );
                }
            },
            RestrictionParentType::SimpleContent => {
                if choice.is_some() || group.is_some() || sequence.is_some() {
                    return Err(
                        bad_node(
                            &element,
                            "choice | group | sequence cannot be present in node when the parent is a simple content.",
                        ),
                    );
                }
            },
        }
        let base_text: String = element.get_attribute("base")?;
        let base = read_name(&element, base_text.as_str(), XsdType::SimpleType);
        let min_inclusive: Option<i64> = facet(&mut element, "minInclusive", Ghost(orig))?;
        let max_inclusive: Option<i64> = facet(&mut element, "maxInclusive", Ghost(orig))?;
        let min_exclusive: Option<i64> = facet(&mut element, "minExclusive", Ghost(orig))?;
        let max_exclusive: Option<i64> = facet(&mut element, "maxExclusive", Ghost(orig))?;
        let total_digits: Option<i64> = facet(&mut element, "totalDigits", Ghost(orig))?;
        let fraction_digits: Option<i64> = facet(&mut element, "fractionDigits", Ghost(orig))?;
        let enumerations = facet_values(&mut element, "enumeration", Ghost(orig))?;
        let pattern: Option<String> = facet(&mut element, "pattern", Ghost(orig))?;
        let length: Option<i64> = facet(&mut element, "length", Ghost(orig))?;
        let min_length: Option<i64> = facet(&mut element, "minLength", Ghost(orig))?;
        let max_length: Option<i64> = facet(&mut element, "maxLength", Ghost(orig))?;
        let whitespace: Option<Whitespace> = facet(&mut element, "whitespace", Ghost(orig))?;
        element.finalize(false, false)?;
        Ok(
            Restriction {
                base,
                min_inclusive,
                max_inclusive,
                min_exclusive,
                max_exclusive,
                total_digits,
                fraction_digits,
                enumerations,
                pattern,
                whitespace,
                length,
                min_length,
                max_length,
                annotation,
                choice,
                group,
                sequence,
                attributes,
                attribute_groups,
            },
        )
    }
}


impl ComplexContent {
    /// Reads a `complexContent`: an extension or a restriction.
    #[verifier::spinoff_prover]
    pub fn parse(element: XMLElement) -> (r: Result<ComplexContent, XsdIoError>)
        ensures
            r matches Err(e) ==> e is XsdParseError,
            tag_checked(element@, "complexContent"@, r),
            r is Ok <==> complex_content_reads(element@),
            r matches Ok(x) ==> crate::schema_rel::complex_content_is(element@, x),
        decreases element@.element, 1int,
    {
        let ghost orig = element@.element;
        let ghost e0 = element@;
        let mut element = element;
        element.check_name("complexContent")?;
        let extension = match take_child(&mut element, "extension", Ghost(orig))? {
            Some(c) => {
                proof {
                    lemma_child_smaller(orig, c@.element);
                }
                Some(Extension::parse(c)?)
            },
            None => None,
        };
        let restriction = match take_child(&mut element, "restriction", Ghost(orig))? {
            Some(c) => {
                proof {
                    lemma_child_smaller(orig, c@.element);
                }
                Some(Restriction::parse(RestrictionParentType::ComplexContent, c)?)
            },
            None => None,
        };
        element.finalize(false, false)?;
        Ok(ComplexContent { extension, restriction })
    }
}

impl SimpleContent {
    /// Reads a `simpleContent`: a restriction or an extension, not both.
    #[verifier::spinoff_prover]
    pub fn parse(element: XMLElement) -> (r: Result<SimpleContent, XsdIoError>)
        ensures
            r matches Err(e) ==> e is XsdParseError,
            tag_checked(element@, "simpleContent"@, r),
            r is Ok <==> simple_content_reads(element@),
            r matches Ok(x) ==> crate::schema_rel::simple_content_is(element@, x),
            r matches Ok(c) ==> !(c.restriction is Some && c.extension is Some),
        decreases element@.element, 1int,
    {
        let ghost orig = element@.element;
        let ghost e0 = element@;
        let mut element = element;
        element.check_name("simpleContent")?;
        let restriction = match take_child(&mut element, "restriction", Ghost(orig))? {
            Some(c) => {
                proof {
                    lemma_child_smaller(orig, c@.element);
                }
                Some(Restriction::parse(RestrictionParentType::SimpleContent, c)?)
            },
            None => None,
        };
        let extension = match take_child(&mut element, "extension", Ghost(orig))? {
            Some(c) => {
                proof {
                    lemma_child_smaller(orig, c@.element);
                }
                Some(Extension::parse(c)?)
            },
            None => None,
        };
        if restriction.is_some() && extension.is_some() {
            let msg = concat("extension and restriction cannot both present in ", element.name());
            return Err(bad_node(&element, msg.as_str()));
        }
        element.finalize(false, false)?;
        Ok(SimpleContent { restriction, extension })
    }
}

impl Extension {
    /// Reads an `extension` of a base type.
    #[verifier::spinoff_prover]
    #[verifier::rlimit(40)]
    pub fn parse(element: XMLElement) -> (r: Result<Extension, XsdIoError>)
        ensures
            r matches Err(e) ==> e is XsdParseError,
            tag_checked(element@, "extension"@, r),
            r is Ok <==> extension_reads(element@),
            r matches Ok(x) ==> crate::schema_rel::extension_is(element@, x),
            r matches Ok(x) ==> x.base@ == crate::schema_read::name_read(
                attr_value(crate::schema_spec::extension_base_stage(element@), "base"@)->Some_0,
                XsdType::SimpleType,
                None,
            ),
            r matches Ok(x) ==> extension_valid(x),
        decreases element@.element, 1int,
    {
        let ghost orig = element@.element;
        let ghost e0 = element@;
        let mut element = element;
        element.check_name("extension")?;
        let ghost before = element@;
        let kids = take_children(&mut element, "attribute", Ghost(orig));
        let attributes = parse_attribute_list(kids, Ghost(orig), Ghost(e0), Ghost(crate::schema_spec::kids(before, "attribute"@)))?;
        let ghost before = element@;
        let kids = take_children(&mut element, "attributeGroup", Ghost(orig));
        let attribute_groups = parse_attribute_group_list(kids, Ghost(orig), Ghost(e0), Ghost(crate::schema_spec::kids(before, "attributeGroup"@)))?;
        let group = match take_child(&mut element, "group", Ghost(orig))? {
            Some(c) => {
                proof {
                    lemma_child_smaller(orig, c@.element);
                }
                Some(Group::parse(c)?)
            },
            None => None,
        };
        let choice = match take_child(&mut element, "choice", Ghost(orig))? {
            Some(c) => {
                proof {
                    lemma_child_smaller(orig, c@.element);
                }
                Some(Choice::parse(c)?)
            },
            None => None,
        };
        let ghost before_first = element@.element.children;
        let first_sequence = match take_child(&mut element, "sequence", Ghost(orig))? {
            Some(c) => {
                proof {
                    lemma_child_smaller(orig, c@.element);
                }
                Some(Sequence::parse(c)?)
            },
            None => None,
        };
        if (attributes.len() > 0 || attribute_groups.len() > 0) && (group.is_some() || choice.is_some()
            || first_sequence.is_some()) {
            return Err(
                bad_node(&element, "(group | choice | sequence) and (attribute | attributeGroup) cannot both present"),
            );
        }
        if count3(&group, &choice, &first_sequence) > 1 {
            return Err(bad_node(&element, "group | choice | sequence cannot all be present"));
        }
        let base_text: String = element.get_attribute("base")?;
        let base = XsdName::new(base_text.as_str(), XsdType::SimpleType);
        // The sequence was taken out above, so this second look finds none.
        let ghost before = element@.element.children;
        proof {
            crate::schema_read::lemma_none_left(before_first, "sequence"@);
        }
        let sequence = match take_child(&mut element, "sequence", Ghost(orig))? {
            Some(c) => {
                proof {
                    lemma_child_smaller(orig, c@.element);
                }
                Some(Sequence::parse(c)?)
            },
            None => None,
        };
        let annotation = annotation_child(&mut element, Ghost(orig))?;
        element.finalize(false, false)?;
        assert(present3(sequence, group, choice) <= present3(first_sequence, group, choice));
        Ok(Extension { base, attributes, attribute_groups, sequence, group, choice, annotation })
    }
}

impl ComplexType {
    /// Reads a `complexType`.
    #[verifier::spinoff_prover]
    #[verifier::rlimit(40)]
    pub fn parse(element: XMLElement) -> (r: Result<ComplexType, XsdIoError>)
        ensures
            crate::schema_spec::complex_type_shape_refused(element@) ==> crate::schema_spec::refuses_itself(r, element@),
            r matches Err(e) ==> e is XsdParseError,
            tag_checked(element@, "complexType"@, r),
            r is Ok <==> complex_type_reads(element@),
            r matches Ok(x) ==> crate::schema_rel::complex_type_is(element@, x),
            r matches Ok(c) ==> complex_type_valid(c) && opt_name_view(c.name) == opt_name_read(
                attr_value(element@, "name"@),
                XsdType::ComplexType,
                element@.default_namespace,
            ),
        decreases element@.element, 1int,
    {
        let ghost orig = element@.element;
        let ghost e0 = element@;
        let mut element = element;
        element.check_name("complexType")?;
        let simple_content = match take_child(&mut element, "simpleContent", Ghost(orig))? {
            Some(c) => {
                proof {
                    lemma_child_smaller(orig, c@.element);
                }
                Some(SimpleContent::parse(c)?)
            },
            None => None,
        };
        let complex_content = match take_child(&mut element, "complexContent", Ghost(orig))? {
            Some(c) => {
                proof {
                    lemma_child_smaller(orig, c@.element);
                }
                Some(ComplexContent::parse(c)?)
            },
            None => None,
        };
        let choice = match take_child(&mut element, "choice", Ghost(orig))? {
            Some(c) => {
                proof {
                    lemma_child_smaller(orig, c@.element);
                }
                Some(Choice::parse(c)?)
            },
            None => None,
        };
        let group = match take_child(&mut element, "group", Ghost(orig))? {
            Some(c) => {
                proof {
                    lemma_child_smaller(orig, c@.element);
                }
                Some(Group::parse(c)?)
            },
            None => None,
        };
        let sequence = match take_child(&mut element, "sequence", Ghost(orig))? {
            Some(c) => {
                proof {
                    lemma_child_smaller(orig, c@.element);
                }
                Some(Sequence::parse(c)?)
            },
            None => None,
        };
        let ghost before = element@;
        let kids = take_children(&mut element, "attribute", Ghost(orig));
        let attributes = parse_attribute_list(kids, Ghost(orig), Ghost(e0), Ghost(crate::schema_spec::kids(before, "attribute"@)))?;
        let ghost before = element@;
        let kids = take_children(&mut element, "attributeGroup", Ghost(orig));
        let attribute_groups = parse_attribute_group_list(kids, Ghost(orig), Ghost(e0), Ghost(crate::schema_spec::kids(before, "attributeGroup"@)))?;
        if simple_content.is_some() && complex_content.is_some() {
            return Err(bad_node(&element, "simpleContent | complexContent cannot both present"));
        }
        if (simple_content.is_some() || complex_content.is_some()) && (attributes.len() > 0
            || attribute_groups.len() > 0 || group.is_some() || choice.is_some() || sequence.is_some()) {
            return Err(
                bad_node(
                    &element,
                    "(simpleContent | complexContent) and (group | choice | sequence | attribute | attributeGroup) cannot both present",
                ),
            );
        }
        if count3(&group, &choice, &sequence) > 1 {
            return Err(bad_node(&element, "group | choice | sequence cannot all be present"));
        }
        let name_text: Option<String> = element.try_get_attribute("name")?;
        let name = read_opt_name(&element, name_text, XsdType::ComplexType);
        let annotation = annotation_child(&mut element, Ghost(orig))?;
        element.finalize(false, false)?;
        Ok(
            ComplexType {
                name,
                attributes,
                attribute_groups,
                choice,
                group,
                sequence,
                simple_content,
                complex_content,
                annotation,
            },
        )
    }
}

impl Element {
    /// Reads an `element` declaration; `parent_is_schema` tells whether it
    /// stands directly in the schema, where it must have a name and no
    /// reference.
    #[verifier::spinoff_prover]
    #[verifier::rlimit(40)]
    pub fn parse(element: XMLElement, parent_is_schema: bool) -> (r: Result<Element, XsdIoError>)
        ensures
            crate::schema_spec::element_shape_refused(element@, parent_is_schema) ==> crate::schema_spec::refuses_itself(r, element@),
            r matches Err(e) ==> e is XsdParseError,
            tag_checked(element@, "element"@, r),
            r is Ok <==> element_reads(element@, parent_is_schema),
            r matches Ok(x) ==> crate::schema_rel::element_is(element@, x, parent_is_schema),
            r matches Ok(x) ==> crate::schema_spec::occurs_as(
                crate::schema_spec::element_occurs_stage(element@),
                x.min_occurences,
                x.max_occurences,
            ) && opt_name_view(x.refers) == opt_name_read(
                attr_value(without_attr(element@, "name"@), "ref"@),
                XsdType::Element,
                None,
            ) && opt_name_view(x.kind) == opt_name_read(
                attr_value(crate::schema_spec::element_type_stage(element@), "type"@),
                XsdType::SimpleType,
                None,
            ),
            r matches Ok(e) ==> element_valid(e, parent_is_schema) && opt_name_view(e.name) == opt_name_read(
                attr_value(element@, "name"@),
                XsdType::Element,
                element@.default_namespace,
            ),
        decreases element@.element, 1int,
    {
        let ghost orig = element@.element;
        let ghost e0 = element@;
        let mut element = element;
        element.check_name("element")?;
        let name_text: Option<String> = element.try_get_attribute("name")?;
        let name = read_opt_name(&element, name_text, XsdType::Element);
        let ref_text: Option<String> = element.try_get_attribute("ref")?;
        let refers = read_opt_plain_name(ref_text, XsdType::Element);
        if parent_is_schema && name.is_none() {
            return Err(bad_node(&element, "name attribute cannot be absent when parent is the schema tag."));
        } else if parent_is_schema && refers.is_some() {
            let shown = match &refers {
                Some(n) => n.display_string(),
                None => String::new(),
            };
            let msg = concat3("ref attribute (", shown.as_str(), ") cannot be present when parent is the schema tag.");
            return Err(bad_node(&element, msg.as_str()));
        }
        let complex_type = match take_child(&mut element, "complexType", Ghost(orig))? {
            Some(c) => {
                proof {
                    lemma_child_smaller(orig, c@.element);
                }
                Some(ComplexType::parse(c)?)
            },
            None => None,
        };
        let simple_type = match take_child(&mut element, "simpleType", Ghost(orig))? {
            Some(c) => {
                proof {
                    lemma_child_smaller(orig, c@.element);
                }
                Some(SimpleType::parse(c, false)?)
            },
            None => None,
        };
        if simple_type.is_some() && complex_type.is_some() {
            return Err(bad_node(&element, "simpleType | complexType cannot both present"));
        }
        let annotation = annotation_child(&mut element, Ghost(orig))?;
        let kind_text: Option<String> = element.try_get_attribute("type")?;
        let kind = read_opt_plain_name(kind_text, XsdType::SimpleType);
        let final_value: Option<String> = element.try_get_attribute("final")?;
        let block: Option<String> = element.try_get_attribute("block")?;
        let min_text: Option<u64> = element.try_get_attribute("minOccurs")?;
        let min_occurences = match min_text {
            Some(v) => v,
            None => 1,
        };
        let max_text: Option<MaxOccurences> = element.try_get_attribute("maxOccurs")?;
        let max_occurences = match max_text {
            Some(v) => v,
            None => MaxOccurences::Number { value: 1 },
        };
        element.finalize(false, false)?;
        Ok(
            Element {
                name,
                kind,
                refers,
                min_occurences,
                final_value,
                block,
                max_occurences,
                complex_type,
                simple_type,
                annotation,
            },
        )
    }
}

impl Group {
    /// Reads a `group` definition or reference.
    #[verifier::spinoff_prover]
    pub fn parse(element: XMLElement) -> (r: Result<Group, XsdIoError>)
        ensures
            r matches Err(e) ==> e is XsdParseError,
            tag_checked(element@, "group"@, r),
            r is Ok <==> group_reads(element@),
            r matches Ok(x) ==> crate::schema_rel::group_is(element@, x),
            r matches Ok(g) ==> crate::schema_spec::occurs_as(
                crate::schema_spec::group_occurs_stage(element@),
                g.min_occurences,
                g.max_occurences,
            ),
            r matches Ok(g) ==> group_valid(g) && opt_name_view(g.name) == opt_name_read(
                attr_value(element@, "name"@),
                XsdType::Group,
                element@.default_namespace,
            ),
        decreases element@.element, 1int,
    {
        let ghost orig = element@.element;
        let ghost e0 = element@;
        let mut element = element;
        element.check_name("group")?;
        let name_text: Option<String> = element.try_get_attribute("name")?;
        let name = read_opt_name(&element, name_text, XsdType::Group);
        let ref_text: Option<String> = element.try_get_attribute("ref")?;
        let refers = read_opt_plain_name(ref_text, XsdType::Group);
        let sequence = match take_child(&mut element, "sequence", Ghost(orig))? {
            Some(c) => {
                proof {
                    lemma_child_smaller(orig, c@.element);
                }
                Some(Sequence::parse(c)?)
            },
            None => None,
        };
        let choice = match take_child(&mut element, "choice", Ghost(orig))? {
            Some(c) => {
                proof {
                    lemma_child_smaller(orig, c@.element);
                }
                Some(Choice::parse(c)?)
            },
            None => None,
        };
        if name.is_some() && refers.is_some() {
            return Err(bad_node(&element, "name and ref cannot both present"));
        }
        if sequence.is_some() && choice.is_some() {
            return Err(bad_node(&element, "sequence and choice cannot both present in"));
        }
        let id: Option<String> = element.try_get_attribute("id")?;
        let min_text: Option<u64> = element.try_get_attribute("minOccurs")?;
        let min_occurences = match min_text {
            Some(v) => v,
            None => 1,
        };
        let max_text: Option<MaxOccurences> = element.try_get_attribute("maxOccurs")?;
        let max_occurences = match max_text {
            Some(v) => v,
            None => MaxOccurences::Number { value: 1 },
        };
        let annotation = annotation_child(&mut element, Ghost(orig))?;
        element.finalize(false, false)?;
        Ok(Group { id, name, refers, min_occurences, max_occurences, annotation, sequence, choice })
    }
}

impl Sequence {
    /// Reads a `sequence` of particles.
    #[verifier::spinoff_prover]
    pub fn parse(element: XMLElement) -> (r: Result<Sequence, XsdIoError>)
        ensures
            r matches Err(e) ==> e is XsdParseError,
            tag_checked(element@, "sequence"@, r),
            r is Ok <==> sequence_reads(element@),
            r matches Ok(x) ==> crate::schema_rel::sequence_is(element@, x),
            r matches Ok(q) ==> crate::schema_spec::occurs_as(
                without_attr(element@, "id"@),
                q.min_occurences,
                q.max_occurences,
            ),
        decreases element@.element, 1int,
    {
        let ghost orig = element@.element;
        let ghost e0 = element@;
        let mut element = element;
        element.check_name("sequence")?;
        let id: Option<String> = element.try_get_attribute("id")?;
        let min_text: Option<u64> = element.try_get_attribute("minOccurs")?;
        let min_occurences = match min_text {
            Some(v) => v,
            None => 1,
        };
        let max_text: Option<MaxOccurences> = element.try_get_attribute("maxOccurs")?;
        let max_occurences = match max_text {
            Some(v) => v,
            None => MaxOccurences::Number { value: 1 },
        };
        let annotation = annotation_child(&mut element, Ghost(orig))?;
        let ghost before = element@;
        let kids = take_children(&mut element, "element", Ghost(orig));
        let elements = parse_element_list(kids, Ghost(orig), Ghost(e0), Ghost(crate::schema_spec::kids(before, "element"@)))?;
        let ghost before = element@;
        let kids = take_children(&mut element, "group", Ghost(orig));
        let groups = parse_group_list(kids, Ghost(orig), Ghost(e0), Ghost(crate::schema_spec::kids(before, "group"@)))?;
        let ghost before = element@;
        let kids = take_children(&mut element, "choice", Ghost(orig));
        let choices = parse_choice_list(kids, Ghost(orig), Ghost(e0), Ghost(crate::schema_spec::kids(before, "choice"@)))?;
        let ghost before = element@;
        let kids = take_children(&mut element, "sequence", Ghost(orig));
        let sequences = parse_sequence_list(kids, Ghost(orig), Ghost(e0), Ghost(crate::schema_spec::kids(before, "sequence"@)))?;
        element.finalize(false, false)?;
        Ok(Sequence { id, min_occurences, max_occurences, annotation, elements, groups, choices, sequences })
    }
}

impl Choice {
    /// Reads a `choice`: each child element is one of its options, in
    /// order; a child that is no particle is an error.
    #[verifier::spinoff_prover]
    pub fn parse(element: XMLElement) -> (r: Result<Choice, XsdIoError>)
        ensures
            r matches Err(e) ==> e is XsdParseError,
            tag_checked(element@, "choice"@, r),
            r is Ok <==> choice_reads(element@),
            r matches Ok(x) ==> crate::schema_rel::choice_is(element@, x),
            r matches Ok(c) ==> crate::schema_spec::occurs_as(
                crate::schema_spec::choice_occurs_stage(element@),
                c.min_occurences,
                c.max_occurences,
            ),
            r matches Ok(c) ==> c.children@.len() == element_children(element@.element.children).len(),
        decreases element@.element, 1int,
    {
        let ghost orig = element@.element;
        let ghost e0 = element@;
        let mut element = element;
        element.check_name("choice")?;
        let ghost before = element@;
        let kids = take_all_children(&mut element, Ghost(orig));
        let children = parse_choice_options(
            kids,
            Ghost(orig),
            Ghost(e0),
            Ghost(element_children(before.element.children)),
        )?;
        let id: Option<String> = element.try_get_attribute("id")?;
        let min_text: Option<u64> = element.try_get_attribute("minOccurs")?;
        let min_occurences = match min_text {
            Some(v) => v,
            None => 1,
        };
        let max_text: Option<MaxOccurences> = element.try_get_attribute("maxOccurs")?;
        let max_occurences = match max_text {
            Some(v) => v,
            None => MaxOccurences::Number { value: 1 },
        };
        element.finalize(false, false)?;
        Ok(Choice { id, min_occurences, max_occurences, children })
    }
}

#[verifier::loop_isolation(false)]
fn parse_choice_options(
    kids: Vec<XMLElement>,
    Ghost(orig): Ghost<XmlTreeView>,
    Ghost(e0): Ghost<XMLElementView>,
    Ghost(ks): Ghost<Seq<XmlTreeView>>,
) -> (r: Result<
    Vec<ChoiceOptions>,
    XsdIoError,
>)
    requires
        kids_in(kids@, orig),
        kids@.len() == ks.len(),
        forall|i: int| 0 <= i < ks.len() ==> (#[trigger] kids@[i])@ == crate::schema_spec::kid(e0, ks[i]),
    ensures
        r matches Err(e) ==> e is XsdParseError,
        r matches Ok(v) ==> v@.len() == kids@.len(),
        r matches Ok(v) ==> forall|i: int| 0 <= i < ks.len() ==> crate::schema_rel::option_is(
            crate::schema_spec::kid(e0, #[trigger] ks[i]),
            v@[i],
        ),
        r is Ok <==> forall|i: int| 0 <= i < ks.len() ==> crate::schema_spec::particle_reads(crate::schema_spec::kid(e0, #[trigger] ks[i])),
    decreases orig, 0int,
{
    let ghost all = kids@;
    let mut kids = kids;
    let ghost n = kids@.len();
    let mut out: Vec<ChoiceOptions> = Vec::new();
    while kids.len() > 0
        invariant
            kids_in(kids@, orig),
            out@.len() + kids@.len() == n,
            all.len() == n,
            kids@ == all.skip(out@.len() as int),
            forall|j: int| 0 <= j < out@.len() ==> crate::schema_rel::option_is(
                crate::schema_spec::kid(e0, #[trigger] ks[j]),
                out@[j],
            ),
            forall|j: int| 0 <= j < out@.len() ==> crate::schema_spec::particle_reads(crate::schema_spec::kid(e0, #[trigger] ks[j])),
        decreases kids@.len(),
    {
        proof {
            lemma_kids_rest(kids@, orig);
        }
        let ghost k = out@.len() as int;
        let kid = kids.remove(0);
        assert(kid == all[k]);
        assert(kid@ == crate::schema_spec::kid(e0, ks[k]));
        assert(crate::schema_spec::particle_reads(kid@) == crate::schema_spec::particle_reads(
            crate::schema_spec::kid(e0, ks[k]),
        ));
        proof {
            lemma_child_smaller(orig, kid@.element);
        }
        let option = if str_eq(kid.name(), "element") {
            ChoiceOptions::Element(Element::parse(kid, false)?)
        } else if str_eq(kid.name(), "group") {
            ChoiceOptions::Group(Group::parse(kid)?)
        } else if str_eq(kid.name(), "choice") {
            ChoiceOptions::Choice(Choice::parse(kid)?)
        } else if str_eq(kid.name(), "sequence") {
            ChoiceOptions::Sequence(Sequence::parse(kid)?)
        } else {
            let msg = concat("Unexpected child name ", kid.name());
            return Err(bad_node(&kid, msg.as_str()));
        };
        out.push(option);
        assert(kids@ =~= all.skip(out@.len() as int));
    }
    Ok(out)
}

#[verifier::loop_isolation(false)]
fn parse_schema_options(kids: Vec<XMLElement>, Ghost(e0): Ghost<XMLElementView>, Ghost(ks): Ghost<Seq<XmlTreeView>>) -> (r: Result<
    Vec<SchemaOptions>,
    XsdIoError,
>)
    requires
        kids@.len() == ks.len(),
        forall|i: int| 0 <= i < ks.len() ==> (#[trigger] kids@[i])@ == crate::schema_spec::kid(e0, ks[i]),
    ensures
        r matches Err(e) ==> e is XsdParseError,
        r matches Ok(v) ==> v@.len() == kids@.len(),
        r matches Ok(v) ==> forall|i: int| 0 <= i < ks.len() ==> crate::schema_rel::schema_option_is(
            crate::schema_spec::kid(e0, #[trigger] ks[i]),
            v@[i],
        ),
        r is Ok <==> forall|i: int| 0 <= i < ks.len() ==> crate::schema_spec::schema_option_reads(
            crate::schema_spec::kid(e0, #[trigger] ks[i]),
        ),
{
    let ghost all = kids@;
    let mut kids = kids;
    let ghost n = kids@.len();
    let mut out: Vec<SchemaOptions> = Vec::new();
    while kids.len() > 0
        invariant
            out@.len() + kids@.len() == n,
            all.len() == n,
            kids@ == all.skip(out@.len() as int),
            forall|j: int| 0 <= j < out@.len() ==> crate::schema_rel::schema_option_is(
                crate::schema_spec::kid(e0, #[trigger] ks[j]),
                out@[j],
            ),
            forall|j: int| 0 <= j < out@.len() ==> crate::schema_spec::schema_option_reads(
                crate::schema_spec::kid(e0, #[trigger] ks[j]),
            ),
        decreases kids@.len(),
    {
        let ghost k = out@.len() as int;
        let kid = kids.remove(0);
        assert(kid == all[k]);
        assert(kid@ == crate::schema_spec::kid(e0, ks[k]));
        assert(crate::schema_spec::schema_option_reads(kid@) == crate::schema_spec::schema_option_reads(
            crate::schema_spec::kid(e0, ks[k]),
        ));
        let option = if str_eq(kid.name(), "annotation") {
            SchemaOptions::Annotation(Annotation::parse(kid)?)
        } else if str_eq(kid.name(), "import") {
            SchemaOptions::Import(Import::parse(kid)?)
        } else if str_eq(kid.name(), "element") {
            SchemaOptions::Element(Element::parse(kid, true)?)
        } else if str_eq(kid.name(), "simpleType") {
            SchemaOptions::SimpleType(SimpleType::parse(kid, true)?)
        } else if str_eq(kid.name(), "complexType") {
            SchemaOptions::ComplexType(ComplexType::parse(kid)?)
        } else if str_eq(kid.name(), "attribute") {
            SchemaOptions::Attribute(Attribute::parse(kid)?)
        } else if str_eq(kid.name(), "attributeGroup") {
            SchemaOptions::AttributeGroup(AttributeGroup::parse(kid)?)
        } else if str_eq(kid.name(), "group") {
            SchemaOptions::Group(Group::parse(kid)?)
        } else {
            let msg = concat("Unexpected child name ", kid.name());
            return Err(bad_node(&kid, msg.as_str()));
        };
        out.push(option);
        assert(kids@ =~= all.skip(out@.len() as int));
    }
    Ok(out)
}

impl Schema {
    /// Reads a `schema` element: its target namespace, which becomes the
    /// namespace of the names it declares, its components in order, its
    /// form defaults, and the attributes left over.
    #[verifier::spinoff_prover]
    pub fn parse(element: XMLElement) -> (r: Result<Schema, XsdIoError>)
        ensures
            r matches Err(e) ==> e is XsdParseError,
            tag_checked(element@, "schema"@, r),
            r is Ok <==> crate::schema_spec::schema_reads(element@),
            r matches Ok(x) ==> crate::schema_rel::schema_is(element@, x),
            r matches Ok(s) ==> opt_str_view(s.target_namespace) == attr_value(element@, "targetNamespace"@)
                && s.children@.len() == element_children(element@.element.children).len(),
    {
        let ghost orig = element@.element;
        let ghost e0 = element@;
        let mut element = element;
        element.check_name("schema")?;
        let target_namespace: Option<String> = element.try_get_attribute("targetNamespace")?;
        element.default_namespace = crate::names::clone_opt_str(&target_namespace);
        let ghost before = element@;
        let kids = take_all_children(&mut element, Ghost(orig));
        let children = parse_schema_options(kids, Ghost(before), Ghost(element_children(before.element.children)))?;
        let efd: Option<Qualification> = element.try_get_attribute("elementFormDefault")?;
        let element_form_default = match efd {
            Some(q) => q,
            None => Qualification::Unqualified,
        };
        let afd: Option<Qualification> = element.try_get_attribute("attributeFormDefault")?;
        let attribute_form_default = match afd {
            Some(q) => q,
            None => Qualification::Unqualified,
        };
        let extra = element.get_remaining_attributes();
        element.finalize(false, false)?;
        Ok(Schema { target_namespace, element_form_default, attribute_form_default, children, extra })
    }
}

} // verus!
