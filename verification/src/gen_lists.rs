//! Shared pieces of code generation: results, small builders, and the code of
//! lists of components.
//! components already generated.
use vstd::prelude::*;

use crate::code_model::{Block, Enum, Struct, Type, Variant};
use crate::components::{
    Annotation, Attribute, AttributeGroup, Choice, ChoiceOptions, ComplexContent, ComplexType, Element,
    Extension, Group, List, MaxOccurences, Required, Restriction, RestrictionParentType, Sequence,
    SimpleContent, SimpleType, Union,
};
use crate::context::{impl_view, impls_seq_view, lemma_impls_seq_view, lemma_impls_seq_view_push, clone_impl, XsdElement, XsdImpl};
use crate::context::XsdImplView;
use crate::gen_spec::{
    attr_prefix, attribute_base, attribute_gen, attribute_group_gen, attribute_groups_out, attributes_out,
    choice_gen, choices_out, complex_content_gen, complex_type_gen, create_type, derived_enum, derived_struct,
    doc_text, documented, element_gen, elements_out, enum_value_line, enum_value_line_fn, enum_value_name,
    enumeration_block, extension_gen, find, gen_checked, glue_out, group_gen, groups_out, has_type_name,
    enumeration_piece, kind_out, list_gen, many, maybe, merge_attribute_groups, merge_attributes, merge_list, merge_members,
    merge_simple_types, merged, occurrence_wrapper, option_gen, options_out, piece, prepend_out,
    restriction_complex, restriction_gen, restriction_simple, sequence_gen, sequences_out,
    simple_content_gen, simple_type_gen, std_derives, then_merge, union_gen, unit_variant,
    unit_variant_fn, with_kind, GenOut,
};
use crate::names::XsdNameView;
use crate::registry::XsdContextView;
use crate::merge::{merge_ok, prefix_view, MergeSettings, MergeType};
use crate::names::{clone_opt_name, clone_opt_str, opt_name_view, opt_str_view, XsdGenError, XsdIoError, XsdName, XsdType};
use crate::registry::{SearchResult, XsdContext, XsdError};
use crate::text::{chars_of, concat, concat3, join, strs_view};
use crate::code_model::{block_view, bodies_view, BlockView, BodyView, EnumView};
use crate::names::{struct_name_spec, to_struct_name};
use crate::xsdgen::{general_xsdgen, xsdgen_impl};

verus! {

// ----- results -----

/// Whether `e` is the error that the generation result `g` names.
pub open spec fn error_is(e: XsdError, g: GenOut) -> bool {
    match g {
        GenOut::NotFound(n) => e matches XsdError::XsdImplNotFound(m) && m@ == n,
        GenOut::GenFailure(node, ty, msg) => e matches XsdError::XsdIoError(XsdIoError::XsdGenError(ge))
            && ge.node_name@ == node && ge.ty == ty && ge.msg@ == msg,
        GenOut::SearchFailure(n, msg) => e matches XsdError::ContextSearchError { name, msg: m } && name@
            == n && m@ == msg,
        GenOut::Invalid => e is Unknown,
        GenOut::Done(_) => false,
    }
}

/// Whether `r` is what the generation result `g` describes.
pub open spec fn gives(r: Result<XsdImpl, XsdError>, g: GenOut) -> bool {
    match r {
        Ok(x) => g == GenOut::Done(x@),
        Err(e) => error_is(e, g),
    }
}

/// Whether `r` is what the result `g` of a list describes.
pub open spec fn gives_all(r: Result<Vec<XsdImpl>, XsdError>, g: Result<Seq<XsdImplView>, GenOut>) -> bool {
    match r {
        Ok(v) => g == Ok::<Seq<XsdImplView>, GenOut>(impls_seq_view(v@)),
        Err(e) => g matches Err(h) && error_is(e, h),
    }
}

// ----- small pieces -----

pub(crate) fn empty_impls() -> (r: Vec<XsdImpl>)
    ensures
        impls_seq_view(r@) == Seq::<XsdImplView>::empty(),
{
    let r: Vec<XsdImpl> = Vec::new();
    assert(impls_seq_view(r@) =~= seq![]);
    r
}

pub(crate) fn one_impl(x: XsdImpl) -> (r: Vec<XsdImpl>)
    ensures
        impls_seq_view(r@) == seq![x@],
{
    let mut r: Vec<XsdImpl> = Vec::new();
    proof {
        lemma_impls_seq_view_push(r@, x);
        assert(impls_seq_view(r@) =~= seq![]);
    }
    r.push(x);
    assert(impls_seq_view(r@) =~= seq![x@]);
    r
}

/// A piece with no nested pieces and no `impl` blocks.
pub(crate) fn make_piece(name: XsdName, hint: Option<String>, element: XsdElement, flatten: bool) -> (r: XsdImpl)
    ensures
        r@ == piece(name@, opt_str_view(hint), element@, flatten),
{
    let r = XsdImpl {
        name,
        fieldname_hint: hint,
        element,
        inner: empty_impls(),
        implementation: Vec::new(),
        flatten,
    };
    assert(crate::code_model::impls_view(r.implementation@) =~= seq![]);
    r
}

/// The documentation lines of an optional annotation, joined with `sep`.
pub(crate) fn doc_of(a: &Option<Annotation>, sep: &str) -> (r: Option<String>)
    ensures
        opt_str_view(r) == doc_text(*a, sep@),
{
    match a {
        Some(d) => Some(join(&d.get_doc(), sep)),
        None => None,
    }
}

/// Documents the piece where there is documentation.
pub(crate) fn add_docs(x: &mut XsdImpl, doc: Option<String>)
    ensures
        final(x)@ == documented(old(x)@, opt_str_view(doc)),
{
    match doc {
        Some(d) => x.element.add_doc(d.as_str()),
        None => {},
    }
}

/// The piece nested under `inner-` and its name, in a type `ty<..>` of it.
pub(crate) fn wrap_occurrence(x: XsdImpl, ty: &str, flatten: bool) -> (r: XsdImpl)
    ensures
        r@ == occurrence_wrapper(x@, ty@, flatten),
{
    let name = x.name.clone();
    let hint = clone_opt_str(&x.fieldname_hint);
    let t = x.element.get_type().wrap(ty);
    let mut x2 = x;
    x2.name.local_name = concat("inner-", x2.name.local_name.as_str());
    let r = XsdImpl {
        name,
        fieldname_hint: hint,
        element: XsdElement::Type(t),
        inner: one_impl(x2),
        implementation: Vec::new(),
        flatten,
    };
    assert(crate::code_model::impls_view(r.implementation@) =~= seq![]);
    r
}

pub(crate) fn std_derive_names() -> (r: Vec<&'static str>)
    ensures
        crate::text::str_refs_view(r@) == std_derives(),
{
    let r = vec!["Clone", "Debug", "PartialEq"];
    assert(crate::text::str_refs_view(r@) =~= std_derives());
    r
}

/// A public struct with the usual derives.
pub(crate) fn derived_struct_exec(xml: Option<XsdName>, name: &str) -> (r: Struct)
    ensures
        r@ == derived_struct(opt_name_view(xml), name@),
{
    let names = std_derive_names();
    Struct::new(xml, name).derives(names.as_slice())
}

/// A public enum with the usual derives.
pub(crate) fn derived_enum_exec(xml: Option<XsdName>, name: &str) -> (r: Enum)
    ensures
        r@ == derived_enum(opt_name_view(xml), name@),
{
    let names = std_derive_names();
    Enum::new(xml, name).derives(names.as_slice())
}

// ----- merging -----

pub(crate) proof fn lemma_merge_list_stays(acc: GenOut, v: Seq<XsdImplView>, p: Option<Seq<char>>)
    requires
        !(acc is Done),
    ensures
        merge_list(acc, v, p) == acc,
    decreases v.len(),
{
    if v.len() > 0 {
        lemma_merge_list_stays(acc, v.drop_first(), p);
    }
}

pub(crate) proof fn lemma_merge_attributes_stays(acc: GenOut, v: Seq<Attribute>, c: XsdContextView, p: Option<Seq<char>>)
    requires
        !(acc is Done),
    ensures
        merge_attributes(acc, v, c, p) == acc,
    decreases v.len(),
{
    reveal(merge_attributes);
    if v.len() > 0 {
        lemma_merge_attributes_stays(acc, v.drop_first(), c, p);
    }
}

pub(crate) proof fn lemma_merge_attribute_groups_stays(
    acc: GenOut,
    v: Seq<AttributeGroup>,
    parent: Option<XsdNameView>,
    c: XsdContextView,
)
    requires
        !(acc is Done),
    ensures
        merge_attribute_groups(acc, v, parent, c) == acc,
    decreases v.len(),
{
    reveal(merge_attribute_groups);
    if v.len() > 0 {
        lemma_merge_attribute_groups_stays(acc, v.drop_first(), parent, c);
    }
}

pub(crate) proof fn lemma_merge_simple_types_stays(acc: GenOut, v: Seq<SimpleType>, parent: Option<XsdNameView>, c: XsdContextView)
    requires
        !(acc is Done),
    ensures
        merge_simple_types(acc, v, parent, c) == acc,
    decreases v.len(),
{
    reveal(merge_simple_types);
    if v.len() > 0 {
        lemma_merge_simple_types_stays(acc, v.drop_first(), parent, c);
    }
}

pub(crate) proof fn lemma_merge_members_stays(acc: GenOut, v: Seq<XsdName>, parent: XsdNameView, c: XsdContextView)
    requires
        !(acc is Done),
    ensures
        merge_members(acc, v, parent, c) == acc,
    decreases v.len(),
{
    reveal(merge_members);
    if v.len() > 0 {
        lemma_merge_members_stays(acc, v.drop_first(), parent, c);
    }
}

pub(crate) proof fn lemma_glue_push(a: Seq<XsdImplView>, x: XsdImplView, rest: Result<Seq<XsdImplView>, GenOut>)
    ensures
        glue_out(a, prepend_out(GenOut::Done(x), rest)) == glue_out(a.push(x), rest),
{
    match rest {
        Ok(w) => {
            assert(a + (seq![x] + w) =~= a.push(x) + w);
        },
        Err(_) => {},
    }
}

/// Merges the pieces `v` one after the other into `x`.
pub(crate) fn merge_each(x: XsdImpl, v: &Vec<XsdImpl>, prefix: Option<&str>) -> (r: Result<XsdImpl, XsdError>)
    ensures
        gives(r, merge_list(GenOut::Done(x@), impls_seq_view(v@), prefix_view(prefix))),
{
    let ghost vs = impls_seq_view(v@);
    let ghost p = prefix_view(prefix);
    let ghost total = merge_list(GenOut::Done(x@), vs, p);
    proof {
        lemma_impls_seq_view(v@);
        assert(vs.subrange(0, vs.len() as int) =~= vs);
    }
    let mut cur = x;
    let mut i: usize = 0;
    while i < v.len()
        invariant
            i <= v@.len(),
            vs == impls_seq_view(v@),
            vs.len() == v@.len(),
            forall|j: int| 0 <= j < v@.len() ==> #[trigger] vs[j] == impl_view(v@[j]),
            p == prefix_view(prefix),
            total == merge_list(GenOut::Done(x@), vs, p),
            total == merge_list(GenOut::Done(cur@), vs.subrange(i as int, vs.len() as int), p),
        decreases v@.len() - i,
    {
        let ghost rest = vs.subrange(i as int, vs.len() as int);
        assert(rest.drop_first() =~= vs.subrange(i + 1, vs.len() as int));
        let item = clone_impl(&v[i]);
        if !crate::merge::merge_ok_exec(&cur, &item) {
            proof {
                lemma_merge_list_stays(GenOut::Invalid, rest.drop_first(), p);
            }
            return Err(XsdError::Unknown);
        }
        cur.merge(item, MergeSettings { conflict_prefix: prefix, merge_type: MergeType::Field });
        i += 1;
    }
    assert(vs.subrange(i as int, vs.len() as int) =~= Seq::<XsdImplView>::empty());
    Ok(cur)
}


pub(crate) proof fn lemma_glue_empty(rest: Result<Seq<XsdImplView>, GenOut>)
    ensures
        glue_out(Seq::<XsdImplView>::empty(), rest) == rest,
{
    match rest {
        Ok(w) => {
            assert(Seq::<XsdImplView>::empty() + w =~= w);
        },
        Err(_) => {},
    }
}

/// The pieces `a` followed by the pieces `b`.
pub(crate) fn join_impls(a: Vec<XsdImpl>, b: Vec<XsdImpl>) -> (r: Vec<XsdImpl>)
    ensures
        impls_seq_view(r@) == impls_seq_view(a@) + impls_seq_view(b@),
{
    let ghost av = a@;
    let ghost bv = b@;
    let mut r = a;
    let mut b = b;
    r.append(&mut b);
    proof {
        lemma_impls_seq_view(av);
        lemma_impls_seq_view(bv);
        lemma_impls_seq_view(r@);
        assert(impls_seq_view(r@) =~= impls_seq_view(av) + impls_seq_view(bv));
    }
    r
}

pub(crate) fn many_exec(max: &MaxOccurences, min: u64) -> (r: bool)
    ensures
        r == many(*max, min),
{
    (match max {
        MaxOccurences::Unbounded => true,
        MaxOccurences::Number { value } => *value > 1,
    }) || min > 1
}

pub(crate) fn maybe_exec(max: &MaxOccurences, min: u64) -> (r: bool)
    ensures
        r == maybe(*max, min),
{
    match max {
        MaxOccurences::Unbounded => false,
        MaxOccurences::Number { value } => *value == 1 && min == 0,
    }
}

pub(crate) fn field_settings() -> (r: MergeSettings<'static>)
    ensures
        prefix_view(r.conflict_prefix) == None::<Seq<char>>,
{
    MergeSettings { conflict_prefix: None, merge_type: MergeType::Field }
}

// ----- lists of components -----

pub(crate) fn attributes_impls(v: &Vec<Attribute>, context: &XsdContext, pis: bool) -> (r: Result<Vec<XsdImpl>, XsdError>)
    ensures
        gives_all(r, attributes_out(v@, context@, pis)),
    decreases v, 0int,
{
    proof {
        reveal(attributes_out);
    }
    let ghost c0 = *context;
    let ghost total = attributes_out(v@, c0@, pis);
    let mut out = empty_impls();
    proof {
        assert(v@.subrange(0, v@.len() as int) =~= v@);
        lemma_glue_empty(total);
    }
    let mut i: usize = 0;
    while i < v.len()
        invariant
            i <= v@.len(),
            c0 == *context,
            total == attributes_out(v@, c0@, pis),
            total == glue_out(impls_seq_view(out@), attributes_out(v@.subrange(i as int, v@.len() as int), c0@, pis)),
        decreases v@.len() - i,
    {
        proof {
            reveal(attributes_out);
        }
        let ghost rest = v@.subrange(i as int, v@.len() as int);
        assert(rest.drop_first() =~= v@.subrange(i + 1, v@.len() as int));
        assert(rest[0] == v@[i as int]);
        assert(decreases_to!(v => v@[i as int]));
        assert(attributes_out(rest, c0@, pis) == prepend_out(attribute_gen(rest[0], c0@, pis), attributes_out(rest.drop_first(), c0@, pis)));
        match v[i].get_implementation(context, pis) {
            Ok(x) => {
                proof {
                    lemma_glue_push(impls_seq_view(out@), x@, attributes_out(rest.drop_first(), c0@, pis));
                    lemma_impls_seq_view_push(out@, x);
                }
                out.push(x);
            },
            Err(e) => {
                return Err(e);
            },
        }
        i += 1;
    }
    proof {
        assert(v@.subrange(i as int, v@.len() as int) =~= Seq::<Attribute>::empty());
        assert(impls_seq_view(out@) + Seq::<XsdImplView>::empty() =~= impls_seq_view(out@));
    }
    Ok(out)
}

pub(crate) fn attribute_groups_impls(v: &Vec<AttributeGroup>, parent: &Option<XsdName>, context: &XsdContext) -> (r: Result<Vec<XsdImpl>, XsdError>)
    ensures
        gives_all(r, attribute_groups_out(v@, opt_name_view(*parent), context@)),
    decreases v, 0int,
{
    proof {
        reveal(attribute_groups_out);
    }
    let ghost c0 = *context;
    let ghost pv = opt_name_view(*parent);
    let ghost total = attribute_groups_out(v@, pv, c0@);
    let mut out = empty_impls();
    proof {
        assert(v@.subrange(0, v@.len() as int) =~= v@);
        lemma_glue_empty(total);
    }
    let mut i: usize = 0;
    while i < v.len()
        invariant
            i <= v@.len(),
            c0 == *context,
            pv == opt_name_view(*parent),
            total == attribute_groups_out(v@, pv, c0@),
            total == glue_out(impls_seq_view(out@), attribute_groups_out(v@.subrange(i as int, v@.len() as int), pv, c0@)),
        decreases v@.len() - i,
    {
        proof {
            reveal(attribute_groups_out);
        }
        let ghost rest = v@.subrange(i as int, v@.len() as int);
        assert(rest.drop_first() =~= v@.subrange(i + 1, v@.len() as int));
        assert(rest[0] == v@[i as int]);
        assert(decreases_to!(v => v@[i as int]));
        assert(attribute_groups_out(rest, pv, c0@) == prepend_out(attribute_group_gen(rest[0], pv, c0@), attribute_groups_out(rest.drop_first(), pv, c0@)));
        match v[i].get_implementation(clone_opt_name(parent), context) {
            Ok(x) => {
                proof {
                    lemma_glue_push(impls_seq_view(out@), x@, attribute_groups_out(rest.drop_first(), pv, c0@));
                    lemma_impls_seq_view_push(out@, x);
                }
                out.push(x);
            },
            Err(e) => {
                return Err(e);
            },
        }
        i += 1;
    }
    proof {
        assert(v@.subrange(i as int, v@.len() as int) =~= Seq::<AttributeGroup>::empty());
        assert(impls_seq_view(out@) + Seq::<XsdImplView>::empty() =~= impls_seq_view(out@));
    }
    Ok(out)
}

pub(crate) fn elements_impls(v: &Vec<Element>, context: &XsdContext) -> (r: Result<Vec<XsdImpl>, XsdError>)
    ensures
        gives_all(r, elements_out(v@, context@)),
    decreases v, 0int,
{
    proof {
        reveal(elements_out);
    }
    let ghost c0 = *context;
    let ghost total = elements_out(v@, c0@);
    let mut out = empty_impls();
    proof {
        assert(v@.subrange(0, v@.len() as int) =~= v@);
        lemma_glue_empty(total);
    }
    let mut i: usize = 0;
    while i < v.len()
        invariant
            i <= v@.len(),
            c0 == *context,
            total == elements_out(v@, c0@),
            total == glue_out(impls_seq_view(out@), elements_out(v@.subrange(i as int, v@.len() as int), c0@)),
        decreases v@.len() - i,
    {
        proof {
            reveal(elements_out);
        }
        let ghost rest = v@.subrange(i as int, v@.len() as int);
        assert(rest.drop_first() =~= v@.subrange(i + 1, v@.len() as int));
        assert(rest[0] == v@[i as int]);
        assert(decreases_to!(v => v@[i as int]));
        assert(elements_out(rest, c0@) == prepend_out(element_gen(rest[0], c0@), elements_out(rest.drop_first(), c0@)));
        match v[i].get_implementation(context) {
            Ok(x) => {
                proof {
                    lemma_glue_push(impls_seq_view(out@), x@, elements_out(rest.drop_first(), c0@));
                    lemma_impls_seq_view_push(out@, x);
                }
                out.push(x);
            },
            Err(e) => {
                return Err(e);
            },
        }
        i += 1;
    }
    proof {
        assert(v@.subrange(i as int, v@.len() as int) =~= Seq::<Element>::empty());
        assert(impls_seq_view(out@) + Seq::<XsdImplView>::empty() =~= impls_seq_view(out@));
    }
    Ok(out)
}

pub(crate) fn sequences_impls(v: &Vec<Sequence>, context: &XsdContext) -> (r: Result<Vec<XsdImpl>, XsdError>)
    ensures
        gives_all(r, sequences_out(v@, context@)),
    decreases v, 0int,
{
    proof {
        reveal(sequences_out);
    }
    let ghost c0 = *context;
    let ghost total = sequences_out(v@, c0@);
    let mut out = empty_impls();
    proof {
        assert(v@.subrange(0, v@.len() as int) =~= v@);
        lemma_glue_empty(total);
    }
    let mut i: usize = 0;
    while i < v.len()
        invariant
            i <= v@.len(),
            c0 == *context,
            total == sequences_out(v@, c0@),
            total == glue_out(impls_seq_view(out@), sequences_out(v@.subrange(i as int, v@.len() as int), c0@)),
        decreases v@.len() - i,
    {
        proof {
            reveal(sequences_out);
        }
        let ghost rest = v@.subrange(i as int, v@.len() as int);
        assert(rest.drop_first() =~= v@.subrange(i + 1, v@.len() as int));
        assert(rest[0] == v@[i as int]);
        assert(decreases_to!(v => v@[i as int]));
        assert(sequences_out(rest, c0@) == prepend_out(sequence_gen(rest[0], None, c0@), sequences_out(rest.drop_first(), c0@)));
        match v[i].get_implementation(None, context) {
            Ok(x) => {
                proof {
                    lemma_glue_push(impls_seq_view(out@), x@, sequences_out(rest.drop_first(), c0@));
                    lemma_impls_seq_view_push(out@, x);
                }
                out.push(x);
            },
            Err(e) => {
                return Err(e);
            },
        }
        i += 1;
    }
    proof {
        assert(v@.subrange(i as int, v@.len() as int) =~= Seq::<Sequence>::empty());
        assert(impls_seq_view(out@) + Seq::<XsdImplView>::empty() =~= impls_seq_view(out@));
    }
    Ok(out)
}

pub(crate) fn groups_impls(v: &Vec<Group>, context: &XsdContext) -> (r: Result<Vec<XsdImpl>, XsdError>)
    ensures
        gives_all(r, groups_out(v@, context@)),
    decreases v, 0int,
{
    proof {
        reveal(groups_out);
    }
    let ghost c0 = *context;
    let ghost total = groups_out(v@, c0@);
    let mut out = empty_impls();
    proof {
        assert(v@.subrange(0, v@.len() as int) =~= v@);
        lemma_glue_empty(total);
    }
    let mut i: usize = 0;
    while i < v.len()
        invariant
            i <= v@.len(),
            c0 == *context,
            total == groups_out(v@, c0@),
            total == glue_out(impls_seq_view(out@), groups_out(v@.subrange(i as int, v@.len() as int), c0@)),
        decreases v@.len() - i,
    {
        proof {
            reveal(groups_out);
        }
        let ghost rest = v@.subrange(i as int, v@.len() as int);
        assert(rest.drop_first() =~= v@.subrange(i + 1, v@.len() as int));
        assert(rest[0] == v@[i as int]);
        assert(decreases_to!(v => v@[i as int]));
        assert(groups_out(rest, c0@) == prepend_out(group_gen(rest[0], None, c0@), groups_out(rest.drop_first(), c0@)));
        match v[i].get_implementation(None, context) {
            Ok(x) => {
                proof {
                    lemma_glue_push(impls_seq_view(out@), x@, groups_out(rest.drop_first(), c0@));
                    lemma_impls_seq_view_push(out@, x);
                }
                out.push(x);
            },
            Err(e) => {
                return Err(e);
            },
        }
        i += 1;
    }
    proof {
        assert(v@.subrange(i as int, v@.len() as int) =~= Seq::<Group>::empty());
        assert(impls_seq_view(out@) + Seq::<XsdImplView>::empty() =~= impls_seq_view(out@));
    }
    Ok(out)
}

pub(crate) fn choices_impls(v: &Vec<Choice>, context: &XsdContext) -> (r: Result<Vec<XsdImpl>, XsdError>)
    ensures
        gives_all(r, choices_out(v@, context@)),
    decreases v, 0int,
{
    proof {
        reveal(choices_out);
    }
    let ghost c0 = *context;
    let ghost total = choices_out(v@, c0@);
    let mut out = empty_impls();
    proof {
        assert(v@.subrange(0, v@.len() as int) =~= v@);
        lemma_glue_empty(total);
    }
    let mut i: usize = 0;
    while i < v.len()
        invariant
            i <= v@.len(),
            c0 == *context,
            total == choices_out(v@, c0@),
            total == glue_out(impls_seq_view(out@), choices_out(v@.subrange(i as int, v@.len() as int), c0@)),
        decreases v@.len() - i,
    {
        proof {
            reveal(choices_out);
        }
        let ghost rest = v@.subrange(i as int, v@.len() as int);
        assert(rest.drop_first() =~= v@.subrange(i + 1, v@.len() as int));
        assert(rest[0] == v@[i as int]);
        assert(decreases_to!(v => v@[i as int]));
        assert(choices_out(rest, c0@) == prepend_out(choice_gen(rest[0], None, c0@), choices_out(rest.drop_first(), c0@)));
        match v[i].get_implementation(None, context) {
            Ok(x) => {
                proof {
                    lemma_glue_push(impls_seq_view(out@), x@, choices_out(rest.drop_first(), c0@));
                    lemma_impls_seq_view_push(out@, x);
                }
                out.push(x);
            },
            Err(e) => {
                return Err(e);
            },
        }
        i += 1;
    }
    proof {
        assert(v@.subrange(i as int, v@.len() as int) =~= Seq::<Choice>::empty());
        assert(impls_seq_view(out@) + Seq::<XsdImplView>::empty() =~= impls_seq_view(out@));
    }
    Ok(out)
}

/// The piece of one particle of a choice.
pub(crate) fn option_impl(o: &ChoiceOptions, context: &XsdContext) -> (r: Result<XsdImpl, XsdError>)
    ensures
        gives(r, option_gen(*o, context@)),
    decreases o, 1int,
{
    match o {
        ChoiceOptions::Element(e) => e.get_implementation(context),
        ChoiceOptions::Group(g) => g.get_implementation(None, context),
        ChoiceOptions::Choice(ch) => ch.get_implementation(None, context),
        ChoiceOptions::Sequence(s) => s.get_implementation(None, context),
    }
}

pub(crate) fn options_impls(v: &Vec<ChoiceOptions>, context: &XsdContext) -> (r: Result<Vec<XsdImpl>, XsdError>)
    ensures
        gives_all(r, options_out(v@, context@)),
    decreases v, 0int,
{
    proof {
        reveal(options_out);
    }
    let ghost c0 = *context;
    let ghost total = options_out(v@, c0@);
    let mut out = empty_impls();
    proof {
        assert(v@.subrange(0, v@.len() as int) =~= v@);
        lemma_glue_empty(total);
    }
    let mut i: usize = 0;
    while i < v.len()
        invariant
            i <= v@.len(),
            c0 == *context,
            total == options_out(v@, c0@),
            total == glue_out(impls_seq_view(out@), options_out(v@.subrange(i as int, v@.len() as int), c0@)),
        decreases v@.len() - i,
    {
        proof {
            reveal(options_out);
        }
        let ghost rest = v@.subrange(i as int, v@.len() as int);
        assert(rest.drop_first() =~= v@.subrange(i + 1, v@.len() as int));
        assert(rest[0] == v@[i as int]);
        assert(decreases_to!(v => v@[i as int]));
        assert(options_out(rest, c0@) == prepend_out(option_gen(rest[0], c0@), options_out(rest.drop_first(), c0@)));
        match option_impl(&v[i], context) {
            Ok(x) => {
                proof {
                    lemma_glue_push(impls_seq_view(out@), x@, options_out(rest.drop_first(), c0@));
                    lemma_impls_seq_view_push(out@, x);
                }
                out.push(x);
            },
            Err(e) => {
                return Err(e);
            },
        }
        i += 1;
    }
    proof {
        assert(v@.subrange(i as int, v@.len() as int) =~= Seq::<ChoiceOptions>::empty());
        assert(impls_seq_view(out@) + Seq::<XsdImplView>::empty() =~= impls_seq_view(out@));
    }
    Ok(out)
}

// ----- merging components as they are generated -----

/// Merges the attributes `v` into `x` one after the other, each as it is
/// generated.
pub(crate) fn merge_attributes_exec(x: XsdImpl, v: &Vec<Attribute>, context: &XsdContext) -> (r: Result<XsdImpl, XsdError>)
    ensures
        gives(r, merge_attributes(GenOut::Done(x@), v@, context@, attr_prefix())),
    decreases v, 0int,
{
    proof {
        reveal(merge_attributes);
    }
    let ghost c0 = *context;
    let ghost total = merge_attributes(GenOut::Done(x@), v@, c0@, attr_prefix());
    let mut cur = x;
    proof {
        assert(v@.subrange(0, v@.len() as int) =~= v@);
    }
    let mut i: usize = 0;
    while i < v.len()
        invariant
            i <= v@.len(),
            c0 == *context,
            total == merge_attributes(GenOut::Done(x@), v@, c0@, attr_prefix()),
            total == merge_attributes(GenOut::Done(cur@), v@.subrange(i as int, v@.len() as int), c0@, attr_prefix()),
        decreases v@.len() - i,
    {
        proof {
            reveal(merge_attributes);
        }
        let ghost rest = v@.subrange(i as int, v@.len() as int);
        assert(rest.drop_first() =~= v@.subrange(i + 1, v@.len() as int));
        assert(rest[0] == v@[i as int]);
        assert(decreases_to!(v => v@[i as int]));
        assert(merge_attributes(GenOut::Done(cur@), rest, c0@, attr_prefix()) == merge_attributes(then_merge(GenOut::Done(cur@), attribute_gen(rest[0], c0@, false), attr_prefix()), rest.drop_first(), c0@, attr_prefix()));
        match v[i].get_implementation(context, false) {
            Ok(y) => {
                if !crate::merge::merge_ok_exec(&cur, &y) {
                    proof {
                        lemma_merge_attributes_stays(GenOut::Invalid, rest.drop_first(), c0@, attr_prefix());
                    }
                    return Err(XsdError::Unknown);
                }
                cur.merge(y, MergeSettings::attribute());
            },
            Err(e) => {
                proof {
                    let g0 = attribute_gen(v@[i as int], c0@, false);
                    assert(error_is(e, g0));
                    assert(!(g0 is Done));
                    assert(then_merge(GenOut::Done(cur@), g0, attr_prefix()) == g0);
                    lemma_merge_attributes_stays(g0, rest.drop_first(), c0@, attr_prefix());
                    assert(total == g0);
                }
                return Err(e);
            },
        }
        i += 1;
    }
    proof {
        assert(v@.subrange(i as int, v@.len() as int) =~= Seq::<Attribute>::empty());
    }
    Ok(cur)
}

/// Merges the attribute groups `v` into `x` one after the other, each as it
/// is generated.
#[verifier::rlimit(40)]
pub(crate) fn merge_attribute_groups_exec(x: XsdImpl, v: &Vec<AttributeGroup>, parent: &Option<XsdName>, context: &XsdContext) -> (r: Result<XsdImpl, XsdError>)
    ensures
        gives(r, merge_attribute_groups(GenOut::Done(x@), v@, opt_name_view(*parent), context@)),
    decreases v, 0int,
{
    proof {
        reveal(merge_attribute_groups);
    }
    let ghost c0 = *context;
    let ghost pv = opt_name_view(*parent);
    let ghost total = merge_attribute_groups(GenOut::Done(x@), v@, pv, c0@);
    let mut cur = x;
    proof {
        assert(v@.subrange(0, v@.len() as int) =~= v@);
    }
    let mut i: usize = 0;
    while i < v.len()
        invariant
            i <= v@.len(),
            c0 == *context,
            pv == opt_name_view(*parent),
            total == merge_attribute_groups(GenOut::Done(x@), v@, pv, c0@),
            total == merge_attribute_groups(GenOut::Done(cur@), v@.subrange(i as int, v@.len() as int), pv, c0@),
        decreases v@.len() - i,
    {
        proof {
            reveal(merge_attribute_groups);
        }
        let ghost rest = v@.subrange(i as int, v@.len() as int);
        assert(rest.drop_first() =~= v@.subrange(i + 1, v@.len() as int));
        assert(rest[0] == v@[i as int]);
        assert(decreases_to!(v => v@[i as int]));
        assert(merge_attribute_groups(GenOut::Done(cur@), rest, pv, c0@) == merge_attribute_groups(then_merge(GenOut::Done(cur@), attribute_group_gen(rest[0], pv, c0@), None), rest.drop_first(), pv, c0@));
        match v[i].get_implementation(clone_opt_name(parent), context) {
            Ok(y) => {
                if !crate::merge::merge_ok_exec(&cur, &y) {
                    proof {
                        lemma_merge_attribute_groups_stays(GenOut::Invalid, rest.drop_first(), pv, c0@);
                    }
                    return Err(XsdError::Unknown);
                }
                cur.merge(y, field_settings());
            },
            Err(e) => {
                proof {
                    lemma_merge_attribute_groups_stays(attribute_group_gen(v@[i as int], pv, c0@), rest.drop_first(), pv, c0@);
                }
                return Err(e);
            },
        }
        i += 1;
    }
    proof {
        assert(v@.subrange(i as int, v@.len() as int) =~= Seq::<AttributeGroup>::empty());
    }
    Ok(cur)
}

/// Merges the simple types `v` into `x` one after the other, each as it is
/// generated.
#[verifier::rlimit(40)]
pub(crate) fn merge_simple_types_exec(x: XsdImpl, v: &Vec<SimpleType>, parent: &Option<XsdName>, context: &XsdContext) -> (r: Result<XsdImpl, XsdError>)
    ensures
        gives(r, merge_simple_types(GenOut::Done(x@), v@, opt_name_view(*parent), context@)),
    decreases v, 0int,
{
    proof {
        reveal(merge_simple_types);
    }
    let ghost c0 = *context;
    let ghost pv = opt_name_view(*parent);
    let ghost total = merge_simple_types(GenOut::Done(x@), v@, pv, c0@);
    let mut cur = x;
    proof {
        assert(v@.subrange(0, v@.len() as int) =~= v@);
    }
    let mut i: usize = 0;
    while i < v.len()
        invariant
            i <= v@.len(),
            c0 == *context,
            pv == opt_name_view(*parent),
            total == merge_simple_types(GenOut::Done(x@), v@, pv, c0@),
            total == merge_simple_types(GenOut::Done(cur@), v@.subrange(i as int, v@.len() as int), pv, c0@),
        decreases v@.len() - i,
    {
        proof {
            reveal(merge_simple_types);
        }
        let ghost rest = v@.subrange(i as int, v@.len() as int);
        assert(rest.drop_first() =~= v@.subrange(i + 1, v@.len() as int));
        assert(rest[0] == v@[i as int]);
        assert(decreases_to!(v => v@[i as int]));
        assert(merge_simple_types(GenOut::Done(cur@), rest, pv, c0@) == merge_simple_types(then_merge(GenOut::Done(cur@), simple_type_gen(rest[0], pv, c0@), None), rest.drop_first(), pv, c0@));
        match v[i].get_implementation(clone_opt_name(parent), context) {
            Ok(y) => {
                if !crate::merge::merge_ok_exec(&cur, &y) {
                    proof {
                        lemma_merge_simple_types_stays(GenOut::Invalid, rest.drop_first(), pv, c0@);
                    }
                    return Err(XsdError::Unknown);
                }
                cur.merge(y, field_settings());
            },
            Err(e) => {
                proof {
                    lemma_merge_simple_types_stays(simple_type_gen(v@[i as int], pv, c0@), rest.drop_first(), pv, c0@);
                }
                return Err(e);
            },
        }
        i += 1;
    }
    proof {
        assert(v@.subrange(i as int, v@.len() as int) =~= Seq::<SimpleType>::empty());
    }
    Ok(cur)
}

/// Merges the member types `v` of a union into `x` as fields, one after the
/// other as each is looked up.
pub(crate) fn merge_members_exec(x: XsdImpl, v: &Vec<XsdName>, parent: &XsdName, context: &XsdContext) -> (r: Result<XsdImpl, XsdError>)
    ensures
        gives(r, merge_members(GenOut::Done(x@), v@, parent@, context@)),
{
    proof {
        reveal(merge_members);
    }
    let ghost total = merge_members(GenOut::Done(x@), v@, parent@, context@);
    let mut cur = x;
    proof {
        assert(v@.subrange(0, v@.len() as int) =~= v@);
    }
    let mut i: usize = 0;
    while i < v.len()
        invariant
            i <= v@.len(),
            total == merge_members(GenOut::Done(x@), v@, parent@, context@),
            total == merge_members(GenOut::Done(cur@), v@.subrange(i as int, v@.len() as int), parent@, context@),
        decreases v@.len() - i,
    {
        proof {
            reveal(merge_members);
        }
        let ghost rest = v@.subrange(i as int, v@.len() as int);
        assert(rest.drop_first() =~= v@.subrange(i + 1, v@.len() as int));
        assert(rest[0] == v@[i as int]);
        assert(merge_members(GenOut::Done(cur@), rest, parent@, context@) == merge_members(
            then_merge(
                GenOut::Done(cur@),
                match find(context@, rest[0]@) {
                    Some(y) => GenOut::Done(crate::merge::to_field_view(y)),
                    None => GenOut::NotFound(parent@),
                },
                None,
            ),
            rest.drop_first(),
            parent@,
            context@,
        ));
        match context.search(&v[i]) {
            Some(imp) => {
                let y = imp.to_field();
                if !crate::merge::merge_ok_exec(&cur, &y) {
                    proof {
                        lemma_merge_members_stays(GenOut::Invalid, rest.drop_first(), parent@, context@);
                    }
                    return Err(XsdError::Unknown);
                }
                cur.merge(y, field_settings());
            },
            None => {
                proof {
                    assert(find(context@, rest[0]@) is None);
                    assert(then_merge(GenOut::Done(cur@), GenOut::NotFound(parent@), None) == GenOut::NotFound(parent@));
                    lemma_merge_members_stays(GenOut::NotFound(parent@), rest.drop_first(), parent@, context@);
                    assert(total == GenOut::NotFound(parent@));
                }
                return Err(XsdError::XsdImplNotFound(parent.clone()));
            },
        }
        i += 1;
    }
    proof {
        assert(v@.subrange(i as int, v@.len() as int) =~= Seq::<XsdName>::empty());
    }
    Ok(cur)
}



/// A generation error of a node.
pub(crate) fn gen_failure(node: String, ty: XsdType, msg: String) -> (r: XsdError)
    ensures
        error_is(r, GenOut::GenFailure(node@, ty, msg@)),
{
    XsdError::XsdIoError(XsdIoError::XsdGenError(XsdGenError { node_name: node, ty, msg }))
}

/// Whether a piece suggests a type name (a struct without fields does not).
pub(crate) fn has_type_name_exec(x: &XsdImpl) -> (r: bool)
    ensures
        r == has_type_name(x@),
{
    match &x.element {
        XsdElement::Struct(st) => match &st.fields {
            crate::code_model::Fields::Empty => false,
            _ => true,
        },
        _ => true,
    }
}

/// The piece with its reader, where one can be generated.
pub(crate) fn checked_xsdgen(x: XsdImpl) -> (r: Result<XsdImpl, XsdError>)
    ensures
        gives(r, gen_checked(x@)),
{
    if crate::xsdgen::xsdgen_ok_exec(&x) {
        Ok(general_xsdgen(x))
    } else {
        Err(XsdError::Unknown)
    }
}

} // verus!
