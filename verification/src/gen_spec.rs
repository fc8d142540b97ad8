//! What generating code from each schema component gives: a piece of code,
//! an error, or no result where reading the component would fail.
use vstd::prelude::*;

use crate::code_model::{
    BlockView, BodyView, EnumView, FieldsView, StructView, TupleFieldView, TypeDefView, TypeView,
    VariantView,
};
use crate::code_tree::{new_enum_view, new_struct_view};
use crate::components::{
    AttributeGroup, Attribute, Choice, ChoiceOptions, ComplexContent, ComplexType, Element, Extension,
    Group, List, MaxOccurences, Required, Restriction, RestrictionParentType, Sequence, SimpleContent,
    SimpleType, Union, element_could_be_none, element_is_multiple,
};
use crate::context::{element_type, element_with_doc, type_text, XsdElementView, XsdImplView};
use crate::merge::{element_type_name, hints_name, merge_ok, merge_view, pub_field, qualify, to_field_view};
use crate::names::{field_name_spec, name_display, struct_name_spec, XsdNameView, XsdType};
use crate::registry::{found_under, lookup, resolved_key, XsdContextView};
use crate::text::{join_spec, strs_view};
use crate::xsdgen::{
    blk, from_xml_fn_view, gen_fn_view, trait_impl_view, with_after, with_block, with_line,
    with_xsdgen, xsdgen_ok,
};

verus! {

/// What generating code for a component gives.
pub enum GenOut {
    /// The generated piece of code.
    Done(XsdImplView),
    /// A component that the generation needs is not in the context.
    NotFound(XsdNameView),
    /// A generation error of a node.
    GenFailure(Seq<char>, XsdType, Seq<char>),
    /// A search that found more than one component.
    SearchFailure(XsdNameView, Seq<char>),
    /// The component is not one that the generation accepts.
    Invalid,
}

/// The documentation lines of an optional annotation, joined with `sep`.
pub open spec fn doc_text(a: Option<crate::components::Annotation>, sep: Seq<char>) -> Option<Seq<char>> {
    match a {
        Some(d) => Some(join_spec(strs_view(d.documentation@), sep)),
        None => None,
    }
}

/// The piece with documentation added where there is some.
pub open spec fn documented(x: XsdImplView, doc: Option<Seq<char>>) -> XsdImplView {
    match doc {
        Some(d) => XsdImplView { element: element_with_doc(x.element, d), ..x },
        None => x,
    }
}

/// The piece under another kind of name.
pub open spec fn with_kind(x: XsdImplView, ty: XsdType) -> XsdImplView {
    XsdImplView { name: XsdNameView { ty, ..x.name }, ..x }
}

/// The result with its piece under another kind of name.
pub open spec fn kind_out(g: GenOut, ty: XsdType) -> GenOut {
    match g {
        GenOut::Done(x) => GenOut::Done(with_kind(x, ty)),
        other => other,
    }
}

/// The piece with its `XsdGen` impl, where one can be made.
pub open spec fn gen_checked(x: XsdImplView) -> GenOut {
    if xsdgen_ok(x) {
        GenOut::Done(with_xsdgen(x))
    } else {
        GenOut::Invalid
    }
}

/// The result with `y` merged into its piece.
pub open spec fn merged(acc: GenOut, y: XsdImplView, prefix: Option<Seq<char>>) -> GenOut {
    match acc {
        GenOut::Done(x) => if merge_ok(x, y) {
            GenOut::Done(merge_view(x, y, prefix))
        } else {
            GenOut::Invalid
        },
        other => other,
    }
}

/// The result with the result `item` merged into its piece; an error of
/// `item` is the result.
pub open spec fn then_merge(acc: GenOut, item: GenOut, prefix: Option<Seq<char>>) -> GenOut {
    match acc {
        GenOut::Done(_) => match item {
            GenOut::Done(y) => merged(acc, y, prefix),
            other => other,
        },
        other => other,
    }
}

/// The derives that generated types get.
pub open spec fn std_derives() -> Seq<Seq<char>> {
    seq!["Clone"@, "Debug"@, "PartialEq"@]
}

pub open spec fn with_derives(t: TypeDefView, d: Seq<Seq<char>>) -> TypeDefView {
    TypeDefView { derive: t.derive + d, ..t }
}

/// A piece with no nested pieces and no `impl` blocks.
pub open spec fn piece(name: XsdNameView, hint: Option<Seq<char>>, element: XsdElementView, flatten: bool) -> XsdImplView {
    XsdImplView { name, fieldname_hint: hint, element, inner: seq![], implementation: seq![], flatten }
}

/// A public struct with the usual derives.
pub open spec fn derived_struct(xml: Option<XsdNameView>, name: Seq<char>) -> StructView {
    let s = new_struct_view(xml, name);
    StructView { type_def: with_derives(s.type_def, std_derives()), ..s }
}

/// A public enum with the usual derives.
pub open spec fn derived_enum(xml: Option<XsdNameView>, name: Seq<char>) -> EnumView {
    let e = new_enum_view(xml, name);
    EnumView { type_def: with_derives(e.type_def, std_derives()), ..e }
}

/// The type `ty<t>`.
pub open spec fn wrapped(t: TypeView, ty: Seq<char>) -> TypeView {
    TypeView { name: ty, generics: seq![t], ..t }
}

/// A piece that occurs several times or may be absent: a type `Vec<..>`
/// or `Option<..>` of it, with the piece nested under `inner-` and its name.
pub open spec fn occurrence_wrapper(x: XsdImplView, ty: Seq<char>, flatten: bool) -> XsdImplView {
    XsdImplView {
        name: x.name,
        fieldname_hint: x.fieldname_hint,
        element: XsdElementView::Type(wrapped(element_type(x.element), ty)),
        inner: seq![XsdImplView { name: XsdNameView { local_name: "inner-"@ + x.name.local_name, ..x.name }, ..x }],
        implementation: seq![],
        flatten,
    }
}

pub open spec fn many(max: MaxOccurences, min: u64) -> bool {
    (match max {
        MaxOccurences::Unbounded => true,
        MaxOccurences::Number { value } => value > 1,
    }) || min > 1
}

pub open spec fn maybe(max: MaxOccurences, min: u64) -> bool {
    match max {
        MaxOccurences::Unbounded => false,
        MaxOccurences::Number { value } => value == 1 && min == 0,
    }
}

/// The piece in the context under `n`.
pub open spec fn find(c: XsdContextView, n: XsdNameView) -> Option<XsdImplView> {
    lookup(c.structs, resolved_key(c, n))
}

/// The name that a piece suggests, where it has one: a struct without
/// fields has none.
pub open spec fn has_type_name(x: XsdImplView) -> bool {
    !(x.element matches XsdElementView::Struct(s) && s.fields is Empty)
}

// ----- results of lists of components -----

/// The result of a list whose first piece is `item` and whose other pieces
/// are `rest`: the pieces, or the first result that is not one.
pub open spec fn prepend_out(item: GenOut, rest: Result<Seq<XsdImplView>, GenOut>) -> Result<Seq<XsdImplView>, GenOut> {
    match item {
        GenOut::Done(x) => match rest {
            Ok(v) => Ok(seq![x] + v),
            Err(e) => Err(e),
        },
        other => Err(other),
    }
}

/// The pieces `a` followed by the result `rest`.
pub open spec fn glue_out(a: Seq<XsdImplView>, rest: Result<Seq<XsdImplView>, GenOut>) -> Result<Seq<XsdImplView>, GenOut> {
    match rest {
        Ok(v) => Ok(a + v),
        Err(e) => Err(e),
    }
}

/// The result of merging pieces one after the other.
pub open spec fn merge_list(acc: GenOut, v: Seq<XsdImplView>, prefix: Option<Seq<char>>) -> GenOut
    decreases v.len(),
{
    if v.len() == 0 {
        acc
    } else {
        merge_list(merged(acc, v[0], prefix), v.drop_first(), prefix)
    }
}

pub open spec fn concat_out(a: Result<Seq<XsdImplView>, GenOut>, b: Result<Seq<XsdImplView>, GenOut>) -> Result<Seq<XsdImplView>, GenOut> {
    match a {
        Ok(x) => match b {
            Ok(y) => Ok(x + y),
            Err(e) => Err(e),
        },
        Err(e) => Err(e),
    }
}

/// The pieces of a list of attributes.
#[verifier::opaque]
pub open spec fn attributes_out(v: Seq<Attribute>, c: XsdContextView, pis: bool) -> Result<Seq<XsdImplView>, GenOut>
    decreases v, 0int,
{
    if v.len() == 0 {
        Ok(seq![])
    } else {
        prepend_out(attribute_gen(v[0], c, pis), attributes_out(v.drop_first(), c, pis))
    }
}

/// The pieces of a list of attribute groups.
#[verifier::opaque]
pub open spec fn attribute_groups_out(
    v: Seq<AttributeGroup>,
    parent: Option<XsdNameView>,
    c: XsdContextView,
) -> Result<Seq<XsdImplView>, GenOut>
    decreases v, 0int,
{
    if v.len() == 0 {
        Ok(seq![])
    } else {
        prepend_out(attribute_group_gen(v[0], parent, c), attribute_groups_out(v.drop_first(), parent, c))
    }
}

#[verifier::opaque]
pub open spec fn elements_out(v: Seq<Element>, c: XsdContextView) -> Result<Seq<XsdImplView>, GenOut>
    decreases v, 0int,
{
    if v.len() == 0 {
        Ok(seq![])
    } else {
        prepend_out(element_gen(v[0], c), elements_out(v.drop_first(), c))
    }
}

#[verifier::opaque]
pub open spec fn sequences_out(v: Seq<Sequence>, c: XsdContextView) -> Result<Seq<XsdImplView>, GenOut>
    decreases v, 0int,
{
    if v.len() == 0 {
        Ok(seq![])
    } else {
        prepend_out(sequence_gen(v[0], None, c), sequences_out(v.drop_first(), c))
    }
}

#[verifier::opaque]
pub open spec fn groups_out(v: Seq<Group>, c: XsdContextView) -> Result<Seq<XsdImplView>, GenOut>
    decreases v, 0int,
{
    if v.len() == 0 {
        Ok(seq![])
    } else {
        prepend_out(group_gen(v[0], None, c), groups_out(v.drop_first(), c))
    }
}

#[verifier::opaque]
pub open spec fn choices_out(v: Seq<Choice>, c: XsdContextView) -> Result<Seq<XsdImplView>, GenOut>
    decreases v, 0int,
{
    if v.len() == 0 {
        Ok(seq![])
    } else {
        prepend_out(choice_gen(v[0], None, c), choices_out(v.drop_first(), c))
    }
}

/// The result of one particle of a choice.
pub open spec fn option_gen(o: ChoiceOptions, c: XsdContextView) -> GenOut
    decreases o, 1int,
{
    match o {
        ChoiceOptions::Element(e) => element_gen(e, c),
        ChoiceOptions::Group(g) => group_gen(g, None, c),
        ChoiceOptions::Choice(ch) => choice_gen(ch, None, c),
        ChoiceOptions::Sequence(s) => sequence_gen(s, None, c),
    }
}

#[verifier::opaque]
pub open spec fn options_out(v: Seq<ChoiceOptions>, c: XsdContextView) -> Result<Seq<XsdImplView>, GenOut>
    decreases v, 0int,
{
    if v.len() == 0 {
        Ok(seq![])
    } else {
        prepend_out(option_gen(v[0], c), options_out(v.drop_first(), c))
    }
}

/// Attributes merged one after the other as each is generated.
#[verifier::opaque]
pub open spec fn merge_attributes(acc: GenOut, v: Seq<Attribute>, c: XsdContextView, prefix: Option<Seq<char>>) -> GenOut
    decreases v, 0int,
{
    if v.len() == 0 {
        acc
    } else {
        merge_attributes(then_merge(acc, attribute_gen(v[0], c, false), prefix), v.drop_first(), c, prefix)
    }
}

/// Attribute groups merged one after the other as each is generated.
#[verifier::opaque]
pub open spec fn merge_attribute_groups(
    acc: GenOut,
    v: Seq<AttributeGroup>,
    parent: Option<XsdNameView>,
    c: XsdContextView,
) -> GenOut
    decreases v, 0int,
{
    if v.len() == 0 {
        acc
    } else {
        merge_attribute_groups(then_merge(acc, attribute_group_gen(v[0], parent, c), None), v.drop_first(), parent, c)
    }
}

/// Simple types merged one after the other as each is generated.
#[verifier::opaque]
pub open spec fn merge_simple_types(acc: GenOut, v: Seq<SimpleType>, parent: Option<XsdNameView>, c: XsdContextView) -> GenOut
    decreases v, 0int,
{
    if v.len() == 0 {
        acc
    } else {
        merge_simple_types(then_merge(acc, simple_type_gen(v[0], parent, c), None), v.drop_first(), parent, c)
    }
}

/// The prefix that merged attributes take where their name is taken.
pub open spec fn attr_prefix() -> Option<Seq<char>> {
    Some("attr_"@)
}

// ----- the components -----

/// The name an attribute's piece gets: its own, or else the name of what
/// it stands for under the given namespace.
pub open spec fn attribute_name(a: Attribute, ns: Option<Seq<char>>, local: Seq<char>) -> XsdNameView {
    match a.name {
        Some(n) => n@,
        None => XsdNameView { namespace: ns, local_name: local, ty: XsdType::Attribute },
    }
}

#[verifier::opaque]
pub open spec fn attribute_base(a: Attribute, c: XsdContextView, pis: bool) -> GenOut
    decreases a, 0int,
{
    match (a.reference, a.type_ref, a.simple_type) {
        (Some(reference), None, None) => match find(c, reference@) {
            Some(inner) => if a.name is Some || has_type_name(inner) {
                let name = attribute_name(a, reference@.namespace, element_type_name(inner.element));
                GenOut::Done(
                    XsdImplView {
                        flatten: a.name is None,
                        ..piece(
                            name,
                            Some(field_name_spec(name.local_name)),
                            XsdElementView::Type(element_type(inner.element)),
                            false,
                        )
                    },
                )
            } else {
                GenOut::Invalid
            },
            None => GenOut::NotFound(reference@),
        },
        (None, Some(t), None) => match find(c, t@) {
            Some(inner) => {
                let name = attribute_name(a, c.xml_schema_prefix, inner.name.local_name);
                let ty = element_type(inner.element);
                let element = if pis {
                    XsdElementView::TypeAlias(
                        TypeView { name: struct_name_spec(name.local_name), generics: seq![], xml_name: Some(name), docs: None },
                        ty,
                    )
                } else {
                    XsdElementView::Type(TypeView { xml_name: Some(name), ..ty })
                };
                GenOut::Done(piece(name, Some(field_name_spec(name.local_name)), element, false))
            },
            None => GenOut::NotFound(t@),
        },
        (None, None, Some(st)) => match simple_type_gen(
            st,
            match a.name {
                Some(n) => Some(n@),
                None => None,
            },
            c,
        ) {
            GenOut::Done(inner) => {
                let name = attribute_name(a, c.xml_schema_prefix, inner.name.local_name);
                let ty = element_type(inner.element);
                if crate::code_build::has_path_sep(ty.name) {
                    GenOut::Invalid
                } else {
                    let q = qualify(ty, field_name_spec(name.local_name));
                    let element = if pis {
                        XsdElementView::TypeAlias(
                            TypeView { name: struct_name_spec(name.local_name), generics: seq![], xml_name: Some(name), docs: None },
                            q,
                        )
                    } else {
                        XsdElementView::Type(TypeView { xml_name: Some(name), ..q })
                    };
                    GenOut::Done(
                        XsdImplView {
                            inner: seq![inner],
                            ..piece(name, Some(field_name_spec(name.local_name)), element, false)
                        },
                    )
                }
            },
            other => other,
        },
        _ => GenOut::Invalid,
    }
}

/// The piece of an attribute: a type (or a type alias at the top of a
/// schema) for what it refers to, documented, with its reader; an optional
/// attribute inside a type becomes an `Option` of it.
#[verifier::opaque]
pub open spec fn attribute_gen(a: Attribute, c: XsdContextView, pis: bool) -> GenOut
    decreases a, 1int,
{
    match attribute_base(a, c, pis) {
        GenOut::Done(x0) => {
            let x1 = documented(x0, doc_text(a.annotation, ""@));
            match gen_checked(x1) {
                GenOut::Done(x2) => if !pis && a.required == Required::Optional {
                    GenOut::Done(occurrence_wrapper(x2, "Option"@, false))
                } else {
                    GenOut::Done(x2)
                },
                other => other,
            }
        },
        other => other,
    }
}


/// The piece of a simple type: its restriction, union or list, documented,
/// under its own name or that of its parent.
#[verifier::opaque]
pub open spec fn simple_type_gen(st: SimpleType, parent: Option<XsdNameView>, c: XsdContextView) -> GenOut
    decreases st, 1int,
{
    let name_opt = match st.name {
        Some(n) => Some(n@),
        None => match parent {
            Some(p) => Some(XsdNameView { ty: XsdType::SimpleType, ..p }),
            None => None,
        },
    };
    match name_opt {
        None => GenOut::Invalid,
        Some(name) => {
            let g = match (st.list, st.union, st.restriction) {
                (None, None, Some(r)) => restriction_gen(r, name, RestrictionParentType::SimpleType, c),
                (None, Some(u), None) => union_gen(u, name, c),
                (Some(l), None, None) => list_gen(l, name, c),
                _ => GenOut::Invalid,
            };
            match g {
                GenOut::Done(x) => GenOut::Done(
                    XsdImplView {
                        name: XsdNameView { ty: XsdType::SimpleType, ..name },
                        ..documented(x, doc_text(st.annotation, ""@))
                    },
                ),
                other => other,
            }
        },
    }
}

/// The variant name of an enumeration value.
pub open spec fn enum_value_name(v: Seq<char>) -> Seq<char> {
    if v.len() == 0 {
        "Empty"@
    } else {
        struct_name_spec(v)
    }
}

pub open spec fn unit_variant(name: Seq<char>) -> VariantView {
    VariantView { name, fields: FieldsView::Empty, attributes: seq![], xml_name: None, doc: None }
}

/// The match arm of an enumeration value.
pub open spec fn enum_value_line(v: Seq<char>) -> Seq<char> {
    "\""@ + v + "\" => Self::"@ + enum_value_name(v) + ","@
}

pub open spec fn enum_value_line_fn() -> spec_fn(Seq<char>) -> BodyView {
    |v: Seq<char>| BodyView::Line(enum_value_line(v))
}

pub open spec fn unit_variant_fn() -> spec_fn(Seq<char>) -> VariantView {
    |v: Seq<char>| unit_variant(enum_value_name(v))
}

/// The block that reads an enumeration from the element's text.
pub open spec fn enumeration_block(values: Seq<Seq<char>>) -> BlockView {
    let parse_match = with_after(
        with_block(
            BlockView {
                before: Some("let output = match element.get_content::<String>()?.as_str()"@),
                after: None,
                body: values.map_values(enum_value_line_fn()),
            },
            with_block(
                blk("value => "@),
                with_after(
                    with_line(
                        with_line(
                            with_line(blk("return Err(XsdGenError"@), "node_name: element.name().to_string(),"@),
                            "msg: format!(\"Invalid xml node found unexpected content {value}.\"),"@,
                        ),
                        "ty: XsdType::Restriction,"@,
                    ),
                    ")?"@,
                ),
            ),
        ),
        ";"@,
    );
    with_line(with_block(BlockView { before: None, after: None, body: seq![] }, parse_match), "Ok(output)"@)
}

/// The enum of the enumeration values of a restriction, with its reader.
#[verifier::opaque]
pub open spec fn enumeration_piece(values: Seq<Seq<char>>, parent: XsdNameView) -> XsdImplView {
    let e0 = new_enum_view(None, struct_name_spec(parent.local_name));
    let e = EnumView {
        type_def: with_derives(e0.type_def, std_derives()),
        variants: values.map_values(unit_variant_fn()),
    };
    XsdImplView {
        implementation: seq![trait_impl_view(e.type_def.ty, "XsdGen"@, gen_fn_view(enumeration_block(values)))],
        ..piece(parent, Some(field_name_spec(parent.local_name)), XsdElementView::Enum(e), false)
    }
}

/// The piece of a restriction of a simple base: an enum of its
/// enumeration values, or else a struct around the base type; attributes
/// and attribute groups are merged in where allowed.
#[verifier::opaque]
pub open spec fn restriction_simple(r: Restriction, parent: XsdNameView, c: XsdContextView, allow: bool) -> GenOut
    decreases r, 0int,
{
    match find(c, r.base@) {
        None => GenOut::NotFound(r.base@),
        Some(base) => {
            let values = strs_view(r.enumerations@);
            let x0 = if values.len() > 0 {
                enumeration_piece(values, parent)
            } else {
                let s0 = new_struct_view(Some(parent), struct_name_spec(parent.local_name));
                let s = StructView {
                    type_def: with_derives(s0.type_def, std_derives()),
                    fields: FieldsView::Tuple(
                        seq![TupleFieldView { vis: None, ty: element_type(base.element), attribute: false, flatten: false }],
                    ),
                };
                piece(parent, Some(field_name_spec(parent.local_name)), XsdElementView::Struct(s), false)
            };
            let x1 = if allow {
                merge_attribute_groups(
                    merge_attributes(GenOut::Done(x0), r.attributes@, c, attr_prefix()),
                    r.attribute_groups@,
                    Some(parent),
                    c,
                )
            } else {
                GenOut::Done(x0)
            };
            if values.len() == 0 {
                match x1 {
                    GenOut::Done(x) => gen_checked(x),
                    other => other,
                }
            } else {
                x1
            }
        },
    }
}

/// The piece of a restriction of a complex base: the base under the
/// parent's name with the restriction's group, choice or sequence merged
/// in, with its reader.
#[verifier::opaque]
pub open spec fn restriction_complex(r: Restriction, parent: XsdNameView, c: XsdContextView) -> GenOut
    decreases r, 0int,
{
    match find(c, r.base@) {
        None => GenOut::NotFound(r.base@),
        Some(base) => {
            let b = XsdImplView { name: parent, ..base };
            let sub = match (r.group, r.choice, r.sequence) {
                (Some(g), None, None) => group_gen(g, Some(parent), c),
                (None, Some(ch), None) => choice_gen(ch, Some(parent), c),
                (None, None, Some(sq)) => sequence_gen(sq, Some(parent), c),
                _ => GenOut::Invalid,
            };
            match then_merge(GenOut::Done(b), sub, None) {
                GenOut::Done(x) => gen_checked(x),
                other => other,
            }
        },
    }
}

/// The piece of a restriction, as a restriction.
#[verifier::opaque]
pub open spec fn restriction_gen(r: Restriction, parent: XsdNameView, pt: RestrictionParentType, c: XsdContextView) -> GenOut
    decreases r, 1int,
{
    kind_out(
        match pt {
            RestrictionParentType::SimpleType => restriction_simple(r, parent, c, false),
            RestrictionParentType::ComplexContent => restriction_simple(r, parent, c, true),
            RestrictionParentType::SimpleContent => restriction_complex(r, parent, c),
        },
        XsdType::Restriction,
    )
}

/// The piece of a list: a struct around a vector of the item type, read
/// from the element's text.
#[verifier::opaque]
pub open spec fn list_gen(l: List, name: XsdNameView, c: XsdContextView) -> GenOut
    decreases l, 0int,
{
    match find(c, l.item_type@) {
        None => GenOut::NotFound(l.item_type@),
        Some(item) => {
            let sname = struct_name_spec(name.local_name);
            let s0 = new_struct_view(Some(name), sname);
            let s = StructView {
                type_def: with_derives(s0.type_def, seq!["Clone"@, "Debug"@, "Default"@, "PartialEq"@]),
                fields: FieldsView::Tuple(
                    seq![
                        TupleFieldView {
                            vis: None,
                            ty: TypeView {
                                name: "Vec<"@ + type_text(element_type(item.element)) + ">"@,
                                generics: seq![],
                                xml_name: None,
                                docs: None,
                            },
                            attribute: false,
                            flatten: false,
                        },
                    ],
                ),
            };
            let block = with_line(
                with_line(
                    blk(""@),
                    "let output = element.get_content()?.split(' ').map(|item| item.from_xml(item)).collect();"@,
                ),
                "Ok("@ + sname + "(output))"@,
            );
            GenOut::Done(
                XsdImplView {
                    implementation: seq![trait_impl_view(s.type_def.ty, "FromXmlString"@, from_xml_fn_view(block))],
                    ..piece(
                        XsdNameView { ty: XsdType::List, ..name },
                        Some(field_name_spec(name.local_name)),
                        XsdElementView::Struct(s),
                        false,
                    )
                },
            )
        },
    }
}

/// The member types of a union merged one after the other as each is
/// looked up, as fields; a member that is not in the context fails with the
/// union's name.
#[verifier::opaque]
pub open spec fn merge_members(acc: GenOut, v: Seq<crate::names::XsdName>, parent: XsdNameView, c: XsdContextView) -> GenOut
    decreases v.len(),
{
    if v.len() == 0 {
        acc
    } else {
        let item = match find(c, v[0]@) {
            Some(x) => GenOut::Done(to_field_view(x)),
            None => GenOut::NotFound(parent),
        };
        merge_members(then_merge(acc, item, None), v.drop_first(), parent, c)
    }
}

/// The piece of a union: an enum with a variant for each member, with its
/// reader.
#[verifier::opaque]
pub open spec fn union_gen(u: Union, parent: XsdNameView, c: XsdContextView) -> GenOut
    decreases u, 0int,
{
    let xml = XsdNameView { ty: XsdType::Union, ..parent };
    let x0 = piece(
        xml,
        Some(field_name_spec(xml.local_name)),
        XsdElementView::Enum(derived_enum(Some(xml), struct_name_spec(xml.local_name))),
        false,
    );
    let x1 = merge_members(GenOut::Done(x0), u.member_types@, parent, c);
    match merge_simple_types(x1, u.simple_types@, Some(parent), c) {
        GenOut::Done(x) => gen_checked(x),
        other => other,
    }
}

/// The piece of an attribute group before its reader: a field of the
/// group referred to, or a struct of its attributes and groups.
#[verifier::opaque]
pub open spec fn create_type(g: AttributeGroup, parent: Option<XsdNameView>, c: XsdContextView) -> GenOut
    decreases g, 0int,
{
    match (g.name, g.reference) {
        (None, Some(refers)) => match find(c, refers@) {
            None => GenOut::NotFound(refers@),
            Some(inner) => {
                let field_name = match parent {
                    Some(p) => field_name_spec(p.local_name),
                    None => match inner.fieldname_hint {
                        Some(h) => h,
                        None => field_name_spec(refers@.local_name),
                    },
                };
                if parent is None && !has_type_name(inner) {
                    GenOut::Invalid
                } else {
                    let name = match parent {
                        Some(p) => p,
                        None => XsdNameView {
                            namespace: None,
                            local_name: element_type_name(inner.element),
                            ty: XsdType::AttributeGroup,
                        },
                    };
                    GenOut::Done(
                        piece(
                            name,
                            Some(field_name),
                            XsdElementView::Field(pub_field(None, field_name, element_type(inner.element), true, false)),
                            false,
                        ),
                    )
                }
            },
        },
        (gname, None) => {
            let xml_opt = match gname {
                Some(n) => Some(n@),
                None => parent,
            };
            match xml_opt {
                None => GenOut::Invalid,
                Some(xml) => {
                    let x0 = piece(
                        xml,
                        Some(field_name_spec(xml.local_name)),
                        XsdElementView::Struct(derived_struct(Some(xml), struct_name_spec(xml.local_name))),
                        false,
                    );
                    let x1 = merge_attribute_groups(
                        merge_attributes(GenOut::Done(x0), g.attributes@, c, attr_prefix()),
                        g.attribute_groups@,
                        parent,
                        c,
                    );
                    match x1 {
                        GenOut::Done(x) => GenOut::Done(documented(x, doc_text(g.annotation, ""@))),
                        other => other,
                    }
                },
            }
        },
        _ => GenOut::Invalid,
    }
}

/// The piece of an attribute group, with its reader.
#[verifier::opaque]
pub open spec fn attribute_group_gen(g: AttributeGroup, parent: Option<XsdNameView>, c: XsdContextView) -> GenOut
    decreases g, 1int,
{
    match create_type(g, parent, c) {
        GenOut::Done(x) => kind_out(gen_checked(x), XsdType::AttributeGroup),
        other => other,
    }
}

/// The piece of a group: its sequence or choice under its name, or a field
/// of the group it refers to.
#[verifier::opaque]
pub open spec fn group_gen(g: Group, parent: Option<XsdNameView>, c: XsdContextView) -> GenOut
    decreases g, 0int,
{
    kind_out(
        match (g.name, g.refers) {
            (Some(n), None) => match (g.choice, g.sequence) {
                (None, Some(sq)) => sequence_gen(sq, Some(n@), c),
                (Some(ch), None) => choice_gen(ch, Some(n@), c),
                _ => GenOut::Invalid,
            },
            (None, Some(refers)) => match find(c, refers@) {
                None => GenOut::NotFound(refers@),
                Some(inner) => if parent is None && !has_type_name(inner) {
                    GenOut::Invalid
                } else {
                    let field_name = match parent {
                        Some(p) => field_name_spec(p.local_name),
                        None => match inner.fieldname_hint {
                            Some(h) => h,
                            None => field_name_spec(element_type_name(inner.element)),
                        },
                    };
                    let name = match parent {
                        Some(p) => XsdNameView { ty: XsdType::Group, ..p },
                        None => XsdNameView {
                            namespace: None,
                            local_name: element_type_name(inner.element),
                            ty: XsdType::Group,
                        },
                    };
                    GenOut::Done(
                        piece(
                            name,
                            Some(field_name),
                            XsdElementView::Field(
                                pub_field(Some(inner.name), field_name, element_type(inner.element), false, false),
                            ),
                            false,
                        ),
                    )
                },
            },
            _ => GenOut::Invalid,
        },
        XsdType::Group,
    )
}

/// The piece of a sequence: a struct merging the pieces of its elements,
/// sequences, groups and choices, with its reader; one that occurs several
/// times or may be absent becomes a `Vec` or `Option` of it.
#[verifier::opaque]
pub open spec fn sequence_gen(sq: Sequence, parent: Option<XsdNameView>, c: XsdContextView) -> GenOut
    decreases sq, 0int,
{
    let impls = concat_out(
        concat_out(
            concat_out(elements_out(sq.elements@, c), sequences_out(sq.sequences@, c)),
            groups_out(sq.groups@, c),
        ),
        choices_out(sq.choices@, c),
    );
    match impls {
        Err(e) => e,
        Ok(v) => {
            let xml0 = match parent {
                Some(p) => p,
                None => XsdNameView { namespace: None, local_name: hints_name(v), ty: XsdType::Sequence },
            };
            let xml = XsdNameView { ty: XsdType::Sequence, ..xml0 };
            let x0 = piece(
                xml,
                Some(field_name_spec(xml.local_name)),
                XsdElementView::Struct(derived_struct(Some(xml), struct_name_spec(xml.local_name))),
                parent is None,
            );
            match merge_list(GenOut::Done(x0), v, None) {
                GenOut::Done(x1) => match gen_checked(x1) {
                    GenOut::Done(x2) => GenOut::Done(
                        with_kind(
                            if many(sq.max_occurences, sq.min_occurences) {
                                occurrence_wrapper(x2, "Vec"@, x2.flatten)
                            } else if maybe(sq.max_occurences, sq.min_occurences) {
                                occurrence_wrapper(x2, "Option"@, x2.flatten)
                            } else {
                                x2
                            },
                            XsdType::Sequence,
                        ),
                    ),
                    other => other,
                },
                other => other,
            }
        },
    }
}

/// The piece of a choice: an enum merging the pieces of its particles,
/// with its reader; one that occurs several times or may be absent becomes
/// a `Vec` or `Option` of it.
#[verifier::opaque]
pub open spec fn choice_gen(ch: Choice, parent: Option<XsdNameView>, c: XsdContextView) -> GenOut
    decreases ch, 0int,
{
    match options_out(ch.children@, c) {
        Err(e) => e,
        Ok(v) => {
            let xml = match parent {
                Some(p) => p,
                None => XsdNameView { namespace: None, local_name: hints_name(v), ty: XsdType::Choice },
            };
            let x0 = piece(
                xml,
                Some(field_name_spec(xml.local_name)),
                XsdElementView::Enum(derived_enum(Some(xml), struct_name_spec(xml.local_name))),
                parent is None,
            );
            match merge_list(GenOut::Done(x0), v, None) {
                GenOut::Done(x1) => match gen_checked(x1) {
                    GenOut::Done(x2) => GenOut::Done(
                        with_kind(
                            if many(ch.max_occurences, ch.min_occurences) {
                                occurrence_wrapper(x2, "Vec"@, parent is None)
                            } else if maybe(ch.max_occurences, ch.min_occurences) {
                                occurrence_wrapper(x2, "Option"@, parent is None)
                            } else {
                                x2
                            },
                            XsdType::Choice,
                        ),
                    ),
                    other => other,
                },
                other => other,
            }
        },
    }
}

/// The piece of an element: its complex or simple type, or the type it
/// names, documented; an element that occurs several times or may be
/// absent becomes a `Vec` or `Option` of it.
#[verifier::opaque]
pub open spec fn element_gen(e: Element, c: XsdContextView) -> GenOut
    decreases e, 0int,
{
    match e.name {
        None => GenOut::Invalid,
        Some(n) => {
            let xml = n@;
            let g = match (e.simple_type, e.complex_type, e.kind) {
                (None, Some(ct), None) => complex_type_gen(ct, false, Some(xml), c),
                (Some(st), None, None) => simple_type_gen(st, Some(xml), c),
                (None, None, Some(kind)) => {
                    let found = found_under(
                        c,
                        kind@.namespace,
                        kind@.local_name,
                        seq![XsdType::SimpleType, XsdType::ComplexType],
                    );
                    if found.len() == 1 {
                        GenOut::Done(
                            piece(
                                xml,
                                Some(field_name_spec(xml.local_name)),
                                XsdElementView::Type(TypeView { xml_name: Some(xml), ..element_type(found[0].element) }),
                                false,
                            ),
                        )
                    } else if found.len() >= 2 {
                        GenOut::GenFailure(
                            name_display(xml),
                            XsdType::Element,
                            "Found both a simple and complex type named "@ + name_display(kind@),
                        )
                    } else {
                        GenOut::NotFound(xml)
                    }
                },
                (None, None, None) => GenOut::Done(
                    piece(
                        xml,
                        Some(field_name_spec(xml.local_name)),
                        XsdElementView::Struct(new_struct_view(Some(xml), struct_name_spec(xml.local_name))),
                        false,
                    ),
                ),
                _ => GenOut::GenFailure(
                    name_display(xml),
                    XsdType::Element,
                    "Found both simple and complex type in element."@,
                ),
            };
            if e.simple_type is None && e.complex_type is None && e.kind is None {
                g
            } else {
                match g {
                    GenOut::Done(x0) => {
                        let x1 = documented(x0, doc_text(e.annotation, "\n"@));
                        let x2 = if element_is_multiple(e) || element_could_be_none(e) {
                            let ft = element_type(x1.element);
                            XsdImplView {
                                name: xml,
                                fieldname_hint: Some(field_name_spec(xml.local_name)),
                                element: XsdElementView::Type(
                                    if element_is_multiple(e) {
                                        wrapped(ft, "Vec"@)
                                    } else {
                                        wrapped(ft, "Option"@)
                                    },
                                ),
                                inner: if x1.element is Struct || x1.element is Enum {
                                    seq![x1]
                                } else {
                                    seq![]
                                },
                                implementation: seq![],
                                flatten: false,
                            }
                        } else {
                            x1
                        };
                        GenOut::Done(with_kind(x2, XsdType::Element))
                    },
                    other => other,
                }
            }
        },
    }
}

/// What the content of a complex type gives under the type's name: that of
/// its complex or simple content, group, sequence or choice, or nothing.
#[verifier::opaque]
pub open spec fn complex_type_content(ct: ComplexType, id: XsdNameView, c: XsdContextView) -> Option<GenOut>
    decreases ct, 0int,
{
    match (ct.complex_content, ct.simple_content, ct.group, ct.sequence, ct.choice) {
        (Some(cc), None, None, None, None) => Some(complex_content_gen(cc, id, c)),
        (None, Some(sc), None, None, None) => Some(simple_content_gen(sc, id, c)),
        (None, None, Some(g), None, None) => Some(group_gen(g, Some(id), c)),
        (None, None, None, Some(sq), None) => Some(sequence_gen(sq, Some(id), c)),
        (None, None, None, None, Some(ch)) => Some(choice_gen(ch, Some(id), c)),
        (None, None, None, None, None) => None,
        _ => Some(GenOut::Invalid),
    }
}

/// The piece of a complex type: a struct merging its content and then its
/// attributes and attribute groups, documented, with its reader.
#[verifier::opaque]
pub open spec fn complex_type_gen(ct: ComplexType, pis: bool, parent: Option<XsdNameView>, c: XsdContextView) -> GenOut
    decreases ct, 1int,
{
    let struct_id = match ct.name {
        Some(v) => Some(XsdNameView { ty: XsdType::ComplexType, ..v@ }),
        None => parent,
    };
    match struct_id {
        None => GenOut::Invalid,
        Some(id) => {
            let x0 = piece(
                id,
                None,
                XsdElementView::Struct(derived_struct(struct_id, struct_name_spec(id.local_name))),
                false,
            );
            let inner = complex_type_content(ct, id, c);
            let rest = concat_out(attributes_out(ct.attributes@, c, false), attribute_groups_out(ct.attribute_groups@, None, c));
            match inner {
                Some(GenOut::Done(y)) => match rest {
                    Err(e) => e,
                    Ok(v) => match merge_list(merged(GenOut::Done(x0), y, None), v, attr_prefix()) {
                        GenOut::Done(x) => gen_checked(with_kind(documented(x, doc_text(ct.annotation, ""@)), XsdType::ComplexType)),
                        other => other,
                    },
                },
                Some(other) => other,
                None => match rest {
                    Err(e) => e,
                    Ok(v) => match merge_list(GenOut::Done(x0), v, attr_prefix()) {
                        GenOut::Done(x) => gen_checked(with_kind(documented(x, doc_text(ct.annotation, ""@)), XsdType::ComplexType)),
                        other => other,
                    },
                },
            }
        },
    }
}

/// The piece of a complex content: its restriction or extension.
#[verifier::opaque]
pub open spec fn complex_content_gen(cc: ComplexContent, parent: XsdNameView, c: XsdContextView) -> GenOut
    decreases cc, 0int,
{
    kind_out(
        match (cc.extension, cc.restriction) {
            (None, Some(r)) => restriction_gen(r, parent, RestrictionParentType::ComplexContent, c),
            (Some(x), None) => extension_gen(x, parent, c),
            _ => GenOut::Invalid,
        },
        XsdType::ComplexContent,
    )
}

/// The piece of a simple content: its restriction or extension.
#[verifier::opaque]
pub open spec fn simple_content_gen(sc: SimpleContent, parent: XsdNameView, c: XsdContextView) -> GenOut
    decreases sc, 0int,
{
    kind_out(
        match (sc.restriction, sc.extension) {
            (None, Some(x)) => extension_gen(x, parent, c),
            (Some(r), None) => restriction_gen(r, parent, RestrictionParentType::SimpleContent, c),
            _ => GenOut::Invalid,
        },
        XsdType::SimpleContent,
    )
}

/// What the particle of an extension gives: that of its choice, sequence
/// or group, or nothing.
#[verifier::opaque]
pub open spec fn extension_particle(x: Extension, parent: XsdNameView, c: XsdContextView) -> Option<GenOut>
    decreases x, 0int,
{
    match (x.group, x.sequence, x.choice) {
        (None, None, Some(ch)) => Some(choice_gen(ch, Some(parent), c)),
        (None, Some(sq), None) => Some(sequence_gen(sq, Some(parent), c)),
        (Some(g), None, None) => Some(group_gen(g, Some(parent), c)),
        (None, None, None) => None,
        _ => Some(GenOut::Invalid),
    }
}

/// The piece of an extension: a struct with its base as a field, its
/// group, sequence or choice, its attributes and its attribute groups
/// merged in.
#[verifier::opaque]
pub open spec fn extension_gen(x: Extension, parent: XsdNameView, c: XsdContextView) -> GenOut
    decreases x, 1int,
{
    let found = found_under(c, x.base@.namespace, x.base@.local_name, seq![XsdType::SimpleType, XsdType::ComplexType]);
    if found.len() == 0 {
        GenOut::NotFound(x.base@)
    } else if found.len() >= 2 {
        GenOut::SearchFailure(x.base@, "found both a simple and complex type"@)
    } else {
        let x0 = piece(
            parent,
            Some(field_name_spec(parent.local_name)),
            XsdElementView::Struct(new_struct_view(None, struct_name_spec(parent.local_name))),
            false,
        );
        let x1 = merged(GenOut::Done(x0), to_field_view(found[0]), None);
        let sub = extension_particle(x, parent, c);
        let x2 = match sub {
            Some(s) => then_merge(x1, s, None),
            None => x1,
        };
        kind_out(
            merge_attribute_groups(merge_attributes(x2, x.attributes@, c, attr_prefix()), x.attribute_groups@, None, c),
            XsdType::Extension,
        )
    }
}

} // verus!
