//! Generating the code of attributes, simple types and their parts from the
//! context of the components already generated.
//! components already generated.
use vstd::prelude::*;

use crate::gen_lists::{
    error_is, gives, gives_all, empty_impls, one_impl, make_piece, doc_of, add_docs, wrap_occurrence, std_derive_names, derived_struct_exec, derived_enum_exec, lemma_merge_list_stays, lemma_merge_attributes_stays, lemma_merge_attribute_groups_stays, lemma_merge_simple_types_stays, lemma_merge_members_stays, merge_each, join_impls, many_exec, maybe_exec, field_settings, attributes_impls, attribute_groups_impls, elements_impls, sequences_impls, groups_impls, choices_impls, options_impls, merge_attributes_exec, merge_attribute_groups_exec, merge_simple_types_exec, merge_members_exec, gen_failure, has_type_name_exec, checked_xsdgen,
};

use crate::code_model::{Block, Enum, Struct, Type, Variant};
use crate::components::{
    Annotation, Attribute, AttributeGroup, Choice, ChoiceOptions, ComplexContent, ComplexType, Element,
    Extension, Group, List, MaxOccurences, Required, Restriction, RestrictionParentType, Sequence,
    SimpleContent, SimpleType, Union,
};
use crate::context::{impl_view, impls_seq_view, lemma_impls_seq_view, lemma_impls_seq_view_push, clone_impl, XsdElement, XsdImpl};
use crate::context::XsdImplView;
use crate::gen_spec::{
    attr_prefix, attribute_base, attribute_gen, attribute_group_gen, attribute_groups_out, attributes_out,
    choice_gen, choices_out, complex_content_gen, complex_type_gen, create_type, derived_enum, derived_struct,
    doc_text, documented, element_gen, elements_out, enum_value_line, enum_value_line_fn, enum_value_name,
    enumeration_block, extension_gen, find, gen_checked, glue_out, group_gen, groups_out, has_type_name,
    complex_type_content, enumeration_piece, kind_out, list_gen, many, maybe, merge_attribute_groups, merge_attributes, merge_list, merge_members,
    merge_simple_types, merged, occurrence_wrapper, option_gen, options_out, piece, prepend_out,
    restriction_complex, restriction_gen, restriction_simple, sequence_gen, sequences_out,
    simple_content_gen, simple_type_gen, std_derives, then_merge, union_gen, unit_variant,
    unit_variant_fn, with_kind, GenOut,
};
use crate::names::XsdNameView;
use crate::registry::XsdContextView;
use crate::merge::{merge_ok, prefix_view, MergeSettings, MergeType};
use crate::names::{clone_opt_name, clone_opt_str, opt_name_view, opt_str_view, XsdGenError, XsdIoError, XsdName, XsdType};
use crate::registry::{SearchResult, XsdContext, XsdError};
use crate::text::{chars_of, concat, concat3, join, strs_view};
use crate::code_model::{block_view, bodies_view, BlockView, BodyView, EnumView};
use crate::names::{struct_name_spec, to_struct_name};
use crate::xsdgen::{general_xsdgen, xsdgen_impl};

verus! {
// ----- the components -----

impl Attribute {
    #[verifier::spinoff_prover]
    fn base_implementation(&self, context: &XsdContext, parent_is_schema: bool) -> (r: Result<XsdImpl, XsdError>)
        ensures
            gives(r, attribute_base(*self, context@, parent_is_schema)),
        decreases self, 0int,
    {
        proof {
            reveal(attribute_base);
        }
        match (&self.reference, &self.type_ref, &self.simple_type) {
            (Some(reference), None, None) => match context.search(reference) {
                Some(inner) => {
                    if self.name.is_none() && !has_type_name_exec(inner) {
                        return Err(XsdError::Unknown);
                    }
                    let name = match &self.name {
                        Some(n) => n.clone(),
                        None => XsdName {
                            namespace: clone_opt_str(&reference.namespace),
                            local_name: inner.infer_type_name(),
                            ty: XsdType::Attribute,
                        },
                    };
                    let hint = name.to_field_name();
                    let t = inner.element.get_type();
                    Ok(make_piece(name, Some(hint), XsdElement::Type(t), self.name.is_none()))
                },
                None => Err(XsdError::XsdImplNotFound(reference.clone())),
            },
            (None, Some(t), None) => match context.search(t) {
                Some(inner) => {
                    let name = match &self.name {
                        Some(n) => n.clone(),
                        None => XsdName {
                            namespace: clone_opt_str(&context.xml_schema_prefix),
                            local_name: inner.name.local_name.clone(),
                            ty: XsdType::Attribute,
                        },
                    };
                    let ty = inner.element.get_type();
                    let element = if parent_is_schema {
                        let sname = name.to_struct_name();
                        XsdElement::TypeAlias(Type::new(Some(name.clone()), sname.as_str()), ty)
                    } else {
                        XsdElement::Type(ty.xml_name(Some(name.clone())))
                    };
                    let hint = name.to_field_name();
                    Ok(make_piece(name, Some(hint), element, false))
                },
                None => Err(XsdError::XsdImplNotFound(t.clone())),
            },
            (None, None, Some(st)) => {
                let inner = match st.get_implementation(clone_opt_name(&self.name), context) {
                    Ok(x) => x,
                    Err(e) => {
                        return Err(e);
                    },
                };
                let name = match &self.name {
                    Some(n) => n.clone(),
                    None => XsdName {
                        namespace: clone_opt_str(&context.xml_schema_prefix),
                        local_name: inner.name.local_name.clone(),
                        ty: XsdType::Attribute,
                    },
                };
                let ty = inner.element.get_type();
                let fname = name.to_field_name();
                if crate::code_build::contains_path_sep(ty.name.as_str()) {
                    return Err(XsdError::Unknown);
                }
                let q = ty.path(fname.as_str());
                let element = if parent_is_schema {
                    let sname = name.to_struct_name();
                    XsdElement::TypeAlias(Type::new(Some(name.clone()), sname.as_str()), q)
                } else {
                    XsdElement::Type(q.xml_name(Some(name.clone())))
                };
                let mut x = make_piece(name, Some(fname), element, false);
                x.inner = one_impl(inner);
                Ok(x)
            },
            _ => {
                Err(XsdError::Unknown)
            },
        }
    }

    /// The code of an attribute: a type (or, at the top of a schema, a type
    /// alias) for what it refers to, documented, with its reader; an optional
    /// attribute inside a type becomes an `Option` of it.
    #[verifier::spinoff_prover]
    pub fn get_implementation(&self, context: &XsdContext, parent_is_schema: bool) -> (r: Result<XsdImpl, XsdError>)
        ensures
            gives(r, attribute_gen(*self, context@, parent_is_schema)),
        decreases self, 1int,
    {
        proof {
            reveal(attribute_gen);
        }
        let mut x = match self.base_implementation(context, parent_is_schema) {
            Ok(x) => x,
            Err(e) => {
                return Err(e);
            },
        };
        add_docs(&mut x, doc_of(&self.annotation, ""));
        let x2 = match checked_xsdgen(x) {
            Ok(y) => y,
            Err(e) => {
                return Err(e);
            },
        };
        if !parent_is_schema && self.required == Required::Optional {
            Ok(wrap_occurrence(x2, "Option", false))
        } else {
            Ok(x2)
        }
    }
}

impl SimpleType {
    /// The code of a simple type: that of its restriction, union or list,
    /// documented, under its own name or else that of its parent.
    #[verifier::spinoff_prover]
    pub fn get_implementation(&self, parent_name: Option<XsdName>, context: &XsdContext) -> (r: Result<XsdImpl, XsdError>)
        ensures
            gives(r, simple_type_gen(*self, opt_name_view(parent_name), context@)),
        decreases self, 1int,
    {
        proof {
            reveal(simple_type_gen);
        }
        let name = match &self.name {
            Some(n) => n.clone(),
            None => match parent_name {
                Some(p) => {
                    let mut p = p;
                    p.ty = XsdType::SimpleType;
                    p
                },
                None => {
                    return Err(XsdError::Unknown);
                },
            },
        };
        let g = match (&self.list, &self.union, &self.restriction) {
            (None, None, Some(r)) => r.get_implementation(name.clone(), RestrictionParentType::SimpleType, context),
            (None, Some(u), None) => u.get_implementation(name.clone(), context),
            (Some(l), None, None) => l.get_implementation(name.clone(), context),
            _ => {
                return Err(XsdError::Unknown);
            },
        };
        let mut x = match g {
            Ok(x) => x,
            Err(e) => {
                return Err(e);
            },
        };
        add_docs(&mut x, doc_of(&self.annotation, ""));
        let mut n = name;
        n.ty = XsdType::SimpleType;
        x.name = n;
        Ok(x)
    }
}

/// The enum of the enumeration values of a restriction, with its reader.
#[verifier::spinoff_prover]
fn enumeration_piece_exec(values: &Vec<String>, parent: &XsdName) -> (r: XsdImpl)
    ensures
        r@ == enumeration_piece(strs_view(values@), parent@),
{
    proof {
        reveal(enumeration_piece);
    }
    let ghost vs = strs_view(values@);
    let ghost e0 = derived_enum(None, struct_name_spec(parent@.local_name));
    let sname = parent.to_struct_name();
    let mut e = derived_enum_exec(None, sname.as_str());
    let mut m = Block::new("let output = match element.get_content::<String>()?.as_str()");
    proof {
        assert(vs.take(0).map_values(unit_variant_fn()) =~= seq![]);
        assert(vs.take(0).map_values(enum_value_line_fn()) =~= seq![]);
    }
    let mut i: usize = 0;
    while i < values.len()
        invariant
            i <= values@.len(),
            vs == strs_view(values@),
            e0 == derived_enum(None, struct_name_spec(parent@.local_name)),
            e@ == (EnumView { variants: vs.take(i as int).map_values(unit_variant_fn()), ..e0 }),
            block_view(m) == (BlockView {
                before: Some("let output = match element.get_content::<String>()?.as_str()"@),
                after: None,
                body: vs.take(i as int).map_values(enum_value_line_fn()),
            }),
        decreases values@.len() - i,
    {
        let v = values[i].as_str();
        assert(vs[i as int] == v@);
        let vname = if chars_of(v).len() == 0 {
            "Empty".to_owned()
        } else {
            to_struct_name(v)
        };
        assert(vname@ == enum_value_name(v@));
        e = e.push_variant(Variant::new(None, vname.as_str()));
        let head = concat3("\"", v, "\" => Self::");
        let with_name = concat(head.as_str(), vname.as_str());
        let line = concat(with_name.as_str(), ",");
        assert(line@ == enum_value_line(v@));
        m = m.line(line.as_str());
        proof {
            assert(vs.take(i + 1) =~= vs.take(i as int).push(vs[i as int]));
            assert(vs.take(i + 1).map_values(unit_variant_fn()) =~= vs.take(i as int).map_values(unit_variant_fn()).push(
                unit_variant(enum_value_name(vs[i as int])),
            ));
            assert(vs.take(i + 1).map_values(enum_value_line_fn()) =~= vs.take(i as int).map_values(
                enum_value_line_fn(),
            ).push(BodyView::Line(enum_value_line(vs[i as int]))));
        }
        i += 1;
    }
    proof {
        assert(vs.take(i as int) =~= vs);
    }
    let err = Block::new("return Err(XsdGenError").line("node_name: element.name().to_string(),").line(
        "msg: format!(\"Invalid xml node found unexpected content {value}.\"),",
    ).line("ty: XsdType::Restriction,").after(")?");
    let arm = Block::new("value => ").push_block(err);
    let parse_match = m.push_block(arm).after(";");
    let outer = Block { before: None, after: None, body: Vec::new() };
    proof {
        assert(bodies_view(outer.body@) =~= seq![]);
    }
    let block = outer.push_block(parse_match).line("Ok(output)");
    assert(block_view(block) == enumeration_block(vs));
    let imp = xsdgen_impl(e.ty().clone(), block);
    let hint = parent.to_field_name();
    let mut x = make_piece(parent.clone(), Some(hint), XsdElement::Enum(e), false);
    let ghost before = x.implementation@;
    x.implementation.push(imp);
    assert(crate::code_model::impls_view(x.implementation@) =~= seq![imp@]);
    x
}


impl Restriction {
    #[verifier::spinoff_prover]
    fn get_simple_implementation(&self, parent_name: XsdName, context: &XsdContext, allow_attributes: bool) -> (r: Result<XsdImpl, XsdError>)
        ensures
            gives(r, restriction_simple(*self, parent_name@, context@, allow_attributes)),
        decreases self, 0int,
    {
        proof {
            reveal(restriction_simple);
        }
        let ghost c0 = context@;
        let base_ty = match context.search(&self.base) {
            Some(b) => b.element.get_type(),
            None => {
                return Err(XsdError::XsdImplNotFound(self.base.clone()));
            },
        };
        let has_values = self.enumerations.len() > 0;
        let x0 = if has_values {
            enumeration_piece_exec(&self.enumerations, &parent_name)
        } else {
            let names = std_derive_names();
            let sname = parent_name.to_struct_name();
            let s = Struct::new(Some(parent_name.clone()), sname.as_str()).tuple_field(None, base_ty, false, false).derives(
                names.as_slice(),
            );
            make_piece(parent_name.clone(), Some(parent_name.to_field_name()), XsdElement::Struct(s), false)
        };
        let x1 = if allow_attributes {
            let a = match merge_attributes_exec(x0, &self.attributes, context) {
                Ok(x) => x,
                Err(e) => {
                    proof {
                        lemma_merge_attribute_groups_stays(
                            merge_attributes(GenOut::Done(x0@), self.attributes@, c0, attr_prefix()),
                            self.attribute_groups@,
                            Some(parent_name@),
                            c0,
                        );
                    }
                    return Err(e);
                },
            };
            let parent = Some(parent_name.clone());
            match merge_attribute_groups_exec(a, &self.attribute_groups, &parent, context) {
                Ok(x) => x,
                Err(e) => {
                    return Err(e);
                },
            }
        } else {
            x0
        };
        if has_values {
            Ok(x1)
        } else {
            checked_xsdgen(x1)
        }
    }

    #[verifier::spinoff_prover]
    fn get_complex_implementation(&self, parent_name: XsdName, context: &XsdContext) -> (r: Result<XsdImpl, XsdError>)
        ensures
            gives(r, restriction_complex(*self, parent_name@, context@)),
        decreases self, 0int,
    {
        proof {
            reveal(restriction_complex);
        }
        let mut b = match context.search(&self.base) {
            Some(x) => clone_impl(x),
            None => {
                return Err(XsdError::XsdImplNotFound(self.base.clone()));
            },
        };
        b.name = parent_name.clone();
        let sub = match (&self.group, &self.choice, &self.sequence) {
            (Some(g), None, None) => g.get_implementation(Some(parent_name.clone()), context),
            (None, Some(ch), None) => ch.get_implementation(Some(parent_name.clone()), context),
            (None, None, Some(sq)) => sq.get_implementation(Some(parent_name.clone()), context),
            _ => {
                return Err(XsdError::Unknown);
            },
        };
        match sub {
            Ok(y) => {
                if !crate::merge::merge_ok_exec(&b, &y) {
                    return Err(XsdError::Unknown);
                }
                b.merge(y, field_settings());
                checked_xsdgen(b)
            },
            Err(e) => Err(e),
        }
    }

    /// The code of a restriction, by what it restricts: for a simple type an
    /// enum of its values or a struct around its base; for a complex content
    /// the same with its attributes merged in; for a simple content its base
    /// with its particle merged in.
    #[verifier::spinoff_prover]
    pub fn get_implementation(&self, parent_name: XsdName, parent_type: RestrictionParentType, context: &XsdContext) -> (r: Result<XsdImpl, XsdError>)
        ensures
            gives(r, restriction_gen(*self, parent_name@, parent_type, context@)),
        decreases self, 1int,
    {
        proof {
            reveal(restriction_gen);
        }
        let g = match parent_type {
            RestrictionParentType::SimpleType => self.get_simple_implementation(parent_name, context, false),
            RestrictionParentType::ComplexContent => self.get_simple_implementation(parent_name, context, true),
            RestrictionParentType::SimpleContent => self.get_complex_implementation(parent_name, context),
        };
        match g {
            Ok(x) => {
                let mut x = x;
                x.name.ty = XsdType::Restriction;
                Ok(x)
            },
            Err(e) => Err(e),
        }
    }
}

impl List {
    /// The code of a list: a struct around a vector of the item type, read
    /// from the element's text.
    #[verifier::spinoff_prover]
    pub fn get_implementation(&self, name: XsdName, context: &XsdContext) -> (r: Result<XsdImpl, XsdError>)
        ensures
            gives(r, list_gen(*self, name@, context@)),
    {
        proof {
            reveal(list_gen);
        }
        let item_ty = match context.search(&self.item_type) {
            Some(item) => item.element.get_type(),
            None => {
                return Err(XsdError::XsdImplNotFound(self.item_type.clone()));
            },
        };
        let sname = name.to_struct_name();
        let text = item_ty.to_string();
        let tname = concat3("Vec<", text.as_str(), ">");
        let names = vec!["Clone", "Debug", "Default", "PartialEq"];
        assert(crate::text::str_refs_view(names@) =~= seq!["Clone"@, "Debug"@, "Default"@, "PartialEq"@]);
        let s = Struct::new(Some(name.clone()), sname.as_str()).tuple_field(None, Type::new(None, tname.as_str()), false, false).derives(
            names.as_slice(),
        );
        let last = concat3("Ok(", sname.as_str(), "(output))");
        let block = Block::new("").line(
            "let output = element.get_content()?.split(' ').map(|item| item.from_xml(item)).collect();",
        ).line(last.as_str());
        let imp = crate::xsdgen::fromxml_impl(s.ty().clone(), block);
        let mut lname = name.clone();
        lname.ty = XsdType::List;
        let mut x = make_piece(lname, Some(name.to_field_name()), XsdElement::Struct(s), false);
        x.implementation.push(imp);
        assert(crate::code_model::impls_view(x.implementation@) =~= seq![imp@]);
        Ok(x)
    }
}

impl Union {
    /// The code of a union: an enum with a variant for each member type and
    /// each simple type in it, with its reader.
    #[verifier::spinoff_prover]
    pub fn get_implementation(&self, parent_name: XsdName, context: &XsdContext) -> (r: Result<XsdImpl, XsdError>)
        ensures
            gives(r, union_gen(*self, parent_name@, context@)),
        decreases self, 0int,
    {
        proof {
            reveal(union_gen);
        }
        let ghost c0 = context@;
        let mut xml = parent_name.clone();
        xml.ty = XsdType::Union;
        let sname = xml.to_struct_name();
        let e = derived_enum_exec(Some(xml.clone()), sname.as_str());
        let hint = xml.to_field_name();
        let x0 = make_piece(xml, Some(hint), XsdElement::Enum(e), false);
        let parent = Some(parent_name.clone());
        let x1 = match merge_members_exec(x0, &self.member_types, &parent_name, context) {
            Ok(x) => x,
            Err(e) => {
                proof {
                    lemma_merge_simple_types_stays(
                        merge_members(GenOut::Done(x0@), self.member_types@, parent_name@, c0),
                        self.simple_types@,
                        Some(parent_name@),
                        c0,
                    );
                }
                return Err(e);
            },
        };
        match merge_simple_types_exec(x1, &self.simple_types, &parent, context) {
            Ok(x) => checked_xsdgen(x),
            Err(e) => Err(e),
        }
    }
}

impl AttributeGroup {
    #[verifier::spinoff_prover]
    fn create_type(&self, parent_name: Option<XsdName>, context: &XsdContext) -> (r: Result<XsdImpl, XsdError>)
        ensures
            gives(r, create_type(*self, opt_name_view(parent_name), context@)),
        decreases self, 0int,
    {
        proof {
            reveal(create_type);
        }
        let ghost c0 = context@;
        match (&self.name, &self.reference) {
            (None, Some(refers)) => {
                let inner = match context.search(refers) {
                    Some(i) => i,
                    None => {
                        return Err(XsdError::XsdImplNotFound(refers.clone()));
                    },
                };
                if parent_name.is_none() && !has_type_name_exec(inner) {
                    return Err(XsdError::Unknown);
                }
                let field_name = match &parent_name {
                    Some(p) => p.to_field_name(),
                    None => match &inner.fieldname_hint {
                        Some(h) => h.clone(),
                        None => refers.to_field_name(),
                    },
                };
                let name = match parent_name {
                    Some(p) => p,
                    None => XsdName { namespace: None, local_name: inner.infer_type_name(), ty: XsdType::AttributeGroup },
                };
                let f = crate::code_model::Field::new(None, field_name.as_str(), inner.element.get_type(), true, false).vis(
                    "pub",
                );
                Ok(make_piece(name, Some(field_name), XsdElement::Field(f), false))
            },
            (_, None) => {
                let xml = match &self.name {
                    Some(n) => n.clone(),
                    None => match &parent_name {
                        Some(p) => p.clone(),
                        None => {
                            return Err(XsdError::Unknown);
                        },
                    },
                };
                let sname = xml.to_struct_name();
                let s = derived_struct_exec(Some(xml.clone()), sname.as_str());
                let hint = xml.to_field_name();
                let x0 = make_piece(xml, Some(hint), XsdElement::Struct(s), false);
                let x1 = match merge_attributes_exec(x0, &self.attributes, context) {
                    Ok(x) => x,
                    Err(e) => {
                        proof {
                            lemma_merge_attribute_groups_stays(
                                merge_attributes(GenOut::Done(x0@), self.attributes@, c0, attr_prefix()),
                                self.attribute_groups@,
                                opt_name_view(parent_name),
                                c0,
                            );
                        }
                        return Err(e);
                    },
                };
                let mut x2 = match merge_attribute_groups_exec(x1, &self.attribute_groups, &parent_name, context) {
                    Ok(x) => x,
                    Err(e) => {
                        return Err(e);
                    },
                };
                add_docs(&mut x2, doc_of(&self.annotation, ""));
                Ok(x2)
            },
            _ => {
                Err(XsdError::Unknown)
            },
        }
    }

    /// The code of an attribute group: a field of the group it refers to, or
    /// a struct of its attributes and groups, with its reader.
    #[verifier::spinoff_prover]
    pub fn get_implementation(&self, parent_name: Option<XsdName>, context: &XsdContext) -> (r: Result<XsdImpl, XsdError>)
        ensures
            gives(r, attribute_group_gen(*self, opt_name_view(parent_name), context@)),
        decreases self, 1int,
    {
        proof {
            reveal(attribute_group_gen);
        }
        let x = match self.create_type(parent_name, context) {
            Ok(x) => x,
            Err(e) => {
                return Err(e);
            },
        };
        let mut g = match checked_xsdgen(x) {
            Ok(y) => y,
            Err(e) => {
                return Err(e);
            },
        };
        g.name.ty = XsdType::AttributeGroup;
        Ok(g)
    }
}


} // verus!
