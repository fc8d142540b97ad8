//! Generating the code of groups, particles, elements and complex types from
//! the context of the components already generated.
//! components already generated.
use vstd::prelude::*;

use crate::gen_lists::{
    error_is, gives, gives_all, empty_impls, one_impl, make_piece, doc_of, add_docs, wrap_occurrence, std_derive_names, derived_struct_exec, derived_enum_exec, lemma_merge_list_stays, lemma_merge_attributes_stays, lemma_merge_attribute_groups_stays, lemma_merge_simple_types_stays, lemma_merge_members_stays, merge_each, join_impls, many_exec, maybe_exec, field_settings, attributes_impls, attribute_groups_impls, elements_impls, sequences_impls, groups_impls, choices_impls, options_impls, merge_attributes_exec, merge_attribute_groups_exec, merge_simple_types_exec, merge_members_exec, gen_failure, has_type_name_exec, checked_xsdgen,
};

use crate::code_model::{Block, Enum, Struct, Type, Variant};
use crate::components::{
    Annotation, Attribute, AttributeGroup, Choice, ChoiceOptions, ComplexContent, ComplexType, Element,
    Extension, Group, List, MaxOccurences, Required, Restriction, RestrictionParentType, Sequence,
    SimpleContent, SimpleType, Union,
};
use crate::context::{impl_view, impls_seq_view, lemma_impls_seq_view, lemma_impls_seq_view_push, clone_impl, XsdElement, XsdImpl};
use crate::context::XsdImplView;
use crate::gen_spec::{
    attr_prefix, attribute_base, attribute_gen, attribute_group_gen, attribute_groups_out, attributes_out,
    choice_gen, choices_out, complex_content_gen, complex_type_gen, create_type, derived_enum, derived_struct,
    doc_text, documented, element_gen, elements_out, enum_value_line, enum_value_line_fn, enum_value_name,
    enumeration_block, extension_gen, find, gen_checked, glue_out, group_gen, groups_out, has_type_name,
    complex_type_content, extension_particle, enumeration_piece, kind_out, list_gen, many, maybe, merge_attribute_groups, merge_attributes, merge_list, merge_members,
    merge_simple_types, merged, occurrence_wrapper, option_gen, options_out, piece, prepend_out,
    restriction_complex, restriction_gen, restriction_simple, sequence_gen, sequences_out,
    simple_content_gen, simple_type_gen, std_derives, then_merge, union_gen, unit_variant,
    unit_variant_fn, with_kind, GenOut,
};
use crate::names::XsdNameView;
use crate::registry::XsdContextView;
use crate::merge::{merge_ok, prefix_view, MergeSettings, MergeType};
use crate::names::{clone_opt_name, clone_opt_str, opt_name_view, opt_str_view, XsdGenError, XsdIoError, XsdName, XsdType};
use crate::registry::{SearchResult, XsdContext, XsdError};
use crate::text::{chars_of, concat, concat3, join, strs_view};
use crate::code_model::{block_view, bodies_view, BlockView, BodyView, EnumView};
use crate::names::{struct_name_spec, to_struct_name};
use crate::xsdgen::{general_xsdgen, xsdgen_impl};

verus! {
impl Group {
    /// The code of a group: that of its sequence or choice under its name,
    /// or a field of the group it refers to.
    #[verifier::spinoff_prover]
    pub fn get_implementation(&self, parent_name: Option<XsdName>, context: &XsdContext) -> (r: Result<XsdImpl, XsdError>)
        ensures
            gives(r, group_gen(*self, opt_name_view(parent_name), context@)),
        decreases self, 0int,
    {
        proof {
            reveal(group_gen);
        }
        let g = match (&self.name, &self.refers) {
            (Some(n), None) => match (&self.choice, &self.sequence) {
                (None, Some(sq)) => sq.get_implementation(Some(n.clone()), context),
                (Some(ch), None) => ch.get_implementation(Some(n.clone()), context),
                _ => {
                    return Err(XsdError::Unknown);
                },
            },
            (None, Some(refers)) => {
                let inner = match context.search(refers) {
                    Some(i) => i,
                    None => {
                        return Err(XsdError::XsdImplNotFound(refers.clone()));
                    },
                };
                if parent_name.is_none() && !has_type_name_exec(inner) {
                    return Err(XsdError::Unknown);
                }
                let field_name = match &parent_name {
                    Some(p) => p.to_field_name(),
                    None => match &inner.fieldname_hint {
                        Some(h) => h.clone(),
                        None => crate::names::to_field_name(inner.infer_type_name().as_str()),
                    },
                };
                let name = match parent_name {
                    Some(p) => {
                        let mut p = p;
                        p.ty = XsdType::Group;
                        p
                    },
                    None => XsdName { namespace: None, local_name: inner.infer_type_name(), ty: XsdType::Group },
                };
                let f = crate::code_model::Field::new(
                    Some(inner.name.clone()),
                    field_name.as_str(),
                    inner.element.get_type(),
                    false,
                    false,
                ).vis("pub");
                Ok(make_piece(name, Some(field_name), XsdElement::Field(f), false))
            },
            _ => {
                return Err(XsdError::Unknown);
            },
        };
        match g {
            Ok(x) => {
                let mut x = x;
                x.name.ty = XsdType::Group;
                Ok(x)
            },
            Err(e) => Err(e),
        }
    }
}

impl Sequence {
    /// The code of a sequence: a struct merging the code of its elements,
    /// sequences, groups and choices, with its reader; one that occurs
    /// several times or may be absent becomes a `Vec` or an `Option` of it.
    #[verifier::spinoff_prover]
    pub fn get_implementation(&self, parent_name: Option<XsdName>, context: &XsdContext) -> (r: Result<XsdImpl, XsdError>)
        ensures
            gives(r, sequence_gen(*self, opt_name_view(parent_name), context@)),
        decreases self, 0int,
    {
        proof {
            reveal(sequence_gen);
        }
        let a = match elements_impls(&self.elements, context) {
            Ok(v) => v,
            Err(e) => {
                return Err(e);
            },
        };
        let b = match sequences_impls(&self.sequences, context) {
            Ok(v) => v,
            Err(e) => {
                return Err(e);
            },
        };
        let g = match groups_impls(&self.groups, context) {
            Ok(v) => v,
            Err(e) => {
                return Err(e);
            },
        };
        let ch = match choices_impls(&self.choices, context) {
            Ok(v) => v,
            Err(e) => {
                return Err(e);
            },
        };
        let all = join_impls(join_impls(join_impls(a, b), g), ch);
        let mut xml = match &parent_name {
            Some(p) => p.clone(),
            None => XsdName { namespace: None, local_name: crate::merge::infer_type_name(all.as_slice()), ty: XsdType::Sequence },
        };
        xml.ty = XsdType::Sequence;
        let sname = xml.to_struct_name();
        let s = derived_struct_exec(Some(xml.clone()), sname.as_str());
        let hint = xml.to_field_name();
        let x0 = make_piece(xml, Some(hint), XsdElement::Struct(s), parent_name.is_none());
        let x1 = match merge_each(x0, &all, None) {
            Ok(y) => y,
            Err(e) => {
                return Err(e);
            },
        };
        let x2 = match checked_xsdgen(x1) {
            Ok(y) => y,
            Err(e) => {
                return Err(e);
            },
        };
        let flat = x2.flatten;
        let mut x3 = if many_exec(&self.max_occurences, self.min_occurences) {
            wrap_occurrence(x2, "Vec", flat)
        } else if maybe_exec(&self.max_occurences, self.min_occurences) {
            wrap_occurrence(x2, "Option", flat)
        } else {
            x2
        };
        x3.name.ty = XsdType::Sequence;
        Ok(x3)
    }
}

impl Choice {
    /// The code of a choice: an enum merging the code of its particles, with
    /// its reader; one that occurs several times or may be absent becomes a
    /// `Vec` or an `Option` of it.
    #[verifier::spinoff_prover]
    pub fn get_implementation(&self, parent_name: Option<XsdName>, context: &XsdContext) -> (r: Result<XsdImpl, XsdError>)
        ensures
            gives(r, choice_gen(*self, opt_name_view(parent_name), context@)),
        decreases self, 0int,
    {
        proof {
            reveal(choice_gen);
        }
        let v = match options_impls(&self.children, context) {
            Ok(v) => v,
            Err(e) => {
                return Err(e);
            },
        };
        let xml = match &parent_name {
            Some(p) => p.clone(),
            None => XsdName { namespace: None, local_name: crate::merge::infer_type_name(v.as_slice()), ty: XsdType::Choice },
        };
        let sname = xml.to_struct_name();
        let e = derived_enum_exec(Some(xml.clone()), sname.as_str());
        let hint = xml.to_field_name();
        let top = parent_name.is_none();
        let x0 = make_piece(xml, Some(hint), XsdElement::Enum(e), top);
        let x1 = match merge_each(x0, &v, None) {
            Ok(y) => y,
            Err(e) => {
                return Err(e);
            },
        };
        let x2 = match checked_xsdgen(x1) {
            Ok(y) => y,
            Err(e) => {
                return Err(e);
            },
        };
        let mut x3 = if many_exec(&self.max_occurences, self.min_occurences) {
            wrap_occurrence(x2, "Vec", top)
        } else if maybe_exec(&self.max_occurences, self.min_occurences) {
            wrap_occurrence(x2, "Option", top)
        } else {
            x2
        };
        x3.name.ty = XsdType::Choice;
        Ok(x3)
    }
}



impl Element {
    /// The code of an element: that of its complex or simple type, or of the
    /// type it names, documented; an element that occurs several times or may
    /// be absent becomes a `Vec` or an `Option` of it.
    #[verifier::spinoff_prover]
    pub fn get_implementation(&self, context: &XsdContext) -> (r: Result<XsdImpl, XsdError>)
        ensures
            gives(r, element_gen(*self, context@)),
        decreases self, 0int,
    {
        proof {
            reveal(element_gen);
        }
        let xml = match &self.name {
            Some(n) => n.clone(),
            None => {
                return Err(XsdError::Unknown);
            },
        };
        let plain = self.simple_type.is_none() && self.complex_type.is_none() && self.kind.is_none();
        let g = match (&self.simple_type, &self.complex_type, &self.kind) {
            (None, Some(ct), None) => ct.get_implementation(false, Some(xml.clone()), context),
            (Some(st), None, None) => st.get_implementation(Some(xml.clone()), context),
            (None, None, Some(kind)) => {
                let types = vec![XsdType::SimpleType, XsdType::ComplexType];
                match context.multi_search(clone_opt_str(&kind.namespace), kind.local_name.clone(), types.as_slice()) {
                    SearchResult::SingleMatch(found) => {
                        let t = found.element.get_type().xml_name(Some(xml.clone()));
                        Ok(make_piece(xml.clone(), Some(xml.to_field_name()), XsdElement::Type(t), false))
                    },
                    SearchResult::MultipleMatches => {
                        let shown = kind.display_string();
                        Err(
                            gen_failure(
                                xml.display_string(),
                                XsdType::Element,
                                concat("Found both a simple and complex type named ", shown.as_str()),
                            ),
                        )
                    },
                    SearchResult::NoMatches => Err(XsdError::XsdImplNotFound(xml.clone())),
                }
            },
            (None, None, None) => {
                let sname = xml.to_struct_name();
                let s = Struct::new(Some(xml.clone()), sname.as_str());
                Ok(make_piece(xml.clone(), Some(xml.to_field_name()), XsdElement::Struct(s), false))
            },
            _ => Err(
                gen_failure(
                    xml.display_string(),
                    XsdType::Element,
                    "Found both simple and complex type in element.".to_owned(),
                ),
            ),
        };
        if plain {
            return g;
        }
        let mut x1 = match g {
            Ok(x) => x,
            Err(e) => {
                return Err(e);
            },
        };
        add_docs(&mut x1, doc_of(&self.annotation, "\n"));
        let multiple = self.is_multiple();
        let mut x2 = if multiple || self.could_be_none() {
            let ft = x1.element.get_type();
            let t = if multiple {
                ft.wrap("Vec")
            } else {
                ft.wrap("Option")
            };
            let keep = match &x1.element {
                XsdElement::Struct(_) => true,
                XsdElement::Enum(_) => true,
                _ => false,
            };
            let inner = if keep {
                one_impl(x1)
            } else {
                empty_impls()
            };
            let r = XsdImpl {
                name: xml.clone(),
                fieldname_hint: Some(xml.to_field_name()),
                element: XsdElement::Type(t),
                inner,
                implementation: Vec::new(),
                flatten: false,
            };
            assert(crate::code_model::impls_view(r.implementation@) =~= seq![]);
            r
        } else {
            x1
        };
        x2.name.ty = XsdType::Element;
        Ok(x2)
    }
}

impl ComplexType {
    #[verifier::spinoff_prover]
    fn content_implementation(&self, id: &XsdName, context: &XsdContext) -> (r: Result<Option<XsdImpl>, XsdError>)
        ensures
            match r {
                Ok(Some(y)) => complex_type_content(*self, id@, context@) == Some(GenOut::Done(y@)),
                Ok(None) => complex_type_content(*self, id@, context@) is None,
                Err(e) => complex_type_content(*self, id@, context@) matches Some(g) && error_is(e, g),
            },
        decreases self, 0int,
    {
        proof {
            reveal(complex_type_content);
        }
        let g = match (&self.complex_content, &self.simple_content, &self.group, &self.sequence, &self.choice) {
            (Some(cc), None, None, None, None) => cc.get_implementation(id.clone(), context),
            (None, Some(sc), None, None, None) => sc.get_implementation(id.clone(), context),
            (None, None, Some(g), None, None) => g.get_implementation(Some(id.clone()), context),
            (None, None, None, Some(sq), None) => sq.get_implementation(Some(id.clone()), context),
            (None, None, None, None, Some(ch)) => ch.get_implementation(Some(id.clone()), context),
            (None, None, None, None, None) => {
                return Ok(None);
            },
            _ => {
                return Err(XsdError::Unknown);
            },
        };
        match g {
            Ok(y) => Ok(Some(y)),
            Err(e) => Err(e),
        }
    }

    /// The code of a complex type: a struct merging its content and then its
    /// attributes and attribute groups, documented, with its reader.
    #[verifier::spinoff_prover]
    pub fn get_implementation(&self, parent_is_schema: bool, parent_name: Option<XsdName>, context: &XsdContext) -> (r: Result<
        XsdImpl,
        XsdError,
    >)
        ensures
            gives(r, complex_type_gen(*self, parent_is_schema, opt_name_view(parent_name), context@)),
        decreases self, 1int,
    {
        proof {
            reveal(complex_type_gen);
        }
        let ghost c0 = context@;
        let id = match &self.name {
            Some(v) => XsdName { namespace: clone_opt_str(&v.namespace), local_name: v.local_name.clone(), ty: XsdType::ComplexType },
            None => match &parent_name {
                Some(p) => p.clone(),
                None => {
                    return Err(XsdError::Unknown);
                },
            },
        };
        let sname = id.to_struct_name();
        let s = derived_struct_exec(Some(id.clone()), sname.as_str());
        let x0 = make_piece(id.clone(), None, XsdElement::Struct(s), false);
        let inner = match self.content_implementation(&id, context) {
            Ok(o) => o,
            Err(e) => {
                return Err(e);
            },
        };
        let attrs = match attributes_impls(&self.attributes, context, false) {
            Ok(v) => v,
            Err(e) => {
                return Err(e);
            },
        };
        let no_parent: Option<XsdName> = None;
        let groups = match attribute_groups_impls(&self.attribute_groups, &no_parent, context) {
            Ok(v) => v,
            Err(e) => {
                return Err(e);
            },
        };
        let rest = join_impls(attrs, groups);
        let x1 = match inner {
            Some(y) => {
                if !crate::merge::merge_ok_exec(&x0, &y) {
                    proof {
                        lemma_merge_list_stays(GenOut::Invalid, impls_seq_view(rest@), attr_prefix());
                    }
                    return Err(XsdError::Unknown);
                }
                let mut a = x0;
                a.merge(y, field_settings());
                a
            },
            None => x0,
        };
        let mut x2 = match merge_each(x1, &rest, Some("attr_")) {
            Ok(y) => y,
            Err(e) => {
                return Err(e);
            },
        };
        add_docs(&mut x2, doc_of(&self.annotation, ""));
        x2.name.ty = XsdType::ComplexType;
        checked_xsdgen(x2)
    }
}

impl ComplexContent {
    /// The code of a complex content: that of its restriction or extension.
    #[verifier::spinoff_prover]
    pub fn get_implementation(&self, parent_name: XsdName, context: &XsdContext) -> (r: Result<XsdImpl, XsdError>)
        ensures
            gives(r, complex_content_gen(*self, parent_name@, context@)),
        decreases self, 0int,
    {
        proof {
            reveal(complex_content_gen);
        }
        let g = match (&self.extension, &self.restriction) {
            (None, Some(r)) => r.get_implementation(parent_name, RestrictionParentType::ComplexContent, context),
            (Some(x), None) => x.get_implementation(parent_name, context),
            _ => {
                return Err(XsdError::Unknown);
            },
        };
        match g {
            Ok(x) => {
                let mut x = x;
                x.name.ty = XsdType::ComplexContent;
                Ok(x)
            },
            Err(e) => Err(e),
        }
    }
}

impl SimpleContent {
    /// The code of a simple content: that of its restriction or extension.
    #[verifier::spinoff_prover]
    pub fn get_implementation(&self, parent_name: XsdName, context: &XsdContext) -> (r: Result<XsdImpl, XsdError>)
        ensures
            gives(r, simple_content_gen(*self, parent_name@, context@)),
        decreases self, 0int,
    {
        proof {
            reveal(simple_content_gen);
        }
        let g = match (&self.restriction, &self.extension) {
            (None, Some(x)) => x.get_implementation(parent_name, context),
            (Some(r), None) => r.get_implementation(parent_name, RestrictionParentType::SimpleContent, context),
            _ => {
                return Err(XsdError::Unknown);
            },
        };
        match g {
            Ok(x) => {
                let mut x = x;
                x.name.ty = XsdType::SimpleContent;
                Ok(x)
            },
            Err(e) => Err(e),
        }
    }
}

proof fn lemma_extension_tail_stays(acc: GenOut, x: Extension, c: XsdContextView)
    requires
        !(acc is Done),
    ensures
        merge_attribute_groups(merge_attributes(acc, x.attributes@, c, attr_prefix()), x.attribute_groups@, None, c) == acc,
{
    lemma_merge_attributes_stays(acc, x.attributes@, c, attr_prefix());
    lemma_merge_attribute_groups_stays(acc, x.attribute_groups@, None, c);
}

impl Extension {
    #[verifier::spinoff_prover]
    fn particle_implementation(&self, parent_name: &XsdName, context: &XsdContext) -> (r: Result<Option<XsdImpl>, XsdError>)
        ensures
            match r {
                Ok(Some(y)) => extension_particle(*self, parent_name@, context@) == Some(GenOut::Done(y@)),
                Ok(None) => extension_particle(*self, parent_name@, context@) is None,
                Err(e) => extension_particle(*self, parent_name@, context@) matches Some(g) && error_is(e, g),
            },
        decreases self, 0int,
    {
        proof {
            reveal(extension_particle);
        }
        let g = match (&self.group, &self.sequence, &self.choice) {
            (None, None, Some(ch)) => ch.get_implementation(Some(parent_name.clone()), context),
            (None, Some(sq), None) => sq.get_implementation(Some(parent_name.clone()), context),
            (Some(g), None, None) => g.get_implementation(Some(parent_name.clone()), context),
            (None, None, None) => {
                return Ok(None);
            },
            _ => {
                return Err(XsdError::Unknown);
            },
        };
        match g {
            Ok(y) => Ok(Some(y)),
            Err(e) => Err(e),
        }
    }

    /// The code of an extension: a struct with its base as a field, and its
    /// group, sequence or choice, its attributes and its attribute groups
    /// merged in.
    #[verifier::spinoff_prover]
    pub fn get_implementation(&self, parent_name: XsdName, context: &XsdContext) -> (r: Result<XsdImpl, XsdError>)
        ensures
            gives(r, extension_gen(*self, parent_name@, context@)),
        decreases self, 1int,
    {
        proof {
            reveal(extension_gen);
        }
        let ghost c0 = context@;
        let types = vec![XsdType::SimpleType, XsdType::ComplexType];
        let base_field = match context.multi_search(clone_opt_str(&self.base.namespace), self.base.local_name.clone(), types.as_slice()) {
            SearchResult::SingleMatch(imp) => imp.to_field(),
            SearchResult::MultipleMatches => {
                return Err(
                    XsdError::ContextSearchError {
                        name: self.base.clone(),
                        msg: "found both a simple and complex type".to_owned(),
                    },
                );
            },
            SearchResult::NoMatches => {
                return Err(XsdError::XsdImplNotFound(self.base.clone()));
            },
        };
        let sname = parent_name.to_struct_name();
        let s = Struct::new(None, sname.as_str());
        let mut x1 = make_piece(parent_name.clone(), Some(parent_name.to_field_name()), XsdElement::Struct(s), false);
        if !crate::merge::merge_ok_exec(&x1, &base_field) {
            proof {
                lemma_extension_tail_stays(GenOut::Invalid, *self, c0);
            }
            return Err(XsdError::Unknown);
        }
        x1.merge(base_field, field_settings());
        proof {
            match extension_particle(*self, parent_name@, c0) {
                Some(g) => {
                    if !(g is Done) {
                        lemma_extension_tail_stays(g, *self, c0);
                    }
                },
                None => {},
            }
        }
        let sub = match self.particle_implementation(&parent_name, context) {
            Ok(o) => o,
            Err(e) => {
                return Err(e);
            },
        };
        let x2 = match sub {
            Some(y) => {
                if !crate::merge::merge_ok_exec(&x1, &y) {
                    proof {
                        lemma_extension_tail_stays(GenOut::Invalid, *self, c0);
                    }
                    return Err(XsdError::Unknown);
                }
                let mut a = x1;
                a.merge(y, field_settings());
                a
            },
            None => x1,
        };
        proof {
            let ma = merge_attributes(GenOut::Done(x2@), self.attributes@, c0, attr_prefix());
            if !(ma is Done) {
                lemma_merge_attribute_groups_stays(ma, self.attribute_groups@, None, c0);
            }
        }
        let x3 = match merge_attributes_exec(x2, &self.attributes, context) {
            Ok(x) => x,
            Err(e) => {
                return Err(e);
            },
        };
        let no_parent: Option<XsdName> = None;
        let mut x4 = match merge_attribute_groups_exec(x3, &self.attribute_groups, &no_parent, context) {
            Ok(x) => x,
            Err(e) => {
                return Err(e);
            },
        };
        x4.name.ty = XsdType::Extension;
        Ok(x4)
    }
}


} // verus!
