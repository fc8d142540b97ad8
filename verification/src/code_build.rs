//! The builder interface of the code model: constructors and setters of
//! types, definitions, functions and blocks.
use vstd::prelude::*;

use crate::code_model::{
    AssociatedType, Block, BlockView, Body, BodyView, Bound, BoundView, Docs, Enum, EnumView, Field, FieldView, Fields, FieldsView, Function, FunctionView, Impl, ImplView, Import, ImportTable, ImportView, Item, ItemView, Module, ModuleView, Scope, ScopeView, Struct, StructView, Trait, TraitView, TupleField, TupleFieldView, Type, TypeAlias, TypeAliasView, TypeDef, TypeDefView, TypeView, Variant, VariantView, assoc_view, block_view, bodies_view, body_view, bounds_view, clone_block, clone_bodies, clone_body, clone_bounds, clone_field_vec, clone_fns, clone_impls, clone_import_table, clone_item, clone_module, clone_opt_docs, clone_opt_type, clone_scope, clone_strings, clone_tuple_field_vec, clone_types, fields_seq_view, fns_view, impls_view, import_row_view, import_rows_view, import_table_view, item_view, items_view, lemma_bodies_view, lemma_bodies_view_eq, lemma_bodies_view_push, lemma_items_view, lemma_items_view_push, lemma_types_view, lemma_types_view_eq, lemma_types_view_push, module_view, opt_bodies_view, opt_docs_view, opt_type_view, scope_view, tuple_fields_view, type_view, types_view, variants_view,
};
use crate::names::{opt_name_view, opt_str_view, XsdName};
use crate::code_items::new_fn_view;
use crate::text::{concat, concat3, owned_all, str_refs_view, strs_view};

verus! {

/// Whether `s` holds two colons in a row starting at `i`.
pub open spec fn path_sep_at(s: Seq<char>, i: int) -> bool {
    s[i] == ':' && s[i + 1] == ':'
}

/// Whether `s` holds two consecutive colons.
pub open spec fn has_path_sep(s: Seq<char>) -> bool {
    exists|i: int| 0 <= i < s.len() - 1 && #[trigger] path_sep_at(s, i)
}

/// Whether `s` holds two consecutive colons.
pub fn contains_path_sep(s: &str) -> (r: bool)
    ensures
        r == has_path_sep(s@),
{
    let cs = crate::text::chars_of(s);
    let mut i: usize = 0;
    while i < cs.len() && i + 1 < cs.len()
        invariant
            cs@ == s@,
            i <= cs@.len(),
            forall|j: int| 0 <= j < i && j < s@.len() - 1 ==> !#[trigger] path_sep_at(s@, j),
        decreases cs@.len() - i,
    {
        if cs[i] == ':' && cs[i + 1] == ':' {
            assert(path_sep_at(s@, i as int));
            return true;
        }
        i += 1;
    }
    false
}

fn opt_owned(v: Option<&str>) -> (r: Option<String>)
    ensures
        opt_str_view(r) == match v {
            Some(s) => Some(s@),
            None => None::<Seq<char>>,
        },
{
    match v {
        Some(s) => Some(s.to_owned()),
        None => None,
    }
}

impl Docs {
    /// Documentation with the given text.
    pub fn new(docs: &str) -> (r: Docs)
        ensures
            r@ == docs@,
    {
        Docs { docs: docs.to_owned() }
    }
}

// ===== Type =====

impl Type {
    /// A type with the given name and no generic arguments.
    pub fn new(xml_name: Option<XsdName>, name: &str) -> (r: Type)
        ensures
            r@ == (TypeView {
                name: name@,
                generics: seq![],
                xml_name: opt_name_view(xml_name),
                docs: None,
            }),
    {
        let r = Type { xml_name, name: name.to_owned(), generics: Vec::new(), docs: None };
        assert(types_view(r.generics@) =~= seq![]);
        r
    }

    /// Sets the documentation of the type.
    pub fn doc(&mut self, docs: &str)
        ensures
            final(self)@ == (TypeView { docs: Some(docs@), ..old(self)@ }),
    {
        self.docs = Some(Docs::new(docs));
    }

    /// The type with the given schema name.
    pub fn xml_name(self, xml_name: Option<XsdName>) -> (r: Self)
        ensures
            r@ == (TypeView { xml_name: opt_name_view(xml_name), ..self@ }),
    {
        let mut r = self;
        r.xml_name = xml_name;
        r
    }

    /// The type with `prefix` put before its name.
    pub fn prefix(self, prefix: &str) -> (r: Self)
        ensures
            r@ == (TypeView { name: prefix@ + self@.name, ..self@ }),
    {
        let mut r = self;
        r.name = concat(prefix, r.name.as_str());
        r
    }

    /// The type `ty<self>`: a type named `ty` whose only generic argument is
    /// this type.
    pub fn wrap(self, ty: &str) -> (r: Self)
        ensures
            r@ == (TypeView { name: ty@, generics: seq![self@], ..self@ }),
    {
        let mut r = self;
        let inner = r.clone();
        r.generics = vec![inner];
        r.name = ty.to_owned();
        proof {
            lemma_types_view_push(Seq::<Type>::empty(), r.generics@[0]);
            assert(r.generics@ =~= Seq::<Type>::empty().push(r.generics@[0]));
            assert(types_view(Seq::<Type>::empty()) =~= seq![]);
        }
        r
    }

    /// The type with one more generic argument; its name must not already
    /// hold generic arguments.
    pub fn generic(self, ty: Type) -> (r: Self)
        requires
            !self@.name.contains('<'),
        ensures
            r@ == (TypeView { generics: self@.generics.push(ty@), ..self@ }),
    {
        let mut r = self;
        proof {
            lemma_types_view_push(r.generics@, ty);
        }
        r.generics.push(ty);
        r
    }

    /// The type named `path::name`; its name must not already hold a path.
    pub fn path(&self, path: &str) -> (r: Type)
        requires
            !has_path_sep(self@.name),
        ensures
            r@ == (TypeView { name: path@ + "::"@ + self@.name, ..self@ }),
    {
        Type {
            name: concat3(path, "::", self.name.as_str()),
            generics: clone_types(&self.generics),
            xml_name: crate::names::clone_opt_name(&self.xml_name),
            docs: clone_opt_docs(&self.docs),
        }
    }
}

// ===== TypeDef =====

pub open spec fn new_type_def_view(xml_name: Option<crate::names::XsdNameView>, name: Seq<char>) -> TypeDefView {
    TypeDefView {
        ty: TypeView { name, generics: seq![], xml_name, docs: None },
        vis: Some("pub"@),
        docs: None,
        derive: seq![],
        allow: seq![],
        repr: None,
        bounds: seq![],
        macros: seq![],
    }
}

pub open spec fn bound_view_of(name: Seq<char>, ty: TypeView) -> BoundView {
    BoundView { name, bound: seq![ty] }
}

impl TypeDef {
    fn new(xml_name: Option<XsdName>, name: &str) -> (r: Self)
        ensures
            r@ == new_type_def_view(opt_name_view(xml_name), name@),
    {
        let r = TypeDef {
            ty: Type::new(xml_name, name),
            vis: Some("pub".to_owned()),
            docs: None,
            derive: Vec::new(),
            allow: Vec::new(),
            repr: None,
            bounds: Vec::new(),
            macros: Vec::new(),
        };
        assert(strs_view(r.derive@) =~= seq![]);
        assert(strs_view(r.allow@) =~= seq![]);
        assert(strs_view(r.macros@) =~= seq![]);
        assert(bounds_view(r.bounds@) =~= seq![]);
        r
    }

    fn vis(&mut self, vis: &str)
        ensures
            final(self)@ == (TypeDefView { vis: Some(vis@), ..old(self)@ }),
    {
        self.vis = Some(vis.to_owned());
    }

    fn bound(&mut self, name: &str, ty: Type)
        ensures
            final(self)@ == (TypeDefView {
                bounds: old(self)@.bounds.push(bound_view_of(name@, ty@)),
                ..old(self)@
            }),
    {
        let b = Bound { name: name.to_owned(), bound: vec![ty] };
        proof {
            lemma_types_view_push(Seq::<Type>::empty(), b.bound@[0]);
            assert(b.bound@ =~= Seq::<Type>::empty().push(b.bound@[0]));
            assert(types_view(Seq::<Type>::empty()) =~= seq![]);
        }
        self.bounds.push(b);
        assert(bounds_view(self.bounds@) =~= bounds_view(old(self).bounds@).push(bound_view_of(name@, ty@)));
    }

    fn add_macro(&mut self, line: &str)
        ensures
            final(self)@ == (TypeDefView { macros: old(self)@.macros.push(line@), ..old(self)@ }),
    {
        self.macros.push(line.to_owned());
        assert(strs_view(self.macros@) =~= strs_view(old(self).macros@).push(line@));
    }

    fn doc(&mut self, docs: &str)
        ensures
            final(self)@ == (TypeDefView { docs: Some(docs@), ..old(self)@ }),
    {
        self.docs = Some(Docs::new(docs));
    }

    fn derive(&mut self, name: &str)
        ensures
            final(self)@ == (TypeDefView { derive: old(self)@.derive.push(name@), ..old(self)@ }),
    {
        self.derive.push(name.to_owned());
        assert(strs_view(self.derive@) =~= strs_view(old(self).derive@).push(name@));
    }

    fn allow(&mut self, allow: &str)
        ensures
            final(self)@ == (TypeDefView { allow: old(self)@.allow.push(allow@), ..old(self)@ }),
    {
        self.allow.push(allow.to_owned());
        assert(strs_view(self.allow@) =~= strs_view(old(self).allow@).push(allow@));
    }

    fn repr(&mut self, repr: &str)
        ensures
            final(self)@ == (TypeDefView { repr: Some(repr@), ..old(self)@ }),
    {
        self.repr = Some(repr.to_owned());
    }

    fn derives(&mut self, names: &[&str])
        ensures
            final(self)@ == (TypeDefView {
                derive: old(self)@.derive + str_refs_view(names@),
                ..old(self)@
            }),
    {
        let mut i: usize = 0;
        while i < names.len()
            invariant
                i <= names@.len(),
                self@ == (TypeDefView {
                    derive: old(self)@.derive + str_refs_view(names@.take(i as int)),
                    ..old(self)@
                }),
            decreases names@.len() - i,
        {
            self.derive(names[i]);
            proof {
                assert(str_refs_view(names@.take(i + 1)) =~= str_refs_view(names@.take(i as int)).push(
                    names@[i as int]@,
                ));
                assert(self@.derive =~= old(self)@.derive + str_refs_view(names@.take(i + 1)));
            }
            i += 1;
        }
        assert(names@.take(names@.len() as int) =~= names@);
    }
}


// ===== Field and Fields =====

/// The field list after one more named field.
pub open spec fn push_named_view(f: FieldsView, x: FieldView) -> FieldsView {
    match f {
        FieldsView::Named(v) => FieldsView::Named(v.push(x)),
        _ => FieldsView::Named(seq![x]),
    }
}

/// The field list after one more positional field.
pub open spec fn push_tuple_view(f: FieldsView, x: TupleFieldView) -> FieldsView {
    match f {
        FieldsView::Tuple(v) => FieldsView::Tuple(v.push(x)),
        _ => FieldsView::Tuple(seq![x]),
    }
}

/// The view of a fresh named field.
pub open spec fn new_field_view(
    xml_name: Option<crate::names::XsdNameView>,
    name: Seq<char>,
    ty: TypeView,
    attribute: bool,
    flatten: bool,
) -> FieldView {
    FieldView {
        name,
        vis: None,
        ty,
        documentation: seq![],
        annotation: seq![],
        xml_name,
        attribute,
        flatten,
    }
}

impl Field {
    /// A field with the given name and type, no visibility and no comments.
    pub fn new(xml_name: Option<XsdName>, name: &str, ty: Type, attribute: bool, flatten: bool) -> (r: Field)
        ensures
            r@ == new_field_view(opt_name_view(xml_name), name@, ty@, attribute, flatten),
    {
        let r = Field {
            name: name.to_owned(),
            ty,
            vis: None,
            documentation: Vec::new(),
            annotation: Vec::new(),
            xml_name,
            attribute,
            flatten,
        };
        assert(strs_view(r.documentation@) =~= seq![]);
        assert(strs_view(r.annotation@) =~= seq![]);
        r
    }

    /// Replaces the documentation lines of the field.
    pub fn doc(&mut self, documentation: Vec<&str>) -> (r: &mut Self)
        ensures
            (*r)@ == (FieldView { documentation: str_refs_view(documentation@), ..old(self)@ }),
            *final(self) == *final(r),
    {
        self.documentation = owned_all(documentation.as_slice());
        self
    }

    /// The field with its annotation lines replaced.
    pub fn annotation(self, annotation: Vec<&str>) -> (r: Self)
        ensures
            r@ == (FieldView { annotation: str_refs_view(annotation@), ..self@ }),
    {
        let mut r = self;
        r.annotation = owned_all(annotation.as_slice());
        r
    }

    /// The field with the given visibility.
    pub fn vis(self, vis: &str) -> (r: Self)
        ensures
            r@ == (FieldView { vis: Some(vis@), ..self@ }),
    {
        let mut r = self;
        r.vis = Some(vis.to_owned());
        r
    }
}

impl Fields {
    /// Appends a named field; the list must not be positional.
    pub fn push_named(&mut self, field: Field) -> (r: &mut Self)
        requires
            !(old(self)@ is Tuple),
        ensures
            (*r)@ == push_named_view(old(self)@, field@),
            *final(self) == *final(r),
    {
        let ghost fv = field@;
        match self {
            Fields::Named(fields) => {
                fields.push(field);
                assert(fields_seq_view(fields@) =~= fields_seq_view(old(self)->Named_0@).push(fv));
            },
            _ => {
                let v = vec![field];
                assert(fields_seq_view(v@) =~= seq![fv]);
                *self = Fields::Named(v);
            },
        }
        self
    }

    /// Appends a named field built from its parts; the list must not be
    /// positional.
    pub fn named(
        &mut self,
        xml_name: Option<XsdName>,
        name: &str,
        ty: Type,
        attribute: bool,
        flatten: bool,
    ) -> (r: &mut Self)
        requires
            !(old(self)@ is Tuple),
        ensures
            (*r)@ == push_named_view(
                old(self)@,
                new_field_view(opt_name_view(xml_name), name@, ty@, attribute, flatten),
            ),
            *final(self) == *final(r),
    {
        self.push_named(Field::new(xml_name, name, ty, attribute, flatten))
    }

    /// Appends a positional field with the given visibility; the list must
    /// not be named.
    pub fn tuple_vis(&mut self, vis: &str, ty: Type, attribute: bool, flatten: bool) -> (r: &mut Self)
        requires
            !(old(self)@ is Named),
        ensures
            (*r)@ == push_tuple_view(
                old(self)@,
                TupleFieldView { vis: Some(vis@), ty: ty@, attribute, flatten },
            ),
            *final(self) == *final(r),
    {
        self.tuple(Some(vis), ty, attribute, flatten)
    }

    /// Appends a positional field; the list must not be named.
    pub fn tuple(&mut self, vis: Option<&str>, ty: Type, attribute: bool, flatten: bool) -> (r: &mut Self)
        requires
            !(old(self)@ is Named),
        ensures
            (*r)@ == push_tuple_view(
                old(self)@,
                TupleFieldView {
                    vis: match vis {
                        Some(v) => Some(v@),
                        None => None,
                    },
                    ty: ty@,
                    attribute,
                    flatten,
                },
            ),
            *final(self) == *final(r),
    {
        let field = TupleField { vis: opt_owned(vis), ty, attribute, flatten };
        let ghost fv = field@;
        match self {
            Fields::Tuple(fields) => {
                fields.push(field);
                assert(tuple_fields_view(fields@) =~= tuple_fields_view(old(self)->Tuple_0@).push(fv));
            },
            _ => {
                let v = vec![field];
                assert(tuple_fields_view(v@) =~= seq![fv]);
                *self = Fields::Tuple(v);
            },
        }
        self
    }
}


// ===== Struct =====

impl Struct {
    /// A public struct with the given name and no fields.
    pub fn new(xml_name: Option<XsdName>, name: &str) -> (r: Struct)
        ensures
            r@ == (StructView {
                type_def: new_type_def_view(opt_name_view(xml_name), name@),
                fields: FieldsView::Empty,
            }),
    {
        Struct { type_def: TypeDef::new(xml_name, name), fields: Fields::Empty }
    }

    /// The type that the struct defines.
    pub fn ty(&self) -> (r: &Type)
        ensures
            r@ == self@.type_def.ty,
    {
        &self.type_def.ty
    }

    /// The struct with the given visibility.
    pub fn vis(self, vis: &str) -> (r: Self)
        ensures
            r@ == (StructView { type_def: TypeDefView { vis: Some(vis@), ..self@.type_def }, ..self@ }),
    {
        let mut r = self;
        r.type_def.vis(vis);
        r
    }

    /// The struct with one more generic parameter; its name must not
    /// already hold generic arguments.
    pub fn generic(self, ty: &Type) -> (r: Self)
        requires
            !self@.type_def.ty.name.contains('<'),
        ensures
            r@ == (StructView {
                type_def: TypeDefView {
                    ty: TypeView { generics: self@.type_def.ty.generics.push(ty@), ..self@.type_def.ty },
                    ..self@.type_def
                },
                ..self@
            }),
    {
        let mut r = self;
        let t = r.type_def.ty.clone();
        r.type_def.ty = t.generic(ty.clone());
        r
    }

    /// Adds a `where` bound.
    pub fn bound(&mut self, name: &str, ty: Type) -> (r: &mut Self)
        ensures
            (*r)@ == (StructView {
                type_def: TypeDefView {
                    bounds: old(self)@.type_def.bounds.push(bound_view_of(name@, ty@)),
                    ..old(self)@.type_def
                },
                ..old(self)@
            }),
            *final(self) == *final(r),
    {
        self.type_def.bound(name, ty);
        self
    }

    /// Sets the documentation.
    pub fn doc(&mut self, docs: &str) -> (r: &mut Self)
        ensures
            (*r)@ == (StructView {
                type_def: TypeDefView { docs: Some(docs@), ..old(self)@.type_def },
                ..old(self)@
            }),
            *final(self) == *final(r),
    {
        self.type_def.doc(docs);
        self
    }

    /// Adds a derived trait.
    pub fn derive(&mut self, name: &str) -> (r: &mut Self)
        ensures
            (*r)@ == (StructView {
                type_def: TypeDefView {
                    derive: old(self)@.type_def.derive.push(name@),
                    ..old(self)@.type_def
                },
                ..old(self)@
            }),
            *final(self) == *final(r),
    {
        self.type_def.derive(name);
        self
    }

    /// The struct with the given derived traits added, in order.
    pub fn derives(self, names: &[&str]) -> (r: Self)
        ensures
            r@ == (StructView {
                type_def: TypeDefView {
                    derive: self@.type_def.derive + str_refs_view(names@),
                    ..self@.type_def
                },
                ..self@
            }),
    {
        let mut r = self;
        r.type_def.derives(names);
        r
    }

    /// Adds a lint to allow.
    pub fn allow(&mut self, allow: &str) -> (r: &mut Self)
        ensures
            (*r)@ == (StructView {
                type_def: TypeDefView {
                    allow: old(self)@.type_def.allow.push(allow@),
                    ..old(self)@.type_def
                },
                ..old(self)@
            }),
            *final(self) == *final(r),
    {
        self.type_def.allow(allow);
        self
    }

    /// Sets the representation.
    pub fn repr(&mut self, repr: &str) -> (r: &mut Self)
        ensures
            (*r)@ == (StructView {
                type_def: TypeDefView { repr: Some(repr@), ..old(self)@.type_def },
                ..old(self)@
            }),
            *final(self) == *final(r),
    {
        self.type_def.repr(repr);
        self
    }

    /// Appends a named field; the struct must not have positional fields.
    pub fn push_field(&mut self, field: Field) -> (r: &mut Self)
        requires
            !(old(self)@.fields is Tuple),
        ensures
            (*r)@ == (StructView { fields: push_named_view(old(self)@.fields, field@), ..old(self)@ }),
            *final(self) == *final(r),
    {
        self.fields.push_named(field);
        self
    }

    /// Appends a named field built from its parts; the struct must not have
    /// positional fields.
    pub fn field(
        &mut self,
        xml_name: Option<XsdName>,
        name: &str,
        ty: Type,
        attribute: bool,
        flatten: bool,
    ) -> (r: &mut Self)
        requires
            !(old(self)@.fields is Tuple),
        ensures
            (*r)@ == (StructView {
                fields: push_named_view(
                    old(self)@.fields,
                    new_field_view(opt_name_view(xml_name), name@, ty@, attribute, flatten),
                ),
                ..old(self)@
            }),
            *final(self) == *final(r),
    {
        self.fields.named(xml_name, name, ty, attribute, flatten);
        self
    }

    /// The struct with one more positional field; it must not have named
    /// fields.
    pub fn tuple_field(self, vis: Option<&str>, ty: Type, attribute: bool, flatten: bool) -> (r: Self)
        requires
            !(self@.fields is Named),
        ensures
            r@ == (StructView {
                fields: push_tuple_view(
                    self@.fields,
                    TupleFieldView {
                        vis: match vis {
                            Some(v) => Some(v@),
                            None => None,
                        },
                        ty: ty@,
                        attribute,
                        flatten,
                    },
                ),
                ..self@
            }),
    {
        let mut r = self;
        r.fields.tuple(vis, ty, attribute, flatten);
        r
    }
}

// ===== Variant =====

impl Variant {
    /// A variant with the given name and no fields.
    pub fn new(xml_name: Option<XsdName>, name: &str) -> (r: Variant)
        ensures
            r@ == (VariantView {
                name: name@,
                fields: FieldsView::Empty,
                attributes: seq![],
                xml_name: opt_name_view(xml_name),
                doc: None,
            }),
    {
        Variant {
            name: name.to_owned(),
            fields: Fields::Empty,
            attributes: String::new(),
            xml_name,
            doc: None,
        }
    }

    /// The variant with `attribute` appended to its attribute text.
    pub fn attribute(self, attribute: &str) -> (r: Self)
        ensures
            r@ == (VariantView { attributes: self@.attributes + attribute@, ..self@ }),
    {
        let mut r = self;
        r.attributes.push_str(attribute);
        r
    }

    /// The variant with one more named field; it must not have positional
    /// fields.
    pub fn named(self, xml_name: Option<XsdName>, name: &str, ty: Type, attribute: bool, flatten: bool) -> (r: Self)
        requires
            !(self@.fields is Tuple),
        ensures
            r@ == (VariantView {
                fields: push_named_view(
                    self@.fields,
                    new_field_view(opt_name_view(xml_name), name@, ty@, attribute, flatten),
                ),
                ..self@
            }),
    {
        let mut r = self;
        r.fields.named(xml_name, name, ty, attribute, flatten);
        r
    }

    /// The variant with one more positional field; it must not have named
    /// fields.
    pub fn tuple(self, vis: Option<&str>, ty: Type, attribute: bool, flatten: bool) -> (r: Self)
        requires
            !(self@.fields is Named),
        ensures
            r@ == (VariantView {
                fields: push_tuple_view(
                    self@.fields,
                    TupleFieldView {
                        vis: match vis {
                            Some(v) => Some(v@),
                            None => None,
                        },
                        ty: ty@,
                        attribute,
                        flatten,
                    },
                ),
                ..self@
            }),
    {
        let mut r = self;
        r.fields.tuple(vis, ty, attribute, flatten);
        r
    }
}


// ===== Enum =====

impl Enum {
    /// A public enum with the given name and no variants.
    pub fn new(xml_name: Option<XsdName>, name: &str) -> (r: Enum)
        ensures
            r@ == (EnumView {
                type_def: new_type_def_view(opt_name_view(xml_name), name@),
                variants: seq![],
            }),
    {
        let r = Enum { type_def: TypeDef::new(xml_name, name), variants: Vec::new() };
        assert(variants_view(r.variants@) =~= seq![]);
        r
    }

    /// The type that the enum defines.
    pub fn ty(&self) -> (r: &Type)
        ensures
            r@ == self@.type_def.ty,
    {
        &self.type_def.ty
    }

    /// The enum with the given visibility.
    pub fn vis(self, vis: &str) -> (r: Self)
        ensures
            r@ == (EnumView { type_def: TypeDefView { vis: Some(vis@), ..self@.type_def }, ..self@ }),
    {
        let mut r = self;
        r.type_def.vis(vis);
        r
    }

    /// The enum with one more generic parameter; its name must not already
    /// hold generic arguments.
    pub fn generic(self, ty: &Type) -> (r: Self)
        requires
            !self@.type_def.ty.name.contains('<'),
        ensures
            r@ == (EnumView {
                type_def: TypeDefView {
                    ty: TypeView { generics: self@.type_def.ty.generics.push(ty@), ..self@.type_def.ty },
                    ..self@.type_def
                },
                ..self@
            }),
    {
        let mut r = self;
        let t = r.type_def.ty.clone();
        r.type_def.ty = t.generic(ty.clone());
        r
    }

    /// Adds a `where` bound.
    pub fn bound(&mut self, name: &str, ty: Type) -> (r: &mut Self)
        ensures
            (*r)@ == (EnumView {
                type_def: TypeDefView {
                    bounds: old(self)@.type_def.bounds.push(bound_view_of(name@, ty@)),
                    ..old(self)@.type_def
                },
                ..old(self)@
            }),
            *final(self) == *final(r),
    {
        self.type_def.bound(name, ty);
        self
    }

    /// Sets the documentation.
    pub fn doc(&mut self, docs: &str) -> (r: &mut Self)
        ensures
            (*r)@ == (EnumView {
                type_def: TypeDefView { docs: Some(docs@), ..old(self)@.type_def },
                ..old(self)@
            }),
            *final(self) == *final(r),
    {
        self.type_def.doc(docs);
        self
    }

    /// The enum with the given derived traits added, in order.
    pub fn derives(self, names: &[&str]) -> (r: Self)
        ensures
            r@ == (EnumView {
                type_def: TypeDefView {
                    derive: self@.type_def.derive + str_refs_view(names@),
                    ..self@.type_def
                },
                ..self@
            }),
    {
        let mut r = self;
        r.type_def.derives(names);
        r
    }

    /// Adds a derived trait.
    pub fn derive(&mut self, name: &str) -> (r: &mut Self)
        ensures
            (*r)@ == (EnumView {
                type_def: TypeDefView {
                    derive: old(self)@.type_def.derive.push(name@),
                    ..old(self)@.type_def
                },
                ..old(self)@
            }),
            *final(self) == *final(r),
    {
        self.type_def.derive(name);
        self
    }

    /// Adds a lint to allow.
    pub fn allow(&mut self, allow: &str) -> (r: &mut Self)
        ensures
            (*r)@ == (EnumView {
                type_def: TypeDefView {
                    allow: old(self)@.type_def.allow.push(allow@),
                    ..old(self)@.type_def
                },
                ..old(self)@
            }),
            *final(self) == *final(r),
    {
        self.type_def.allow(allow);
        self
    }

    /// Sets the representation.
    pub fn repr(&mut self, repr: &str) -> (r: &mut Self)
        ensures
            (*r)@ == (EnumView {
                type_def: TypeDefView { repr: Some(repr@), ..old(self)@.type_def },
                ..old(self)@
            }),
            *final(self) == *final(r),
    {
        self.type_def.repr(repr);
        self
    }

    /// Appends a fresh variant and returns it for further configuration.
    pub fn new_variant(&mut self, xml_name: Option<XsdName>, name: &str) -> (r: &mut Variant)
        ensures
            (*r)@ == (VariantView {
                name: name@,
                fields: FieldsView::Empty,
                attributes: seq![],
                xml_name: opt_name_view(xml_name),
                doc: None,
            }),
            final(self).variants@ == old(self).variants@.push(*final(r)),
            final(self).type_def == old(self).type_def,
    {
        self.variants.push(Variant::new(xml_name, name));
        let n = self.variants.len() - 1;
        &mut self.variants[n]
    }

    /// The enum with one more variant.
    pub fn push_variant(self, item: Variant) -> (r: Self)
        ensures
            r@ == (EnumView { variants: self@.variants.push(item@), ..self@ }),
    {
        let mut r = self;
        let ghost iv = item@;
        r.variants.push(item);
        assert(variants_view(r.variants@) =~= variants_view(self.variants@).push(iv));
        r
    }
}

// ===== Trait =====

impl Trait {
    /// A public trait with the given name and nothing in it.
    pub fn new(name: &str, xml_name: Option<XsdName>) -> (r: Trait)
        ensures
            r@ == (TraitView {
                type_def: new_type_def_view(opt_name_view(xml_name), name@),
                parents: seq![],
                associated_tys: seq![],
                fns: seq![],
                macros: seq![],
            }),
    {
        let r = Trait {
            type_def: TypeDef::new(xml_name, name),
            parents: Vec::new(),
            associated_tys: Vec::new(),
            fns: Vec::new(),
            macros: Vec::new(),
        };
        assert(types_view(r.parents@) =~= seq![]);
        assert(assoc_view(r.associated_tys@) =~= seq![]);
        assert(fns_view(r.fns@) =~= seq![]);
        assert(strs_view(r.macros@) =~= seq![]);
        r
    }

    /// The type that the trait defines.
    pub fn ty(&self) -> (r: &Type)
        ensures
            r@ == self@.type_def.ty,
    {
        &self.type_def.ty
    }

    /// The trait with the given visibility.
    pub fn vis(self, vis: &str) -> (r: Self)
        ensures
            r@ == (TraitView { type_def: TypeDefView { vis: Some(vis@), ..self@.type_def }, ..self@ }),
    {
        let mut r = self;
        r.type_def.vis(vis);
        r
    }

    /// The trait with one more generic parameter; its name must not already
    /// hold generic arguments.
    pub fn generic(self, ty: &Type) -> (r: Self)
        requires
            !self@.type_def.ty.name.contains('<'),
        ensures
            r@ == (TraitView {
                type_def: TypeDefView {
                    ty: TypeView { generics: self@.type_def.ty.generics.push(ty@), ..self@.type_def.ty },
                    ..self@.type_def
                },
                ..self@
            }),
    {
        let mut r = self;
        let t = r.type_def.ty.clone();
        r.type_def.ty = t.generic(ty.clone());
        r
    }

    /// Adds a `where` bound.
    pub fn bound(&mut self, name: &str, ty: Type) -> (r: &mut Self)
        ensures
            (*r)@ == (TraitView {
                type_def: TypeDefView {
                    bounds: old(self)@.type_def.bounds.push(bound_view_of(name@, ty@)),
                    ..old(self)@.type_def
                },
                ..old(self)@
            }),
            *final(self) == *final(r),
    {
        self.type_def.bound(name, ty);
        self
    }

    /// Adds a macro line written before the trait.
    pub fn add_macro(&mut self, line: &str) -> (r: &mut Self)
        ensures
            (*r)@ == (TraitView {
                type_def: TypeDefView {
                    macros: old(self)@.type_def.macros.push(line@),
                    ..old(self)@.type_def
                },
                ..old(self)@
            }),
            *final(self) == *final(r),
    {
        self.type_def.add_macro(line);
        self
    }

    /// Adds a parent trait.
    pub fn parent(&mut self, ty: Type) -> (r: &mut Self)
        ensures
            (*r)@ == (TraitView { parents: old(self)@.parents.push(ty@), ..old(self)@ }),
            *final(self) == *final(r),
    {
        proof {
            lemma_types_view_push(self.parents@, ty);
        }
        self.parents.push(ty);
        self
    }

    /// Sets the documentation.
    pub fn doc(&mut self, docs: &str) -> (r: &mut Self)
        ensures
            (*r)@ == (TraitView {
                type_def: TypeDefView { docs: Some(docs@), ..old(self)@.type_def },
                ..old(self)@
            }),
            *final(self) == *final(r),
    {
        self.type_def.doc(docs);
        self
    }

    /// Adds an associated type without bounds and returns it for further
    /// configuration.
    pub fn associated_type(&mut self, name: &str) -> (r: &mut AssociatedType)
        ensures
            (*r)@ == (BoundView { name: name@, bound: seq![] }),
            final(self).associated_tys@ == old(self).associated_tys@.push(*final(r)),
            final(self).type_def == old(self).type_def,
            final(self).parents == old(self).parents,
            final(self).fns == old(self).fns,
            final(self).macros == old(self).macros,
    {
        let b = Bound { name: name.to_owned(), bound: Vec::new() };
        assert(types_view(b.bound@) =~= seq![]);
        self.associated_tys.push(AssociatedType(b));
        let n = self.associated_tys.len() - 1;
        &mut self.associated_tys[n]
    }

    /// Appends a function declaration without a body and returns it for
    /// further configuration.
    pub fn new_fn(&mut self, name: &str) -> (r: &mut Function)
        ensures
            (*r)@ == (FunctionView { body: None, ..new_fn_view(name@) }),
            final(self).fns@ == old(self).fns@.push(*final(r)),
            final(self).type_def == old(self).type_def,
            final(self).parents == old(self).parents,
            final(self).associated_tys == old(self).associated_tys,
            final(self).macros == old(self).macros,
    {
        let mut func = Function::new(name);
        func.body = None;
        self.fns.push(func);
        let n = self.fns.len() - 1;
        &mut self.fns[n]
    }

    /// Appends a function.
    pub fn push_fn(&mut self, item: Function) -> (r: &mut Self)
        ensures
            (*r)@ == (TraitView { fns: old(self)@.fns.push(item@), ..old(self)@ }),
            *final(self) == *final(r),
    {
        let ghost iv = item@;
        self.fns.push(item);
        assert(fns_view(self.fns@) =~= fns_view(old(self).fns@).push(iv));
        self
    }
}

impl AssociatedType {
    /// Adds a bound to the associated type.
    pub fn bound(&mut self, ty: Type) -> (r: &mut Self)
        ensures
            (*r)@ == (BoundView { bound: old(self)@.bound.push(ty@), ..old(self)@ }),
            *final(self) == *final(r),
    {
        proof {
            lemma_types_view_push(self.0.bound@, ty);
        }
        self.0.bound.push(ty);
        self
    }
}

} // verus!
