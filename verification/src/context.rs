//! The generated pieces of code that schema components stand for, and how
//! one piece is merged into another.
use vstd::prelude::*;

use crate::code_doc::{render_text, Chunk, Formatter};
use crate::code_eq::{enum_eq, field_eq, impl_eq, struct_eq, type_eq};
use crate::code_fmt::{enum_doc, enum_ok, fields_ok, struct_doc, txt, type_doc};
use crate::code_model::{
    Enum, EnumView, Field, FieldView, Fields, FieldsView, Impl, ImplView, Struct, StructView, Type,
    TypeView, clone_impls, impls_view,
};
use crate::names::{
    clone_opt_str, field_name_spec, opt_str_eq, opt_str_view, struct_name_spec, to_field_name,
    to_struct_name, xsd_type_label, XsdName, XsdNameView, XsdType,
};
use crate::text::{concat, str_eq};

verus! {

/// The piece of code that a schema component stands for.
#[derive(Debug)]
pub enum XsdElement {
    Struct(Struct),
    Enum(Enum),
    Field(Field),
    Type(Type),
    TypeAlias(Type, Type),
}

pub enum XsdElementView {
    Struct(StructView),
    Enum(EnumView),
    Field(FieldView),
    Type(TypeView),
    TypeAlias(TypeView, TypeView),
}

impl View for XsdElement {
    type V = XsdElementView;

    open spec fn view(&self) -> XsdElementView {
        match self {
            XsdElement::Struct(s) => XsdElementView::Struct(s@),
            XsdElement::Enum(e) => XsdElementView::Enum(e@),
            XsdElement::Field(f) => XsdElementView::Field(f@),
            XsdElement::Type(t) => XsdElementView::Type(t@),
            XsdElement::TypeAlias(a, t) => XsdElementView::TypeAlias(a@, t@),
        }
    }
}

impl Clone for XsdElement {
    fn clone(&self) -> (r: Self)
        ensures
            r@ == self@,
    {
        match self {
            XsdElement::Struct(s) => XsdElement::Struct(s.clone()),
            XsdElement::Enum(e) => XsdElement::Enum(e.clone()),
            XsdElement::Field(f) => XsdElement::Field(f.clone()),
            XsdElement::Type(t) => XsdElement::Type(t.clone()),
            XsdElement::TypeAlias(a, t) => XsdElement::TypeAlias(a.clone(), t.clone()),
        }
    }
}

/// Whether two elements are equal.
pub fn element_eq(a: &XsdElement, b: &XsdElement) -> (r: bool)
    ensures
        r == (a@ == b@),
{
    match (a, b) {
        (XsdElement::Struct(x), XsdElement::Struct(y)) => struct_eq(x, y),
        (XsdElement::Enum(x), XsdElement::Enum(y)) => enum_eq(x, y),
        (XsdElement::Field(x), XsdElement::Field(y)) => field_eq(x, y),
        (XsdElement::Type(x), XsdElement::Type(y)) => type_eq(x, y),
        (XsdElement::TypeAlias(x1, x2), XsdElement::TypeAlias(y1, y2)) => type_eq(x1, y1) && type_eq(
            x2,
            y2,
        ),
        _ => false,
    }
}

/// The type that an element defines or refers to.
pub open spec fn element_type(e: XsdElementView) -> TypeView {
    match e {
        XsdElementView::Struct(s) => s.type_def.ty,
        XsdElementView::Enum(x) => x.type_def.ty,
        XsdElementView::Field(f) => f.ty,
        XsdElementView::Type(t) => t,
        XsdElementView::TypeAlias(a, _) => a,
    }
}

/// The text of a type, as `Type::to_string` writes it.
pub open spec fn type_text(t: TypeView) -> Seq<char> {
    render_text(type_doc(t))
}

/// A type with the given name and nothing else.
pub open spec fn plain_type(name: Seq<char>) -> TypeView {
    TypeView { name, generics: seq![], xml_name: None, docs: None }
}

/// The element with the type that it defines replaced; only structs and
/// enums define one.
pub open spec fn element_with_type(e: XsdElementView, t: TypeView) -> XsdElementView {
    match e {
        XsdElementView::Struct(s) => XsdElementView::Struct(
            StructView { type_def: crate::code_model::TypeDefView { ty: t, ..s.type_def }, ..s },
        ),
        XsdElementView::Enum(x) => XsdElementView::Enum(
            EnumView { type_def: crate::code_model::TypeDefView { ty: t, ..x.type_def }, ..x },
        ),
        _ => e,
    }
}

/// The element with documentation added: structs and enums get it as their
/// documentation, fields as their only documentation line.
pub open spec fn element_with_doc(e: XsdElementView, doc: Seq<char>) -> XsdElementView {
    match e {
        XsdElementView::Struct(s) => XsdElementView::Struct(
            StructView { type_def: crate::code_model::TypeDefView { docs: Some(doc), ..s.type_def }, ..s },
        ),
        XsdElementView::Enum(x) => XsdElementView::Enum(
            EnumView { type_def: crate::code_model::TypeDefView { docs: Some(doc), ..x.type_def }, ..x },
        ),
        XsdElementView::Field(f) => XsdElementView::Field(FieldView { documentation: seq![doc], ..f }),
        _ => e,
    }
}

/// What an element writes: its definition, or `pub type alias = ty;`, or
/// nothing for a bare type.
pub open spec fn element_doc(e: XsdElementView) -> Seq<Chunk> {
    match e {
        XsdElementView::Struct(s) => struct_doc(s),
        XsdElementView::Enum(x) => enum_doc(x),
        XsdElementView::TypeAlias(a, t) => txt("pub type "@) + type_doc(a) + txt(" = "@) + type_doc(t)
            + txt(";\n"@),
        _ => seq![],
    }
}

/// Elements that can be written: not a lone field, and structs and enums
/// whose field lists are not empty where they are named or positional.
pub open spec fn element_ok(e: XsdElementView) -> bool {
    match e {
        XsdElementView::Struct(s) => fields_ok(s.fields),
        XsdElementView::Enum(x) => enum_ok(x),
        XsdElementView::Field(_) => false,
        _ => true,
    }
}

impl XsdElement {
    /// Writes the element.
    pub fn fmt(&self, f: &mut Formatter)
        requires
            element_ok(self@),
        ensures
            final(f).origin() == old(f).origin(),
            final(f).log() == old(f).log() + element_doc(self@),
    {
        let ghost start = f.log();
        match self {
            XsdElement::Struct(s) => s.fmt(f),
            XsdElement::Enum(e) => e.fmt(f),
            XsdElement::TypeAlias(alias, ty) => {
                f.write_str("pub type ");
                alias.fmt(f);
                f.write_str(" = ");
                ty.fmt(f);
                f.write_str(";\n");
                assert(f.log() =~= start + element_doc(self@));
            },
            XsdElement::Field(_) => {},
            XsdElement::Type(_) => {
                assert(f.log() =~= start + element_doc(self@));
            },
        }
    }

    /// The type that the element defines or refers to.
    pub fn get_type(&self) -> (r: Type)
        ensures
            r@ == element_type(self@),
    {
        match self {
            XsdElement::Struct(s) => s.ty().clone(),
            XsdElement::Enum(e) => e.ty().clone(),
            XsdElement::Type(t) => t.clone(),
            XsdElement::TypeAlias(t, _) => t.clone(),
            XsdElement::Field(f) => f.ty.clone(),
        }
    }

    /// The type that the element defines or refers to; every element has
    /// one.
    pub fn try_get_type(&self) -> (r: Option<Type>)
        ensures
            r is Some,
            r.unwrap()@ == element_type(self@),
    {
        Some(self.get_type())
    }

    /// Replaces the type that a struct or enum defines; other elements stay
    /// as they are.
    pub fn set_type(&mut self, name: Type)
        ensures
            final(self)@ == element_with_type(old(self)@, name@),
    {
        match self {
            XsdElement::Struct(s) => {
                s.type_def.ty = name;
            },
            XsdElement::Enum(e) => {
                e.type_def.ty = name;
            },
            _ => {},
        }
    }

    /// Documents the element (a struct, an enum or a field).
    pub fn add_doc(&mut self, doc: &str)
        ensures
            final(self)@ == element_with_doc(old(self)@, doc@),
    {
        match self {
            XsdElement::Struct(s) => {
                s.doc(doc);
            },
            XsdElement::Enum(e) => {
                e.doc(doc);
            },
            XsdElement::Field(field) => {
                let mut lines: Vec<&str> = Vec::new();
                lines.push(doc);
                assert(crate::text::str_refs_view(lines@) =~= seq![doc@]);
                field.doc(lines);
            },
            _ => {},
        }
    }
}

/// The generated code for one schema component: its element, the pieces
/// nested in it and the `impl` blocks that go with it.
#[derive(Debug)]
pub struct XsdImpl {
    pub name: XsdName,
    pub fieldname_hint: Option<String>,
    pub element: XsdElement,
    pub inner: Vec<XsdImpl>,
    pub implementation: Vec<Impl>,
    pub flatten: bool,
}

pub struct XsdImplView {
    pub name: XsdNameView,
    pub fieldname_hint: Option<Seq<char>>,
    pub element: XsdElementView,
    pub inner: Seq<XsdImplView>,
    pub implementation: Seq<ImplView>,
    pub flatten: bool,
}

pub open spec fn impl_view(x: XsdImpl) -> XsdImplView
    decreases x,
{
    XsdImplView {
        name: x.name@,
        fieldname_hint: opt_str_view(x.fieldname_hint),
        element: x.element@,
        inner: impls_seq_view(x.inner@),
        implementation: impls_view(x.implementation@),
        flatten: x.flatten,
    }
}

pub open spec fn impls_seq_view(s: Seq<XsdImpl>) -> Seq<XsdImplView>
    decreases s,
{
    if s.len() == 0 {
        seq![]
    } else {
        impls_seq_view(s.drop_last()).push(impl_view(s.last()))
    }
}

pub proof fn lemma_impls_seq_view(s: Seq<XsdImpl>)
    ensures
        impls_seq_view(s).len() == s.len(),
        forall|j: int| 0 <= j < s.len() ==> #[trigger] impls_seq_view(s)[j] == impl_view(s[j]),
    decreases s.len(),
{
    if s.len() > 0 {
        lemma_impls_seq_view(s.drop_last());
    }
}

pub proof fn lemma_impls_seq_view_push(s: Seq<XsdImpl>, x: XsdImpl)
    ensures
        impls_seq_view(s.push(x)) == impls_seq_view(s).push(impl_view(x)),
{
    assert(s.push(x).drop_last() =~= s);
}

pub proof fn lemma_impls_seq_view_eq(a: Seq<XsdImpl>, b: Seq<XsdImpl>)
    requires
        a.len() == b.len(),
        forall|j: int| 0 <= j < a.len() ==> impl_view(a[j]) == impl_view(b[j]),
    ensures
        impls_seq_view(a) == impls_seq_view(b),
{
    lemma_impls_seq_view(a);
    lemma_impls_seq_view(b);
    assert(impls_seq_view(a) =~= impls_seq_view(b));
}

impl View for XsdImpl {
    type V = XsdImplView;

    open spec fn view(&self) -> XsdImplView {
        impl_view(*self)
    }
}

/// A copy of a generated piece of code.
pub fn clone_impl(x: &XsdImpl) -> (r: XsdImpl)
    ensures
        impl_view(r) == impl_view(*x),
    decreases x,
{
    let mut inner: Vec<XsdImpl> = Vec::new();
    let mut i: usize = 0;
    while i < x.inner.len()
        invariant
            i <= x.inner@.len(),
            inner@.len() == i,
            forall|j: int| 0 <= j < i ==> impl_view(inner@[j]) == impl_view(x.inner@[j]),
        decreases x.inner@.len() - i,
    {
        assert(decreases_to!(x => x.inner@[i as int]));
        inner.push(clone_impl(&x.inner[i]));
        i += 1;
    }
    proof {
        lemma_impls_seq_view_eq(inner@, x.inner@);
    }
    XsdImpl {
        name: x.name.clone(),
        fieldname_hint: clone_opt_str(&x.fieldname_hint),
        element: x.element.clone(),
        inner,
        implementation: clone_impls(&x.implementation),
        flatten: x.flatten,
    }
}

impl Clone for XsdImpl {
    fn clone(&self) -> (r: Self)
        ensures
            r@ == self@,
    {
        clone_impl(self)
    }
}

fn impl_vec_eq(a: &Vec<Impl>, b: &Vec<Impl>) -> (r: bool)
    ensures
        r == (impls_view(a@) == impls_view(b@)),
{
    if a.len() != b.len() {
        assert(impls_view(a@).len() != impls_view(b@).len());
        return false;
    }
    let mut i: usize = 0;
    while i < a.len()
        invariant
            i <= a@.len(),
            a@.len() == b@.len(),
            forall|j: int| 0 <= j < i ==> (#[trigger] a@[j])@ == b@[j]@,
        decreases a@.len() - i,
    {
        if !impl_eq(&a[i], &b[i]) {
            assert(impls_view(a@)[i as int] != impls_view(b@)[i as int]);
            return false;
        }
        i += 1;
    }
    assert(impls_view(a@) =~= impls_view(b@));
    true
}

/// Whether two generated pieces of code are equal.
pub fn xsd_impl_eq(a: &XsdImpl, b: &XsdImpl) -> (r: bool)
    ensures
        r == (impl_view(*a) == impl_view(*b)),
    decreases a,
{
    proof {
        lemma_impls_seq_view(a.inner@);
        lemma_impls_seq_view(b.inner@);
    }
    if !a.name.same_as(&b.name) || !opt_str_eq(&a.fieldname_hint, &b.fieldname_hint) || !element_eq(
        &a.element,
        &b.element,
    ) || !impl_vec_eq(&a.implementation, &b.implementation) || a.flatten != b.flatten {
        return false;
    }
    if a.inner.len() != b.inner.len() {
        return false;
    }
    let mut i: usize = 0;
    while i < a.inner.len()
        invariant
            i <= a.inner@.len(),
            a.inner@.len() == b.inner@.len(),
            impls_seq_view(a.inner@).len() == a.inner@.len(),
            impls_seq_view(b.inner@).len() == b.inner@.len(),
            forall|j: int| 0 <= j < a.inner@.len() ==> #[trigger] impls_seq_view(a.inner@)[j] == impl_view(a.inner@[j]),
            forall|j: int| 0 <= j < b.inner@.len() ==> #[trigger] impls_seq_view(b.inner@)[j] == impl_view(b.inner@[j]),
            forall|j: int| 0 <= j < i ==> impl_view(#[trigger] a.inner@[j]) == impl_view(b.inner@[j]),
        decreases a.inner@.len() - i,
    {
        assert(decreases_to!(a => a.inner@[i as int]));
        if !xsd_impl_eq(&a.inner[i], &b.inner[i]) {
            assert(impls_seq_view(a.inner@)[i as int] != impls_seq_view(b.inner@)[i as int]);
            return false;
        }
        i += 1;
    }
    assert(impls_seq_view(a.inner@) =~= impls_seq_view(b.inner@));
    true
}

} // verus!
