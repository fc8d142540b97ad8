//! Equality of code model values, by their views.
use vstd::prelude::*;

use crate::code_model::{
    Block, Body, Bound, Docs, Enum, Field, Fields, Function, Impl, Struct, TupleField, Type,
    TypeDef, Variant, block_view, bodies_view, body_view, bounds_view, fields_seq_view, fns_view,
    lemma_bodies_view, lemma_types_view, opt_bodies_view, opt_docs_view, opt_type_view,
    tuple_fields_view, type_view, types_view, variants_view,
};
use crate::names::{opt_name_view, opt_str_eq, XsdName};
use crate::text::{str_eq, strs_view};

verus! {

/// Whether two optional schema names are equal.
pub fn opt_name_eq(a: &Option<XsdName>, b: &Option<XsdName>) -> (r: bool)
    ensures
        r == (opt_name_view(*a) == opt_name_view(*b)),
{
    match (a, b) {
        (Some(x), Some(y)) => x.same_as(y),
        (None, None) => true,
        _ => false,
    }
}

fn opt_docs_eq(a: &Option<Docs>, b: &Option<Docs>) -> (r: bool)
    ensures
        r == (opt_docs_view(*a) == opt_docs_view(*b)),
{
    match (a, b) {
        (Some(x), Some(y)) => str_eq(x.docs.as_str(), y.docs.as_str()),
        (None, None) => true,
        _ => false,
    }
}

/// Whether two lists of strings are equal.
pub fn strings_eq(a: &Vec<String>, b: &Vec<String>) -> (r: bool)
    ensures
        r == (strs_view(a@) == strs_view(b@)),
{
    if a.len() != b.len() {
        assert(strs_view(a@).len() != strs_view(b@).len());
        return false;
    }
    let mut i: usize = 0;
    while i < a.len()
        invariant
            i <= a@.len(),
            a@.len() == b@.len(),
            forall|j: int| 0 <= j < i ==> (#[trigger] a@[j])@ == b@[j]@,
        decreases a@.len() - i,
    {
        if !str_eq(a[i].as_str(), b[i].as_str()) {
            assert(strs_view(a@)[i as int] != strs_view(b@)[i as int]);
            return false;
        }
        i += 1;
    }
    assert(strs_view(a@) =~= strs_view(b@));
    true
}

/// Whether two types are equal.
pub fn type_eq(a: &Type, b: &Type) -> (r: bool)
    ensures
        r == (a@ == b@),
    decreases a,
{
    proof {
        lemma_types_view(a.generics@);
        lemma_types_view(b.generics@);
    }
    if !str_eq(a.name.as_str(), b.name.as_str()) || !opt_name_eq(&a.xml_name, &b.xml_name)
        || !opt_docs_eq(&a.docs, &b.docs) {
        return false;
    }
    if a.generics.len() != b.generics.len() {
        return false;
    }
    let mut i: usize = 0;
    while i < a.generics.len()
        invariant
            i <= a.generics@.len(),
            a.generics@.len() == b.generics@.len(),
            types_view(a.generics@).len() == a.generics@.len(),
            types_view(b.generics@).len() == b.generics@.len(),
            forall|j: int| 0 <= j < a.generics@.len() ==> #[trigger] types_view(a.generics@)[j] == type_view(a.generics@[j]),
            forall|j: int| 0 <= j < b.generics@.len() ==> #[trigger] types_view(b.generics@)[j] == type_view(b.generics@[j]),
            forall|j: int| 0 <= j < i ==> type_view(#[trigger] a.generics@[j]) == type_view(b.generics@[j]),
        decreases a.generics@.len() - i,
    {
        assert(decreases_to!(a => a.generics@[i as int]));
        if !type_eq(&a.generics[i], &b.generics[i]) {
            assert(types_view(a.generics@)[i as int] != types_view(b.generics@)[i as int]);
            return false;
        }
        i += 1;
    }
    assert(types_view(a.generics@) =~= types_view(b.generics@));
    true
}

/// Whether two lists of types are equal.
pub fn types_eq(a: &Vec<Type>, b: &Vec<Type>) -> (r: bool)
    ensures
        r == (types_view(a@) == types_view(b@)),
{
    proof {
        lemma_types_view(a@);
        lemma_types_view(b@);
    }
    if a.len() != b.len() {
        return false;
    }
    let mut i: usize = 0;
    while i < a.len()
        invariant
            i <= a@.len(),
            a@.len() == b@.len(),
            types_view(a@).len() == a@.len(),
            types_view(b@).len() == b@.len(),
            forall|j: int| 0 <= j < a@.len() ==> #[trigger] types_view(a@)[j] == type_view(a@[j]),
            forall|j: int| 0 <= j < b@.len() ==> #[trigger] types_view(b@)[j] == type_view(b@[j]),
            forall|j: int| 0 <= j < i ==> type_view(#[trigger] a@[j]) == type_view(b@[j]),
        decreases a@.len() - i,
    {
        if !type_eq(&a[i], &b[i]) {
            assert(types_view(a@)[i as int] != types_view(b@)[i as int]);
            return false;
        }
        i += 1;
    }
    assert(types_view(a@) =~= types_view(b@));
    true
}

fn opt_type_eq(a: &Option<Type>, b: &Option<Type>) -> (r: bool)
    ensures
        r == (opt_type_view(*a) == opt_type_view(*b)),
{
    match (a, b) {
        (Some(x), Some(y)) => type_eq(x, y),
        (None, None) => true,
        _ => false,
    }
}

fn bound_eq(a: &Bound, b: &Bound) -> (r: bool)
    ensures
        r == (a@ == b@),
{
    str_eq(a.name.as_str(), b.name.as_str()) && types_eq(&a.bound, &b.bound)
}

fn bounds_eq(a: &Vec<Bound>, b: &Vec<Bound>) -> (r: bool)
    ensures
        r == (bounds_view(a@) == bounds_view(b@)),
{
    if a.len() != b.len() {
        assert(bounds_view(a@).len() != bounds_view(b@).len());
        return false;
    }
    let mut i: usize = 0;
    while i < a.len()
        invariant
            i <= a@.len(),
            a@.len() == b@.len(),
            forall|j: int| 0 <= j < i ==> (#[trigger] a@[j])@ == b@[j]@,
        decreases a@.len() - i,
    {
        if !bound_eq(&a[i], &b[i]) {
            assert(bounds_view(a@)[i as int] != bounds_view(b@)[i as int]);
            return false;
        }
        i += 1;
    }
    assert(bounds_view(a@) =~= bounds_view(b@));
    true
}

fn type_def_eq(a: &TypeDef, b: &TypeDef) -> (r: bool)
    ensures
        r == (a@ == b@),
{
    type_eq(&a.ty, &b.ty) && opt_str_eq(&a.vis, &b.vis) && opt_docs_eq(&a.docs, &b.docs)
        && strings_eq(&a.derive, &b.derive) && strings_eq(&a.allow, &b.allow) && opt_str_eq(
        &a.repr,
        &b.repr,
    ) && bounds_eq(&a.bounds, &b.bounds) && strings_eq(&a.macros, &b.macros)
}

/// Whether two named fields are equal.
pub fn field_eq(a: &Field, b: &Field) -> (r: bool)
    ensures
        r == (a@ == b@),
{
    str_eq(a.name.as_str(), b.name.as_str()) && opt_str_eq(&a.vis, &b.vis) && type_eq(&a.ty, &b.ty)
        && strings_eq(&a.documentation, &b.documentation) && strings_eq(
        &a.annotation,
        &b.annotation,
    ) && opt_name_eq(&a.xml_name, &b.xml_name) && a.attribute == b.attribute && a.flatten
        == b.flatten
}

fn field_vec_eq(a: &Vec<Field>, b: &Vec<Field>) -> (r: bool)
    ensures
        r == (fields_seq_view(a@) == fields_seq_view(b@)),
{
    if a.len() != b.len() {
        assert(fields_seq_view(a@).len() != fields_seq_view(b@).len());
        return false;
    }
    let mut i: usize = 0;
    while i < a.len()
        invariant
            i <= a@.len(),
            a@.len() == b@.len(),
            forall|j: int| 0 <= j < i ==> (#[trigger] a@[j])@ == b@[j]@,
        decreases a@.len() - i,
    {
        if !field_eq(&a[i], &b[i]) {
            assert(fields_seq_view(a@)[i as int] != fields_seq_view(b@)[i as int]);
            return false;
        }
        i += 1;
    }
    assert(fields_seq_view(a@) =~= fields_seq_view(b@));
    true
}

fn tuple_field_eq(a: &TupleField, b: &TupleField) -> (r: bool)
    ensures
        r == (a@ == b@),
{
    opt_str_eq(&a.vis, &b.vis) && type_eq(&a.ty, &b.ty) && a.attribute == b.attribute && a.flatten
        == b.flatten
}

fn tuple_field_vec_eq(a: &Vec<TupleField>, b: &Vec<TupleField>) -> (r: bool)
    ensures
        r == (tuple_fields_view(a@) == tuple_fields_view(b@)),
{
    if a.len() != b.len() {
        assert(tuple_fields_view(a@).len() != tuple_fields_view(b@).len());
        return false;
    }
    let mut i: usize = 0;
    while i < a.len()
        invariant
            i <= a@.len(),
            a@.len() == b@.len(),
            forall|j: int| 0 <= j < i ==> (#[trigger] a@[j])@ == b@[j]@,
        decreases a@.len() - i,
    {
        if !tuple_field_eq(&a[i], &b[i]) {
            assert(tuple_fields_view(a@)[i as int] != tuple_fields_view(b@)[i as int]);
            return false;
        }
        i += 1;
    }
    assert(tuple_fields_view(a@) =~= tuple_fields_view(b@));
    true
}

fn fields_eq(a: &Fields, b: &Fields) -> (r: bool)
    ensures
        r == (a@ == b@),
{
    match (a, b) {
        (Fields::Empty, Fields::Empty) => true,
        (Fields::Tuple(x), Fields::Tuple(y)) => tuple_field_vec_eq(x, y),
        (Fields::Named(x), Fields::Named(y)) => field_vec_eq(x, y),
        _ => false,
    }
}

fn variant_eq(a: &Variant, b: &Variant) -> (r: bool)
    ensures
        r == (a@ == b@),
{
    str_eq(a.name.as_str(), b.name.as_str()) && fields_eq(&a.fields, &b.fields) && str_eq(
        a.attributes.as_str(),
        b.attributes.as_str(),
    ) && opt_name_eq(&a.xml_name, &b.xml_name) && opt_str_eq(&a.doc, &b.doc)
}

/// Whether two structs are equal.
pub fn struct_eq(a: &Struct, b: &Struct) -> (r: bool)
    ensures
        r == (a@ == b@),
{
    type_def_eq(&a.type_def, &b.type_def) && fields_eq(&a.fields, &b.fields)
}

/// Whether two enums are equal.
pub fn enum_eq(a: &Enum, b: &Enum) -> (r: bool)
    ensures
        r == (a@ == b@),
{
    if !type_def_eq(&a.type_def, &b.type_def) {
        return false;
    }
    if a.variants.len() != b.variants.len() {
        assert(variants_view(a.variants@).len() != variants_view(b.variants@).len());
        return false;
    }
    let mut i: usize = 0;
    while i < a.variants.len()
        invariant
            i <= a.variants@.len(),
            a.variants@.len() == b.variants@.len(),
            forall|j: int| 0 <= j < i ==> (#[trigger] a.variants@[j])@ == b.variants@[j]@,
        decreases a.variants@.len() - i,
    {
        if !variant_eq(&a.variants[i], &b.variants[i]) {
            assert(variants_view(a.variants@)[i as int] != variants_view(b.variants@)[i as int]);
            return false;
        }
        i += 1;
    }
    assert(variants_view(a.variants@) =~= variants_view(b.variants@));
    true
}

fn body_eq(a: &Body, b: &Body) -> (r: bool)
    ensures
        r == (body_view(*a) == body_view(*b)),
    decreases a,
{
    match (a, b) {
        (Body::String(x), Body::String(y)) => str_eq(x.as_str(), y.as_str()),
        (Body::Block(x), Body::Block(y)) => block_eq(x, y),
        _ => false,
    }
}

fn block_eq(a: &Block, b: &Block) -> (r: bool)
    ensures
        r == (block_view(*a) == block_view(*b)),
    decreases a,
{
    proof {
        lemma_bodies_view(a.body@);
        lemma_bodies_view(b.body@);
    }
    if !opt_str_eq(&a.before, &b.before) || !opt_str_eq(&a.after, &b.after) {
        return false;
    }
    if a.body.len() != b.body.len() {
        return false;
    }
    let mut i: usize = 0;
    while i < a.body.len()
        invariant
            i <= a.body@.len(),
            a.body@.len() == b.body@.len(),
            bodies_view(a.body@).len() == a.body@.len(),
            bodies_view(b.body@).len() == b.body@.len(),
            forall|j: int| 0 <= j < a.body@.len() ==> #[trigger] bodies_view(a.body@)[j] == body_view(a.body@[j]),
            forall|j: int| 0 <= j < b.body@.len() ==> #[trigger] bodies_view(b.body@)[j] == body_view(b.body@[j]),
            forall|j: int| 0 <= j < i ==> body_view(#[trigger] a.body@[j]) == body_view(b.body@[j]),
        decreases a.body@.len() - i,
    {
        assert(decreases_to!(a => a.body@[i as int]));
        if !body_eq(&a.body[i], &b.body[i]) {
            assert(bodies_view(a.body@)[i as int] != bodies_view(b.body@)[i as int]);
            return false;
        }
        i += 1;
    }
    assert(bodies_view(a.body@) =~= bodies_view(b.body@));
    true
}

fn bodies_eq(a: &Vec<Body>, b: &Vec<Body>) -> (r: bool)
    ensures
        r == (bodies_view(a@) == bodies_view(b@)),
{
    proof {
        lemma_bodies_view(a@);
        lemma_bodies_view(b@);
    }
    if a.len() != b.len() {
        return false;
    }
    let mut i: usize = 0;
    while i < a.len()
        invariant
            i <= a@.len(),
            a@.len() == b@.len(),
            bodies_view(a@).len() == a@.len(),
            bodies_view(b@).len() == b@.len(),
            forall|j: int| 0 <= j < a@.len() ==> #[trigger] bodies_view(a@)[j] == body_view(a@[j]),
            forall|j: int| 0 <= j < b@.len() ==> #[trigger] bodies_view(b@)[j] == body_view(b@[j]),
            forall|j: int| 0 <= j < i ==> body_view(#[trigger] a@[j]) == body_view(b@[j]),
        decreases a@.len() - i,
    {
        if !body_eq(&a[i], &b[i]) {
            assert(bodies_view(a@)[i as int] != bodies_view(b@)[i as int]);
            return false;
        }
        i += 1;
    }
    assert(bodies_view(a@) =~= bodies_view(b@));
    true
}

fn function_eq(a: &Function, b: &Function) -> (r: bool)
    ensures
        r == (a@ == b@),
{
    let body = match (&a.body, &b.body) {
        (Some(x), Some(y)) => bodies_eq(x, y),
        (None, None) => true,
        _ => false,
    };
    assert(body == (opt_bodies_view(a.body) == opt_bodies_view(b.body)));
    body && str_eq(a.name.as_str(), b.name.as_str()) && opt_docs_eq(&a.docs, &b.docs) && opt_str_eq(
        &a.allow,
        &b.allow,
    ) && opt_str_eq(&a.vis, &b.vis) && strings_eq(&a.generics, &b.generics) && opt_str_eq(
        &a.arg_self,
        &b.arg_self,
    ) && field_vec_eq(&a.args, &b.args) && opt_type_eq(&a.ret, &b.ret) && bounds_eq(
        &a.bounds,
        &b.bounds,
    ) && strings_eq(&a.attributes, &b.attributes) && opt_str_eq(&a.extern_abi, &b.extern_abi)
        && a.is_async == b.is_async
}

fn fns_eq(a: &Vec<Function>, b: &Vec<Function>) -> (r: bool)
    ensures
        r == (fns_view(a@) == fns_view(b@)),
{
    if a.len() != b.len() {
        assert(fns_view(a@).len() != fns_view(b@).len());
        return false;
    }
    let mut i: usize = 0;
    while i < a.len()
        invariant
            i <= a@.len(),
            a@.len() == b@.len(),
            forall|j: int| 0 <= j < i ==> (#[trigger] a@[j])@ == b@[j]@,
        decreases a@.len() - i,
    {
        if !function_eq(&a[i], &b[i]) {
            assert(fns_view(a@)[i as int] != fns_view(b@)[i as int]);
            return false;
        }
        i += 1;
    }
    assert(fns_view(a@) =~= fns_view(b@));
    true
}

/// Whether two `impl` blocks are equal.
pub fn impl_eq(a: &Impl, b: &Impl) -> (r: bool)
    ensures
        r == (a@ == b@),
{
    type_eq(&a.target, &b.target) && strings_eq(&a.generics, &b.generics) && opt_type_eq(
        &a.impl_trait,
        &b.impl_trait,
    ) && field_vec_eq(&a.assoc_tys, &b.assoc_tys) && bounds_eq(&a.bounds, &b.bounds) && fns_eq(
        &a.fns,
        &b.fns,
    ) && strings_eq(&a.macros, &b.macros)
}

} // verus!
