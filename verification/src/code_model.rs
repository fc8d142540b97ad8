//! The data model of generated Rust code: scopes, modules, type
//! definitions, functions and blocks, each with a mathematical view and a
//! clone that keeps that view.
use vstd::prelude::*;

use crate::names::{clone_opt_name, clone_opt_str, opt_name_view, opt_str_view, XsdName, XsdNameView};
use crate::text::strs_view;

verus! {

pub fn clone_strings(v: &Vec<String>) -> (r: Vec<String>)
    ensures
        strs_view(r@) == strs_view(v@),
{
    let r = v.clone();
    assert(strs_view(r@) =~= strs_view(v@));
    r
}

/// Documentation text.
#[derive(Debug)]
pub struct Docs {
    pub docs: String,
}

impl View for Docs {
    type V = Seq<char>;

    open spec fn view(&self) -> Seq<char> {
        self.docs@
    }
}

impl Clone for Docs {
    fn clone(&self) -> (r: Self)
        ensures
            r@ == self@,
    {
        Docs { docs: self.docs.clone() }
    }
}

pub open spec fn opt_docs_view(o: Option<Docs>) -> Option<Seq<char>> {
    match o {
        Some(d) => Some(d@),
        None => None,
    }
}

pub fn clone_opt_docs(o: &Option<Docs>) -> (r: Option<Docs>)
    ensures
        opt_docs_view(r) == opt_docs_view(*o),
{
    match o {
        Some(d) => Some(d.clone()),
        None => None,
    }
}

/// A type: a name with generic arguments.
#[derive(Debug)]
pub struct Type {
    pub name: String,
    pub generics: Vec<Type>,
    pub xml_name: Option<XsdName>,
    pub docs: Option<Docs>,
}

pub struct TypeView {
    pub name: Seq<char>,
    pub generics: Seq<TypeView>,
    pub xml_name: Option<XsdNameView>,
    pub docs: Option<Seq<char>>,
}

pub open spec fn type_view(t: Type) -> TypeView
    decreases t,
{
    TypeView {
        name: t.name@,
        generics: types_view(t.generics@),
        xml_name: opt_name_view(t.xml_name),
        docs: opt_docs_view(t.docs),
    }
}

pub open spec fn types_view(s: Seq<Type>) -> Seq<TypeView>
    decreases s,
{
    if s.len() == 0 {
        seq![]
    } else {
        types_view(s.drop_last()).push(type_view(s.last()))
    }
}

pub proof fn lemma_types_view(s: Seq<Type>)
    ensures
        types_view(s).len() == s.len(),
        forall|j: int| 0 <= j < s.len() ==> #[trigger] types_view(s)[j] == type_view(s[j]),
    decreases s.len(),
{
    if s.len() > 0 {
        lemma_types_view(s.drop_last());
    }
}

pub proof fn lemma_types_view_push(s: Seq<Type>, t: Type)
    ensures
        types_view(s.push(t)) == types_view(s).push(type_view(t)),
{
    assert(s.push(t).drop_last() =~= s);
}

pub proof fn lemma_types_view_eq(a: Seq<Type>, b: Seq<Type>)
    requires
        a.len() == b.len(),
        forall|j: int| 0 <= j < a.len() ==> type_view(a[j]) == type_view(b[j]),
    ensures
        types_view(a) == types_view(b),
{
    lemma_types_view(a);
    lemma_types_view(b);
    assert(types_view(a) =~= types_view(b));
}

impl View for Type {
    type V = TypeView;

    open spec fn view(&self) -> TypeView {
        type_view(*self)
    }
}

impl Clone for Type {
    fn clone(&self) -> (r: Self)
        ensures
            r@ == self@,
        decreases self,
    {
        let mut gs: Vec<Type> = Vec::new();
        let mut i: usize = 0;
        while i < self.generics.len()
            invariant
                i <= self.generics@.len(),
                gs@.len() == i,
                forall|j: int| 0 <= j < i ==> type_view(gs@[j]) == type_view(self.generics@[j]),
            decreases self.generics@.len() - i,
        {
            assert(decreases_to!(self => self.generics@[i as int]));
            let g = self.generics[i].clone();
            gs.push(g);
            i += 1;
        }
        proof {
            lemma_types_view_eq(gs@, self.generics@);
        }
        Type {
            name: self.name.clone(),
            generics: gs,
            xml_name: clone_opt_name(&self.xml_name),
            docs: clone_opt_docs(&self.docs),
        }
    }
}

pub fn clone_types(v: &Vec<Type>) -> (r: Vec<Type>)
    ensures
        types_view(r@) == types_view(v@),
{
    let mut out: Vec<Type> = Vec::new();
    let mut i: usize = 0;
    while i < v.len()
        invariant
            i <= v@.len(),
            out@.len() == i,
            forall|j: int| 0 <= j < i ==> type_view(out@[j]) == type_view(v@[j]),
        decreases v@.len() - i,
    {
        out.push(v[i].clone());
        i += 1;
    }
    proof {
        lemma_types_view_eq(out@, v@);
    }
    out
}

pub open spec fn opt_type_view(o: Option<Type>) -> Option<TypeView> {
    match o {
        Some(t) => Some(t@),
        None => None,
    }
}

pub fn clone_opt_type(o: &Option<Type>) -> (r: Option<Type>)
    ensures
        opt_type_view(r) == opt_type_view(*o),
{
    match o {
        Some(t) => Some(t.clone()),
        None => None,
    }
}

/// A `where` bound: `name: bound1 + bound2`.
#[derive(Debug)]
pub struct Bound {
    pub name: String,
    pub bound: Vec<Type>,
}

pub struct BoundView {
    pub name: Seq<char>,
    pub bound: Seq<TypeView>,
}

impl View for Bound {
    type V = BoundView;

    open spec fn view(&self) -> BoundView {
        BoundView { name: self.name@, bound: types_view(self.bound@) }
    }
}

impl Clone for Bound {
    fn clone(&self) -> (r: Self)
        ensures
            r@ == self@,
    {
        Bound { name: self.name.clone(), bound: clone_types(&self.bound) }
    }
}

pub open spec fn bounds_view(v: Seq<Bound>) -> Seq<BoundView> {
    v.map_values(|b: Bound| b@)
}

pub fn clone_bounds(v: &Vec<Bound>) -> (r: Vec<Bound>)
    ensures
        bounds_view(r@) == bounds_view(v@),
{
    let r = v.clone();
    assert(bounds_view(r@) =~= bounds_view(v@));
    r
}

/// The parts shared by struct, enum and trait definitions.
#[derive(Debug)]
pub struct TypeDef {
    pub ty: Type,
    pub vis: Option<String>,
    pub docs: Option<Docs>,
    pub derive: Vec<String>,
    pub allow: Vec<String>,
    pub repr: Option<String>,
    pub bounds: Vec<Bound>,
    pub macros: Vec<String>,
}

pub struct TypeDefView {
    pub ty: TypeView,
    pub vis: Option<Seq<char>>,
    pub docs: Option<Seq<char>>,
    pub derive: Seq<Seq<char>>,
    pub allow: Seq<Seq<char>>,
    pub repr: Option<Seq<char>>,
    pub bounds: Seq<BoundView>,
    pub macros: Seq<Seq<char>>,
}

impl View for TypeDef {
    type V = TypeDefView;

    open spec fn view(&self) -> TypeDefView {
        TypeDefView {
            ty: self.ty@,
            vis: opt_str_view(self.vis),
            docs: opt_docs_view(self.docs),
            derive: strs_view(self.derive@),
            allow: strs_view(self.allow@),
            repr: opt_str_view(self.repr),
            bounds: bounds_view(self.bounds@),
            macros: strs_view(self.macros@),
        }
    }
}

impl Clone for TypeDef {
    fn clone(&self) -> (r: Self)
        ensures
            r@ == self@,
    {
        TypeDef {
            ty: self.ty.clone(),
            vis: clone_opt_str(&self.vis),
            docs: clone_opt_docs(&self.docs),
            derive: clone_strings(&self.derive),
            allow: clone_strings(&self.allow),
            repr: clone_opt_str(&self.repr),
            bounds: clone_bounds(&self.bounds),
            macros: clone_strings(&self.macros),
        }
    }
}

/// A field of a tuple struct or tuple variant.
#[derive(Debug)]
pub struct TupleField {
    pub vis: Option<String>,
    pub ty: Type,
    pub attribute: bool,
    pub flatten: bool,
}

pub struct TupleFieldView {
    pub vis: Option<Seq<char>>,
    pub ty: TypeView,
    pub attribute: bool,
    pub flatten: bool,
}

impl View for TupleField {
    type V = TupleFieldView;

    open spec fn view(&self) -> TupleFieldView {
        TupleFieldView {
            vis: opt_str_view(self.vis),
            ty: self.ty@,
            attribute: self.attribute,
            flatten: self.flatten,
        }
    }
}

impl Clone for TupleField {
    fn clone(&self) -> (r: Self)
        ensures
            r@ == self@,
    {
        TupleField {
            vis: clone_opt_str(&self.vis),
            ty: self.ty.clone(),
            attribute: self.attribute,
            flatten: self.flatten,
        }
    }
}

/// A named field of a struct or variant (also used for function arguments
/// and associated types).
#[derive(Debug)]
pub struct Field {
    pub name: String,
    pub vis: Option<String>,
    pub ty: Type,
    pub documentation: Vec<String>,
    pub annotation: Vec<String>,
    pub xml_name: Option<XsdName>,
    pub attribute: bool,
    pub flatten: bool,
}

pub struct FieldView {
    pub name: Seq<char>,
    pub vis: Option<Seq<char>>,
    pub ty: TypeView,
    pub documentation: Seq<Seq<char>>,
    pub annotation: Seq<Seq<char>>,
    pub xml_name: Option<XsdNameView>,
    pub attribute: bool,
    pub flatten: bool,
}

impl View for Field {
    type V = FieldView;

    open spec fn view(&self) -> FieldView {
        FieldView {
            name: self.name@,
            vis: opt_str_view(self.vis),
            ty: self.ty@,
            documentation: strs_view(self.documentation@),
            annotation: strs_view(self.annotation@),
            xml_name: opt_name_view(self.xml_name),
            attribute: self.attribute,
            flatten: self.flatten,
        }
    }
}

impl Clone for Field {
    fn clone(&self) -> (r: Self)
        ensures
            r@ == self@,
    {
        Field {
            name: self.name.clone(),
            vis: clone_opt_str(&self.vis),
            ty: self.ty.clone(),
            documentation: clone_strings(&self.documentation),
            annotation: clone_strings(&self.annotation),
            xml_name: clone_opt_name(&self.xml_name),
            attribute: self.attribute,
            flatten: self.flatten,
        }
    }
}

pub open spec fn fields_seq_view(v: Seq<Field>) -> Seq<FieldView> {
    v.map_values(|f: Field| f@)
}

pub open spec fn tuple_fields_view(v: Seq<TupleField>) -> Seq<TupleFieldView> {
    v.map_values(|f: TupleField| f@)
}

pub fn clone_field_vec(v: &Vec<Field>) -> (r: Vec<Field>)
    ensures
        fields_seq_view(r@) == fields_seq_view(v@),
{
    let r = v.clone();
    assert(fields_seq_view(r@) =~= fields_seq_view(v@));
    r
}

pub fn clone_tuple_field_vec(v: &Vec<TupleField>) -> (r: Vec<TupleField>)
    ensures
        tuple_fields_view(r@) == tuple_fields_view(v@),
{
    let r = v.clone();
    assert(tuple_fields_view(r@) =~= tuple_fields_view(v@));
    r
}

/// The fields of a struct or variant: none, positional, or named.
#[derive(Debug)]
pub enum Fields {
    Empty,
    Tuple(Vec<TupleField>),
    Named(Vec<Field>),
}

pub enum FieldsView {
    Empty,
    Tuple(Seq<TupleFieldView>),
    Named(Seq<FieldView>),
}

impl View for Fields {
    type V = FieldsView;

    open spec fn view(&self) -> FieldsView {
        match self {
            Fields::Empty => FieldsView::Empty,
            Fields::Tuple(v) => FieldsView::Tuple(tuple_fields_view(v@)),
            Fields::Named(v) => FieldsView::Named(fields_seq_view(v@)),
        }
    }
}

impl Clone for Fields {
    fn clone(&self) -> (r: Self)
        ensures
            r@ == self@,
    {
        match self {
            Fields::Empty => Fields::Empty,
            Fields::Tuple(v) => Fields::Tuple(clone_tuple_field_vec(v)),
            Fields::Named(v) => Fields::Named(clone_field_vec(v)),
        }
    }
}

/// An enum variant.
#[derive(Debug)]
pub struct Variant {
    pub name: String,
    pub fields: Fields,
    pub attributes: String,
    pub xml_name: Option<XsdName>,
    pub doc: Option<String>,
}

pub struct VariantView {
    pub name: Seq<char>,
    pub fields: FieldsView,
    pub attributes: Seq<char>,
    pub xml_name: Option<XsdNameView>,
    pub doc: Option<Seq<char>>,
}

impl View for Variant {
    type V = VariantView;

    open spec fn view(&self) -> VariantView {
        VariantView {
            name: self.name@,
            fields: self.fields@,
            attributes: self.attributes@,
            xml_name: opt_name_view(self.xml_name),
            doc: opt_str_view(self.doc),
        }
    }
}

impl Clone for Variant {
    fn clone(&self) -> (r: Self)
        ensures
            r@ == self@,
    {
        Variant {
            name: self.name.clone(),
            fields: self.fields.clone(),
            attributes: self.attributes.clone(),
            xml_name: clone_opt_name(&self.xml_name),
            doc: clone_opt_str(&self.doc),
        }
    }
}

pub open spec fn variants_view(v: Seq<Variant>) -> Seq<VariantView> {
    v.map_values(|x: Variant| x@)
}

/// An enum definition.
#[derive(Debug)]
pub struct Enum {
    pub type_def: TypeDef,
    pub variants: Vec<Variant>,
}

pub struct EnumView {
    pub type_def: TypeDefView,
    pub variants: Seq<VariantView>,
}

impl View for Enum {
    type V = EnumView;

    open spec fn view(&self) -> EnumView {
        EnumView { type_def: self.type_def@, variants: variants_view(self.variants@) }
    }
}

impl Clone for Enum {
    fn clone(&self) -> (r: Self)
        ensures
            r@ == self@,
    {
        let vs = self.variants.clone();
        assert(variants_view(vs@) =~= variants_view(self.variants@));
        Enum { type_def: self.type_def.clone(), variants: vs }
    }
}

/// A struct definition.
#[derive(Debug)]
pub struct Struct {
    pub type_def: TypeDef,
    pub fields: Fields,
}

pub struct StructView {
    pub type_def: TypeDefView,
    pub fields: FieldsView,
}

impl View for Struct {
    type V = StructView;

    open spec fn view(&self) -> StructView {
        StructView { type_def: self.type_def@, fields: self.fields@ }
    }
}

impl Clone for Struct {
    fn clone(&self) -> (r: Self)
        ensures
            r@ == self@,
    {
        Struct { type_def: self.type_def.clone(), fields: self.fields.clone() }
    }
}

/// An associated type declared in a trait.
#[derive(Debug)]
pub struct AssociatedType(pub Bound);

impl View for AssociatedType {
    type V = BoundView;

    open spec fn view(&self) -> BoundView {
        self.0@
    }
}

impl Clone for AssociatedType {
    fn clone(&self) -> (r: Self)
        ensures
            r@ == self@,
    {
        AssociatedType(self.0.clone())
    }
}

pub open spec fn assoc_view(v: Seq<AssociatedType>) -> Seq<BoundView> {
    v.map_values(|a: AssociatedType| a@)
}

/// A `use` declaration.
#[derive(Debug)]
pub struct Import {
    pub line: String,
    pub vis: Option<String>,
}

pub struct ImportView {
    pub line: Seq<char>,
    pub vis: Option<Seq<char>>,
}

impl View for Import {
    type V = ImportView;

    open spec fn view(&self) -> ImportView {
        ImportView { line: self.line@, vis: opt_str_view(self.vis) }
    }
}

impl Clone for Import {
    fn clone(&self) -> (r: Self)
        ensures
            r@ == self@,
    {
        Import { line: self.line.clone(), vis: clone_opt_str(&self.vis) }
    }
}

/// A line or a nested block of a function body.
#[derive(Debug)]
pub enum Body {
    String(String),
    Block(Block),
}

/// A code block: `before { body } after`.
#[derive(Debug)]
pub struct Block {
    pub before: Option<String>,
    pub after: Option<String>,
    pub body: Vec<Body>,
}

pub enum BodyView {
    Line(Seq<char>),
    Block(BlockView),
}

pub struct BlockView {
    pub before: Option<Seq<char>>,
    pub after: Option<Seq<char>>,
    pub body: Seq<BodyView>,
}

pub open spec fn block_view(b: Block) -> BlockView
    decreases b,
{
    BlockView {
        before: opt_str_view(b.before),
        after: opt_str_view(b.after),
        body: bodies_view(b.body@),
    }
}

pub open spec fn body_view(b: Body) -> BodyView
    decreases b,
{
    match b {
        Body::String(s) => BodyView::Line(s@),
        Body::Block(k) => BodyView::Block(block_view(k)),
    }
}

pub open spec fn bodies_view(s: Seq<Body>) -> Seq<BodyView>
    decreases s,
{
    if s.len() == 0 {
        seq![]
    } else {
        bodies_view(s.drop_last()).push(body_view(s.last()))
    }
}

pub proof fn lemma_bodies_view(s: Seq<Body>)
    ensures
        bodies_view(s).len() == s.len(),
        forall|j: int| 0 <= j < s.len() ==> #[trigger] bodies_view(s)[j] == body_view(s[j]),
    decreases s.len(),
{
    if s.len() > 0 {
        lemma_bodies_view(s.drop_last());
    }
}

pub proof fn lemma_bodies_view_push(s: Seq<Body>, b: Body)
    ensures
        bodies_view(s.push(b)) == bodies_view(s).push(body_view(b)),
{
    assert(s.push(b).drop_last() =~= s);
}

pub proof fn lemma_bodies_view_eq(a: Seq<Body>, b: Seq<Body>)
    requires
        a.len() == b.len(),
        forall|j: int| 0 <= j < a.len() ==> body_view(a[j]) == body_view(b[j]),
    ensures
        bodies_view(a) == bodies_view(b),
{
    lemma_bodies_view(a);
    lemma_bodies_view(b);
    assert(bodies_view(a) =~= bodies_view(b));
}

impl View for Block {
    type V = BlockView;

    open spec fn view(&self) -> BlockView {
        block_view(*self)
    }
}

impl View for Body {
    type V = BodyView;

    open spec fn view(&self) -> BodyView {
        body_view(*self)
    }
}

pub fn clone_body(b: &Body) -> (r: Body)
    ensures
        body_view(r) == body_view(*b),
    decreases b,
{
    match b {
        Body::String(s) => Body::String(s.clone()),
        Body::Block(k) => Body::Block(clone_block(k)),
    }
}

pub fn clone_block(b: &Block) -> (r: Block)
    ensures
        block_view(r) == block_view(*b),
    decreases b,
{
    let mut out: Vec<Body> = Vec::new();
    let mut i: usize = 0;
    while i < b.body.len()
        invariant
            i <= b.body@.len(),
            out@.len() == i,
            forall|j: int| 0 <= j < i ==> body_view(out@[j]) == body_view(b.body@[j]),
        decreases b.body@.len() - i,
    {
        assert(decreases_to!(b => b.body@[i as int]));
        out.push(clone_body(&b.body[i]));
        i += 1;
    }
    proof {
        lemma_bodies_view_eq(out@, b.body@);
    }
    Block { before: clone_opt_str(&b.before), after: clone_opt_str(&b.after), body: out }
}

pub fn clone_bodies(v: &Vec<Body>) -> (r: Vec<Body>)
    ensures
        bodies_view(r@) == bodies_view(v@),
{
    let mut out: Vec<Body> = Vec::new();
    let mut i: usize = 0;
    while i < v.len()
        invariant
            i <= v@.len(),
            out@.len() == i,
            forall|j: int| 0 <= j < i ==> body_view(out@[j]) == body_view(v@[j]),
        decreases v@.len() - i,
    {
        out.push(clone_body(&v[i]));
        i += 1;
    }
    proof {
        lemma_bodies_view_eq(out@, v@);
    }
    out
}

impl Clone for Block {
    fn clone(&self) -> (r: Self)
        ensures
            r@ == self@,
    {
        clone_block(self)
    }
}

impl Clone for Body {
    fn clone(&self) -> (r: Self)
        ensures
            r@ == self@,
    {
        clone_body(self)
    }
}

pub open spec fn opt_bodies_view(o: Option<Vec<Body>>) -> Option<Seq<BodyView>> {
    match o {
        Some(v) => Some(bodies_view(v@)),
        None => None,
    }
}

/// A function definition.
#[derive(Debug)]
pub struct Function {
    pub name: String,
    pub docs: Option<Docs>,
    pub allow: Option<String>,
    pub vis: Option<String>,
    pub generics: Vec<String>,
    pub arg_self: Option<String>,
    pub args: Vec<Field>,
    pub ret: Option<Type>,
    pub bounds: Vec<Bound>,
    pub body: Option<Vec<Body>>,
    pub attributes: Vec<String>,
    pub extern_abi: Option<String>,
    pub is_async: bool,
}

pub struct FunctionView {
    pub name: Seq<char>,
    pub docs: Option<Seq<char>>,
    pub allow: Option<Seq<char>>,
    pub vis: Option<Seq<char>>,
    pub generics: Seq<Seq<char>>,
    pub arg_self: Option<Seq<char>>,
    pub args: Seq<FieldView>,
    pub ret: Option<TypeView>,
    pub bounds: Seq<BoundView>,
    pub body: Option<Seq<BodyView>>,
    pub attributes: Seq<Seq<char>>,
    pub extern_abi: Option<Seq<char>>,
    pub is_async: bool,
}

impl View for Function {
    type V = FunctionView;

    open spec fn view(&self) -> FunctionView {
        FunctionView {
            name: self.name@,
            docs: opt_docs_view(self.docs),
            allow: opt_str_view(self.allow),
            vis: opt_str_view(self.vis),
            generics: strs_view(self.generics@),
            arg_self: opt_str_view(self.arg_self),
            args: fields_seq_view(self.args@),
            ret: opt_type_view(self.ret),
            bounds: bounds_view(self.bounds@),
            body: opt_bodies_view(self.body),
            attributes: strs_view(self.attributes@),
            extern_abi: opt_str_view(self.extern_abi),
            is_async: self.is_async,
        }
    }
}

impl Clone for Function {
    fn clone(&self) -> (r: Self)
        ensures
            r@ == self@,
    {
        let body = match &self.body {
            Some(b) => Some(clone_bodies(b)),
            None => None,
        };
        Function {
            name: self.name.clone(),
            docs: clone_opt_docs(&self.docs),
            allow: clone_opt_str(&self.allow),
            vis: clone_opt_str(&self.vis),
            generics: clone_strings(&self.generics),
            arg_self: clone_opt_str(&self.arg_self),
            args: clone_field_vec(&self.args),
            ret: clone_opt_type(&self.ret),
            bounds: clone_bounds(&self.bounds),
            body,
            attributes: clone_strings(&self.attributes),
            extern_abi: clone_opt_str(&self.extern_abi),
            is_async: self.is_async,
        }
    }
}

pub open spec fn fns_view(v: Seq<Function>) -> Seq<FunctionView> {
    v.map_values(|f: Function| f@)
}

pub fn clone_fns(v: &Vec<Function>) -> (r: Vec<Function>)
    ensures
        fns_view(r@) == fns_view(v@),
{
    let r = v.clone();
    assert(fns_view(r@) =~= fns_view(v@));
    r
}

/// A trait definition.
#[derive(Debug)]
pub struct Trait {
    pub type_def: TypeDef,
    pub parents: Vec<Type>,
    pub associated_tys: Vec<AssociatedType>,
    pub fns: Vec<Function>,
    pub macros: Vec<String>,
}

pub struct TraitView {
    pub type_def: TypeDefView,
    pub parents: Seq<TypeView>,
    pub associated_tys: Seq<BoundView>,
    pub fns: Seq<FunctionView>,
    pub macros: Seq<Seq<char>>,
}

impl View for Trait {
    type V = TraitView;

    open spec fn view(&self) -> TraitView {
        TraitView {
            type_def: self.type_def@,
            parents: types_view(self.parents@),
            associated_tys: assoc_view(self.associated_tys@),
            fns: fns_view(self.fns@),
            macros: strs_view(self.macros@),
        }
    }
}

impl Clone for Trait {
    fn clone(&self) -> (r: Self)
        ensures
            r@ == self@,
    {
        let a = self.associated_tys.clone();
        assert(assoc_view(a@) =~= assoc_view(self.associated_tys@));
        Trait {
            type_def: self.type_def.clone(),
            parents: clone_types(&self.parents),
            associated_tys: a,
            fns: clone_fns(&self.fns),
            macros: clone_strings(&self.macros),
        }
    }
}

/// An `impl` block.
#[derive(Debug)]
pub struct Impl {
    pub target: Type,
    pub generics: Vec<String>,
    pub impl_trait: Option<Type>,
    pub assoc_tys: Vec<Field>,
    pub bounds: Vec<Bound>,
    pub fns: Vec<Function>,
    pub macros: Vec<String>,
}

pub struct ImplView {
    pub target: TypeView,
    pub generics: Seq<Seq<char>>,
    pub impl_trait: Option<TypeView>,
    pub assoc_tys: Seq<FieldView>,
    pub bounds: Seq<BoundView>,
    pub fns: Seq<FunctionView>,
    pub macros: Seq<Seq<char>>,
}

impl View for Impl {
    type V = ImplView;

    open spec fn view(&self) -> ImplView {
        ImplView {
            target: self.target@,
            generics: strs_view(self.generics@),
            impl_trait: opt_type_view(self.impl_trait),
            assoc_tys: fields_seq_view(self.assoc_tys@),
            bounds: bounds_view(self.bounds@),
            fns: fns_view(self.fns@),
            macros: strs_view(self.macros@),
        }
    }
}

impl Clone for Impl {
    fn clone(&self) -> (r: Self)
        ensures
            r@ == self@,
    {
        Impl {
            target: self.target.clone(),
            generics: clone_strings(&self.generics),
            impl_trait: clone_opt_type(&self.impl_trait),
            assoc_tys: clone_field_vec(&self.assoc_tys),
            bounds: clone_bounds(&self.bounds),
            fns: clone_fns(&self.fns),
            macros: clone_strings(&self.macros),
        }
    }
}

pub open spec fn impls_view(v: Seq<Impl>) -> Seq<ImplView> {
    v.map_values(|i: Impl| i@)
}

pub fn clone_impls(v: &Vec<Impl>) -> (r: Vec<Impl>)
    ensures
        impls_view(r@) == impls_view(v@),
{
    let r = v.clone();
    assert(impls_view(r@) =~= impls_view(v@));
    r
}

/// A type alias: `pub type alias = value;`.
#[derive(Debug)]
pub struct TypeAlias {
    pub doc: Option<String>,
    pub alias: Type,
    pub value: Type,
}

pub struct TypeAliasView {
    pub doc: Option<Seq<char>>,
    pub alias: TypeView,
    pub value: TypeView,
}

impl View for TypeAlias {
    type V = TypeAliasView;

    open spec fn view(&self) -> TypeAliasView {
        TypeAliasView { doc: opt_str_view(self.doc), alias: self.alias@, value: self.value@ }
    }
}

impl Clone for TypeAlias {
    fn clone(&self) -> (r: Self)
        ensures
            r@ == self@,
    {
        TypeAlias {
            doc: clone_opt_str(&self.doc),
            alias: self.alias.clone(),
            value: self.value.clone(),
        }
    }
}

/// The imports of a scope: for each path (in increasing order), the names
/// imported from it (in increasing order).
pub type ImportTable = Vec<(String, Vec<(String, Import)>)>;

pub open spec fn import_row_view(row: (String, Import)) -> (Seq<char>, ImportView) {
    (row.0@, row.1@)
}

pub open spec fn import_rows_view(v: Seq<(String, Import)>) -> Seq<(Seq<char>, ImportView)> {
    v.map_values(|row: (String, Import)| import_row_view(row))
}

pub open spec fn import_table_view(v: Seq<(String, Vec<(String, Import)>)>) -> Seq<
    (Seq<char>, Seq<(Seq<char>, ImportView)>),
> {
    v.map_values(|g: (String, Vec<(String, Import)>)| (g.0@, import_rows_view(g.1@)))
}

pub fn clone_import_table(v: &ImportTable) -> (r: ImportTable)
    ensures
        import_table_view(r@) == import_table_view(v@),
{
    let mut out: ImportTable = Vec::new();
    let mut i: usize = 0;
    while i < v.len()
        invariant
            i <= v@.len(),
            import_table_view(out@) == import_table_view(v@.take(i as int)),
        decreases v@.len() - i,
    {
        let grp = &v[i];
        let src = &grp.1;
        let mut rows: Vec<(String, Import)> = Vec::new();
        let mut j: usize = 0;
        while j < src.len()
            invariant
                j <= src@.len(),
                import_rows_view(rows@) == import_rows_view(src@.take(j as int)),
            decreases src@.len() - j,
        {
            let name = src[j].0.clone();
            let imp = src[j].1.clone();
            proof {
                assert(import_row_view((name, imp)) == import_row_view(src@[j as int]));
                assert(import_rows_view(rows@.push((name, imp))) =~= import_rows_view(rows@).push(
                    import_row_view((name, imp)),
                ));
                assert(import_rows_view(src@.take(j + 1)) =~= import_rows_view(src@.take(j as int)).push(
                    import_row_view(src@[j as int]),
                ));
            }
            rows.push((name, imp));
            j += 1;
        }
        assert(src@.take(j as int) =~= src@);
        let key = grp.0.clone();
        proof {
            assert(import_table_view(out@.push((key, rows))) =~= import_table_view(out@).push(
                (key@, import_rows_view(rows@)),
            ));
            assert(import_table_view(v@.take(i + 1)) =~= import_table_view(v@.take(i as int)).push(
                (grp.0@, import_rows_view(src@)),
            ));
        }
        out.push((key, rows));
        i += 1;
    }
    assert(v@.take(i as int) =~= v@);
    out
}

/// A module definition.
#[derive(Debug)]
pub struct Module {
    pub name: String,
    pub vis: Option<String>,
    pub docs: Option<Docs>,
    pub scope: Scope,
}

/// An item of a scope.
#[derive(Debug)]
pub enum Item {
    Module(Module),
    Struct(Struct),
    Function(Function),
    Trait(Trait),
    Enum(Enum),
    Impl(Impl),
    TypeAlias(TypeAlias),
    Raw(String),
}

/// A scope: documentation, imports and items.
#[derive(Debug)]
pub struct Scope {
    pub docs: Option<Docs>,
    pub imports: ImportTable,
    pub items: Vec<Item>,
}

pub struct ModuleView {
    pub name: Seq<char>,
    pub vis: Option<Seq<char>>,
    pub docs: Option<Seq<char>>,
    pub scope: ScopeView,
}

pub enum ItemView {
    Module(ModuleView),
    Struct(StructView),
    Function(FunctionView),
    Trait(TraitView),
    Enum(EnumView),
    Impl(ImplView),
    TypeAlias(TypeAliasView),
    Raw(Seq<char>),
}

pub struct ScopeView {
    pub docs: Option<Seq<char>>,
    pub imports: Seq<(Seq<char>, Seq<(Seq<char>, ImportView)>)>,
    pub items: Seq<ItemView>,
}

pub open spec fn scope_view(s: Scope) -> ScopeView
    decreases s,
{
    ScopeView {
        docs: opt_docs_view(s.docs),
        imports: import_table_view(s.imports@),
        items: items_view(s.items@),
    }
}

pub open spec fn module_view(m: Module) -> ModuleView
    decreases m,
{
    ModuleView {
        name: m.name@,
        vis: opt_str_view(m.vis),
        docs: opt_docs_view(m.docs),
        scope: scope_view(m.scope),
    }
}

pub open spec fn item_view(i: Item) -> ItemView
    decreases i,
{
    match i {
        Item::Module(m) => ItemView::Module(module_view(m)),
        Item::Struct(s) => ItemView::Struct(s@),
        Item::Function(f) => ItemView::Function(f@),
        Item::Trait(t) => ItemView::Trait(t@),
        Item::Enum(e) => ItemView::Enum(e@),
        Item::Impl(x) => ItemView::Impl(x@),
        Item::TypeAlias(a) => ItemView::TypeAlias(a@),
        Item::Raw(s) => ItemView::Raw(s@),
    }
}

pub open spec fn items_view(s: Seq<Item>) -> Seq<ItemView>
    decreases s,
{
    if s.len() == 0 {
        seq![]
    } else {
        items_view(s.drop_last()).push(item_view(s.last()))
    }
}

pub proof fn lemma_items_view(s: Seq<Item>)
    ensures
        items_view(s).len() == s.len(),
        forall|j: int| 0 <= j < s.len() ==> #[trigger] items_view(s)[j] == item_view(s[j]),
    decreases s.len(),
{
    if s.len() > 0 {
        lemma_items_view(s.drop_last());
    }
}

pub proof fn lemma_items_view_push(s: Seq<Item>, i: Item)
    ensures
        items_view(s.push(i)) == items_view(s).push(item_view(i)),
{
    assert(s.push(i).drop_last() =~= s);
}

impl View for Scope {
    type V = ScopeView;

    open spec fn view(&self) -> ScopeView {
        scope_view(*self)
    }
}

impl View for Module {
    type V = ModuleView;

    open spec fn view(&self) -> ModuleView {
        module_view(*self)
    }
}

impl View for Item {
    type V = ItemView;

    open spec fn view(&self) -> ItemView {
        item_view(*self)
    }
}

pub fn clone_item(i: &Item) -> (r: Item)
    ensures
        item_view(r) == item_view(*i),
    decreases i,
{
    match i {
        Item::Module(m) => Item::Module(clone_module(m)),
        Item::Struct(s) => Item::Struct(s.clone()),
        Item::Function(f) => Item::Function(f.clone()),
        Item::Trait(t) => Item::Trait(t.clone()),
        Item::Enum(e) => Item::Enum(e.clone()),
        Item::Impl(x) => Item::Impl(x.clone()),
        Item::TypeAlias(a) => Item::TypeAlias(a.clone()),
        Item::Raw(s) => Item::Raw(s.clone()),
    }
}

pub fn clone_module(m: &Module) -> (r: Module)
    ensures
        module_view(r) == module_view(*m),
    decreases m,
{
    Module {
        name: m.name.clone(),
        vis: clone_opt_str(&m.vis),
        docs: clone_opt_docs(&m.docs),
        scope: clone_scope(&m.scope),
    }
}

pub fn clone_scope(s: &Scope) -> (r: Scope)
    ensures
        scope_view(r) == scope_view(*s),
    decreases s,
{
    let mut out: Vec<Item> = Vec::new();
    let mut i: usize = 0;
    while i < s.items.len()
        invariant
            i <= s.items@.len(),
            out@.len() == i,
            forall|j: int| 0 <= j < i ==> item_view(out@[j]) == item_view(s.items@[j]),
        decreases s.items@.len() - i,
    {
        assert(decreases_to!(s => s.items@[i as int]));
        out.push(clone_item(&s.items[i]));
        i += 1;
    }
    proof {
        lemma_items_view(out@);
        lemma_items_view(s.items@);
        assert(items_view(out@) =~= items_view(s.items@));
    }
    Scope {
        docs: clone_opt_docs(&s.docs),
        imports: clone_import_table(&s.imports),
        items: out,
    }
}

impl Clone for Scope {
    fn clone(&self) -> (r: Self)
        ensures
            r@ == self@,
    {
        clone_scope(self)
    }
}

impl Clone for Module {
    fn clone(&self) -> (r: Self)
        ensures
            r@ == self@,
    {
        clone_module(self)
    }
}

impl Clone for Item {
    fn clone(&self) -> (r: Self)
        ensures
            r@ == self@,
    {
        clone_item(self)
    }
}

} // verus!
