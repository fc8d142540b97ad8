//! The builder interface of functions, blocks, `impl` blocks and imports.
use vstd::prelude::*;

use crate::code_build::bound_view_of;
use crate::code_build::new_field_view;
use crate::code_model::{
    Block, BlockView, Body, BodyView, Bound, Docs, Field, FieldView, Function, FunctionView, Impl,
    ImplView, Import, ImportView, Type, TypeView, block_view, bodies_view, body_view, bounds_view,
    fields_seq_view, fns_view, lemma_bodies_view_push, lemma_types_view_push, opt_bodies_view,
    types_view,
};
use crate::names::{opt_name_view, XsdName};
use crate::text::{concat3, strs_view};

verus! {

/// A body with one more entry; an absent body becomes a body of one entry.
pub open spec fn body_push_view(b: Option<Seq<BodyView>>, x: BodyView) -> Option<Seq<BodyView>> {
    match b {
        Some(v) => Some(v.push(x)),
        None => Some(seq![x]),
    }
}

/// The view of a fresh function: named, with an empty body and nothing
/// else.
pub open spec fn new_fn_view(name: Seq<char>) -> FunctionView {
    FunctionView {
        name,
        docs: None,
        allow: None,
        vis: None,
        generics: seq![],
        arg_self: None,
        args: seq![],
        ret: None,
        bounds: seq![],
        body: Some(seq![]),
        attributes: seq![],
        extern_abi: None,
        is_async: false,
    }
}

/// The view of an argument named `name` of type `ty`.
pub open spec fn arg_view(name: Seq<char>, ty: TypeView) -> FieldView {
    new_field_view(None, name, ty, false, false)
}

fn push_body(body: &mut Option<Vec<Body>>, item: Body)
    ensures
        opt_bodies_view(*final(body)) == body_push_view(opt_bodies_view(*old(body)), body_view(item)),
{
    let ghost iv = body_view(item);
    match body {
        Some(v) => {
            proof {
                lemma_bodies_view_push(v@, item);
            }
            v.push(item);
        },
        None => {
            let mut v: Vec<Body> = Vec::new();
            proof {
                lemma_bodies_view_push(v@, item);
                assert(bodies_view(v@) =~= seq![]);
            }
            v.push(item);
            *body = Some(v);
        },
    }
}

fn one_bound(name: &str, ty: Type) -> (r: Bound)
    ensures
        r@ == bound_view_of(name@, ty@),
{
    let b = Bound { name: name.to_owned(), bound: vec![ty] };
    proof {
        lemma_types_view_push(Seq::<Type>::empty(), b.bound@[0]);
        assert(b.bound@ =~= Seq::<Type>::empty().push(b.bound@[0]));
        assert(types_view(Seq::<Type>::empty()) =~= seq![]);
    }
    b
}

impl Function {
    /// A function with the given name, an empty body and nothing else.
    pub fn new(name: &str) -> (r: Function)
        ensures
            r@ == new_fn_view(name@),
    {
        let r = Function {
            name: name.to_owned(),
            docs: None,
            allow: None,
            vis: None,
            generics: Vec::new(),
            arg_self: None,
            args: Vec::new(),
            ret: None,
            bounds: Vec::new(),
            body: Some(Vec::new()),
            attributes: Vec::new(),
            extern_abi: None,
            is_async: false,
        };
        assert(strs_view(r.generics@) =~= seq![]);
        assert(strs_view(r.attributes@) =~= seq![]);
        assert(fields_seq_view(r.args@) =~= seq![]);
        assert(bounds_view(r.bounds@) =~= seq![]);
        assert(bodies_view(Seq::<Body>::empty()) =~= seq![]);
        assert(r.body.unwrap()@ =~= Seq::<Body>::empty());
        r
    }

    /// The function with the given documentation.
    pub fn doc(self, docs: &str) -> (r: Self)
        ensures
            r@ == (FunctionView { docs: Some(docs@), ..self@ }),
    {
        let mut r = self;
        r.docs = Some(Docs::new(docs));
        r
    }

    /// The function with the given lint allowed.
    pub fn allow(self, allow: &str) -> (r: Self)
        ensures
            r@ == (FunctionView { allow: Some(allow@), ..self@ }),
    {
        let mut r = self;
        r.allow = Some(allow.to_owned());
        r
    }

    /// The function with the given visibility.
    pub fn vis(self, vis: &str) -> (r: Self)
        ensures
            r@ == (FunctionView { vis: Some(vis@), ..self@ }),
    {
        let mut r = self;
        r.vis = Some(vis.to_owned());
        r
    }

    /// The function, made `async` or not.
    pub fn set_async(self, is_async: bool) -> (r: Self)
        ensures
            r@ == (FunctionView { is_async, ..self@ }),
    {
        let mut r = self;
        r.is_async = is_async;
        r
    }

    /// The function with one more generic parameter.
    pub fn generic(self, name: &str) -> (r: Self)
        ensures
            r@ == (FunctionView { generics: self@.generics.push(name@), ..self@ }),
    {
        let mut r = self;
        r.generics.push(name.to_owned());
        assert(strs_view(r.generics@) =~= strs_view(self.generics@).push(name@));
        r
    }

    /// The function taking `self` by value.
    pub fn arg_self(self) -> (r: Self)
        ensures
            r@ == (FunctionView { arg_self: Some("self"@), ..self@ }),
    {
        let mut r = self;
        r.arg_self = Some("self".to_owned());
        r
    }

    /// The function taking `&self`.
    pub fn arg_ref_self(self) -> (r: Self)
        ensures
            r@ == (FunctionView { arg_self: Some("&self"@), ..self@ }),
    {
        let mut r = self;
        r.arg_self = Some("&self".to_owned());
        r
    }

    /// Makes the function take `&mut self`.
    pub fn arg_mut_self(&mut self) -> (r: &mut Self)
        ensures
            (*r)@ == (FunctionView { arg_self: Some("&mut self"@), ..old(self)@ }),
            *final(self) == *final(r),
    {
        self.arg_self = Some("&mut self".to_owned());
        self
    }

    /// The function with one more argument.
    pub fn arg(self, name: &str, ty: Type) -> (r: Self)
        ensures
            r@ == (FunctionView { args: self@.args.push(arg_view(name@, ty@)), ..self@ }),
    {
        let mut r = self;
        r.args.push(Field::new(None, name, ty, false, false));
        assert(fields_seq_view(r.args@) =~= fields_seq_view(self.args@).push(arg_view(name@, ty@)));
        r
    }

    /// The function with the given return type.
    pub fn ret(self, ty: Type) -> (r: Self)
        ensures
            r@ == (FunctionView { ret: Some(ty@), ..self@ }),
    {
        let mut r = self;
        r.ret = Some(ty);
        r
    }

    /// Adds a `where` bound.
    pub fn bound(&mut self, name: &str, ty: Type) -> (r: &mut Self)
        ensures
            (*r)@ == (FunctionView {
                bounds: old(self)@.bounds.push(bound_view_of(name@, ty@)),
                ..old(self)@
            }),
            *final(self) == *final(r),
    {
        let b = one_bound(name, ty);
        self.bounds.push(b);
        assert(bounds_view(self.bounds@) =~= bounds_view(old(self).bounds@).push(bound_view_of(name@, ty@)));
        self
    }

    /// The function with one more line in its body.
    pub fn line(self, line: &str) -> (r: Self)
        ensures
            r@ == (FunctionView { body: body_push_view(self@.body, BodyView::Line(line@)), ..self@ }),
    {
        let mut r = self;
        push_body(&mut r.body, Body::String(line.to_owned()));
        r
    }

    /// Adds an attribute.
    pub fn attr(&mut self, attribute: &str) -> (r: &mut Self)
        ensures
            (*r)@ == (FunctionView { attributes: old(self)@.attributes.push(attribute@), ..old(self)@ }),
            *final(self) == *final(r),
    {
        self.attributes.push(attribute.to_owned());
        assert(strs_view(self.attributes@) =~= strs_view(old(self).attributes@).push(attribute@));
        self
    }

    /// Sets the `extern` ABI.
    pub fn extern_abi(&mut self, abi: &str) -> (r: &mut Self)
        ensures
            (*r)@ == (FunctionView { extern_abi: Some(abi@), ..old(self)@ }),
            *final(self) == *final(r),
    {
        self.extern_abi = Some(abi.to_owned());
        self
    }

    /// The function with one more nested block in its body.
    pub fn push_block(self, block: Block) -> (r: Self)
        ensures
            r@ == (FunctionView {
                body: body_push_view(self@.body, BodyView::Block(block_view(block))),
                ..self@
            }),
    {
        let mut r = self;
        push_body(&mut r.body, Body::Block(block));
        r
    }
}

impl Block {
    /// An empty block opened by `before`.
    pub fn new(before: &str) -> (r: Block)
        ensures
            block_view(r) == (BlockView { before: Some(before@), after: None, body: seq![] }),
    {
        let r = Block { before: Some(before.to_owned()), after: None, body: Vec::new() };
        assert(bodies_view(r.body@) =~= seq![]);
        r
    }

    /// The block with one more line.
    pub fn line(self, line: &str) -> (r: Self)
        ensures
            block_view(r) == (BlockView {
                body: block_view(self).body.push(BodyView::Line(line@)),
                ..block_view(self)
            }),
    {
        let mut r = self;
        let item = Body::String(line.to_owned());
        proof {
            lemma_bodies_view_push(r.body@, item);
        }
        r.body.push(item);
        r
    }

    /// The block with one more nested block.
    pub fn push_block(self, block: Block) -> (r: Self)
        ensures
            block_view(r) == (BlockView {
                body: block_view(self).body.push(BodyView::Block(block_view(block))),
                ..block_view(self)
            }),
    {
        let mut r = self;
        let item = Body::Block(block);
        proof {
            lemma_bodies_view_push(r.body@, item);
        }
        r.body.push(item);
        r
    }

    /// The block with `after` written after its closing brace.
    pub fn after(self, after: &str) -> (r: Self)
        ensures
            block_view(r) == (BlockView { after: Some(after@), ..block_view(self) }),
    {
        let mut r = self;
        r.after = Some(after.to_owned());
        r
    }
}

impl Import {
    /// The import of `path::ty`, with no visibility.
    pub fn new(path: &str, ty: &str) -> (r: Import)
        ensures
            r@ == (ImportView { line: path@ + "::"@ + ty@, vis: None }),
    {
        Import { line: concat3(path, "::", ty), vis: None }
    }

    /// Sets the visibility of the import.
    pub fn vis(&mut self, vis: &str) -> (r: &mut Self)
        ensures
            (*r)@ == (ImportView { vis: Some(vis@), ..old(self)@ }),
            *final(self) == *final(r),
    {
        self.vis = Some(vis.to_owned());
        self
    }
}

impl Impl {
    /// An empty `impl` block for `target`.
    pub fn new(target: Type) -> (r: Impl)
        ensures
            r@ == (ImplView {
                target: target@,
                generics: seq![],
                impl_trait: None,
                assoc_tys: seq![],
                bounds: seq![],
                fns: seq![],
                macros: seq![],
            }),
    {
        let r = Impl {
            target,
            generics: Vec::new(),
            impl_trait: None,
            assoc_tys: Vec::new(),
            bounds: Vec::new(),
            fns: Vec::new(),
            macros: Vec::new(),
        };
        assert(strs_view(r.generics@) =~= seq![]);
        assert(strs_view(r.macros@) =~= seq![]);
        assert(fields_seq_view(r.assoc_tys@) =~= seq![]);
        assert(bounds_view(r.bounds@) =~= seq![]);
        assert(fns_view(r.fns@) =~= seq![]);
        r
    }

    /// The block with one more generic parameter of its own (`impl<T>`).
    pub fn generic(self, name: &str) -> (r: Self)
        ensures
            r@ == (ImplView { generics: self@.generics.push(name@), ..self@ }),
    {
        let mut r = self;
        r.generics.push(name.to_owned());
        assert(strs_view(r.generics@) =~= strs_view(self.generics@).push(name@));
        r
    }

    /// The block with one more generic argument on its target type; the
    /// target's name must not already hold generic arguments.
    pub fn target_generic(self, ty: Type) -> (r: Self)
        requires
            !self@.target.name.contains('<'),
        ensures
            r@ == (ImplView {
                target: TypeView { generics: self@.target.generics.push(ty@), ..self@.target },
                ..self@
            }),
    {
        let mut r = self;
        let t = r.target.clone();
        r.target = t.generic(ty);
        r
    }

    /// The block implementing the trait `ty`.
    pub fn impl_trait(self, ty: Type) -> (r: Self)
        ensures
            r@ == (ImplView { impl_trait: Some(ty@), ..self@ }),
    {
        let mut r = self;
        r.impl_trait = Some(ty);
        r
    }

    /// Adds a macro line written before the block.
    pub fn add_macro(&mut self, line: &str) -> (r: &mut Self)
        ensures
            (*r)@ == (ImplView { macros: old(self)@.macros.push(line@), ..old(self)@ }),
            *final(self) == *final(r),
    {
        self.macros.push(line.to_owned());
        assert(strs_view(self.macros@) =~= strs_view(old(self).macros@).push(line@));
        self
    }

    /// Sets an associated type `type name = ty;`.
    pub fn associate_type(
        &mut self,
        xml_name: Option<XsdName>,
        name: &str,
        ty: Type,
        attribute: bool,
        flatten: bool,
    ) -> (r: &mut Self)
        ensures
            (*r)@ == (ImplView {
                assoc_tys: old(self)@.assoc_tys.push(
                    new_field_view(opt_name_view(xml_name), name@, ty@, attribute, flatten),
                ),
                ..old(self)@
            }),
            *final(self) == *final(r),
    {
        let f = Field::new(xml_name, name, ty, attribute, flatten);
        let ghost fv = f@;
        self.assoc_tys.push(f);
        assert(fields_seq_view(self.assoc_tys@) =~= fields_seq_view(old(self).assoc_tys@).push(fv));
        self
    }

    /// Adds a `where` bound.
    pub fn bound(&mut self, name: &str, ty: Type) -> (r: &mut Self)
        ensures
            (*r)@ == (ImplView {
                bounds: old(self)@.bounds.push(bound_view_of(name@, ty@)),
                ..old(self)@
            }),
            *final(self) == *final(r),
    {
        let b = one_bound(name, ty);
        self.bounds.push(b);
        assert(bounds_view(self.bounds@) =~= bounds_view(old(self).bounds@).push(bound_view_of(name@, ty@)));
        self
    }

    /// The block with one more function.
    pub fn push_fn(self, item: Function) -> (r: Self)
        ensures
            r@ == (ImplView { fns: self@.fns.push(item@), ..self@ }),
    {
        let mut r = self;
        let ghost iv = item@;
        r.fns.push(item);
        assert(fns_view(r.fns@) =~= fns_view(self.fns@).push(iv));
        r
    }
}

} // verus!
