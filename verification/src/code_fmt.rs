//! What each element of generated code writes: a document per element,
//! and the `fmt` methods that write exactly that document.
use vstd::prelude::*;

use crate::code_doc::{render_text, Chunk, Formatter};
use crate::code_model::{
    AssociatedType, Block, BlockView, Body, BodyView, Bound, BoundView, Docs, Enum, EnumView, Field, FieldView, Fields, FieldsView, Function, FunctionView, Impl, ImplView, Import, ImportTable, ImportView, Item, ItemView, Module, ModuleView, Scope, ScopeView, Struct, StructView, Trait, TraitView, TupleField, TupleFieldView, Type, TypeAlias, TypeAliasView, TypeDef, TypeDefView, TypeView, Variant, VariantView, assoc_view, block_view, bodies_view, body_view, bounds_view, clone_block, clone_bodies, clone_body, clone_bounds, clone_field_vec, clone_fns, clone_impls, clone_import_table, clone_item, clone_module, clone_opt_docs, clone_opt_type, clone_scope, clone_strings, clone_tuple_field_vec, clone_types, fields_seq_view, fns_view, impls_view, import_row_view, import_rows_view, import_table_view, item_view, items_view, lemma_bodies_view, lemma_bodies_view_eq, lemma_bodies_view_push, lemma_items_view, lemma_items_view_push, lemma_types_view, lemma_types_view_eq, lemma_types_view_push, module_view, opt_bodies_view, opt_docs_view, opt_type_view, scope_view, tuple_fields_view, type_view, types_view, variants_view,
};
use crate::names::opt_str_eq;
use crate::text::{join, join_spec, lines_spec, split_lines, strs_view};

verus! {

pub open spec fn txt(s: Seq<char>) -> Seq<Chunk> {
    seq![Chunk::Text(s)]
}

pub open spec fn nothing() -> Seq<Chunk> {
    Seq::<Chunk>::empty()
}

/// `{` on the current line (after a space unless at a line start), then
/// the inner document one level deeper, then `}` on its own line.
pub open spec fn braced(inner: Seq<Chunk>) -> Seq<Chunk> {
    seq![Chunk::Space, Chunk::Text("{\n"@), Chunk::Indent] + inner + seq![
        Chunk::Dedent,
        Chunk::Text("}\n"@),
    ]
}

/// The documents of the elements of `s`, with `sep` between neighbours.
pub open spec fn sep_list<A>(s: Seq<A>, sep: Seq<Chunk>, f: spec_fn(A) -> Seq<Chunk>) -> Seq<
    Chunk,
>
    decreases s.len(),
{
    if s.len() == 0 {
        nothing()
    } else {
        sep_list(s.drop_last(), sep, f) + (if s.len() > 1 {
            sep
        } else {
            nothing()
        }) + f(s.last())
    }
}

/// As `sep_list`, but when `lead` holds `sep` also stands before the first
/// element.
pub open spec fn lead_list<A>(
    s: Seq<A>,
    sep: Seq<Chunk>,
    lead: bool,
    f: spec_fn(A) -> Seq<Chunk>,
) -> Seq<Chunk> {
    if lead {
        sep_list(s, nothing(), |x: A| sep + f(x))
    } else {
        sep_list(s, sep, f)
    }
}

pub proof fn lemma_sep_list_step<A>(s: Seq<A>, i: int, sep: Seq<Chunk>, f: spec_fn(A) -> Seq<Chunk>)
    requires
        0 <= i < s.len(),
    ensures
        sep_list(s.take(i + 1), sep, f) == sep_list(s.take(i), sep, f) + (if i > 0 {
            sep
        } else {
            nothing()
        }) + f(s[i]),
{
    assert(s.take(i + 1).drop_last() =~= s.take(i));
    assert(s.take(i + 1).last() == s[i]);
}

pub proof fn lemma_take_all<A>(s: Seq<A>)
    ensures
        s.take(s.len() as int) == s,
{
    assert(s.take(s.len() as int) =~= s);
}

// ----- types -----

pub open spec fn type_doc(t: TypeView) -> Seq<Chunk>
    decreases t,
{
    txt(t.name) + if t.generics.len() == 0 {
        nothing()
    } else {
        txt("<"@) + type_list_doc(t.generics, ", "@) + txt(">"@)
    }
}

pub open spec fn type_list_doc(ts: Seq<TypeView>, sep: Seq<char>) -> Seq<Chunk>
    decreases ts,
{
    if ts.len() == 0 {
        nothing()
    } else {
        type_list_doc(ts.drop_last(), sep) + (if ts.len() > 1 {
            txt(sep)
        } else {
            nothing()
        }) + type_doc(ts.last())
    }
}

/// `<A, B>` for a non-empty list of generic arguments.
pub open spec fn generics_doc(ts: Seq<TypeView>) -> Seq<Chunk> {
    if ts.len() == 0 {
        nothing()
    } else {
        txt("<"@) + type_list_doc(ts, ", "@) + txt(">"@)
    }
}

pub proof fn lemma_type_list_step(ts: Seq<TypeView>, i: int, sep: Seq<char>)
    requires
        0 <= i < ts.len(),
    ensures
        type_list_doc(ts.take(i + 1), sep) == type_list_doc(ts.take(i), sep) + (if i > 0 {
            txt(sep)
        } else {
            nothing()
        }) + type_doc(ts[i]),
{
    assert(ts.take(i + 1).drop_last() =~= ts.take(i));
    assert(ts.take(i + 1).last() == ts[i]);
}

impl Type {
    /// Writes the type: its name and its generic arguments.
    pub fn fmt(&self, fmt: &mut Formatter)
        ensures
            final(fmt).origin() == old(fmt).origin(),
            final(fmt).log() == old(fmt).log() + type_doc(self@),
        decreases self, 1nat,
    {
        let ghost start = fmt.log();
        fmt.write_str(self.name.as_str());
        Type::write_list(&self.generics, true, ", ", fmt);
        assert(fmt.log() =~= start + type_doc(self@));
    }

    /// Writes the generic arguments `<A, B>`, nothing when there are none.
    pub fn fmt_slice(generics: &Vec<Type>, fmt: &mut Formatter)
        ensures
            final(fmt).origin() == old(fmt).origin(),
            final(fmt).log() == old(fmt).log() + generics_doc(types_view(generics@)),
    {
        Type::write_list(generics, true, ", ", fmt);
    }

    #[verifier::spinoff_prover]
    fn write_list(ts: &Vec<Type>, angle: bool, sep: &str, fmt: &mut Formatter)
        requires
            angle ==> sep@ == ", "@,
        ensures
            final(fmt).origin() == old(fmt).origin(),
            final(fmt).log() == old(fmt).log() + if angle {
                generics_doc(types_view(ts@))
            } else {
                type_list_doc(types_view(ts@), sep@)
            },
        decreases ts@, 0nat,
    {
        let ghost start = fmt.log();
        let ghost vs = types_view(ts@);
        proof {
            lemma_types_view(ts@);
        }
        if angle && ts.len() == 0 {
            assert(vs.len() == 0);
            assert(generics_doc(vs) == nothing());
            assert(fmt.log() == start);
            assert(start + nothing() =~= start);
            return;
        }
        if angle {
            fmt.write_str("<");
            assert(fmt.log() =~= start + txt("<"@));
        }
        let ghost mid = fmt.log();
        let mut i: usize = 0;
        assert(fmt.log() =~= mid + type_list_doc(vs.take(0), sep@));
        while i < ts.len()
            invariant
                i <= ts@.len(),
                vs == types_view(ts@),
                vs.len() == ts@.len(),
                forall|j: int| 0 <= j < ts@.len() ==> #[trigger] vs[j] == type_view(ts@[j]),
                fmt.origin() == old(fmt).origin(),
                fmt.log() == mid + type_list_doc(vs.take(i as int), sep@),
            decreases ts@.len() - i,
        {
            proof {
                lemma_type_list_step(vs, i as int, sep@);
            }
            if i != 0 {
                fmt.write_str(sep);
            }
            assert(decreases_to!(ts@ => ts@[i as int]));
            ts[i].fmt(fmt);
            i += 1;
            assert(fmt.log() =~= mid + type_list_doc(vs.take(i as int), sep@));
        }
        proof {
            lemma_take_all(vs);
        }
        if angle {
            assert(vs.len() > 0);
            fmt.write_str(">");
            assert(fmt.log() =~= start + (txt("<"@) + type_list_doc(vs, ", "@) + txt(">"@)));
            assert(fmt.log() =~= start + generics_doc(vs));
        } else {
            assert(fmt.log() =~= start + type_list_doc(vs, sep@));
        }
    }

    /// The type as text, e.g. `Vec<String>`.
    pub fn to_string(&self) -> (r: String)
        ensures
            r@ == render_text(type_doc(self@)),
    {
        let mut formatter = Formatter::new();
        self.fmt(&mut formatter);
        assert(formatter.log() =~= type_doc(self@));
        formatter.finish()
    }
}

/// `A + B` for the bounds of a `where` clause or an associated type.
pub fn fmt_bound_rhs(tys: &Vec<Type>, fmt: &mut Formatter)
    ensures
        final(fmt).origin() == old(fmt).origin(),
        final(fmt).log() == old(fmt).log() + type_list_doc(types_view(tys@), " + "@),
{
    Type::write_list(tys, false, " + ", fmt);
}

// ----- documentation, attributes, headers -----

pub open spec fn doc_line_doc(line: Seq<char>) -> Seq<Chunk> {
    txt("/// "@) + txt(line) + txt("\n"@)
}

pub open spec fn doc_line_fn() -> spec_fn(Seq<char>) -> Seq<Chunk> {
    |l: Seq<char>| doc_line_doc(l)
}

/// `/// line` for every line of a documentation text.
pub open spec fn docs_doc(d: Seq<char>) -> Seq<Chunk> {
    sep_list(lines_spec(d), nothing(), doc_line_fn())
}

pub open spec fn opt_docs_doc(d: Option<Seq<char>>) -> Seq<Chunk> {
    match d {
        Some(d) => docs_doc(d),
        None => nothing(),
    }
}

/// Writes `/// line` for every given line.
#[verifier::spinoff_prover]
pub fn fmt_doc_lines(lines: &Vec<String>, fmt: &mut Formatter)
    ensures
        final(fmt).origin() == old(fmt).origin(),
        final(fmt).log() == old(fmt).log() + sep_list(strs_view(lines@), nothing(), doc_line_fn()),
{
    let ghost start = fmt.log();
    let ghost vs = strs_view(lines@);
    let mut i: usize = 0;
    assert(fmt.log() =~= start + sep_list(vs.take(0), nothing(), doc_line_fn()));
    while i < lines.len()
        invariant
            i <= lines@.len(),
            vs == strs_view(lines@),
            fmt.origin() == old(fmt).origin(),
            fmt.log() == start + sep_list(vs.take(i as int), nothing(), doc_line_fn()),
        decreases lines@.len() - i,
    {
        proof {
            lemma_sep_list_step(vs, i as int, nothing(), doc_line_fn());
        }
        fmt.write_str("/// ");
        fmt.write_str(lines[i].as_str());
        fmt.write_str("\n");
        i += 1;
        assert(fmt.log() =~= start + sep_list(vs.take(i as int), nothing(), doc_line_fn()));
    }
    proof {
        lemma_take_all(vs);
    }
}

impl Docs {
    /// Writes every line of the documentation as a `///` comment.
    pub fn fmt(&self, fmt: &mut Formatter)
        ensures
            final(fmt).origin() == old(fmt).origin(),
            final(fmt).log() == old(fmt).log() + docs_doc(self@),
    {
        let lines = split_lines(self.docs.as_str());
        fmt_doc_lines(&lines, fmt);
    }
}

pub fn fmt_opt_docs(docs: &Option<Docs>, fmt: &mut Formatter)
    ensures
        final(fmt).origin() == old(fmt).origin(),
        final(fmt).log() == old(fmt).log() + opt_docs_doc(opt_docs_view(*docs)),
{
    match docs {
        Some(d) => d.fmt(fmt),
        None => {
            assert(fmt.log() =~= old(fmt).log() + nothing());
        },
    }
}

pub open spec fn line_fn() -> spec_fn(Seq<char>) -> Seq<Chunk> {
    |l: Seq<char>| txt(l) + txt("\n"@)
}

pub open spec fn word_fn() -> spec_fn(Seq<char>) -> Seq<Chunk> {
    |l: Seq<char>| txt(l)
}

pub open spec fn attr_fn() -> spec_fn(Seq<char>) -> Seq<Chunk> {
    |l: Seq<char>| txt("#["@) + txt(l) + txt("]\n"@)
}

/// Writes `item\n` for every item.
#[verifier::spinoff_prover]
pub fn fmt_lines(items: &Vec<String>, fmt: &mut Formatter)
    ensures
        final(fmt).origin() == old(fmt).origin(),
        final(fmt).log() == old(fmt).log() + sep_list(strs_view(items@), nothing(), line_fn()),
{
    let ghost start = fmt.log();
    let ghost vs = strs_view(items@);
    let mut i: usize = 0;
    assert(fmt.log() =~= start + sep_list(vs.take(0), nothing(), line_fn()));
    while i < items.len()
        invariant
            i <= items@.len(),
            vs == strs_view(items@),
            fmt.origin() == old(fmt).origin(),
            fmt.log() == start + sep_list(vs.take(i as int), nothing(), line_fn()),
        decreases items@.len() - i,
    {
        proof {
            lemma_sep_list_step(vs, i as int, nothing(), line_fn());
        }
        fmt.write_str(items[i].as_str());
        fmt.write_str("\n");
        i += 1;
        assert(fmt.log() =~= start + sep_list(vs.take(i as int), nothing(), line_fn()));
    }
    proof {
        lemma_take_all(vs);
    }
}

/// Writes `#[item]\n` for every item.
#[verifier::spinoff_prover]
pub fn fmt_attrs(items: &Vec<String>, fmt: &mut Formatter)
    ensures
        final(fmt).origin() == old(fmt).origin(),
        final(fmt).log() == old(fmt).log() + sep_list(strs_view(items@), nothing(), attr_fn()),
{
    let ghost start = fmt.log();
    let ghost vs = strs_view(items@);
    let mut i: usize = 0;
    assert(fmt.log() =~= start + sep_list(vs.take(0), nothing(), attr_fn()));
    while i < items.len()
        invariant
            i <= items@.len(),
            vs == strs_view(items@),
            fmt.origin() == old(fmt).origin(),
            fmt.log() == start + sep_list(vs.take(i as int), nothing(), attr_fn()),
        decreases items@.len() - i,
    {
        proof {
            lemma_sep_list_step(vs, i as int, nothing(), attr_fn());
        }
        fmt.write_str("#[");
        fmt.write_str(items[i].as_str());
        fmt.write_str("]\n");
        i += 1;
        assert(fmt.log() =~= start + sep_list(vs.take(i as int), nothing(), attr_fn()));
    }
    proof {
        lemma_take_all(vs);
    }
}

/// Writes the items with `sep` between neighbours.
#[verifier::spinoff_prover]
pub fn fmt_words(items: &Vec<String>, sep: &str, fmt: &mut Formatter)
    ensures
        final(fmt).origin() == old(fmt).origin(),
        final(fmt).log() == old(fmt).log() + sep_list(strs_view(items@), txt(sep@), word_fn()),
{
    let ghost start = fmt.log();
    let ghost vs = strs_view(items@);
    let mut i: usize = 0;
    assert(fmt.log() =~= start + sep_list(vs.take(0), txt(sep@), word_fn()));
    while i < items.len()
        invariant
            i <= items@.len(),
            vs == strs_view(items@),
            fmt.origin() == old(fmt).origin(),
            fmt.log() == start + sep_list(vs.take(i as int), txt(sep@), word_fn()),
        decreases items@.len() - i,
    {
        proof {
            lemma_sep_list_step(vs, i as int, txt(sep@), word_fn());
        }
        if i != 0 {
            fmt.write_str(sep);
        }
        fmt.write_str(items[i].as_str());
        i += 1;
        assert(fmt.log() =~= start + sep_list(vs.take(i as int), txt(sep@), word_fn()));
    }
    proof {
        lemma_take_all(vs);
    }
}


// ----- definitions -----

pub open spec fn vis_doc(v: Option<Seq<char>>) -> Seq<Chunk> {
    match v {
        Some(v) => txt(v) + txt(" "@),
        None => nothing(),
    }
}

pub open spec fn allow_doc(allow: Seq<Seq<char>>) -> Seq<Chunk> {
    if allow.len() == 0 {
        nothing()
    } else {
        txt("#[allow("@) + txt(join_spec(allow, ", "@)) + txt(")]\n"@)
    }
}

pub open spec fn derive_doc(derive: Seq<Seq<char>>) -> Seq<Chunk> {
    if derive.len() == 0 {
        nothing()
    } else {
        txt("#[derive("@) + sep_list(derive, txt(", "@), word_fn()) + txt(")]\n"@)
    }
}

pub open spec fn repr_doc(repr: Option<Seq<char>>) -> Seq<Chunk> {
    match repr {
        Some(r) => txt("#[repr("@) + txt(r) + txt(")]\n"@),
        None => nothing(),
    }
}

pub open spec fn bound_line_doc(b: BoundView) -> Seq<Chunk> {
    txt("      "@) + txt(b.name) + txt(": "@) + type_list_doc(b.bound, " + "@) + txt(",\n"@)
}

pub open spec fn bound_line_fn() -> spec_fn(BoundView) -> Seq<Chunk> {
    |b: BoundView| bound_line_doc(b)
}

/// The `where` clause: the first bound after `where`, the others aligned
/// below it, each ending in a comma.
pub open spec fn bounds_doc(bounds: Seq<BoundView>) -> Seq<Chunk> {
    if bounds.len() == 0 {
        nothing()
    } else {
        txt("\n"@) + txt("where "@) + txt(bounds[0].name) + txt(": "@) + type_list_doc(
            bounds[0].bound,
            " + "@,
        ) + txt(",\n"@) + sep_list(bounds.skip(1), nothing(), bound_line_fn())
    }
}

/// The head of a type definition: documentation, attributes, visibility,
/// keyword, type, parent traits and `where` clause.
pub open spec fn head_doc(td: TypeDefView, keyword: Seq<char>, parents: Seq<TypeView>) -> Seq<
    Chunk,
> {
    opt_docs_doc(td.docs) + allow_doc(td.allow) + derive_doc(td.derive) + repr_doc(td.repr)
        + sep_list(td.macros, nothing(), line_fn()) + vis_doc(td.vis) + txt(keyword) + txt(" "@)
        + type_doc(td.ty) + (if parents.len() == 0 {
        nothing()
    } else {
        txt(": "@) + type_list_doc(parents, " + "@)
    }) + bounds_doc(td.bounds)
}

pub fn fmt_vis(vis: &Option<String>, fmt: &mut Formatter)
    ensures
        final(fmt).origin() == old(fmt).origin(),
        final(fmt).log() == old(fmt).log() + vis_doc(crate::names::opt_str_view(*vis)),
{
    match vis {
        Some(v) => {
            fmt.write_str(v.as_str());
            fmt.write_str(" ");
            assert(fmt.log() =~= old(fmt).log() + vis_doc(crate::names::opt_str_view(*vis)));
        },
        None => {
            assert(fmt.log() =~= old(fmt).log() + nothing());
        },
    }
}

/// Writes the `where` clause of the given bounds (nothing when empty).
#[verifier::spinoff_prover]
pub fn fmt_bounds(bounds: &Vec<Bound>, fmt: &mut Formatter)
    ensures
        final(fmt).origin() == old(fmt).origin(),
        final(fmt).log() == old(fmt).log() + bounds_doc(bounds_view(bounds@)),
{
    let ghost start = fmt.log();
    let ghost vs = bounds_view(bounds@);
    if bounds.len() == 0 {
        assert(fmt.log() =~= start + bounds_doc(vs));
        return;
    }
    fmt.write_str("\n");
    fmt.write_str("where ");
    fmt.write_str(bounds[0].name.as_str());
    fmt.write_str(": ");
    fmt_bound_rhs(&bounds[0].bound, fmt);
    fmt.write_str(",\n");
    let ghost mid = fmt.log();
    let ghost rest = vs.skip(1);
    let mut i: usize = 1;
    assert(rest.take(0) =~= Seq::<BoundView>::empty());
    assert(fmt.log() =~= mid + sep_list(rest.take(0), nothing(), bound_line_fn()));
    while i < bounds.len()
        invariant
            1 <= i <= bounds@.len(),
            vs == bounds_view(bounds@),
            rest == vs.skip(1),
            fmt.origin() == old(fmt).origin(),
            fmt.log() == mid + sep_list(rest.take(i - 1), nothing(), bound_line_fn()),
        decreases bounds@.len() - i,
    {
        proof {
            lemma_sep_list_step(rest, i - 1, nothing(), bound_line_fn());
            assert(rest[i - 1] == bounds@[i as int]@);
        }
        fmt.write_str("      ");
        fmt.write_str(bounds[i].name.as_str());
        fmt.write_str(": ");
        fmt_bound_rhs(&bounds[i].bound, fmt);
        fmt.write_str(",\n");
        i += 1;
        assert(fmt.log() =~= mid + sep_list(rest.take(i - 1), nothing(), bound_line_fn()));
    }
    proof {
        lemma_take_all(rest);
    }
    assert(fmt.log() =~= start + bounds_doc(vs));
}

impl TypeDef {
    /// Writes the head of the definition with the given keyword and parents.
    pub fn fmt_head(&self, keyword: &str, parents: &Vec<Type>, fmt: &mut Formatter)
        ensures
            final(fmt).origin() == old(fmt).origin(),
            final(fmt).log() == old(fmt).log() + head_doc(self@, keyword@, types_view(parents@)),
    {
        let ghost start = fmt.log();
        fmt_opt_docs(&self.docs, fmt);
        self.fmt_allow(fmt);
        self.fmt_derive(fmt);
        self.fmt_repr(fmt);
        self.fmt_macros(fmt);
        fmt_vis(&self.vis, fmt);
        fmt.write_str(keyword);
        fmt.write_str(" ");
        self.ty.fmt(fmt);
        let ghost before_parents = fmt.log();
        if parents.len() != 0 {
            fmt.write_str(": ");
            Type::write_list(parents, false, " + ", fmt);
        }
        proof {
            lemma_types_view(parents@);
        }
        assert(fmt.log() =~= before_parents + (if types_view(parents@).len() == 0 {
            nothing()
        } else {
            txt(": "@) + type_list_doc(types_view(parents@), " + "@)
        }));
        fmt_bounds(&self.bounds, fmt);
        assert(fmt.log() =~= start + head_doc(self@, keyword@, types_view(parents@)));
    }

    /// Writes `#[allow(..)]` when lints are allowed.
    pub fn fmt_allow(&self, fmt: &mut Formatter)
        ensures
            final(fmt).origin() == old(fmt).origin(),
            final(fmt).log() == old(fmt).log() + allow_doc(strs_view(self.allow@)),
    {
        if self.allow.len() != 0 {
            let joined = join(&self.allow, ", ");
            fmt.write_str("#[allow(");
            fmt.write_str(joined.as_str());
            fmt.write_str(")]\n");
            assert(fmt.log() =~= old(fmt).log() + allow_doc(strs_view(self.allow@)));
        } else {
            assert(fmt.log() =~= old(fmt).log() + allow_doc(strs_view(self.allow@)));
        }
    }

    /// Writes `#[repr(..)]` when a representation is set.
    pub fn fmt_repr(&self, fmt: &mut Formatter)
        ensures
            final(fmt).origin() == old(fmt).origin(),
            final(fmt).log() == old(fmt).log() + repr_doc(crate::names::opt_str_view(self.repr)),
    {
        match &self.repr {
            Some(r) => {
                fmt.write_str("#[repr(");
                fmt.write_str(r.as_str());
                fmt.write_str(")]\n");
            },
            None => {},
        }
        assert(fmt.log() =~= old(fmt).log() + repr_doc(crate::names::opt_str_view(self.repr)));
    }

    /// Writes `#[derive(..)]` when traits are derived.
    pub fn fmt_derive(&self, fmt: &mut Formatter)
        ensures
            final(fmt).origin() == old(fmt).origin(),
            final(fmt).log() == old(fmt).log() + derive_doc(strs_view(self.derive@)),
    {
        if self.derive.len() != 0 {
            fmt.write_str("#[derive(");
            fmt_words(&self.derive, ", ", fmt);
            fmt.write_str(")]\n");
        }
        assert(fmt.log() =~= old(fmt).log() + derive_doc(strs_view(self.derive@)));
    }

    /// Writes every macro line.
    pub fn fmt_macros(&self, fmt: &mut Formatter)
        ensures
            final(fmt).origin() == old(fmt).origin(),
            final(fmt).log() == old(fmt).log() + sep_list(
                strs_view(self.macros@),
                nothing(),
                line_fn(),
            ),
    {
        fmt_lines(&self.macros, fmt);
    }
}


// ----- fields, structs, enums -----

pub fn open_block(fmt: &mut Formatter)
    ensures
        final(fmt).origin() == old(fmt).origin(),
        final(fmt).log() == old(fmt).log() + seq![Chunk::Space, Chunk::Text("{\n"@), Chunk::Indent],
{
    fmt.space();
    fmt.write_str("{\n");
    fmt.indent();
    assert(fmt.log() =~= old(fmt).log() + seq![Chunk::Space, Chunk::Text("{\n"@), Chunk::Indent]);
}

pub fn close_block(fmt: &mut Formatter)
    ensures
        final(fmt).origin() == old(fmt).origin(),
        final(fmt).log() == old(fmt).log() + seq![Chunk::Dedent, Chunk::Text("}\n"@)],
{
    fmt.dedent();
    fmt.write_str("}\n");
    assert(fmt.log() =~= old(fmt).log() + seq![Chunk::Dedent, Chunk::Text("}\n"@)]);
}

pub open spec fn opt_text(v: Option<Seq<char>>) -> Seq<char> {
    match v {
        Some(v) => v,
        None => ""@,
    }
}

pub open spec fn named_field_doc(f: FieldView) -> Seq<Chunk> {
    sep_list(f.documentation, nothing(), doc_line_fn()) + sep_list(
        f.annotation,
        nothing(),
        line_fn(),
    ) + txt(opt_text(f.vis)) + txt(
        if f.vis is Some {
            " "@
        } else {
            ""@
        },
    ) + txt(f.name) + txt(": "@) + type_doc(f.ty) + txt(",\n"@)
}

pub open spec fn named_field_fn() -> spec_fn(FieldView) -> Seq<Chunk> {
    |f: FieldView| named_field_doc(f)
}

pub open spec fn tuple_field_doc(f: TupleFieldView) -> Seq<Chunk> {
    vis_doc(f.vis) + type_doc(f.ty)
}

pub open spec fn tuple_field_fn() -> spec_fn(TupleFieldView) -> Seq<Chunk> {
    |f: TupleFieldView| tuple_field_doc(f)
}

/// Named fields in braces, one per line; tuple fields in parentheses.
pub open spec fn fields_doc(fs: FieldsView) -> Seq<Chunk> {
    match fs {
        FieldsView::Empty => nothing(),
        FieldsView::Tuple(v) => txt("("@) + sep_list(v, txt(", "@), tuple_field_fn()) + txt(")"@),
        FieldsView::Named(v) => braced(sep_list(v, nothing(), named_field_fn())),
    }
}

/// Field lists that can be written: named and tuple lists are not empty.
pub open spec fn fields_ok(fs: FieldsView) -> bool {
    match fs {
        FieldsView::Empty => true,
        FieldsView::Tuple(v) => v.len() > 0,
        FieldsView::Named(v) => v.len() > 0,
    }
}

pub open spec fn struct_doc(s: StructView) -> Seq<Chunk> {
    head_doc(s.type_def, "struct"@, seq![]) + fields_doc(s.fields) + match s.fields {
        FieldsView::Named(_) => nothing(),
        _ => txt(";\n"@),
    }
}

pub open spec fn variant_doc(v: VariantView) -> Seq<Chunk> {
    txt(v.name) + fields_doc(v.fields) + txt(",\n"@)
}

pub open spec fn variant_fn() -> spec_fn(VariantView) -> Seq<Chunk> {
    |v: VariantView| variant_doc(v)
}

pub open spec fn enum_doc(e: EnumView) -> Seq<Chunk> {
    head_doc(e.type_def, "enum"@, seq![]) + braced(sep_list(e.variants, nothing(), variant_fn()))
}

pub open spec fn enum_ok(e: EnumView) -> bool {
    forall|i: int| 0 <= i < e.variants.len() ==> fields_ok(#[trigger] e.variants[i].fields)
}

impl Field {
    fn fmt_named(&self, fmt: &mut Formatter)
        ensures
            final(fmt).origin() == old(fmt).origin(),
            final(fmt).log() == old(fmt).log() + named_field_doc(self@),
    {
        let ghost start = fmt.log();
        fmt_doc_lines(&self.documentation, fmt);
        fmt_lines(&self.annotation, fmt);
        match &self.vis {
            Some(v) => {
                fmt.write_str(v.as_str());
                fmt.write_str(" ");
            },
            None => {
                fmt.write_str("");
                fmt.write_str("");
            },
        }
        fmt.write_str(self.name.as_str());
        fmt.write_str(": ");
        self.ty.fmt(fmt);
        fmt.write_str(",\n");
        assert(fmt.log() =~= start + named_field_doc(self@));
    }
}

impl Fields {
    /// Writes the fields: braces for named fields, parentheses for tuple
    /// fields, nothing when empty.
    #[verifier::spinoff_prover]
    pub fn fmt(&self, fmt: &mut Formatter)
        requires
            fields_ok(self@),
        ensures
            final(fmt).origin() == old(fmt).origin(),
            final(fmt).log() == old(fmt).log() + fields_doc(self@),
    {
        let ghost start = fmt.log();
        match self {
            Fields::Named(fields) => {
                open_block(fmt);
                let ghost mid = fmt.log();
                let ghost vs = fields_seq_view(fields@);
                let mut i: usize = 0;
                assert(fmt.log() =~= mid + sep_list(vs.take(0), nothing(), named_field_fn()));
                while i < fields.len()
                    invariant
                        i <= fields@.len(),
                        vs == fields_seq_view(fields@),
                        fmt.origin() == old(fmt).origin(),
                        fmt.log() == mid + sep_list(vs.take(i as int), nothing(), named_field_fn()),
                    decreases fields@.len() - i,
                {
                    proof {
                        lemma_sep_list_step(vs, i as int, nothing(), named_field_fn());
                    }
                    fields[i].fmt_named(fmt);
                    i += 1;
                    assert(fmt.log() =~= mid + sep_list(vs.take(i as int), nothing(), named_field_fn()));
                }
                proof {
                    lemma_take_all(vs);
                }
                close_block(fmt);
                assert(fmt.log() =~= start + fields_doc(self@));
            },
            Fields::Tuple(tys) => {
                fmt.write_str("(");
                let ghost mid = fmt.log();
                let ghost vs = tuple_fields_view(tys@);
                let mut i: usize = 0;
                assert(fmt.log() =~= mid + sep_list(vs.take(0), txt(", "@), tuple_field_fn()));
                while i < tys.len()
                    invariant
                        i <= tys@.len(),
                        vs == tuple_fields_view(tys@),
                        fmt.origin() == old(fmt).origin(),
                        fmt.log() == mid + sep_list(vs.take(i as int), txt(", "@), tuple_field_fn()),
                    decreases tys@.len() - i,
                {
                    proof {
                        lemma_sep_list_step(vs, i as int, txt(", "@), tuple_field_fn());
                    }
                    if i != 0 {
                        fmt.write_str(", ");
                    }
                    fmt_vis(&tys[i].vis, fmt);
                    tys[i].ty.fmt(fmt);
                    i += 1;
                    assert(fmt.log() =~= mid + sep_list(vs.take(i as int), txt(", "@), tuple_field_fn()));
                }
                proof {
                    lemma_take_all(vs);
                }
                fmt.write_str(")");
                assert(fmt.log() =~= start + fields_doc(self@));
            },
            Fields::Empty => {
                assert(fmt.log() =~= start + fields_doc(self@));
            },
        }
    }
}

impl Struct {
    /// Writes the struct definition.
    pub fn fmt(&self, fmt: &mut Formatter)
        requires
            fields_ok(self.fields@),
        ensures
            final(fmt).origin() == old(fmt).origin(),
            final(fmt).log() == old(fmt).log() + struct_doc(self@),
    {
        let ghost start = fmt.log();
        let no_parents: Vec<Type> = Vec::new();
        assert(types_view(no_parents@) =~= seq![]);
        self.type_def.fmt_head("struct", &no_parents, fmt);
        self.fields.fmt(fmt);
        match self.fields {
            Fields::Named(_) => {},
            _ => {
                fmt.write_str(";\n");
            },
        }
        assert(fmt.log() =~= start + struct_doc(self@));
    }
}

impl Variant {
    /// Writes the variant followed by a comma and a line feed.
    pub fn fmt(&self, fmt: &mut Formatter)
        requires
            fields_ok(self.fields@),
        ensures
            final(fmt).origin() == old(fmt).origin(),
            final(fmt).log() == old(fmt).log() + variant_doc(self@),
    {
        let ghost start = fmt.log();
        fmt.write_str(self.name.as_str());
        self.fields.fmt(fmt);
        fmt.write_str(",\n");
        assert(fmt.log() =~= start + variant_doc(self@));
    }
}

impl Enum {
    /// Writes the enum definition.
    #[verifier::spinoff_prover]
    pub fn fmt(&self, fmt: &mut Formatter)
        requires
            enum_ok(self@),
        ensures
            final(fmt).origin() == old(fmt).origin(),
            final(fmt).log() == old(fmt).log() + enum_doc(self@),
    {
        let ghost start = fmt.log();
        let no_parents: Vec<Type> = Vec::new();
        assert(types_view(no_parents@) =~= seq![]);
        self.type_def.fmt_head("enum", &no_parents, fmt);
        open_block(fmt);
        let ghost mid = fmt.log();
        let ghost vs = variants_view(self.variants@);
        let mut i: usize = 0;
        assert(fmt.log() =~= mid + sep_list(vs.take(0), nothing(), variant_fn()));
        while i < self.variants.len()
            invariant
                i <= self.variants@.len(),
                vs == variants_view(self.variants@),
                enum_ok(self@),
                fmt.origin() == old(fmt).origin(),
                fmt.log() == mid + sep_list(vs.take(i as int), nothing(), variant_fn()),
            decreases self.variants@.len() - i,
        {
            proof {
                lemma_sep_list_step(vs, i as int, nothing(), variant_fn());
                assert(fields_ok(vs[i as int].fields));
            }
            self.variants[i].fmt(fmt);
            i += 1;
            assert(fmt.log() =~= mid + sep_list(vs.take(i as int), nothing(), variant_fn()));
        }
        proof {
            lemma_take_all(vs);
        }
        close_block(fmt);
        assert(fmt.log() =~= start + enum_doc(self@));
    }
}


// ----- blocks and functions -----

pub open spec fn block_doc(b: BlockView) -> Seq<Chunk>
    decreases b,
{
    txt(opt_text(b.before)) + seq![Chunk::Space, Chunk::Text("{\n"@), Chunk::Indent] + bodies_doc(
        b.body,
    ) + seq![Chunk::Dedent, Chunk::Text("}"@)] + (match b.after {
        Some(a) => txt(a),
        None => nothing(),
    }) + txt("\n"@)
}

pub open spec fn body_doc(b: BodyView) -> Seq<Chunk>
    decreases b,
{
    match b {
        BodyView::Line(s) => txt(s) + txt("\n"@),
        BodyView::Block(k) => block_doc(k),
    }
}

pub open spec fn bodies_doc(s: Seq<BodyView>) -> Seq<Chunk>
    decreases s,
{
    if s.len() == 0 {
        nothing()
    } else {
        bodies_doc(s.drop_last()) + body_doc(s.last())
    }
}

pub proof fn lemma_bodies_doc_step(s: Seq<BodyView>, i: int)
    requires
        0 <= i < s.len(),
    ensures
        bodies_doc(s.take(i + 1)) == bodies_doc(s.take(i)) + body_doc(s[i]),
{
    assert(s.take(i + 1).drop_last() =~= s.take(i));
    assert(s.take(i + 1).last() == s[i]);
}

#[verifier::spinoff_prover]
fn fmt_bodies(body: &Vec<Body>, fmt: &mut Formatter)
    ensures
        final(fmt).origin() == old(fmt).origin(),
        final(fmt).log() == old(fmt).log() + bodies_doc(bodies_view(body@)),
    decreases body@, 0nat,
{
    let ghost start = fmt.log();
    let ghost vs = bodies_view(body@);
    proof {
        lemma_bodies_view(body@);
    }
    let mut i: usize = 0;
    assert(fmt.log() =~= start + bodies_doc(vs.take(0)));
    while i < body.len()
        invariant
            i <= body@.len(),
            vs == bodies_view(body@),
            vs.len() == body@.len(),
            forall|j: int| 0 <= j < body@.len() ==> #[trigger] vs[j] == body_view(body@[j]),
            fmt.origin() == old(fmt).origin(),
            fmt.log() == start + bodies_doc(vs.take(i as int)),
        decreases body@.len() - i,
    {
        proof {
            lemma_bodies_doc_step(vs, i as int);
        }
        assert(decreases_to!(body@ => body@[i as int]));
        body[i].fmt(fmt);
        i += 1;
        assert(fmt.log() =~= start + bodies_doc(vs.take(i as int)));
    }
    proof {
        lemma_take_all(vs);
    }
}

impl Block {
    /// Writes `before {`, the body one level deeper, then `}after`.
    pub fn fmt(&self, fmt: &mut Formatter)
        ensures
            final(fmt).origin() == old(fmt).origin(),
            final(fmt).log() == old(fmt).log() + block_doc(self@),
        decreases self, 1nat,
    {
        let ghost start = fmt.log();
        match &self.before {
            Some(b) => fmt.write_str(b.as_str()),
            None => fmt.write_str(""),
        }
        fmt.space();
        fmt.write_str("{\n");
        fmt.indent();
        fmt_bodies(&self.body, fmt);
        fmt.dedent();
        fmt.write_str("}");
        match &self.after {
            Some(a) => fmt.write_str(a.as_str()),
            None => {},
        }
        fmt.write_str("\n");
        assert(fmt.log() =~= start + block_doc(self@));
    }
}

impl Body {
    /// Writes a line (followed by a line feed) or a nested block.
    pub fn fmt(&self, fmt: &mut Formatter)
        ensures
            final(fmt).origin() == old(fmt).origin(),
            final(fmt).log() == old(fmt).log() + body_doc(self@),
        decreases self, 2nat,
    {
        match self {
            Body::String(s) => {
                fmt.write_str(s.as_str());
                fmt.write_str("\n");
                assert(fmt.log() =~= old(fmt).log() + body_doc(self@));
            },
            Body::Block(b) => {
                b.fmt(fmt);
            },
        }
    }
}

pub open spec fn prefixed<A>(sep: Seq<Chunk>, f: spec_fn(A) -> Seq<Chunk>) -> spec_fn(A) -> Seq<Chunk> {
    |x: A| sep + f(x)
}

pub proof fn lemma_lead_list_step<A>(
    s: Seq<A>,
    i: int,
    sep: Seq<Chunk>,
    lead: bool,
    f: spec_fn(A) -> Seq<Chunk>,
)
    requires
        0 <= i < s.len(),
    ensures
        lead_list(s.take(i + 1), sep, lead, f) == lead_list(s.take(i), sep, lead, f) + (if lead
            || i > 0 {
            sep
        } else {
            nothing()
        }) + f(s[i]),
{
    if lead {
        lemma_sep_list_step(s, i, nothing(), prefixed(sep, f));
        assert(lead_list(s.take(i + 1), sep, lead, f) == sep_list(s.take(i + 1), nothing(), prefixed(sep, f)));
        assert(lead_list(s.take(i), sep, lead, f) == sep_list(s.take(i), nothing(), prefixed(sep, f)));
        assert(prefixed(sep, f)(s[i]) == sep + f(s[i]));
    } else {
        lemma_sep_list_step(s, i, sep, f);
    }
}

pub open spec fn str_generics_doc(gs: Seq<Seq<char>>) -> Seq<Chunk> {
    if gs.len() == 0 {
        nothing()
    } else {
        txt("<"@) + sep_list(gs, txt(", "@), word_fn()) + txt(">"@)
    }
}

pub open spec fn arg_doc(a: FieldView) -> Seq<Chunk> {
    txt(a.name) + txt(": "@) + type_doc(a.ty)
}

pub open spec fn arg_fn() -> spec_fn(FieldView) -> Seq<Chunk> {
    |a: FieldView| arg_doc(a)
}

pub open spec fn allow_attr_doc(a: Option<Seq<char>>) -> Seq<Chunk> {
    match a {
        Some(a) => txt("#[allow("@) + txt(a) + txt(")]\n"@),
        None => nothing(),
    }
}

pub open spec fn extern_doc(a: Option<Seq<char>>) -> Seq<Chunk> {
    match a {
        Some(a) => txt("extern \""@) + txt(a) + txt("\" "@),
        None => nothing(),
    }
}

pub open spec fn async_doc(b: bool) -> Seq<Chunk> {
    if b {
        txt("async "@)
    } else {
        nothing()
    }
}

/// Documentation, attributes and qualifiers of a function.
pub open spec fn fn_attrs_doc(f: FunctionView) -> Seq<Chunk> {
    opt_docs_doc(f.docs) + allow_attr_doc(f.allow) + sep_list(f.attributes, nothing(), attr_fn())
        + vis_doc(f.vis) + extern_doc(f.extern_abi) + async_doc(f.is_async)
}

/// The part of a function definition up to the opening parenthesis.
pub open spec fn fn_head_doc(f: FunctionView) -> Seq<Chunk> {
    fn_attrs_doc(f) + txt("fn "@) + txt(f.name) + str_generics_doc(f.generics) + txt("("@)
}

/// The parameters of a function and the closing parenthesis.
pub open spec fn fn_args_doc(f: FunctionView) -> Seq<Chunk> {
    (match f.arg_self {
        Some(s) => txt(s),
        None => nothing(),
    }) + lead_list(f.args, txt(", "@), f.arg_self is Some, arg_fn()) + txt(")"@)
}

/// The return type, `where` clause and body (or `;`) of a function.
pub open spec fn fn_tail_doc(f: FunctionView) -> Seq<Chunk> {
    (match f.ret {
        Some(r) => txt(" -> "@) + type_doc(r),
        None => nothing(),
    }) + bounds_doc(f.bounds) + match f.body {
        Some(b) => braced(bodies_doc(b)),
        None => txt(";\n"@),
    }
}

/// What a function definition writes (the same inside a trait or not; a
/// trait's function needs no visibility and may have no body).
pub open spec fn fn_doc(f: FunctionView, is_trait: bool) -> Seq<Chunk> {
    fn_head_doc(f) + fn_args_doc(f) + fn_tail_doc(f)
}

/// A function can be written: functions of traits have no visibility and
/// the others have a body.
pub open spec fn fn_ok(f: FunctionView, is_trait: bool) -> bool {
    &&& is_trait ==> f.vis is None
    &&& !is_trait ==> f.body is Some
}

/// Writes `<A, B>` for generic parameter names (nothing when empty).
pub fn fmt_generics(generics: &Vec<String>, fmt: &mut Formatter)
    ensures
        final(fmt).origin() == old(fmt).origin(),
        final(fmt).log() == old(fmt).log() + str_generics_doc(strs_view(generics@)),
{
    if generics.len() != 0 {
        fmt.write_str("<");
        fmt_words(generics, ", ", fmt);
        fmt.write_str(">");
    }
    assert(fmt.log() =~= old(fmt).log() + str_generics_doc(strs_view(generics@)));
}

fn fmt_allow_attr(a: &Option<String>, fmt: &mut Formatter)
    ensures
        final(fmt).origin() == old(fmt).origin(),
        final(fmt).log() == old(fmt).log() + allow_attr_doc(crate::names::opt_str_view(*a)),
{
    match a {
        Some(a) => {
            fmt.write_str("#[allow(");
            fmt.write_str(a.as_str());
            fmt.write_str(")]\n");
        },
        None => {},
    }
    assert(fmt.log() =~= old(fmt).log() + allow_attr_doc(crate::names::opt_str_view(*a)));
}

fn fmt_extern(a: &Option<String>, fmt: &mut Formatter)
    ensures
        final(fmt).origin() == old(fmt).origin(),
        final(fmt).log() == old(fmt).log() + extern_doc(crate::names::opt_str_view(*a)),
{
    match a {
        Some(a) => {
            fmt.write_str("extern \"");
            fmt.write_str(a.as_str());
            fmt.write_str("\" ");
        },
        None => {},
    }
    assert(fmt.log() =~= old(fmt).log() + extern_doc(crate::names::opt_str_view(*a)));
}

fn fmt_async(b: bool, fmt: &mut Formatter)
    ensures
        final(fmt).origin() == old(fmt).origin(),
        final(fmt).log() == old(fmt).log() + async_doc(b),
{
    if b {
        fmt.write_str("async ");
    }
    assert(fmt.log() =~= old(fmt).log() + async_doc(b));
}

impl Function {
    #[verifier::spinoff_prover]
    fn fmt_attrs(&self, fmt: &mut Formatter)
        ensures
            final(fmt).origin() == old(fmt).origin(),
            final(fmt).log() == old(fmt).log() + fn_attrs_doc(self@),
    {
        let ghost start = fmt.log();
        fmt_opt_docs(&self.docs, fmt);
        let ghost s1 = fmt.log();
        fmt_allow_attr(&self.allow, fmt);
        fmt_attrs(&self.attributes, fmt);
        let ghost s2 = fmt.log();
        fmt_vis(&self.vis, fmt);
        fmt_extern(&self.extern_abi, fmt);
        fmt_async(self.is_async, fmt);
        let ghost s3 = fmt.log();
        assert(s2 =~= s1 + allow_attr_doc(self@.allow) + sep_list(self@.attributes, nothing(), attr_fn()));
        assert(s3 =~= s2 + vis_doc(self@.vis) + extern_doc(self@.extern_abi) + async_doc(self@.is_async));
        assert(fmt.log() =~= start + fn_attrs_doc(self@));
    }

    #[verifier::spinoff_prover]
    fn fmt_head(&self, fmt: &mut Formatter)
        ensures
            final(fmt).origin() == old(fmt).origin(),
            final(fmt).log() == old(fmt).log() + fn_head_doc(self@),
    {
        let ghost start = fmt.log();
        self.fmt_attrs(fmt);
        fmt.write_str("fn ");
        fmt.write_str(self.name.as_str());
        fmt_generics(&self.generics, fmt);
        fmt.write_str("(");
        assert(fmt.log() =~= start + fn_head_doc(self@));
    }

    #[verifier::spinoff_prover]
    fn fmt_args(&self, fmt: &mut Formatter)
        ensures
            final(fmt).origin() == old(fmt).origin(),
            final(fmt).log() == old(fmt).log() + fn_args_doc(self@),
    {
        let ghost start = fmt.log();
        match &self.arg_self {
            Some(s) => fmt.write_str(s.as_str()),
            None => {},
        }
        let ghost mid = fmt.log();
        let ghost vs = fields_seq_view(self.args@);
        let lead = self.arg_self.is_some();
        let mut i: usize = 0;
        assert(fmt.log() =~= mid + lead_list(vs.take(0), txt(", "@), lead, arg_fn()));
        while i < self.args.len()
            invariant
                i <= self.args@.len(),
                vs == fields_seq_view(self.args@),
                lead == self@.arg_self is Some,
                fmt.origin() == old(fmt).origin(),
                fmt.log() == mid + lead_list(vs.take(i as int), txt(", "@), lead, arg_fn()),
            decreases self.args@.len() - i,
        {
            proof {
                lemma_lead_list_step(vs, i as int, txt(", "@), lead, arg_fn());
            }
            if i != 0 || lead {
                fmt.write_str(", ");
            }
            fmt.write_str(self.args[i].name.as_str());
            fmt.write_str(": ");
            self.args[i].ty.fmt(fmt);
            i += 1;
            assert(fmt.log() =~= mid + lead_list(vs.take(i as int), txt(", "@), lead, arg_fn()));
        }
        proof {
            lemma_take_all(vs);
        }
        fmt.write_str(")");
        assert(fmt.log() =~= start + fn_args_doc(self@));
    }

    fn fmt_tail(&self, fmt: &mut Formatter)
        ensures
            final(fmt).origin() == old(fmt).origin(),
            final(fmt).log() == old(fmt).log() + fn_tail_doc(self@),
    {
        let ghost start = fmt.log();
        match &self.ret {
            Some(r) => {
                fmt.write_str(" -> ");
                r.fmt(fmt);
            },
            None => {},
        }
        fmt_bounds(&self.bounds, fmt);
        match &self.body {
            Some(b) => {
                open_block(fmt);
                fmt_bodies(b, fmt);
                close_block(fmt);
            },
            None => {
                fmt.write_str(";\n");
            },
        }
        assert(fmt.log() =~= start + fn_tail_doc(self@));
    }

    /// Writes the function definition; `is_trait` tells whether it stands
    /// inside a trait.
    pub fn fmt(&self, is_trait: bool, fmt: &mut Formatter)
        requires
            fn_ok(self@, is_trait),
        ensures
            final(fmt).origin() == old(fmt).origin(),
            final(fmt).log() == old(fmt).log() + fn_doc(self@, is_trait),
    {
        let ghost start = fmt.log();
        self.fmt_head(fmt);
        self.fmt_args(fmt);
        self.fmt_tail(fmt);
        assert(fmt.log() =~= start + fn_doc(self@, is_trait));
    }
}


// ----- traits, impls, aliases -----

pub open spec fn assoc_decl_doc(b: BoundView) -> Seq<Chunk> {
    txt("type "@) + txt(b.name) + (if b.bound.len() == 0 {
        nothing()
    } else {
        txt(": "@) + type_list_doc(b.bound, " + "@)
    }) + txt(";\n"@)
}

pub open spec fn assoc_decl_fn() -> spec_fn(BoundView) -> Seq<Chunk> {
    |b: BoundView| assoc_decl_doc(b)
}

pub open spec fn trait_fn_fn() -> spec_fn(FunctionView) -> Seq<Chunk> {
    |f: FunctionView| fn_doc(f, true)
}

pub open spec fn impl_fn_fn() -> spec_fn(FunctionView) -> Seq<Chunk> {
    |f: FunctionView| fn_doc(f, false)
}

/// The associated types and functions inside a trait or impl body: a
/// blank line separates the functions from each other and from the
/// associated types.
pub open spec fn trait_body_doc(t: TraitView) -> Seq<Chunk> {
    sep_list(t.associated_tys, nothing(), assoc_decl_fn()) + lead_list(
        t.fns,
        txt("\n"@),
        t.associated_tys.len() > 0,
        trait_fn_fn(),
    )
}

pub open spec fn trait_doc(t: TraitView) -> Seq<Chunk> {
    head_doc(t.type_def, "trait"@, t.parents) + braced(trait_body_doc(t))
}

pub open spec fn trait_ok(t: TraitView) -> bool {
    forall|i: int| 0 <= i < t.fns.len() ==> fn_ok(#[trigger] t.fns[i], true)
}

pub open spec fn impl_assoc_doc(f: FieldView) -> Seq<Chunk> {
    txt("type "@) + txt(f.name) + txt(" = "@) + type_doc(f.ty) + txt(";\n"@)
}

pub open spec fn impl_assoc_fn() -> spec_fn(FieldView) -> Seq<Chunk> {
    |f: FieldView| impl_assoc_doc(f)
}

pub open spec fn impl_head_doc(i: ImplView) -> Seq<Chunk> {
    sep_list(i.macros, nothing(), line_fn()) + txt("impl"@) + str_generics_doc(i.generics) + (
    match i.impl_trait {
        Some(t) => txt(" "@) + type_doc(t) + txt(" for"@),
        None => nothing(),
    }) + txt(" "@) + type_doc(i.target) + bounds_doc(i.bounds)
}

pub open spec fn impl_body_doc(i: ImplView) -> Seq<Chunk> {
    sep_list(i.assoc_tys, nothing(), impl_assoc_fn()) + lead_list(
        i.fns,
        txt("\n"@),
        i.assoc_tys.len() > 0,
        impl_fn_fn(),
    )
}

pub open spec fn impl_doc(i: ImplView) -> Seq<Chunk> {
    impl_head_doc(i) + braced(impl_body_doc(i))
}

pub open spec fn impl_ok(i: ImplView) -> bool {
    forall|k: int| 0 <= k < i.fns.len() ==> fn_ok(#[trigger] i.fns[k], false)
}

pub open spec fn alias_doc(a: TypeAliasView) -> Seq<Chunk> {
    (match a.doc {
        Some(d) => docs_doc(d),
        None => nothing(),
    }) + txt("pub type "@) + type_doc(a.alias) + txt(" = "@) + type_doc(a.value) + txt(";\n"@)
}

#[verifier::spinoff_prover]
fn fmt_fn_list(fns: &Vec<Function>, lead: bool, is_trait: bool, fmt: &mut Formatter)
    requires
        forall|k: int| 0 <= k < fns@.len() ==> fn_ok(#[trigger] fns@[k]@, is_trait),
    ensures
        final(fmt).origin() == old(fmt).origin(),
        final(fmt).log() == old(fmt).log() + lead_list(
            fns_view(fns@),
            txt("\n"@),
            lead,
            if is_trait {
                trait_fn_fn()
            } else {
                impl_fn_fn()
            },
        ),
{
    let ghost start = fmt.log();
    let ghost vs = fns_view(fns@);
    let ghost f = if is_trait {
        trait_fn_fn()
    } else {
        impl_fn_fn()
    };
    let mut i: usize = 0;
    assert(fmt.log() =~= start + lead_list(vs.take(0), txt("\n"@), lead, f));
    while i < fns.len()
        invariant
            i <= fns@.len(),
            vs == fns_view(fns@),
            f == (if is_trait {
                trait_fn_fn()
            } else {
                impl_fn_fn()
            }),
            forall|k: int| 0 <= k < fns@.len() ==> fn_ok(#[trigger] fns@[k]@, is_trait),
            fmt.origin() == old(fmt).origin(),
            fmt.log() == start + lead_list(vs.take(i as int), txt("\n"@), lead, f),
        decreases fns@.len() - i,
    {
        proof {
            lemma_lead_list_step(vs, i as int, txt("\n"@), lead, f);
        }
        if i != 0 || lead {
            fmt.write_str("\n");
        }
        assert(fn_ok(fns@[i as int]@, is_trait));
        fns[i].fmt(is_trait, fmt);
        i += 1;
        assert(fmt.log() =~= start + lead_list(vs.take(i as int), txt("\n"@), lead, f));
    }
    proof {
        lemma_take_all(vs);
    }
}

impl Trait {
    #[verifier::spinoff_prover]
    fn fmt_assoc(&self, fmt: &mut Formatter)
        ensures
            final(fmt).origin() == old(fmt).origin(),
            final(fmt).log() == old(fmt).log() + sep_list(
                assoc_view(self.associated_tys@),
                nothing(),
                assoc_decl_fn(),
            ),
    {
        let ghost start = fmt.log();
        let ghost vs = assoc_view(self.associated_tys@);
        let mut i: usize = 0;
        assert(fmt.log() =~= start + sep_list(vs.take(0), nothing(), assoc_decl_fn()));
        while i < self.associated_tys.len()
            invariant
                i <= self.associated_tys@.len(),
                vs == assoc_view(self.associated_tys@),
                fmt.origin() == old(fmt).origin(),
                fmt.log() == start + sep_list(vs.take(i as int), nothing(), assoc_decl_fn()),
            decreases self.associated_tys@.len() - i,
        {
            proof {
                lemma_sep_list_step(vs, i as int, nothing(), assoc_decl_fn());
            }
            let ty = &self.associated_tys[i].0;
            let ghost s0 = fmt.log();
            fmt.write_str("type ");
            fmt.write_str(ty.name.as_str());
            if ty.bound.len() != 0 {
                fmt.write_str(": ");
                fmt_bound_rhs(&ty.bound, fmt);
            }
            proof {
                lemma_types_view(ty.bound@);
            }
            fmt.write_str(";\n");
            assert(fmt.log() =~= s0 + assoc_decl_doc(ty@));
            i += 1;
            assert(fmt.log() =~= start + sep_list(vs.take(i as int), nothing(), assoc_decl_fn()));
        }
        proof {
            lemma_take_all(vs);
        }
    }

    /// Writes the trait definition.
    pub fn fmt(&self, fmt: &mut Formatter)
        requires
            trait_ok(self@),
        ensures
            final(fmt).origin() == old(fmt).origin(),
            final(fmt).log() == old(fmt).log() + trait_doc(self@),
    {
        let ghost start = fmt.log();
        self.type_def.fmt_head("trait", &self.parents, fmt);
        open_block(fmt);
        let ghost s1 = fmt.log();
        self.fmt_assoc(fmt);
        assert(forall|k: int| 0 <= k < self.fns@.len() ==> fn_ok(#[trigger] self.fns@[k]@, true)) by {
            assert forall|k: int| 0 <= k < self.fns@.len() implies fn_ok(#[trigger] self.fns@[k]@, true) by {
                assert(fns_view(self.fns@)[k] == self.fns@[k]@);
                assert(fn_ok(self@.fns[k], true));
            }
        }
        fmt_fn_list(&self.fns, self.associated_tys.len() != 0, true, fmt);
        assert(fmt.log() =~= s1 + trait_body_doc(self@));
        close_block(fmt);
        assert(fmt.log() =~= start + trait_doc(self@));
    }
}

impl Impl {
    fn fmt_head(&self, fmt: &mut Formatter)
        ensures
            final(fmt).origin() == old(fmt).origin(),
            final(fmt).log() == old(fmt).log() + impl_head_doc(self@),
    {
        let ghost start = fmt.log();
        fmt_lines(&self.macros, fmt);
        fmt.write_str("impl");
        fmt_generics(&self.generics, fmt);
        let ghost s1 = fmt.log();
        match &self.impl_trait {
            Some(t) => {
                fmt.write_str(" ");
                t.fmt(fmt);
                fmt.write_str(" for");
            },
            None => {},
        }
        assert(fmt.log() =~= s1 + match self@.impl_trait {
            Some(t) => txt(" "@) + type_doc(t) + txt(" for"@),
            None => nothing(),
        });
        fmt.write_str(" ");
        self.target.fmt(fmt);
        fmt_bounds(&self.bounds, fmt);
        assert(fmt.log() =~= start + impl_head_doc(self@));
    }

    #[verifier::spinoff_prover]
    fn fmt_assoc(&self, fmt: &mut Formatter)
        ensures
            final(fmt).origin() == old(fmt).origin(),
            final(fmt).log() == old(fmt).log() + sep_list(
                fields_seq_view(self.assoc_tys@),
                nothing(),
                impl_assoc_fn(),
            ),
    {
        let ghost start = fmt.log();
        let ghost vs = fields_seq_view(self.assoc_tys@);
        let mut i: usize = 0;
        assert(fmt.log() =~= start + sep_list(vs.take(0), nothing(), impl_assoc_fn()));
        while i < self.assoc_tys.len()
            invariant
                i <= self.assoc_tys@.len(),
                vs == fields_seq_view(self.assoc_tys@),
                fmt.origin() == old(fmt).origin(),
                fmt.log() == start + sep_list(vs.take(i as int), nothing(), impl_assoc_fn()),
            decreases self.assoc_tys@.len() - i,
        {
            proof {
                lemma_sep_list_step(vs, i as int, nothing(), impl_assoc_fn());
            }
            fmt.write_str("type ");
            fmt.write_str(self.assoc_tys[i].name.as_str());
            fmt.write_str(" = ");
            self.assoc_tys[i].ty.fmt(fmt);
            fmt.write_str(";\n");
            i += 1;
            assert(fmt.log() =~= start + sep_list(vs.take(i as int), nothing(), impl_assoc_fn()));
        }
        proof {
            lemma_take_all(vs);
        }
    }

    /// Writes the impl block.
    pub fn fmt(&self, fmt: &mut Formatter)
        requires
            impl_ok(self@),
        ensures
            final(fmt).origin() == old(fmt).origin(),
            final(fmt).log() == old(fmt).log() + impl_doc(self@),
    {
        let ghost start = fmt.log();
        self.fmt_head(fmt);
        open_block(fmt);
        let ghost s1 = fmt.log();
        self.fmt_assoc(fmt);
        assert(forall|k: int| 0 <= k < self.fns@.len() ==> fn_ok(#[trigger] self.fns@[k]@, false)) by {
            assert forall|k: int| 0 <= k < self.fns@.len() implies fn_ok(#[trigger] self.fns@[k]@, false) by {
                assert(fns_view(self.fns@)[k] == self.fns@[k]@);
                assert(fn_ok(self@.fns[k], false));
            }
        }
        fmt_fn_list(&self.fns, self.assoc_tys.len() != 0, false, fmt);
        assert(fmt.log() =~= s1 + impl_body_doc(self@));
        close_block(fmt);
        assert(fmt.log() =~= start + impl_doc(self@));
    }
}

impl TypeAlias {
    /// Writes `pub type alias = value;` after the documentation lines.
    pub fn fmt(&self, fmt: &mut Formatter)
        ensures
            final(fmt).origin() == old(fmt).origin(),
            final(fmt).log() == old(fmt).log() + alias_doc(self@),
    {
        let ghost start = fmt.log();
        match &self.doc {
            Some(doc) => {
                let lines = split_lines(doc.as_str());
                fmt_doc_lines(&lines, fmt);
            },
            None => {},
        }
        assert(fmt.log() =~= start + match self@.doc {
            Some(d) => docs_doc(d),
            None => nothing(),
        });
        fmt.write_str("pub type ");
        self.alias.fmt(fmt);
        fmt.write_str(" = ");
        self.value.fmt(fmt);
        fmt.write_str(";\n");
        assert(fmt.log() =~= start + alias_doc(self@));
    }
}

} // verus!
