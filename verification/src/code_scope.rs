//! What scopes, modules and their imports write, and the text of a whole
//! scope.
use vstd::prelude::*;

use crate::code_doc::{render_text, Chunk, Formatter};
use crate::code_fmt::{
    alias_doc, braced, close_block, enum_doc, enum_ok, fields_ok, fmt_vis, fmt_words, fn_doc,
    fn_ok, impl_doc, impl_ok, lemma_sep_list_step, lemma_take_all, nothing, open_block, sep_list,
    struct_doc, trait_doc, trait_ok, txt, vis_doc, word_fn,
};
use crate::code_model::{
    import_rows_view, import_table_view, item_view, items_view, lemma_items_view, module_view,
    scope_view, ImportView, Item, ItemView, Module, ModuleView, Scope, ScopeView,
};
use crate::names::{clone_opt_str, opt_str_eq, opt_str_view};
use crate::text::{ends_with_newline, strs_view};

verus! {

// ----- imports -----

pub open spec fn rows_vis(rows: Seq<(Seq<char>, ImportView)>) -> Seq<Option<Seq<char>>> {
    rows.map_values(|r: (Seq<char>, ImportView)| r.1.vis)
}

/// The visibility of every import, path by path and name by name.
pub open spec fn table_vis(t: Seq<(Seq<char>, Seq<(Seq<char>, ImportView)>)>) -> Seq<
    Option<Seq<char>>,
>
    decreases t.len(),
{
    if t.len() == 0 {
        seq![]
    } else {
        table_vis(t.drop_last()) + rows_vis(t.last().1)
    }
}

/// The distinct elements of `s` in the order of their first occurrence.
pub open spec fn distinct_vis(s: Seq<Option<Seq<char>>>) -> Seq<Option<Seq<char>>>
    decreases s.len(),
{
    if s.len() == 0 {
        seq![]
    } else {
        let d = distinct_vis(s.drop_last());
        if d.contains(s.last()) {
            d
        } else {
            d.push(s.last())
        }
    }
}

/// The imported names of a path that have the given visibility.
pub open spec fn names_with_vis(rows: Seq<(Seq<char>, ImportView)>, vis: Option<Seq<char>>) -> Seq<
    Seq<char>,
>
    decreases rows.len(),
{
    if rows.len() == 0 {
        seq![]
    } else {
        names_with_vis(rows.drop_last(), vis) + if rows.last().1.vis == vis {
            seq![rows.last().0]
        } else {
            seq![]
        }
    }
}

/// `vis use path::name;` or `vis use path::{a, b};`, nothing without names.
pub open spec fn use_line_doc(vis: Option<Seq<char>>, path: Seq<char>, tys: Seq<Seq<char>>) -> Seq<
    Chunk,
> {
    if tys.len() == 0 {
        nothing()
    } else {
        vis_doc(vis) + txt("use "@) + txt(path) + txt("::"@) + if tys.len() > 1 {
            txt("{"@) + sep_list(tys, txt(", "@), word_fn()) + txt("};\n"@)
        } else {
            txt(tys[0]) + txt(";\n"@)
        }
    }
}

pub open spec fn use_line_fn(vis: Option<Seq<char>>) -> spec_fn(
    (Seq<char>, Seq<(Seq<char>, ImportView)>),
) -> Seq<Chunk> {
    |g: (Seq<char>, Seq<(Seq<char>, ImportView)>)| use_line_doc(vis, g.0, names_with_vis(g.1, vis))
}

pub open spec fn vis_group_fn(t: Seq<(Seq<char>, Seq<(Seq<char>, ImportView)>)>) -> spec_fn(
    Option<Seq<char>>,
) -> Seq<Chunk> {
    |v: Option<Seq<char>>| sep_list(t, nothing(), use_line_fn(v))
}

/// The `use` lines of a scope: for each visibility (in order of first
/// occurrence), one line per path holding names of that visibility.
pub open spec fn imports_doc(t: Seq<(Seq<char>, Seq<(Seq<char>, ImportView)>)>) -> Seq<Chunk> {
    sep_list(distinct_vis(table_vis(t)), nothing(), vis_group_fn(t))
}

// ----- scopes, modules, items -----

pub open spec fn scope_doc(s: ScopeView) -> Seq<Chunk>
    decreases s,
{
    imports_doc(s.imports) + (if s.imports.len() > 0 {
        txt("\n"@)
    } else {
        nothing()
    }) + items_doc(s.items)
}

pub open spec fn items_doc(items: Seq<ItemView>) -> Seq<Chunk>
    decreases items,
{
    if items.len() == 0 {
        nothing()
    } else {
        items_doc(items.drop_last()) + (if items.len() > 1 {
            txt("\n"@)
        } else {
            nothing()
        }) + item_doc(items.last())
    }
}

pub open spec fn item_doc(i: ItemView) -> Seq<Chunk>
    decreases i,
{
    match i {
        ItemView::Module(m) => module_doc(m),
        ItemView::Struct(s) => struct_doc(s),
        ItemView::Function(f) => fn_doc(f, false),
        ItemView::Trait(t) => trait_doc(t),
        ItemView::Enum(e) => enum_doc(e),
        ItemView::Impl(x) => impl_doc(x),
        ItemView::TypeAlias(a) => alias_doc(a),
        ItemView::Raw(v) => txt(v) + txt("\n"@),
    }
}

pub open spec fn module_doc(m: ModuleView) -> Seq<Chunk>
    decreases m,
{
    vis_doc(m.vis) + txt("mod "@) + txt(m.name) + braced(scope_doc(m.scope))
}

/// A scope whose items can all be written (see `fields_ok`, `fn_ok`).
pub open spec fn scope_ok(s: ScopeView) -> bool
    decreases s,
{
    items_ok(s.items)
}

pub open spec fn items_ok(items: Seq<ItemView>) -> bool
    decreases items,
{
    items.len() == 0 || (items_ok(items.drop_last()) && item_ok(items.last()))
}

pub open spec fn item_ok(i: ItemView) -> bool
    decreases i,
{
    match i {
        ItemView::Module(m) => scope_ok(m.scope),
        ItemView::Struct(s) => fields_ok(s.fields),
        ItemView::Function(f) => fn_ok(f, false),
        ItemView::Trait(t) => trait_ok(t),
        ItemView::Enum(e) => enum_ok(e),
        ItemView::Impl(x) => impl_ok(x),
        ItemView::TypeAlias(_) => true,
        ItemView::Raw(_) => true,
    }
}

pub proof fn lemma_items_ok(items: Seq<ItemView>, i: int)
    requires
        items_ok(items),
        0 <= i < items.len(),
    ensures
        item_ok(items[i]),
    decreases items.len(),
{
    if i < items.len() - 1 {
        lemma_items_ok(items.drop_last(), i);
    }
}

pub proof fn lemma_items_doc_step(items: Seq<ItemView>, i: int)
    requires
        0 <= i < items.len(),
    ensures
        items_doc(items.take(i + 1)) == items_doc(items.take(i)) + (if i > 0 {
            txt("\n"@)
        } else {
            nothing()
        }) + item_doc(items[i]),
{
    assert(items.take(i + 1).drop_last() =~= items.take(i));
    assert(items.take(i + 1).last() == items[i]);
}

/// The text of a scope with one final line feed removed.
pub open spec fn scope_text(s: ScopeView) -> Seq<char> {
    let t = render_text(scope_doc(s));
    if t.len() > 0 && t.last() == '\n' {
        t.drop_last()
    } else {
        t
    }
}

fn fmt_item(item: &Item, fmt: &mut Formatter)
    requires
        item_ok(item@),
    ensures
        final(fmt).origin() == old(fmt).origin(),
        final(fmt).log() == old(fmt).log() + item_doc(item@),
    decreases item, 1nat,
{
    match item {
        Item::Module(v) => v.fmt(fmt),
        Item::Struct(v) => v.fmt(fmt),
        Item::Function(v) => v.fmt(false, fmt),
        Item::Trait(v) => v.fmt(fmt),
        Item::Enum(v) => v.fmt(fmt),
        Item::Impl(v) => v.fmt(fmt),
        Item::TypeAlias(v) => v.fmt(fmt),
        Item::Raw(v) => {
            fmt.write_str(v.as_str());
            fmt.write_str("\n");
            assert(fmt.log() =~= old(fmt).log() + item_doc(item@));
        },
    }
}

impl Module {
    /// Writes `vis mod name { scope }`.
    #[verifier::spinoff_prover]
    pub fn fmt(&self, fmt: &mut Formatter)
        requires
            scope_ok(self.scope@),
        ensures
            final(fmt).origin() == old(fmt).origin(),
            final(fmt).log() == old(fmt).log() + module_doc(self@),
        decreases self, 2nat,
    {
        let ghost start = fmt.log();
        fmt_vis(&self.vis, fmt);
        fmt.write_str("mod ");
        fmt.write_str(self.name.as_str());
        open_block(fmt);
        self.scope.fmt(fmt);
        close_block(fmt);
        assert(fmt.log() =~= start + module_doc(self@));
    }
}

impl Scope {
    /// Writes the imports, a blank line when there are any, then the items
    /// separated by blank lines.
    #[verifier::spinoff_prover]
    pub fn fmt(&self, fmt: &mut Formatter)
        requires
            scope_ok(self@),
        ensures
            final(fmt).origin() == old(fmt).origin(),
            final(fmt).log() == old(fmt).log() + scope_doc(self@),
        decreases self, 3nat,
    {
        let ghost start = fmt.log();
        self.fmt_imports(fmt);
        if self.imports.len() != 0 {
            fmt.write_str("\n");
        }
        let ghost mid = fmt.log();
        assert(mid =~= start + imports_doc(self@.imports) + (if self@.imports.len() > 0 {
            txt("\n"@)
        } else {
            nothing()
        }));
        let ghost vs = items_view(self.items@);
        proof {
            lemma_items_view(self.items@);
        }
        let mut i: usize = 0;
        assert(fmt.log() =~= mid + items_doc(vs.take(0)));
        while i < self.items.len()
            invariant
                i <= self.items@.len(),
                vs == items_view(self.items@),
                vs.len() == self.items@.len(),
                forall|j: int| 0 <= j < self.items@.len() ==> #[trigger] vs[j] == item_view(self.items@[j]),
                items_ok(vs),
                fmt.origin() == old(fmt).origin(),
                fmt.log() == mid + items_doc(vs.take(i as int)),
            decreases self.items@.len() - i,
        {
            proof {
                lemma_items_doc_step(vs, i as int);
                lemma_items_ok(vs, i as int);
            }
            if i != 0 {
                fmt.write_str("\n");
            }
            assert(decreases_to!(self => self.items@[i as int]));
            fmt_item(&self.items[i], fmt);
            i += 1;
            assert(fmt.log() =~= mid + items_doc(vs.take(i as int)));
        }
        proof {
            lemma_take_all(vs);
        }
        assert(fmt.log() =~= start + scope_doc(self@));
    }

    /// The scope as text, without a final line feed.
    pub fn to_string(&self) -> (r: String)
        requires
            scope_ok(self@),
        ensures
            r@ == scope_text(self@),
    {
        let mut formatter = Formatter::new();
        self.fmt(&mut formatter);
        assert(formatter.log() =~= scope_doc(self@));
        let mut ret = formatter.finish();
        if ends_with_newline(ret.as_str()) {
            ret.pop();
        }
        ret
    }

    /// Writes the `use` lines.
    #[verifier::spinoff_prover]
    pub fn fmt_imports(&self, fmt: &mut Formatter)
        ensures
            final(fmt).origin() == old(fmt).origin(),
            final(fmt).log() == old(fmt).log() + imports_doc(self@.imports),
    {
        let ghost t = self@.imports;
        let visibilities = self.collect_visibilities();
        let ghost start = fmt.log();
        let ghost dv = distinct_vis(table_vis(t));
        let mut k: usize = 0;
        assert(fmt.log() =~= start + sep_list(dv.take(0), nothing(), vis_group_fn(t)));
        while k < visibilities.len()
            invariant
                k <= visibilities@.len(),
                visibilities@.map_values(|o: Option<String>| opt_str_view(o)) == dv,
                t == self@.imports,
                fmt.origin() == old(fmt).origin(),
                fmt.log() == start + sep_list(dv.take(k as int), nothing(), vis_group_fn(t)),
            decreases visibilities@.len() - k,
        {
            proof {
                lemma_sep_list_step(dv, k as int, nothing(), vis_group_fn(t));
            }
            assert(dv[k as int] == opt_str_view(visibilities@[k as int]));
            self.fmt_visibility_group(&visibilities[k], fmt);
            k += 1;
            assert(fmt.log() =~= start + sep_list(dv.take(k as int), nothing(), vis_group_fn(t)));
        }
        proof {
            lemma_take_all(dv);
        }
    }

    fn collect_visibilities(&self) -> (r: Vec<Option<String>>)
        ensures
            r@.map_values(|o: Option<String>| opt_str_view(o)) == distinct_vis(
                table_vis(self@.imports),
            ),
    {
        let ghost t = self@.imports;
        let mut out: Vec<Option<String>> = Vec::new();
        let mut i: usize = 0;
        assert(t.take(0) =~= Seq::<(Seq<char>, Seq<(Seq<char>, ImportView)>)>::empty());
        assert(out@.map_values(|o: Option<String>| opt_str_view(o)) =~= distinct_vis(
            table_vis(t.take(0)),
        ));
        while i < self.imports.len()
            invariant
                i <= self.imports@.len(),
                t == self@.imports,
                t == import_table_view(self.imports@),
                out@.map_values(|o: Option<String>| opt_str_view(o)) == distinct_vis(
                    table_vis(t.take(i as int)),
                ),
            decreases self.imports@.len() - i,
        {
            let rows = &self.imports[i].1;
            let ghost base = table_vis(t.take(i as int));
            let ghost rv = rows_vis(import_rows_view(rows@));
            assert(t.take(i + 1).drop_last() =~= t.take(i as int));
            assert(t.take(i + 1).last() == t[i as int]);
            assert(t[i as int].1 == import_rows_view(rows@));
            assert(table_vis(t.take(i + 1)) == base + rv);
            let mut j: usize = 0;
            assert(base + rv.take(0) =~= base);
            while j < rows.len()
                invariant
                    j <= rows@.len(),
                    rv == rows_vis(import_rows_view(rows@)),
                    rv.len() == rows@.len(),
                    out@.map_values(|o: Option<String>| opt_str_view(o)) == distinct_vis(
                        base + rv.take(j as int),
                    ),
                decreases rows@.len() - j,
            {
                let v = &rows[j].1.vis;
                let ghost prefix = base + rv.take(j as int);
                assert(base + rv.take(j + 1) =~= prefix.push(opt_str_view(*v)));
                assert((prefix.push(opt_str_view(*v))).drop_last() =~= prefix);
                let ghost d = distinct_vis(prefix);
                let mut found = false;
                let mut m: usize = 0;
                while m < out.len()
                    invariant
                        m <= out@.len(),
                        out@.map_values(|o: Option<String>| opt_str_view(o)) == d,
                        found == (exists|q: int| 0 <= q < m && d[q] == opt_str_view(*v)),
                    decreases out@.len() - m,
                {
                    assert(d[m as int] == opt_str_view(out@[m as int]));
                    if opt_str_eq(&out[m], v) {
                        found = true;
                    }
                    m += 1;
                    assert(found == (exists|q: int| 0 <= q < m && d[q] == opt_str_view(*v))) by {
                        if found && d[m - 1] == opt_str_view(*v) {
                            assert(0 <= m - 1 < m && d[m - 1] == opt_str_view(*v));
                        }
                    }
                }
                proof {
                    if found {
                        let q = choose|q: int| 0 <= q < m && d[q] == opt_str_view(*v);
                        assert(d.contains(opt_str_view(*v)));
                    } else {
                        assert(!d.contains(opt_str_view(*v)));
                    }
                }
                if !found {
                    let c = clone_opt_str(v);
                    out.push(c);
                    assert(out@.map_values(|o: Option<String>| opt_str_view(o)) =~= d.push(
                        opt_str_view(*v),
                    ));
                }
                j += 1;
            }
            assert(rv.take(rows@.len() as int) =~= rv);
            i += 1;
        }
        assert(t.take(self.imports@.len() as int) =~= t);
        out
    }

    fn fmt_visibility_group(&self, vis: &Option<String>, fmt: &mut Formatter)
        ensures
            final(fmt).origin() == old(fmt).origin(),
            final(fmt).log() == old(fmt).log() + sep_list(
                self@.imports,
                nothing(),
                use_line_fn(opt_str_view(*vis)),
            ),
    {
        let ghost t = self@.imports;
        let ghost v = opt_str_view(*vis);
        let ghost start = fmt.log();
        let mut i: usize = 0;
        assert(fmt.log() =~= start + sep_list(t.take(0), nothing(), use_line_fn(v)));
        while i < self.imports.len()
            invariant
                i <= self.imports@.len(),
                t == self@.imports,
                t == import_table_view(self.imports@),
                v == opt_str_view(*vis),
                fmt.origin() == old(fmt).origin(),
                fmt.log() == start + sep_list(t.take(i as int), nothing(), use_line_fn(v)),
            decreases self.imports@.len() - i,
        {
            proof {
                lemma_sep_list_step(t, i as int, nothing(), use_line_fn(v));
            }
            let path = &self.imports[i].0;
            let rows = &self.imports[i].1;
            let tys = names_matching(rows, vis);
            assert(t[i as int].0 == path@);
            assert(t[i as int].1 == import_rows_view(rows@));
            let ghost s0 = fmt.log();
            if tys.len() != 0 {
                fmt_vis(vis, fmt);
                fmt.write_str("use ");
                fmt.write_str(path.as_str());
                fmt.write_str("::");
                if tys.len() > 1 {
                    fmt.write_str("{");
                    fmt_words(&tys, ", ", fmt);
                    fmt.write_str("};\n");
                } else {
                    fmt.write_str(tys[0].as_str());
                    fmt.write_str(";\n");
                }
            }
            assert(fmt.log() =~= s0 + use_line_doc(v, path@, strs_view(tys@)));
            i += 1;
            assert(fmt.log() =~= start + sep_list(t.take(i as int), nothing(), use_line_fn(v)));
        }
        proof {
            lemma_take_all(t);
        }
    }
}

/// The names of the rows whose visibility is `vis`.
fn names_matching(rows: &Vec<(String, crate::code_model::Import)>, vis: &Option<String>) -> (r: Vec<
    String,
>)
    ensures
        strs_view(r@) == names_with_vis(import_rows_view(rows@), opt_str_view(*vis)),
{
    let ghost rv = import_rows_view(rows@);
    let mut out: Vec<String> = Vec::new();
    let mut j: usize = 0;
    assert(strs_view(out@) =~= names_with_vis(rv.take(0), opt_str_view(*vis)));
    while j < rows.len()
        invariant
            j <= rows@.len(),
            rv == import_rows_view(rows@),
            strs_view(out@) == names_with_vis(rv.take(j as int), opt_str_view(*vis)),
        decreases rows@.len() - j,
    {
        assert(rv.take(j + 1).drop_last() =~= rv.take(j as int));
        assert(rv.take(j + 1).last() == rv[j as int]);
        if opt_str_eq(&rows[j].1.vis, vis) {
            out.push(rows[j].0.clone());
        }
        j += 1;
        assert(strs_view(out@) =~= names_with_vis(rv.take(j as int), opt_str_view(*vis)));
    }
    assert(rv.take(rows@.len() as int) =~= rv);
    out
}

} // verus!
