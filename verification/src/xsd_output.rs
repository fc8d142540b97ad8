//! Writing generated pieces of code: a piece's element, its `impl` blocks,
//! and a module that holds the pieces nested in it.
use vstd::prelude::*;

use crate::code_doc::{render_text, Chunk, Formatter};
use crate::code_fmt::impl_doc;
use crate::code_model::{
    items_view, lemma_items_view, lemma_items_view_push, module_view, ImplView, Item, ItemView, Module,
    ModuleView, ScopeView,
};
use crate::code_scope::{module_doc, scope_ok};
use crate::code_tree::{first_module_at, is_module_named, new_module_view, no_module, path_head_spec, table_with};
use crate::context::{element_doc, element_ok, element_type, impl_view, impls_seq_view, lemma_impls_seq_view, XsdElement, XsdElementView, XsdImpl, XsdImplView};
use crate::names::{field_name_spec, to_field_name};
use crate::text::{join, join_spec, strs_view};

verus! {

// ----- the module of nested pieces -----

/// Whether an item is a module named `name`.
pub open spec fn names_module(i: ItemView, name: Seq<char>) -> bool {
    i matches ItemView::Module(m) && m.name == name
}

/// The position of the first module named `name`, or -1.
pub open spec fn first_module_pos(items: Seq<ItemView>, name: Seq<char>) -> int
    decreases items.len(),
{
    if items.len() == 0 {
        -1
    } else if names_module(items[0], name) {
        0
    } else {
        let r = first_module_pos(items.drop_first(), name);
        if r < 0 {
            -1
        } else {
            r + 1
        }
    }
}

/// The module named `name` among the items, or a new empty one.
pub open spec fn module_in(items: Seq<ItemView>, name: Seq<char>) -> ModuleView {
    let p = first_module_pos(items, name);
    if p >= 0 {
        items[p]->Module_0
    } else {
        new_module_view(name)
    }
}

/// The items with `m` in place of the first module named `name`, or added
/// after them where there is none.
pub open spec fn set_module(items: Seq<ItemView>, name: Seq<char>, m: ModuleView) -> Seq<ItemView> {
    let p = first_module_pos(items, name);
    if p >= 0 {
        items.update(p, ItemView::Module(m))
    } else {
        items.push(ItemView::Module(m))
    }
}

/// The module with `items` appended to its items.
pub open spec fn with_items(m: ModuleView, items: Seq<ItemView>) -> ModuleView {
    ModuleView { scope: ScopeView { items: m.scope.items + items, ..m.scope }, ..m }
}

pub open spec fn impl_item_fn() -> spec_fn(ImplView) -> ItemView {
    |i: ImplView| ItemView::Impl(i)
}

/// The items that a nested piece puts in its module: its struct or enum,
/// then its `impl` blocks.
pub open spec fn piece_items(x: XsdImplView) -> Seq<ItemView> {
    (match x.element {
        XsdElementView::Struct(a) => seq![ItemView::Struct(a)],
        XsdElementView::Enum(a) => seq![ItemView::Enum(a)],
        _ => seq![],
    }) + x.implementation.map_values(impl_item_fn())
}

/// `super::super::...`, `level` times.
pub open spec fn supers(level: usize) -> Seq<char> {
    join_spec(Seq::new(level as nat, |i: int| "super"@), "::"@)
}

pub open spec fn next_level(level: usize) -> usize {
    if level < usize::MAX {
        (level + 1) as usize
    } else {
        level
    }
}

/// The module `m` after the pieces nested in `x` are put in a module of it
/// named after `x`'s type, which imports everything from `level` modules
/// up; each nested piece puts its own nested pieces in a module inside.
pub open spec fn wrap_mod(x: XsdImplView, m: ModuleView, level: usize) -> ModuleView
    decreases x, 1int,
{
    if x.inner.len() == 0 {
        m
    } else {
        let name = field_name_spec(element_type(x.element).name);
        let sub0 = module_in(m.scope.items, name);
        let sub1 = ModuleView {
            scope: ScopeView {
                imports: table_with(sub0.scope.imports, supers(level), path_head_spec("*"@)),
                ..sub0.scope
            },
            ..sub0
        };
        let sub2 = wrap_all(x.inner, sub1, next_level(level));
        ModuleView { scope: ScopeView { items: set_module(m.scope.items, name, sub2), ..m.scope }, ..m }
    }
}

/// The module `m` after each piece of `v` puts its items and its nested
/// pieces in it, one after the other.
pub open spec fn wrap_all(v: Seq<XsdImplView>, m: ModuleView, level: usize) -> ModuleView
    decreases v, 0int,
{
    if v.len() == 0 {
        m
    } else {
        let m1 = wrap_all(v.drop_last(), m, level);
        wrap_mod(v.last(), with_items(m1, piece_items(v.last())), level)
    }
}

/// The module of the pieces nested in `x`, where there are any.
pub open spec fn wrap_inner_view(x: XsdImplView) -> Option<ModuleView> {
    if x.inner.len() == 0 {
        None
    } else {
        Some(wrap_mod(x, new_module_view("-temp"@), 1).scope.items[0]->Module_0)
    }
}

proof fn lemma_first_module_pos(items: Seq<ItemView>, name: Seq<char>)
    ensures
        -1 <= first_module_pos(items, name) < items.len(),
        first_module_pos(items, name) >= 0 ==> names_module(items[first_module_pos(items, name)], name),
        forall|j: int|
            0 <= j < items.len() && (first_module_pos(items, name) < 0 || j < first_module_pos(items, name))
                ==> !names_module(#[trigger] items[j], name),
    decreases items.len(),
{
    if items.len() > 0 {
        lemma_first_module_pos(items.drop_first(), name);
        assert forall|j: int|
            0 <= j < items.len() && (first_module_pos(items, name) < 0 || j < first_module_pos(items, name))
                implies !names_module(#[trigger] items[j], name) by {
            if j > 0 {
                assert(items[j] == items.drop_first()[j - 1]);
            }
        }
    }
}

proof fn lemma_named_item(i: Item, name: Seq<char>)
    ensures
        is_module_named(i, name) <==> names_module(crate::code_model::item_view(i), name),
{
}

/// The first module named `name` in exec items is the one at the spec
/// position.
proof fn lemma_first_module_exec(items: Seq<Item>, name: Seq<char>)
    ensures
        forall|i: int| first_module_at(items, name, i) ==> first_module_pos(items_view(items), name) == i,
        no_module(items, name) ==> first_module_pos(items_view(items), name) < 0,
{
    lemma_items_view(items);
    let v = items_view(items);
    lemma_first_module_pos(v, name);
    assert forall|j: int| 0 <= j < items.len() implies (is_module_named(#[trigger] items[j], name) <==> names_module(v[j], name)) by {
        lemma_named_item(items[j], name);
    }
    let p = first_module_pos(v, name);
    assert forall|i: int| first_module_at(items, name, i) implies first_module_pos(items_view(items), name) == i by {
        if p < 0 {
            assert(is_module_named(items[i], name));
        } else if p < i {
            assert(is_module_named(items[p], name));
        } else if p > i {
            assert(is_module_named(items[i], name));
        }
    }
    if no_module(items, name) && p >= 0 {
        assert(is_module_named(items[p], name));
    }
}

/// `super::super::...`, `level` times.
fn supers_string(level: usize) -> (r: String)
    ensures
        r@ == supers(level),
{
    let mut parts: Vec<String> = Vec::new();
    let mut i: usize = 0;
    while i < level
        invariant
            i <= level,
            strs_view(parts@) =~= Seq::new(i as nat, |k: int| "super"@),
        decreases level - i,
    {
        let ghost before = parts@;
        parts.push("super".to_owned());
        proof {
            assert(strs_view(parts@) =~= strs_view(before).push("super"@));
        }
        i += 1;
    }
    join(&parts, "::")
}

/// Puts a nested piece's struct or enum, then its `impl` blocks, in the
/// module.
#[verifier::spinoff_prover]
fn put_piece(module: &mut Module, inner: &XsdImpl)
    ensures
        module_view(*final(module)) == with_items(module_view(*old(module)), piece_items(inner@)),
{
    let ghost m0 = module_view(*module);
    let ghost items0 = module.scope.items@;
    let ghost elem: Seq<ItemView> = match inner@.element {
        XsdElementView::Struct(a) => seq![ItemView::Struct(a)],
        XsdElementView::Enum(a) => seq![ItemView::Enum(a)],
        _ => seq![],
    };
    match &inner.element {
        XsdElement::Struct(a) => {
            let item = Item::Struct(a.clone());
            proof {
                lemma_items_view_push(items0, item);
            }
            module.scope.items.push(item);
            assert(m0.scope.items + elem =~= m0.scope.items.push(ItemView::Struct(a@)));
        },
        XsdElement::Enum(a) => {
            let item = Item::Enum(a.clone());
            proof {
                lemma_items_view_push(items0, item);
            }
            module.scope.items.push(item);
            assert(m0.scope.items + elem =~= m0.scope.items.push(ItemView::Enum(a@)));
        },
        _ => {
            assert(m0.scope.items + elem =~= m0.scope.items);
        },
    }
    let ghost after_element = module_view(*module);
    assert(after_element == with_items(m0, elem));
    let mut k: usize = 0;
    assert(crate::code_model::impls_view(inner.implementation@.take(0)).map_values(impl_item_fn()) =~= seq![]);
    assert(after_element.scope.items + seq![] =~= after_element.scope.items);
    while k < inner.implementation.len()
        invariant
            k <= inner.implementation@.len(),
            module_view(*module) == with_items(
                after_element,
                crate::code_model::impls_view(inner.implementation@.take(k as int)).map_values(impl_item_fn()),
            ),
        decreases inner.implementation@.len() - k,
    {
        let ghost it = module.scope.items@;
        let imp = inner.implementation[k].clone();
        let ghost iv = imp@;
        let item = Item::Impl(imp);
        proof {
            lemma_items_view_push(it, item);
        }
        module.scope.items.push(item);
        proof {
            let s0 = crate::code_model::impls_view(inner.implementation@.take(k as int)).map_values(impl_item_fn());
            let s1 = crate::code_model::impls_view(inner.implementation@.take(k + 1)).map_values(impl_item_fn());
            assert(s1 =~= s0.push(ItemView::Impl(iv)));
            assert(after_element.scope.items + s1 =~= (after_element.scope.items + s0).push(ItemView::Impl(iv)));
        }
        k += 1;
    }
    proof {
        assert(inner.implementation@.take(k as int) =~= inner.implementation@);
        let s2 = crate::code_model::impls_view(inner.implementation@).map_values(impl_item_fn());
        assert(piece_items(inner@) == elem + s2);
        assert(after_element.scope.items + s2 =~= m0.scope.items + (elem + s2));
    }
}

/// The module with its import table extended by `path::ty`.
proof fn lemma_wrap_step(x: XsdImplView, m: ModuleView, level: usize, sub2: ModuleView)
    requires
        x.inner.len() > 0,
        sub2 == wrap_all(
            x.inner,
            ModuleView {
                scope: ScopeView {
                    imports: table_with(
                        module_in(m.scope.items, field_name_spec(element_type(x.element).name)).scope.imports,
                        supers(level),
                        path_head_spec("*"@),
                    ),
                    ..module_in(m.scope.items, field_name_spec(element_type(x.element).name)).scope
                },
                ..module_in(m.scope.items, field_name_spec(element_type(x.element).name))
            },
            next_level(level),
        ),
    ensures
        wrap_mod(x, m, level) == (ModuleView {
            scope: ScopeView {
                items: set_module(m.scope.items, field_name_spec(element_type(x.element).name), sub2),
                ..m.scope
            },
            ..m
        }),
{
}

proof fn lemma_wrap_all_step(v: Seq<XsdImplView>, m: ModuleView, level: usize, i: int)
    requires
        0 <= i < v.len(),
    ensures
        wrap_all(v.take(i + 1), m, level) == wrap_mod(v[i], with_items(wrap_all(v.take(i), m, level), piece_items(v[i])), level),
{
    assert(v.take(i + 1).drop_last() =~= v.take(i));
}

impl XsdImpl {
    /// Puts the pieces nested in this one (with their `impl` blocks and
    /// their own nested pieces) in a module of `existing` named after this
    /// piece's type.
    #[verifier::spinoff_prover]
    fn wrap_inner_mod(&self, existing: &mut Module, level: usize)
        ensures
            module_view(*final(existing)) == wrap_mod(self@, module_view(*old(existing)), level),
        decreases self,
    {
        proof {
            lemma_impls_seq_view(self.inner@);
        }
        if self.inner.len() == 0 {
            assert(wrap_mod(self@, module_view(*existing), level) == module_view(*existing));
            return;
        }
        let ghost m0 = module_view(*existing);
        let ghost items0 = existing.scope.items@;
        let mod_name = to_field_name(self.element.get_type().name.as_str());
        assert(mod_name@ == field_name_spec(element_type(self@.element).name));
        let sup = supers_string(level);
        proof {
            lemma_first_module_exec(items0, mod_name@);
            lemma_items_view(items0);
        }
        let ghost sub0 = module_in(m0.scope.items, mod_name@);
        let module = existing.get_or_new_module(mod_name.as_str());
        proof {
            if no_module(items0, mod_name@) {
                assert(!(exists|i: int| first_module_at(items0, mod_name@, i)));
            } else {
                let i = choose|i: int| first_module_at(items0, mod_name@, i) && items0[i] == Item::Module(*module);
                assert(items_view(items0)[i] == crate::code_model::item_view(items0[i]));
            }
        }
        assert(module_view(*module) == sub0);
        let ghost imports0 = module.scope.imports@;
        module.import(sup.as_str(), "*");
        let ghost sub1 = module_view(*module);
        assert(sub1 == (ModuleView {
            scope: ScopeView { imports: table_with(sub0.scope.imports, supers(level), path_head_spec("*"@)), ..sub0.scope },
            ..sub0
        }));
        let next = if level < usize::MAX {
            level + 1
        } else {
            level
        };
        let ghost v = self@.inner;
        let mut i: usize = 0;
        assert(wrap_all(v.take(0), sub1, next) == sub1) by {
            assert(v.take(0).len() == 0);
        }
        while i < self.inner.len()
            invariant
                i <= self.inner@.len(),
                v == self@.inner,
                v.len() == self.inner@.len(),
                forall|j: int| 0 <= j < self.inner@.len() ==> #[trigger] v[j] == impl_view(self.inner@[j]),
                next == next_level(level),
                module_view(*module) == wrap_all(v.take(i as int), sub1, next),
            decreases self.inner@.len() - i,
        {
            let inner = &self.inner[i];
            proof {
                lemma_wrap_all_step(v, sub1, next, i as int);
            }
            put_piece(module, inner);
            assert(decreases_to!(self => self.inner@[i as int]));
            inner.wrap_inner_mod(module, next);
            i += 1;
        }
        assert(v.take(i as int) =~= v);
        let ghost sub2 = module_view(*module);
        proof {
            lemma_wrap_step(self@, m0, level, sub2);
        }
        proof {
            let items1 = existing.scope.items@;
            lemma_items_view(items1);
            if no_module(items0, mod_name@) {
                assert(!(exists|i: int| first_module_at(items0, mod_name@, i)));
                assert(items_view(items1) =~= items_view(items0).push(ItemView::Module(sub2)));
            } else {
                let i = choose|i: int| first_module_at(items0, mod_name@, i);
                assert(items_view(items1) =~= items_view(items0).update(i, ItemView::Module(sub2)));
            }
        }
    }
}


// ----- writing a piece -----

/// What a list of `impl` blocks writes.
pub open spec fn impls_doc(v: Seq<ImplView>) -> Seq<Chunk>
    decreases v.len(),
{
    if v.len() == 0 {
        seq![]
    } else {
        impls_doc(v.drop_last()) + impl_doc(v.last())
    }
}

/// What a piece writes: its element, its `impl` blocks, then the module of
/// its nested pieces.
pub open spec fn xsd_impl_doc(x: XsdImplView) -> Seq<Chunk> {
    element_doc(x.element) + impls_doc(x.implementation) + match wrap_inner_view(x) {
        Some(m) => module_doc(m),
        None => seq![],
    }
}

/// Whether a piece can be written: its element is not a lone field, its
/// functions have bodies, and what it nests can be written.
pub open spec fn printable(x: XsdImplView) -> bool {
    &&& element_ok(x.element)
    &&& forall|k: int| 0 <= k < x.implementation.len() ==> crate::code_fmt::impl_ok(#[trigger] x.implementation[k])
    &&& wrap_inner_view(x) matches Some(m) ==> scope_ok(m.scope)
}

impl XsdImpl {
    /// The module that holds the pieces nested in this one, where there
    /// are any.
    pub fn wrap_inner(&self) -> (r: Option<Module>)
        ensures
            match r {
                Some(m) => wrap_inner_view(self@) == Some(module_view(m)),
                None => wrap_inner_view(self@) is None,
            },
    {
        proof {
            lemma_impls_seq_view(self.inner@);
        }
        if self.inner.len() == 0 {
            return None;
        }
        let mut top = Module::new("-temp");
        self.wrap_inner_mod(&mut top, 1);
        let mut items = top.scope.items;
        proof {
            lemma_items_view(items@);
            assert(first_module_pos(Seq::<ItemView>::empty(), field_name_spec(element_type(self@.element).name)) == -1);
        }
        if items.len() == 0 {
            return None;
        }
        match items.remove(0) {
            Item::Module(m) => Some(m),
            _ => None,
        }
    }

    /// Writes the piece: its element, its `impl` blocks, then the module of
    /// its nested pieces.
    pub fn fmt(&self, f: &mut Formatter)
        requires
            printable(self@),
        ensures
            final(f).origin() == old(f).origin(),
            final(f).log() == old(f).log() + xsd_impl_doc(self@),
    {
        let ghost start = f.log();
        self.element.fmt(f);
        let ghost v = crate::code_model::impls_view(self.implementation@);
        let mut k: usize = 0;
        assert(impls_doc(v.take(0)) =~= seq![]) by {
            assert(v.take(0).len() == 0);
        }
        while k < self.implementation.len()
            invariant
                k <= self.implementation@.len(),
                v == crate::code_model::impls_view(self.implementation@),
                v == self@.implementation,
                printable(self@),
                f.origin() == old(f).origin(),
                f.log() == start + element_doc(self@.element) + impls_doc(v.take(k as int)),
            decreases self.implementation@.len() - k,
        {
            assert(crate::code_fmt::impl_ok(v[k as int]));
            self.implementation[k].fmt(f);
            proof {
                assert(v.take(k + 1).drop_last() =~= v.take(k as int));
            }
            k += 1;
        }
        assert(v.take(k as int) =~= v);
        match self.wrap_inner() {
            Some(m) => {
                m.fmt(f);
            },
            None => {},
        }
        assert(f.log() =~= start + xsd_impl_doc(self@));
    }

    /// The text the piece writes.
    pub fn to_string(&self) -> (r: String)
        requires
            printable(self@),
        ensures
            r@ == render_text(xsd_impl_doc(self@)),
    {
        let mut f = Formatter::new();
        self.fmt(&mut f);
        f.finish()
    }
}


// ----- whether a piece can be written -----

fn fields_ok_exec(f: &crate::code_model::Fields) -> (r: bool)
    ensures
        r == crate::code_fmt::fields_ok(f@),
{
    match f {
        crate::code_model::Fields::Empty => true,
        crate::code_model::Fields::Tuple(v) => v.len() > 0,
        crate::code_model::Fields::Named(v) => v.len() > 0,
    }
}

fn enum_ok_exec(e: &crate::code_model::Enum) -> (r: bool)
    ensures
        r == crate::code_fmt::enum_ok(e@),
{
    let ghost vs = crate::code_model::variants_view(e.variants@);
    let mut ok = true;
    let mut i: usize = 0;
    while i < e.variants.len()
        invariant
            i <= e.variants@.len(),
            vs == crate::code_model::variants_view(e.variants@),
            vs == e@.variants,
            ok == (forall|j: int| 0 <= j < i ==> crate::code_fmt::fields_ok(#[trigger] vs[j].fields)),
        decreases e.variants@.len() - i,
    {
        let this_ok = fields_ok_exec(&e.variants[i].fields);
        assert(vs[i as int].fields == e.variants@[i as int].fields@);
        ok = ok && this_ok;
        i += 1;
    }
    ok
}

fn fns_ok_exec(fns: &Vec<crate::code_model::Function>, is_trait: bool) -> (r: bool)
    ensures
        r == (forall|k: int|
            0 <= k < fns@.len() ==> crate::code_fmt::fn_ok(#[trigger] crate::code_model::fns_view(fns@)[k], is_trait)),
{
    let ghost vs = crate::code_model::fns_view(fns@);
    let mut ok = true;
    let mut i: usize = 0;
    while i < fns.len()
        invariant
            i <= fns@.len(),
            vs == crate::code_model::fns_view(fns@),
            ok == (forall|j: int| 0 <= j < i ==> crate::code_fmt::fn_ok(#[trigger] vs[j], is_trait)),
        decreases fns@.len() - i,
    {
        let f = &fns[i];
        let this_ok = (!is_trait || f.vis.is_none()) && (is_trait || f.body.is_some());
        assert(vs[i as int] == f@);
        ok = ok && this_ok;
        i += 1;
    }
    ok
}

fn module_ok_exec(m: &Module) -> (r: bool)
    ensures
        r == crate::code_scope::item_ok(ItemView::Module(module_view(*m))),
    decreases m, 1nat,
{
    assert(module_view(*m).scope == m.scope@);
    scope_ok_exec(&m.scope)
}

fn item_ok_exec(i: &Item) -> (r: bool)
    ensures
        r == crate::code_scope::item_ok(crate::code_model::item_view(*i)),
    decreases i, 2nat,
{
    match i {
        Item::Module(m) => {
            let r = module_ok_exec(m);
            assert(crate::code_model::item_view(*i) == ItemView::Module(module_view(*m)));
            r
        },
        Item::Struct(st) => fields_ok_exec(&st.fields),
        Item::Function(f) => {
            assert(f@.body is Some <==> f.body is Some);
            f.body.is_some()
        },
        Item::Trait(t) => {
            let r = fns_ok_exec(&t.fns, true);
            assert(t@.fns == crate::code_model::fns_view(t.fns@));
            r
        },
        Item::Enum(e) => enum_ok_exec(e),
        Item::Impl(x) => {
            let r = fns_ok_exec(&x.fns, false);
            assert(x@.fns == crate::code_model::fns_view(x.fns@));
            r
        },
        Item::TypeAlias(_) => true,
        Item::Raw(_) => true,
    }
}

fn scope_ok_exec(sc: &crate::code_model::Scope) -> (r: bool)
    ensures
        r == scope_ok(sc@),
    decreases sc, 0nat,
{
    let ghost vs = items_view(sc.items@);
    proof {
        lemma_items_view(sc.items@);
    }
    let mut ok = true;
    let mut i: usize = 0;
    assert(vs.take(0).len() == 0);
    while i < sc.items.len()
        invariant
            i <= sc.items@.len(),
            vs == items_view(sc.items@),
            vs.len() == sc.items@.len(),
            forall|j: int| 0 <= j < sc.items@.len() ==> #[trigger] vs[j] == crate::code_model::item_view(sc.items@[j]),
            ok == crate::code_scope::items_ok(vs.take(i as int)),
        decreases sc.items@.len() - i,
    {
        assert(decreases_to!(sc => sc.items@[i as int]));
        let this_ok = item_ok_exec(&sc.items[i]);
        proof {
            assert(vs.take(i + 1).drop_last() =~= vs.take(i as int));
        }
        ok = ok && this_ok;
        i += 1;
    }
    assert(vs.take(i as int) =~= vs);
    ok
}

fn element_ok_exec(e: &XsdElement) -> (r: bool)
    ensures
        r == element_ok(e@),
{
    match e {
        XsdElement::Struct(st) => fields_ok_exec(&st.fields),
        XsdElement::Enum(en) => enum_ok_exec(en),
        XsdElement::Field(_) => false,
        _ => true,
    }
}

/// Whether a piece can be written.
pub fn is_printable(x: &XsdImpl) -> (r: bool)
    ensures
        r == printable(x@),
{
    if !element_ok_exec(&x.element) {
        return false;
    }
    let ghost v = crate::code_model::impls_view(x.implementation@);
    let mut k: usize = 0;
    while k < x.implementation.len()
        invariant
            k <= x.implementation@.len(),
            v == crate::code_model::impls_view(x.implementation@),
            v == x@.implementation,
            forall|j: int| 0 <= j < k ==> crate::code_fmt::impl_ok(#[trigger] v[j]),
        decreases x.implementation@.len() - k,
    {
        let this_ok = fns_ok_exec(&x.implementation[k].fns, false);
        assert(v[k as int] == x.implementation@[k as int]@);
        if !this_ok {
            assert(v[k as int].fns == crate::code_model::fns_view(x.implementation@[k as int].fns@));
            assert(!crate::code_fmt::impl_ok(v[k as int]));
            return false;
        }
        k += 1;
    }
    match x.wrap_inner() {
        Some(m) => scope_ok_exec(&m.scope),
        None => true,
    }
}

} // verus!
