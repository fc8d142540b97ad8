//! The builder interface of scopes and modules: their imports, which stay
//! sorted by path and then by name, and their items.
use vstd::prelude::*;

use crate::code_build::{new_type_def_view, path_sep_at};
use crate::code_model::{
    import_rows_view, import_table_view, item_view, items_view, lemma_items_view,
    lemma_items_view_push, Enum, Function, Impl, Import, ImportView, Item, ItemView, Module,
    ModuleView, Scope, ScopeView, Struct, Trait, TypeAlias, Type, scope_view, module_view,
    EnumView, FieldsView, ImplView, StructView, TraitView, TypeView,
};
use crate::names::{opt_name_view, XsdName, XsdNameView};
use crate::text::{chars_of, str_eq, str_less, str_lt, string_of_range};

verus! {

// ----- the order of strings -----

/// No string comes before itself.
pub proof fn lemma_str_lt_irreflexive(a: Seq<char>)
    ensures
        !str_lt(a, a),
    decreases a.len(),
{
    if a.len() > 0 {
        lemma_str_lt_irreflexive(a.drop_first());
    }
}

/// Of two strings, either they are equal or one comes before the other.
pub proof fn lemma_str_lt_total(a: Seq<char>, b: Seq<char>)
    ensures
        a == b || str_lt(a, b) || str_lt(b, a),
    decreases a.len(),
{
    if a.len() == 0 && b.len() == 0 {
        assert(a =~= b);
    } else if a.len() > 0 && b.len() > 0 && a[0] != b[0] {
        vstd::utf8::char_u32_cast(a[0], a[0] as u32);
        vstd::utf8::char_u32_cast(b[0], b[0] as u32);
    } else if a.len() > 0 && b.len() > 0 && a[0] == b[0] {
        lemma_str_lt_total(a.drop_first(), b.drop_first());
        if a.drop_first() == b.drop_first() {
            assert(a.len() == a.drop_first().len() + 1);
            assert(b.len() == b.drop_first().len() + 1);
            assert forall|i: int| 0 <= i < a.len() implies a[i] == b[i] by {
                if i > 0 {
                    assert(a[i] == a.drop_first()[i - 1]);
                    assert(b[i] == b.drop_first()[i - 1]);
                }
            }
            assert(a =~= b);
        }
    }
}

/// The order of strings is transitive.
pub proof fn lemma_str_lt_transitive(a: Seq<char>, b: Seq<char>, c: Seq<char>)
    requires
        str_lt(a, b),
        str_lt(b, c),
    ensures
        str_lt(a, c),
    decreases a.len(),
{
    if a.len() > 0 && b.len() > 0 && c.len() > 0 && a[0] == b[0] && b[0] == c[0] {
        lemma_str_lt_transitive(a.drop_first(), b.drop_first(), c.drop_first());
    }
}

// ----- keyed sequences -----

/// The index of the first entry with key `k`, or -1 where there is none.
pub open spec fn key_pos<V>(t: Seq<(Seq<char>, V)>, k: Seq<char>) -> int
    decreases t.len(),
{
    if t.len() == 0 {
        -1
    } else if t[0].0 == k {
        0
    } else {
        let r = key_pos(t.drop_first(), k);
        if r < 0 {
            -1
        } else {
            r + 1
        }
    }
}

/// The index of the first entry whose key comes after `k`, or the length.
pub open spec fn insert_pos<V>(t: Seq<(Seq<char>, V)>, k: Seq<char>) -> int
    decreases t.len(),
{
    if t.len() == 0 {
        0
    } else if str_lt(k, t[0].0) {
        0
    } else {
        insert_pos(t.drop_first(), k) + 1
    }
}

/// Whether the keys increase strictly.
pub open spec fn keys_sorted<V>(t: Seq<(Seq<char>, V)>) -> bool {
    forall|i: int, j: int| 0 <= i < j < t.len() ==> str_lt(#[trigger] t[i].0, #[trigger] t[j].0)
}

pub proof fn lemma_key_pos<V>(t: Seq<(Seq<char>, V)>, k: Seq<char>)
    ensures
        -1 <= key_pos(t, k) < t.len(),
        key_pos(t, k) >= 0 ==> t[key_pos(t, k)].0 == k,
        forall|j: int| 0 <= j < t.len() && (key_pos(t, k) < 0 || j < key_pos(t, k)) ==> #[trigger] t[j].0 != k,
    decreases t.len(),
{
    if t.len() > 0 {
        lemma_key_pos(t.drop_first(), k);
        assert forall|j: int| 0 < j < t.len() implies #[trigger] t[j] == t.drop_first()[j - 1] by {}
    }
}

pub proof fn lemma_insert_pos<V>(t: Seq<(Seq<char>, V)>, k: Seq<char>)
    ensures
        0 <= insert_pos(t, k) <= t.len(),
        insert_pos(t, k) < t.len() ==> str_lt(k, t[insert_pos(t, k)].0),
        forall|j: int| 0 <= j < insert_pos(t, k) ==> !str_lt(k, #[trigger] t[j].0),
    decreases t.len(),
{
    if t.len() > 0 {
        lemma_insert_pos(t.drop_first(), k);
        assert forall|j: int| 0 < j < t.len() implies #[trigger] t[j] == t.drop_first()[j - 1] by {}
    }
}

/// Inserting an absent key where it belongs keeps a sorted sequence
/// sorted.
pub proof fn lemma_sorted_insert<V>(t: Seq<(Seq<char>, V)>, k: Seq<char>, v: V)
    requires
        keys_sorted(t),
        key_pos(t, k) == -1,
    ensures
        keys_sorted(t.insert(insert_pos(t, k), (k, v))),
{
    lemma_key_pos(t, k);
    lemma_insert_pos(t, k);
    let p = insert_pos(t, k);
    let u = t.insert(p, (k, v));
    assert forall|i: int, j: int| 0 <= i < j < u.len() implies str_lt(#[trigger] u[i].0, #[trigger] u[j].0) by {
        if i < p && j == p {
            lemma_str_lt_total(t[i].0, k);
        } else if i == p && j > p {
            if j - 1 > p {
                lemma_str_lt_transitive(k, t[p].0, t[j - 1].0);
            }
        } else if i < p && j > p {
            assert(str_lt(t[i].0, t[j - 1].0));
        } else if j < p {
            assert(str_lt(t[i].0, t[j].0));
        } else {
            assert(str_lt(t[i - 1].0, t[j - 1].0));
        }
    }
}

// ----- the import table -----

/// The import of `path::ty` with no visibility.
pub open spec fn new_import_view(path: Seq<char>, ty: Seq<char>) -> ImportView {
    ImportView { line: path + "::"@ + ty, vis: None }
}

/// The names imported from one path, with `ty` added where it is absent.
pub open spec fn rows_with(rows: Seq<(Seq<char>, ImportView)>, path: Seq<char>, ty: Seq<char>) -> Seq<
    (Seq<char>, ImportView),
> {
    if key_pos(rows, ty) >= 0 {
        rows
    } else {
        rows.insert(insert_pos(rows, ty), (ty, new_import_view(path, ty)))
    }
}

/// The import table with `path::ty` added where it is absent.
pub open spec fn table_with(
    t: Seq<(Seq<char>, Seq<(Seq<char>, ImportView)>)>,
    path: Seq<char>,
    ty: Seq<char>,
) -> Seq<(Seq<char>, Seq<(Seq<char>, ImportView)>)> {
    let gi = key_pos(t, path);
    if gi >= 0 {
        t.update(gi, (path, rows_with(t[gi].1, path, ty)))
    } else {
        t.insert(insert_pos(t, path), (path, seq![(ty, new_import_view(path, ty))]))
    }
}

/// Whether the paths of an import table, and the names under each path,
/// increase strictly.
pub open spec fn table_sorted(t: Seq<(Seq<char>, Seq<(Seq<char>, ImportView)>)>) -> bool {
    &&& keys_sorted(t)
    &&& forall|i: int| 0 <= i < t.len() ==> keys_sorted(#[trigger] t[i].1)
}

/// Adding an import keeps a sorted import table sorted.
pub proof fn lemma_table_with_sorted(
    t: Seq<(Seq<char>, Seq<(Seq<char>, ImportView)>)>,
    path: Seq<char>,
    ty: Seq<char>,
)
    requires
        table_sorted(t),
    ensures
        table_sorted(table_with(t, path, ty)),
{
    lemma_key_pos(t, path);
    let gi = key_pos(t, path);
    if gi >= 0 {
        let rows = t[gi].1;
        if key_pos(rows, ty) < 0 {
            lemma_sorted_insert(rows, ty, new_import_view(path, ty));
        }
        let u = table_with(t, path, ty);
        assert forall|i: int, j: int| 0 <= i < j < u.len() implies str_lt(#[trigger] u[i].0, #[trigger] u[j].0) by {
            assert(str_lt(t[i].0, t[j].0));
        }
        assert forall|i: int| 0 <= i < u.len() implies keys_sorted(#[trigger] u[i].1) by {
            if i != gi {
                assert(keys_sorted(t[i].1));
            }
        }
    } else {
        let g: Seq<(Seq<char>, ImportView)> = seq![(ty, new_import_view(path, ty))];
        lemma_sorted_insert(t, path, g);
        lemma_insert_pos(t, path);
        let p = insert_pos(t, path);
        let u = table_with(t, path, ty);
        assert forall|i: int| 0 <= i < u.len() implies keys_sorted(#[trigger] u[i].1) by {
            if i < p {
                assert(keys_sorted(t[i].1));
            } else if i > p {
                assert(u[i] == t[i - 1]);
                assert(keys_sorted(t[i - 1].1));
            }
        }
    }
}

/// The first index of an entry with key `k`.
fn find_key<V>(t: &Vec<(String, V)>, k: &str) -> (r: Option<usize>)
    ensures
        match r {
            Some(i) => i < t@.len() && t@[i as int].0@ == k@ && forall|j: int| 0 <= j < i ==> (#[trigger] t@[j]).0@ != k@,
            None => forall|j: int| 0 <= j < t@.len() ==> (#[trigger] t@[j]).0@ != k@,
        },
{
    let mut i: usize = 0;
    while i < t.len()
        invariant
            i <= t@.len(),
            forall|j: int| 0 <= j < i ==> (#[trigger] t@[j]).0@ != k@,
        decreases t@.len() - i,
    {
        if str_eq(t[i].0.as_str(), k) {
            return Some(i);
        }
        i += 1;
    }
    None
}

/// The index of the first entry whose key comes after `k`, or the length.
fn find_insert<V>(t: &Vec<(String, V)>, k: &str) -> (r: usize)
    ensures
        r <= t@.len(),
        r < t@.len() ==> str_lt(k@, t@[r as int].0@),
        forall|j: int| 0 <= j < r ==> !str_lt(k@, (#[trigger] t@[j]).0@),
{
    let mut i: usize = 0;
    while i < t.len()
        invariant
            i <= t@.len(),
            forall|j: int| 0 <= j < i ==> !str_lt(k@, (#[trigger] t@[j]).0@),
        decreases t@.len() - i,
    {
        if str_less(k, t[i].0.as_str()) {
            return i;
        }
        i += 1;
    }
    i
}

/// The text of `s` before its first `::`, or all of it.
pub open spec fn path_head_spec(s: Seq<char>) -> Seq<char>
    decreases s.len(),
{
    if s.len() < 2 {
        s
    } else if path_sep_at(s, 0) {
        seq![]
    } else {
        seq![s[0]] + path_head_spec(s.drop_first())
    }
}

/// The text of `s` before its first `::`, or all of it.
pub fn path_head(s: &str) -> (r: String)
    ensures
        r@ == path_head_spec(s@),
{
    let cs = chars_of(s);
    let mut i: usize = 0;
    assert(s@.skip(0) =~= s@);
    assert(s@.take(0) =~= seq![]);
    while i < cs.len() && i + 1 < cs.len() && !(cs[i] == ':' && cs[i + 1] == ':')
        invariant
            cs@ == s@,
            i <= cs@.len(),
            path_head_spec(s@) == s@.take(i as int) + path_head_spec(s@.skip(i as int)),
        decreases cs@.len() - i,
    {
        proof {
            let rest = s@.skip(i as int);
            assert(rest.drop_first() =~= s@.skip(i + 1));
            assert(s@.take(i + 1) =~= s@.take(i as int) + seq![rest[0]]);
            assert(path_head_spec(rest) == seq![rest[0]] + path_head_spec(rest.drop_first()));
            assert(s@.take(i as int) + (seq![rest[0]] + path_head_spec(s@.skip(i + 1))) =~= s@.take(i + 1)
                + path_head_spec(s@.skip(i + 1)));
        }
        i += 1;
    }
    proof {
        let rest = s@.skip(i as int);
        if i + 1 < cs@.len() {
            assert(path_sep_at(rest, 0));
            assert(s@.take(i as int) + path_head_spec(rest) =~= s@.take(i as int));
        } else {
            assert(s@.take(i as int) + rest =~= s@);
        }
    }
    if i < cs.len() && i + 1 < cs.len() {
        string_of_range(&cs, 0, i)
    } else {
        string_of_range(&cs, 0, cs.len())
    }
}

impl Scope {
    /// An empty scope.
    pub fn new() -> (r: Scope)
        ensures
            r@ == (ScopeView { docs: None, imports: seq![], items: seq![] }),
    {
        let r = Scope { docs: None, imports: Vec::new(), items: Vec::new() };
        assert(import_table_view(r.imports@) =~= seq![]);
        assert(items_view(r.items@) =~= seq![]);
        r
    }

    /// Makes room for the import of `path::ty` and says where it stands.
    fn import_slot(&mut self, path: &str, ty: &str) -> (r: (usize, usize))
        ensures
            ({
                let t = table_with(import_table_view(old(self).imports@), path@, ty@);
                &&& import_table_view(final(self).imports@) == t
                &&& r.0 == key_pos(t, path@)
                &&& r.0 < final(self).imports@.len()
                &&& r.1 == key_pos(t[r.0 as int].1, ty@)
                &&& r.1 < final(self).imports@[r.0 as int].1@.len()
            }),
            final(self).docs == old(self).docs,
            final(self).items == old(self).items,
    {
        let ghost t0 = import_table_view(self.imports@);
        proof {
            lemma_key_pos(t0, path@);
            lemma_insert_pos(t0, path@);
        }
        match find_key(&self.imports, path) {
            Some(gi) => {
                assert(t0[gi as int].0 == self.imports@[gi as int].0@);
                assert(key_pos(t0, path@) == gi) by {
                    let kp = key_pos(t0, path@);
                    if kp >= 0 && kp < gi {
                        assert(t0[kp].0 == self.imports@[kp].0@);
                    }
                    if kp < 0 || kp > gi {
                        assert(t0[gi as int].0 == path@);
                    }
                }
                let ghost rows0 = t0[gi as int].1;
                assert(rows0 == import_rows_view(self.imports@[gi as int].1@));
                proof {
                    lemma_key_pos(rows0, ty@);
                    lemma_insert_pos(rows0, ty@);
                }
                match find_key(&self.imports[gi].1, ty) {
                    Some(ri) => {
                        assert(rows0[ri as int].0 == self.imports@[gi as int].1@[ri as int].0@);
                        assert(key_pos(rows0, ty@) == ri) by {
                            let kp = key_pos(rows0, ty@);
                            if kp >= 0 && kp < ri {
                                assert(rows0[kp].0 == self.imports@[gi as int].1@[kp].0@);
                            }
                            if kp < 0 || kp > ri {
                                assert(rows0[ri as int].0 == ty@);
                            }
                        }
                        assert(t0.update(gi as int, (path@, rows0)) =~= t0);
                        (gi, ri)
                    },
                    None => {
                        assert(key_pos(rows0, ty@) == -1) by {
                            let kp = key_pos(rows0, ty@);
                            if kp >= 0 {
                                assert(rows0[kp].0 == self.imports@[gi as int].1@[kp].0@);
                            }
                        }
                        let p = find_insert(&self.imports[gi].1, ty);
                        assert(insert_pos(rows0, ty@) == p) by {
                            let ip = insert_pos(rows0, ty@);
                            if ip < p {
                                assert(rows0[ip].0 == self.imports@[gi as int].1@[ip].0@);
                            }
                            if ip > p {
                                assert(rows0[p as int].0 == self.imports@[gi as int].1@[p as int].0@);
                            }
                        }
                        let row = (ty.to_owned(), Import::new(path, ty));
                        let ghost old_rows = self.imports@[gi as int].1@;
                        self.imports[gi].1.insert(p, row);
                        let ghost rows1 = rows0.insert(p as int, (ty@, new_import_view(path@, ty@)));
                        proof {
                            assert(import_rows_view(self.imports@[gi as int].1@) =~= rows1);
                            assert(import_table_view(self.imports@) =~= t0.update(gi as int, (path@, rows1)));
                            lemma_key_pos(rows1, ty@);
                            let kp = key_pos(rows1, ty@);
                            if kp >= 0 && kp < p {
                                assert(rows1[kp] == rows0[kp]);
                            }
                            if kp < 0 || kp > p {
                                assert(rows1[p as int].0 == ty@);
                            }
                            let t2 = t0.update(gi as int, (path@, rows1));
                            lemma_key_pos(t2, path@);
                            let kq = key_pos(t2, path@);
                            if kq >= 0 && kq < gi {
                                assert(t2[kq] == t0[kq]);
                            }
                            if kq < 0 || kq > gi {
                                assert(t2[gi as int].0 == path@);
                            }
                        }
                        (gi, p)
                    },
                }
            },
            None => {
                assert(key_pos(t0, path@) == -1) by {
                    let kp = key_pos(t0, path@);
                    if kp >= 0 {
                        assert(t0[kp].0 == self.imports@[kp].0@);
                    }
                }
                let p = find_insert(&self.imports, path);
                assert(insert_pos(t0, path@) == p) by {
                    let ip = insert_pos(t0, path@);
                    if ip < p {
                        assert(t0[ip].0 == self.imports@[ip].0@);
                    }
                    if ip > p {
                        assert(t0[p as int].0 == self.imports@[p as int].0@);
                    }
                }
                let row = (ty.to_owned(), Import::new(path, ty));
                let rows = vec![row];
                let ghost g = (path@, seq![(ty@, new_import_view(path@, ty@))]);
                assert(import_rows_view(rows@) =~= g.1);
                self.imports.insert(p, (path.to_owned(), rows));
                proof {
                    let t1 = t0.insert(p as int, g);
                    assert(import_table_view(self.imports@) =~= t1);
                    lemma_key_pos(t1, path@);
                    let kp = key_pos(t1, path@);
                    if kp >= 0 && kp < p {
                        assert(t1[kp] == t0[kp]);
                    }
                    if kp < 0 || kp > p {
                        assert(t1[p as int].0 == path@);
                    }
                    lemma_key_pos(t1[p as int].1, ty@);
                }
                (p, 0)
            },
        }
    }

    /// Imports `path::ty` into the scope (only the part of `ty` before its
    /// first `::`) and returns the import for further configuration; an
    /// import that is already there is kept as it is.
    pub fn import(&mut self, path: &str, ty: &str) -> (r: &mut Import)
        ensures
            ({
                let head = path_head_spec(ty@);
                let t = table_with(import_table_view(old(self).imports@), path@, head);
                let gi = key_pos(t, path@);
                let ri = key_pos(t[gi].1, head);
                &&& 0 <= gi < t.len()
                &&& 0 <= ri < t[gi].1.len()
                &&& (*r)@ == t[gi].1[ri].1
                &&& import_table_view(final(self).imports@) == t.update(
                    gi,
                    (path@, t[gi].1.update(ri, (head, final(r)@))),
                )
            }),
            final(self).docs == old(self).docs,
            final(self).items == old(self).items,
    {
        let head = path_head(ty);
        let (gi, ri) = self.import_slot(path, head.as_str());
        let ghost t = import_table_view(self.imports@);
        let ghost mid = self.imports@;
        proof {
            assert(t[gi as int].1 == import_rows_view(mid[gi as int].1@));
            assert(t[gi as int].0 == path@) by {
                lemma_key_pos(t, path@);
            }
            assert(t[gi as int].1[ri as int].0 == head@) by {
                lemma_key_pos(t[gi as int].1, head@);
            }
        }
        proof {
            assert forall|fin: Seq<(String, Vec<(String, Import)>)>|
                #![trigger import_table_view(fin)]
                fin.len() == mid.len() && fin[gi as int].0 == mid[gi as int].0 && fin[gi as int].1@.len()
                    == mid[gi as int].1@.len() && fin[gi as int].1@[ri as int].0 == mid[gi as int].1@[ri as int].0
                    && (forall|k: int| 0 <= k < mid[gi as int].1@.len() && k != ri ==> fin[gi as int].1@[k]
                    == mid[gi as int].1@[k]) && (forall|k: int| 0 <= k < mid.len() && k != gi ==> fin[k]
                    == mid[k]) implies import_table_view(fin) == t.update(
                gi as int,
                (path@, t[gi as int].1.update(ri as int, (head@, fin[gi as int].1@[ri as int].1@))),
            ) by {
                assert(import_rows_view(fin[gi as int].1@) =~= t[gi as int].1.update(
                    ri as int,
                    (head@, fin[gi as int].1@[ri as int].1@),
                ));
                assert(import_table_view(fin) =~= t.update(
                    gi as int,
                    (path@, t[gi as int].1.update(ri as int, (head@, fin[gi as int].1@[ri as int].1@))),
                ));
            }
        }
        let r = &mut self.imports[gi].1[ri].1;
        r
    }
}


// ----- items -----

/// The view of an empty struct.
pub open spec fn new_struct_view(xml_name: Option<XsdNameView>, name: Seq<char>) -> StructView {
    StructView { type_def: new_type_def_view(xml_name, name), fields: FieldsView::Empty }
}

/// The view of an empty enum.
pub open spec fn new_enum_view(xml_name: Option<XsdNameView>, name: Seq<char>) -> EnumView {
    EnumView { type_def: new_type_def_view(xml_name, name), variants: seq![] }
}

/// The view of an empty trait.
pub open spec fn new_trait_view(xml_name: Option<XsdNameView>, name: Seq<char>) -> TraitView {
    TraitView {
        type_def: new_type_def_view(xml_name, name),
        parents: seq![],
        associated_tys: seq![],
        fns: seq![],
        macros: seq![],
    }
}

/// The view of an empty `impl` block for `target`.
pub open spec fn new_impl_view(target: TypeView) -> ImplView {
    ImplView {
        target,
        generics: seq![],
        impl_trait: None,
        assoc_tys: seq![],
        bounds: seq![],
        fns: seq![],
        macros: seq![],
    }
}

/// Whether an item is a module named `name`.
pub open spec fn is_module_named(i: Item, name: Seq<char>) -> bool {
    match i {
        Item::Module(m) => m.name@ == name,
        _ => false,
    }
}

/// Whether no item is a module named `name`.
pub open spec fn no_module(items: Seq<Item>, name: Seq<char>) -> bool {
    forall|j: int| 0 <= j < items.len() ==> !is_module_named(#[trigger] items[j], name)
}

/// Whether the item at `i` is the first module named `name`.
pub open spec fn first_module_at(items: Seq<Item>, name: Seq<char>, i: int) -> bool {
    &&& 0 <= i < items.len()
    &&& is_module_named(items[i], name)
    &&& forall|j: int| 0 <= j < i ==> !is_module_named(#[trigger] items[j], name)
}

/// The view of an empty module.
pub open spec fn new_module_view(name: Seq<char>) -> ModuleView {
    ModuleView {
        name,
        vis: None,
        docs: None,
        scope: ScopeView { docs: None, imports: seq![], items: seq![] },
    }
}

/// The position of the first module named `name`.
fn module_index(items: &Vec<Item>, name: &str) -> (r: Option<usize>)
    ensures
        match r {
            Some(i) => first_module_at(items@, name@, i as int),
            None => no_module(items@, name@),
        },
{
    let mut i: usize = 0;
    while i < items.len()
        invariant
            i <= items@.len(),
            forall|j: int| 0 <= j < i ==> !is_module_named(#[trigger] items@[j], name@),
        decreases items@.len() - i,
    {
        match &items[i] {
            Item::Module(m) => {
                if str_eq(m.name.as_str(), name) {
                    return Some(i);
                }
            },
            _ => {},
        }
        i += 1;
    }
    None
}

fn module_at(items: &mut Vec<Item>, i: usize) -> (r: &mut Module)
    requires
        i < old(items)@.len(),
        old(items)@[i as int] is Module,
    ensures
        old(items)@[i as int] == Item::Module(*r),
        final(items)@ == old(items)@.update(i as int, Item::Module(*final(r))),
{
    match &mut items[i] {
        Item::Module(m) => m,
        _ => vstd::pervasive::unreached(),
    }
}

fn struct_at(items: &mut Vec<Item>, i: usize) -> (r: &mut Struct)
    requires
        i < old(items)@.len(),
        old(items)@[i as int] is Struct,
    ensures
        old(items)@[i as int] == Item::Struct(*r),
        final(items)@ == old(items)@.update(i as int, Item::Struct(*final(r))),
{
    match &mut items[i] {
        Item::Struct(x) => x,
        _ => vstd::pervasive::unreached(),
    }
}

fn fn_at(items: &mut Vec<Item>, i: usize) -> (r: &mut Function)
    requires
        i < old(items)@.len(),
        old(items)@[i as int] is Function,
    ensures
        old(items)@[i as int] == Item::Function(*r),
        final(items)@ == old(items)@.update(i as int, Item::Function(*final(r))),
{
    match &mut items[i] {
        Item::Function(x) => x,
        _ => vstd::pervasive::unreached(),
    }
}

fn trait_at(items: &mut Vec<Item>, i: usize) -> (r: &mut Trait)
    requires
        i < old(items)@.len(),
        old(items)@[i as int] is Trait,
    ensures
        old(items)@[i as int] == Item::Trait(*r),
        final(items)@ == old(items)@.update(i as int, Item::Trait(*final(r))),
{
    match &mut items[i] {
        Item::Trait(x) => x,
        _ => vstd::pervasive::unreached(),
    }
}

fn enum_at(items: &mut Vec<Item>, i: usize) -> (r: &mut Enum)
    requires
        i < old(items)@.len(),
        old(items)@[i as int] is Enum,
    ensures
        old(items)@[i as int] == Item::Enum(*r),
        final(items)@ == old(items)@.update(i as int, Item::Enum(*final(r))),
{
    match &mut items[i] {
        Item::Enum(x) => x,
        _ => vstd::pervasive::unreached(),
    }
}

fn impl_at(items: &mut Vec<Item>, i: usize) -> (r: &mut Impl)
    requires
        i < old(items)@.len(),
        old(items)@[i as int] is Impl,
    ensures
        old(items)@[i as int] == Item::Impl(*r),
        final(items)@ == old(items)@.update(i as int, Item::Impl(*final(r))),
{
    match &mut items[i] {
        Item::Impl(x) => x,
        _ => vstd::pervasive::unreached(),
    }
}

impl Scope {
    /// The first module named `name`, if there is one.
    pub fn get_module(&self, name: &str) -> (r: Option<&Module>)
        ensures
            match r {
                Some(m) => exists|i: int| first_module_at(self.items@, name@, i) && self.items@[i] == Item::Module(*m),
                None => no_module(self.items@, name@),
            },
    {
        match module_index(&self.items, name) {
            Some(i) => match &self.items[i] {
                Item::Module(m) => Some(m),
                _ => None,
            },
            None => None,
        }
    }

    /// The first module named `name`, if there is one, for changing it.
    pub fn get_module_mut(&mut self, name: &str) -> (r: Option<&mut Module>)
        ensures
            match r {
                Some(m) => exists|i: int|
                    first_module_at(old(self).items@, name@, i) && old(self).items@[i] == Item::Module(*m)
                        && final(self).items@ == old(self).items@.update(i, Item::Module(*final(m))),
                None => no_module(old(self).items@, name@) && final(self).items == old(self).items,
            },
            final(self).docs == old(self).docs,
            final(self).imports == old(self).imports,
    {
        match module_index(&self.items, name) {
            Some(i) => Some(module_at(&mut self.items, i)),
            None => None,
        }
    }

    /// The first module named `name`, created empty at the end where there
    /// is none.
    pub fn get_or_new_module(&mut self, name: &str) -> (r: &mut Module)
        ensures
            final(self).docs == old(self).docs,
            final(self).imports == old(self).imports,
            (exists|i: int|
                {
                    &&& first_module_at(old(self).items@, name@, i)
                    &&& old(self).items@[i] == Item::Module(*r)
                    &&& final(self).items@ == old(self).items@.update(i, Item::Module(*final(r)))
                }) || {
                    &&& no_module(old(self).items@, name@)
                    &&& module_view(*r) == new_module_view(name@)
                    &&& final(self).items@ == old(self).items@.push(Item::Module(*final(r)))
                },
    {
        match module_index(&self.items, name) {
            Some(i) => module_at(&mut self.items, i),
            None => self.new_module(name),
        }
    }

    /// Appends an empty module named `name`, which no module of the scope
    /// may already have, and returns it.
    pub fn new_module(&mut self, name: &str) -> (r: &mut Module)
        requires
            no_module(old(self).items@, name@),
        ensures
            module_view(*r) == new_module_view(name@),
            final(self).items@ == old(self).items@.push(Item::Module(*final(r))),
            final(self).docs == old(self).docs,
            final(self).imports == old(self).imports,
    {
        let m = Module::new(name);
        self.items.push(Item::Module(m));
        let n = self.items.len() - 1;
        module_at(&mut self.items, n)
    }

    /// Appends a module; no module of the scope may have its name.
    pub fn push_module(&mut self, item: Module) -> (r: &mut Self)
        requires
            no_module(old(self).items@, item.name@),
        ensures
            (*r).items@ == old(self).items@.push(Item::Module(item)),
            (*r).docs == old(self).docs,
            (*r).imports == old(self).imports,
            *final(self) == *final(r),
    {
        self.items.push(Item::Module(item));
        self
    }

    /// Appends a type alias.
    pub fn push_type_alias(&mut self, item: TypeAlias)
        ensures
            final(self).items@ == old(self).items@.push(Item::TypeAlias(item)),
            final(self).docs == old(self).docs,
            final(self).imports == old(self).imports,
    {
        self.items.push(Item::TypeAlias(item));
    }

    /// Appends an empty struct and returns it.
    pub fn new_struct(&mut self, xml_name: Option<XsdName>, name: &str) -> (r: &mut Struct)
        ensures
            (*r)@ == new_struct_view(opt_name_view(xml_name), name@),
            final(self).items@ == old(self).items@.push(Item::Struct(*final(r))),
            final(self).docs == old(self).docs,
            final(self).imports == old(self).imports,
    {
        self.items.push(Item::Struct(Struct::new(xml_name, name)));
        let n = self.items.len() - 1;
        struct_at(&mut self.items, n)
    }

    /// Appends a struct.
    pub fn push_struct(&mut self, item: Struct) -> (r: &mut Self)
        ensures
            (*r).items@ == old(self).items@.push(Item::Struct(item)),
            (*r).docs == old(self).docs,
            (*r).imports == old(self).imports,
            *final(self) == *final(r),
    {
        self.items.push(Item::Struct(item));
        self
    }

    /// Appends a fresh function and returns it.
    pub fn new_fn(&mut self, name: &str) -> (r: &mut Function)
        ensures
            (*r)@ == crate::code_items::new_fn_view(name@),
            final(self).items@ == old(self).items@.push(Item::Function(*final(r))),
            final(self).docs == old(self).docs,
            final(self).imports == old(self).imports,
    {
        self.items.push(Item::Function(Function::new(name)));
        let n = self.items.len() - 1;
        fn_at(&mut self.items, n)
    }

    /// Appends a function.
    pub fn push_fn(&mut self, item: Function) -> (r: &mut Self)
        ensures
            (*r).items@ == old(self).items@.push(Item::Function(item)),
            (*r).docs == old(self).docs,
            (*r).imports == old(self).imports,
            *final(self) == *final(r),
    {
        self.items.push(Item::Function(item));
        self
    }

    /// Appends an empty trait and returns it.
    pub fn new_trait(&mut self, xml_name: Option<XsdName>, name: &str) -> (r: &mut Trait)
        ensures
            (*r)@ == new_trait_view(opt_name_view(xml_name), name@),
            final(self).items@ == old(self).items@.push(Item::Trait(*final(r))),
            final(self).docs == old(self).docs,
            final(self).imports == old(self).imports,
    {
        self.items.push(Item::Trait(Trait::new(name, xml_name)));
        let n = self.items.len() - 1;
        trait_at(&mut self.items, n)
    }

    /// Appends a trait.
    pub fn push_trait(&mut self, item: Trait) -> (r: &mut Self)
        ensures
            (*r).items@ == old(self).items@.push(Item::Trait(item)),
            (*r).docs == old(self).docs,
            (*r).imports == old(self).imports,
            *final(self) == *final(r),
    {
        self.items.push(Item::Trait(item));
        self
    }

    /// Appends an empty enum and returns it.
    pub fn new_enum(&mut self, xml_name: Option<XsdName>, name: &str) -> (r: &mut Enum)
        ensures
            (*r)@ == new_enum_view(opt_name_view(xml_name), name@),
            final(self).items@ == old(self).items@.push(Item::Enum(*final(r))),
            final(self).docs == old(self).docs,
            final(self).imports == old(self).imports,
    {
        self.items.push(Item::Enum(Enum::new(xml_name, name)));
        let n = self.items.len() - 1;
        enum_at(&mut self.items, n)
    }

    /// Appends an enum.
    pub fn push_enum(&mut self, item: Enum) -> (r: &mut Self)
        ensures
            (*r).items@ == old(self).items@.push(Item::Enum(item)),
            (*r).docs == old(self).docs,
            (*r).imports == old(self).imports,
            *final(self) == *final(r),
    {
        self.items.push(Item::Enum(item));
        self
    }

    /// Appends an empty `impl` block for `target` and returns it.
    pub fn new_impl(&mut self, target: &Type) -> (r: &mut Impl)
        ensures
            (*r)@ == new_impl_view(target@),
            final(self).items@ == old(self).items@.push(Item::Impl(*final(r))),
            final(self).docs == old(self).docs,
            final(self).imports == old(self).imports,
    {
        self.items.push(Item::Impl(Impl::new(target.clone())));
        let n = self.items.len() - 1;
        impl_at(&mut self.items, n)
    }

    /// Appends an `impl` block.
    pub fn push_impl(&mut self, item: Impl) -> (r: &mut Self)
        ensures
            (*r).items@ == old(self).items@.push(Item::Impl(item)),
            (*r).docs == old(self).docs,
            (*r).imports == old(self).imports,
            *final(self) == *final(r),
    {
        self.items.push(Item::Impl(item));
        self
    }

    /// Appends text that is written as it stands.
    pub fn raw(&mut self, val: &str) -> (r: &mut Self)
        ensures
            (*r).items@.len() == old(self).items@.len() + 1,
            (*r).items@.drop_last() == old(self).items@,
            item_view((*r).items@.last()) == ItemView::Raw(val@),
            (*r).docs == old(self).docs,
            (*r).imports == old(self).imports,
            *final(self) == *final(r),
    {
        self.items.push(Item::Raw(val.to_owned()));
        assert(self.items@.drop_last() =~= old(self).items@);
        self
    }
}

impl Module {
    /// An empty module with the given name.
    pub fn new(name: &str) -> (r: Module)
        ensures
            module_view(r) == new_module_view(name@),
    {
        Module { name: name.to_owned(), vis: None, docs: None, scope: Scope::new() }
    }

    /// The scope of the module, for changing it.
    pub fn scope(&mut self) -> (r: &mut Scope)
        ensures
            *r == old(self).scope,
            final(self).scope == *final(r),
            final(self).name == old(self).name,
            final(self).vis == old(self).vis,
            final(self).docs == old(self).docs,
    {
        &mut self.scope
    }

    /// The module with the given visibility.
    pub fn vis(self, vis: &str) -> (r: Self)
        ensures
            module_view(r) == (ModuleView { vis: Some(vis@), ..module_view(self) }),
    {
        let mut r = self;
        r.vis = Some(vis.to_owned());
        r
    }

    /// Imports `path::ty` into the module's scope (see `Scope::import`).
    pub fn import(&mut self, path: &str, ty: &str) -> (r: &mut Self)
        ensures
            import_table_view((*r).scope.imports@) == table_with(
                import_table_view(old(self).scope.imports@),
                path@,
                path_head_spec(ty@),
            ),
            (*r).scope.docs == old(self).scope.docs,
            (*r).scope.items == old(self).scope.items,
            (*r).name == old(self).name,
            (*r).vis == old(self).vis,
            (*r).docs == old(self).docs,
            *final(self) == *final(r),
    {
        let ghost head = path_head_spec(ty@);
        let ghost t = table_with(import_table_view(self.scope.imports@), path@, head);
        let imp = self.scope.import(path, ty);
        proof {
            let gi = key_pos(t, path@);
            let ri = key_pos(t[gi].1, head);
            assert(t[gi].0 == path@) by {
                lemma_key_pos(t, path@);
            }
            assert(t[gi].1[ri].0 == head) by {
                lemma_key_pos(t[gi].1, head);
            }
            assert(t[gi].1.update(ri, (head, t[gi].1[ri].1)) =~= t[gi].1);
            assert(t.update(gi, (path@, t[gi].1)) =~= t);
        }
        self
    }

    /// Appends an empty module named `name` to the module's scope (see
    /// `Scope::new_module`).
    pub fn new_module(&mut self, name: &str) -> (r: &mut Module)
        requires
            no_module(old(self).scope.items@, name@),
        ensures
            module_view(*r) == new_module_view(name@),
            final(self).scope.items@ == old(self).scope.items@.push(Item::Module(*final(r))),
            final(self).scope.docs == old(self).scope.docs,
            final(self).scope.imports == old(self).scope.imports,
            final(self).name == old(self).name,
            final(self).vis == old(self).vis,
            final(self).docs == old(self).docs,
    {
        self.scope.new_module(name)
    }

    /// The first module named `name` in the module's scope.
    pub fn get_module(&self, name: &str) -> (r: Option<&Module>)
        ensures
            match r {
                Some(m) => exists|i: int|
                    first_module_at(self.scope.items@, name@, i) && self.scope.items@[i] == Item::Module(*m),
                None => no_module(self.scope.items@, name@),
            },
    {
        self.scope.get_module(name)
    }

    /// The first module named `name` in the module's scope, for changing
    /// it.
    pub fn get_module_mut(&mut self, name: &str) -> (r: Option<&mut Module>)
        ensures
            match r {
                Some(m) => exists|i: int|
                    first_module_at(old(self).scope.items@, name@, i) && old(self).scope.items@[i]
                        == Item::Module(*m) && final(self).scope.items@ == old(self).scope.items@.update(
                        i,
                        Item::Module(*final(m)),
                    ),
                None => no_module(old(self).scope.items@, name@) && final(self).scope.items
                    == old(self).scope.items,
            },
            final(self).scope.docs == old(self).scope.docs,
            final(self).scope.imports == old(self).scope.imports,
            final(self).name == old(self).name,
            final(self).vis == old(self).vis,
            final(self).docs == old(self).docs,
    {
        self.scope.get_module_mut(name)
    }

    /// The first module named `name` in the module's scope, created empty
    /// where there is none.
    pub fn get_or_new_module(&mut self, name: &str) -> (r: &mut Module)
        ensures
            final(self).scope.docs == old(self).scope.docs,
            final(self).scope.imports == old(self).scope.imports,
            final(self).name == old(self).name,
            final(self).vis == old(self).vis,
            final(self).docs == old(self).docs,
            (exists|i: int|
                {
                    &&& first_module_at(old(self).scope.items@, name@, i)
                    &&& old(self).scope.items@[i] == Item::Module(*r)
                    &&& final(self).scope.items@ == old(self).scope.items@.update(i, Item::Module(*final(r)))
                }) || {
                    &&& no_module(old(self).scope.items@, name@)
                    &&& module_view(*r) == new_module_view(name@)
                    &&& final(self).scope.items@ == old(self).scope.items@.push(Item::Module(*final(r)))
                },
    {
        self.scope.get_or_new_module(name)
    }

    /// Appends a module to the module's scope; no module there may have its name.
    pub fn push_module(&mut self, item: Module) -> (r: &mut Self)
        requires
            no_module(old(self).scope.items@, item.name@),
        ensures
            (*r).scope.items@ == old(self).scope.items@.push(Item::Module(item)),
            (*r).scope.docs == old(self).scope.docs,
            (*r).scope.imports == old(self).scope.imports,
            (*r).name == old(self).name,
            (*r).vis == old(self).vis,
            (*r).docs == old(self).docs,
            *final(self) == *final(r),
    {
        self.scope.push_module(item);
        self
    }

    /// Appends a struct to the module's scope.
    pub fn push_struct(&mut self, item: Struct) -> (r: &mut Self)
        ensures
            (*r).scope.items@ == old(self).scope.items@.push(Item::Struct(item)),
            (*r).scope.docs == old(self).scope.docs,
            (*r).scope.imports == old(self).scope.imports,
            (*r).name == old(self).name,
            (*r).vis == old(self).vis,
            (*r).docs == old(self).docs,
            *final(self) == *final(r),
    {
        self.scope.push_struct(item);
        self
    }

    /// Appends a function to the module's scope.
    pub fn push_fn(&mut self, item: Function) -> (r: &mut Self)
        ensures
            (*r).scope.items@ == old(self).scope.items@.push(Item::Function(item)),
            (*r).scope.docs == old(self).scope.docs,
            (*r).scope.imports == old(self).scope.imports,
            (*r).name == old(self).name,
            (*r).vis == old(self).vis,
            (*r).docs == old(self).docs,
            *final(self) == *final(r),
    {
        self.scope.push_fn(item);
        self
    }

    /// Appends an enum to the module's scope.
    pub fn push_enum(&mut self, item: Enum) -> (r: &mut Self)
        ensures
            (*r).scope.items@ == old(self).scope.items@.push(Item::Enum(item)),
            (*r).scope.docs == old(self).scope.docs,
            (*r).scope.imports == old(self).scope.imports,
            (*r).name == old(self).name,
            (*r).vis == old(self).vis,
            (*r).docs == old(self).docs,
            *final(self) == *final(r),
    {
        self.scope.push_enum(item);
        self
    }

    /// Appends an `impl` block to the module's scope.
    pub fn push_impl(&mut self, item: Impl) -> (r: &mut Self)
        ensures
            (*r).scope.items@ == old(self).scope.items@.push(Item::Impl(item)),
            (*r).scope.docs == old(self).scope.docs,
            (*r).scope.imports == old(self).scope.imports,
            (*r).name == old(self).name,
            (*r).vis == old(self).vis,
            (*r).docs == old(self).docs,
            *final(self) == *final(r),
    {
        self.scope.push_impl(item);
        self
    }

    /// Appends a trait to the module's scope.
    pub fn push_trait(&mut self, item: Trait) -> (r: &mut Self)
        ensures
            (*r).scope.items@ == old(self).scope.items@.push(Item::Trait(item)),
            (*r).scope.docs == old(self).scope.docs,
            (*r).scope.imports == old(self).scope.imports,
            (*r).name == old(self).name,
            (*r).vis == old(self).vis,
            (*r).docs == old(self).docs,
            *final(self) == *final(r),
    {
        self.scope.push_trait(item);
        self
    }

    /// Appends a type alias to the module's scope.
    pub fn push_type_alias(&mut self, item: TypeAlias) -> (r: &mut Self)
        ensures
            (*r).scope.items@ == old(self).scope.items@.push(Item::TypeAlias(item)),
            (*r).scope.docs == old(self).scope.docs,
            (*r).scope.imports == old(self).scope.imports,
            (*r).name == old(self).name,
            (*r).vis == old(self).vis,
            (*r).docs == old(self).docs,
            *final(self) == *final(r),
    {
        self.scope.push_type_alias(item);
        self
    }

    /// Appends an empty struct to the module's scope and returns it.
    pub fn new_struct(&mut self, xml_name: Option<XsdName>, name: &str) -> (r: &mut Struct)
        ensures
            (*r)@ == new_struct_view(opt_name_view(xml_name), name@),
            final(self).scope.items@ == old(self).scope.items@.push(Item::Struct(*final(r))),
            final(self).scope.docs == old(self).scope.docs,
            final(self).scope.imports == old(self).scope.imports,
            final(self).name == old(self).name,
            final(self).vis == old(self).vis,
            final(self).docs == old(self).docs,
    {
        self.scope.new_struct(xml_name, name)
    }

    /// Appends a fresh function to the module's scope and returns it.
    pub fn new_fn(&mut self, name: &str) -> (r: &mut Function)
        ensures
            (*r)@ == crate::code_items::new_fn_view(name@),
            final(self).scope.items@ == old(self).scope.items@.push(Item::Function(*final(r))),
            final(self).scope.docs == old(self).scope.docs,
            final(self).scope.imports == old(self).scope.imports,
            final(self).name == old(self).name,
            final(self).vis == old(self).vis,
            final(self).docs == old(self).docs,
    {
        self.scope.new_fn(name)
    }

    /// Appends an empty enum to the module's scope and returns it.
    pub fn new_enum(&mut self, xml_name: Option<XsdName>, name: &str) -> (r: &mut Enum)
        ensures
            (*r)@ == new_enum_view(opt_name_view(xml_name), name@),
            final(self).scope.items@ == old(self).scope.items@.push(Item::Enum(*final(r))),
            final(self).scope.docs == old(self).scope.docs,
            final(self).scope.imports == old(self).scope.imports,
            final(self).name == old(self).name,
            final(self).vis == old(self).vis,
            final(self).docs == old(self).docs,
    {
        self.scope.new_enum(xml_name, name)
    }

    /// Appends an empty `impl` block for `target` to the module's scope and
    /// returns it.
    pub fn new_impl(&mut self, target: &Type) -> (r: &mut Impl)
        ensures
            (*r)@ == new_impl_view(target@),
            final(self).scope.items@ == old(self).scope.items@.push(Item::Impl(*final(r))),
            final(self).scope.docs == old(self).scope.docs,
            final(self).scope.imports == old(self).scope.imports,
            final(self).name == old(self).name,
            final(self).vis == old(self).vis,
            final(self).docs == old(self).docs,
    {
        self.scope.new_impl(target)
    }
}

} // verus!
