//! What holds of the library's operations taken together: the context as a
//! store of generated pieces, names read and shown again, and occurrence
//! counts.
use vstd::prelude::*;

use crate::components::{element_could_be_none, element_is_multiple, Element};
use crate::context::XsdImplView;
use crate::names::{name_display, XsdNameView, XsdType};
use crate::registry::{
    basic_entry, basic_table, basic_types, initial_context, as_stored, keys_distinct, lemma_put, lemma_put_any, lemma_take_out, lemma_take_out_any, lemma_take_out_put, lookup,
    names_sorted, put, resolved_key, take_out, XsdContextView,
};
use crate::schema_read::name_read;
use crate::code_model::{FieldView, FieldsView, Item, Module};
use crate::code_tree::{first_module_at, is_module_named, new_module_view, no_module};
use crate::code_model::module_view;
use crate::merge::{add_all_named, add_named, merge_all, merge_ok, merge_one, merge_view, struct_merge};
use crate::context::XsdElementView;

verus! {

/// The context after `insert_impl(n, v)`, as that function states it.
pub open spec fn after_insert(c: XsdContextView, n: XsdNameView, v: XsdImplView) -> XsdContextView {
    XsdContextView { structs: put(c.structs, resolved_key(c, n), as_stored(c.structs, v)), ..c }
}

/// The context after `remove_impl(n)`, as that function states it.
pub open spec fn after_remove(c: XsdContextView, n: XsdNameView) -> XsdContextView {
    XsdContextView { structs: take_out(c.structs, resolved_key(c, n)), ..c }
}

/// A search for a name just inserted finds the piece as it was stored;
/// where the context's names were in order, they stay so.
pub proof fn law_search_finds_inserted(c: XsdContextView, n: XsdNameView, v: XsdImplView)
    ensures
        lookup(after_insert(c, n, v).structs, resolved_key(after_insert(c, n, v), n)) == Some(
            as_stored(c.structs, v),
        ),
        names_sorted(c.structs) ==> names_sorted(after_insert(c, n, v).structs),
{
    lemma_put_any(c.structs, resolved_key(c, n), as_stored(c.structs, v));
    if names_sorted(c.structs) {
        lemma_put(c.structs, resolved_key(c, n), as_stored(c.structs, v));
    }
}

/// Inserting under one name leaves what a search for any other name finds.
pub proof fn law_insert_keeps_others(c: XsdContextView, n: XsdNameView, m: XsdNameView, v: XsdImplView)
    requires
        resolved_key(c, m) != resolved_key(c, n),
    ensures
        lookup(after_insert(c, n, v).structs, resolved_key(after_insert(c, n, v), m)) == lookup(
            c.structs,
            resolved_key(c, m),
        ),
{
    lemma_put_any(c.structs, resolved_key(c, n), as_stored(c.structs, v));
}

/// A search for a name just removed finds nothing, where no name was kept
/// twice; where the context's names were in order, they stay so.
pub proof fn law_search_after_remove(c: XsdContextView, n: XsdNameView)
    requires
        keys_distinct(c.structs),
    ensures
        lookup(after_remove(c, n).structs, resolved_key(after_remove(c, n), n)) is None,
        names_sorted(c.structs) ==> names_sorted(after_remove(c, n).structs),
{
    lemma_take_out_any(c.structs, resolved_key(c, n));
    if names_sorted(c.structs) {
        lemma_take_out(c.structs, resolved_key(c, n));
    }
}

/// Removing one name leaves what a search for any other name finds.
pub proof fn law_remove_keeps_others(c: XsdContextView, n: XsdNameView, m: XsdNameView)
    requires
        resolved_key(c, m) != resolved_key(c, n),
    ensures
        lookup(after_remove(c, n).structs, resolved_key(after_remove(c, n), m)) == lookup(
            c.structs,
            resolved_key(c, m),
        ),
{
    lemma_take_out_any(c.structs, resolved_key(c, n));
}

/// Removing a name just inserted, where nothing was kept under it, gives
/// the context back as it was.
pub proof fn law_remove_undoes_insert(c: XsdContextView, n: XsdNameView, v: XsdImplView)
    requires
        lookup(c.structs, resolved_key(c, n)) is None,
    ensures
        after_remove(after_insert(c, n, v), n) == c,
{
    let k = resolved_key(c, n);
    let s = as_stored(c.structs, v);
    lemma_take_out_put(c.structs, k, s);
}

/// A name read without a default namespace shows as the text it was read
/// from.
pub proof fn law_name_display_round_trip(text: Seq<char>, ty: XsdType)
    ensures
        name_display(name_read(text, ty, None)) == text,
{
    let k = crate::text::first_index_of(text, ':') as int;
    crate::text::lemma_first_index_of(text, ':');
    if k < text.len() {
        reveal_strlit(":");
        assert(text.take(k) + ":"@ + text.skip(k + 1) =~= text);
    }
}

/// An element that may be absent and occurs at most once is not one that
/// occurs more than once.
pub proof fn law_optional_is_not_multiple(e: Element)
    ensures
        element_could_be_none(e) ==> !element_is_multiple(e),
{
}


/// Whether `a` is the start of `b`.
pub open spec fn starts<T>(a: Seq<T>, b: Seq<T>) -> bool {
    a.len() <= b.len() && b.take(a.len() as int) == a
}

/// Whether the field list `b` is `a` with fields added at its end (an
/// empty list may become a list of either kind).
pub open spec fn fields_extend(a: FieldsView, b: FieldsView) -> bool {
    match a {
        FieldsView::Empty => true,
        FieldsView::Tuple(x) => b matches FieldsView::Tuple(y) && starts(x, y),
        FieldsView::Named(x) => b matches FieldsView::Named(y) && starts(x, y),
    }
}

proof fn lemma_starts_trans<T>(a: Seq<T>, b: Seq<T>, c: Seq<T>)
    requires
        starts(a, b),
        starts(b, c),
    ensures
        starts(a, c),
{
    assert(c.take(a.len() as int) =~= c.take(b.len() as int).take(a.len() as int));
}

proof fn lemma_starts_push<T>(a: Seq<T>, x: T)
    ensures
        starts(a, a.push(x)),
{
    assert(a.push(x).take(a.len() as int) =~= a);
}

proof fn lemma_merge_all_starts(inner: Seq<XsdImplView>, others: Seq<XsdImplView>)
    ensures
        starts(inner, merge_all(inner, others)),
    decreases others.len(),
{
    if others.len() > 0 {
        lemma_merge_all_starts(inner, others.drop_last());
        let m = merge_all(inner, others.drop_last());
        let x = others.last();
        lemma_starts_push(m, x);
        lemma_starts_push(m, crate::merge::renamed(x));
        assert(m.take(m.len() as int) =~= m);
        assert(starts(m, merge_one(m, x)));
        lemma_starts_trans(inner, m, merge_one(m, x));
    } else {
        assert(inner.take(inner.len() as int) =~= inner);
    }
}

proof fn lemma_add_all_named_starts(
    fs: Seq<FieldView>,
    bs: Seq<FieldView>,
    attrs: bool,
    flat: bool,
    prefix: Option<Seq<char>>,
)
    ensures
        starts(fs, add_all_named(fs, bs, attrs, flat, prefix)),
    decreases bs.len(),
{
    if bs.len() > 0 {
        lemma_add_all_named_starts(fs, bs.drop_last(), attrs, flat, prefix);
        let m = add_all_named(fs, bs.drop_last(), attrs, flat, prefix);
        let f = crate::merge::with_flags(bs.last(), attrs, flat);
        let a = add_named(m, f, prefix);
        lemma_starts_push(m, f);
        match prefix {
            Some(p) => lemma_starts_push(m, FieldView { name: p + f.name, ..f }),
            None => {},
        }
        assert(starts(m, a));
        lemma_starts_trans(fs, m, a);
    } else {
        assert(fs.take(fs.len() as int) =~= fs);
    }
}

/// Merging a piece into a struct or an enum keeps its name, its field name
/// hint, its impls, whether it is flattened, and its own type and kind; its
/// fields or variants, and the pieces it nests, only grow at their end.
pub proof fn law_merge_keeps_and_appends(s: XsdImplView, o: XsdImplView, prefix: Option<Seq<char>>)
    requires
        merge_ok(s, o),
    ensures
        ({
            let m = merge_view(s, o, prefix);
            &&& m.name == s.name
            &&& m.fieldname_hint == s.fieldname_hint
            &&& m.implementation == s.implementation
            &&& m.flatten == s.flatten
            &&& starts(s.inner, m.inner)
            &&& match s.element {
                XsdElementView::Struct(a) => m.element matches XsdElementView::Struct(b) && b.type_def == a.type_def
                    && fields_extend(a.fields, b.fields),
                XsdElementView::Enum(a) => m.element matches XsdElementView::Enum(b) && b.type_def == a.type_def
                    && starts(a.variants, b.variants),
                _ => false,
            }
        }),
{
    let m = merge_view(s, o, prefix);
    match s.element {
        XsdElementView::Struct(a) => {
            let (a2, nested, extend) = struct_merge(a, o, prefix);
            if extend {
                assert((s.inner + nested).take(s.inner.len() as int) =~= s.inner);
            } else {
                lemma_merge_all_starts(s.inner, nested);
            }
            match o.element {
                XsdElementView::Struct(b) => match (a.fields, b.fields) {
                    (FieldsView::Tuple(af), FieldsView::Tuple(bf)) => {
                        let t = af + bf.map_values(crate::merge::flags_fn(
                            crate::merge::children_are_attributes(o),
                            crate::merge::flatten_children(o),
                        ));
                        assert(t.take(af.len() as int) =~= af);
                    },
                    (FieldsView::Named(af), FieldsView::Named(bf)) => {
                        lemma_add_all_named_starts(
                            af,
                            bf,
                            crate::merge::children_are_attributes(o),
                            crate::merge::flatten_children(o),
                            prefix,
                        );
                    },
                    _ => {},
                },
                _ => {},
            }
            assert forall|f: FieldView| !(a.fields is Tuple) implies fields_extend(
                a.fields,
                #[trigger] crate::code_build::push_named_view(a.fields, f),
            ) by {
                match a.fields {
                    FieldsView::Named(x) => lemma_starts_push(x, f),
                    _ => {},
                }
            }
            match (a.fields, a2.fields) {
                (FieldsView::Named(x), FieldsView::Named(y)) => {
                    match o.element {
                        XsdElementView::Field(b) => {
                            let f = crate::merge::with_flags(b, crate::merge::children_are_attributes(o), crate::merge::flatten_children(o));
                            lemma_starts_push(x, f);
                            match prefix {
                                Some(p) => lemma_starts_push(x, FieldView { name: p + f.name, ..f }),
                                None => {},
                            }
                        },
                        _ => {},
                    }
                },
                (FieldsView::Tuple(x), FieldsView::Tuple(y)) => {
                    match o.element {
                        XsdElementView::Field(b) => {
                            lemma_starts_push(
                                x,
                                crate::code_model::TupleFieldView {
                                    vis: b.vis,
                                    ty: b.ty,
                                    attribute: crate::merge::children_are_attributes(o),
                                    flatten: crate::merge::flatten_children(o),
                                },
                            );
                        },
                        _ => {},
                    }
                },
                _ => {},
            }
        },
        XsdElementView::Enum(a) => {
            let (a2, nested) = crate::merge::enum_merge(a, o);
            lemma_merge_all_starts(s.inner, nested);
            assert(a2.variants.take(a.variants.len() as int) =~= a.variants);
        },
        _ => {},
    }
}

/// Once `get_or_new_module(name)` has handed out a module `m` that keeps
/// that name, a second call with the same name finds `m` where it stands
/// and, with the module left as it is, changes nothing.
pub proof fn law_module_found_again(
    items: Seq<Item>,
    name: Seq<char>,
    m: Module,
    after: Seq<Item>,
    m2: Module,
    after2: Seq<Item>,
)
    requires
        m.name@ == name,
        (exists|i: int| first_module_at(items, name, i) && after == items.update(i, Item::Module(m))) || (no_module(
            items,
            name,
        ) && after == items.push(Item::Module(m))),
        (exists|i: int| first_module_at(after, name, i) && after[i] == Item::Module(m2) && after2 == after.update(i, Item::Module(m2))) || (no_module(
            after,
            name,
        ) && module_view(m2) == new_module_view(name) && after2 == after.push(Item::Module(m2))),
    ensures
        m2 == m,
        after2 == after,
{
    let p: int = if exists|i: int| first_module_at(items, name, i) && after == items.update(i, Item::Module(m)) {
        choose|i: int| first_module_at(items, name, i) && after == items.update(i, Item::Module(m))
    } else {
        items.len() as int
    };
    assert(after[p] == Item::Module(m));
    assert(is_module_named(after[p], name));
    assert(forall|j: int| 0 <= j < p ==> #[trigger] after[j] == items[j]);
    assert(!no_module(after, name));
    let i2 = choose|i: int| first_module_at(after, name, i) && after[i] == Item::Module(m2) && after2 == after.update(i, Item::Module(m2));
    if i2 < p {
        assert(after[i2] == items[i2]);
    }
    if i2 > p {
        assert(!is_module_named(after[p], name));
    }
    assert(i2 == p);
    assert(after2 =~= after);
}

/// The element `e` made to occur exactly once.
pub open spec fn once(e: Element) -> Element {
    Element { min_occurences: 1, max_occurences: crate::components::MaxOccurences::Number { value: 1 }, ..e }
}

/// An element with a type gets, where it may occur more than once, a
/// `Vec` of the type it gets when it occurs exactly once; where it occurs
/// at most once and may be absent, an `Option` of it. Either way it is
/// generated exactly where that element is.
pub proof fn law_element_occurrence_wraps(e: Element, c: crate::registry::XsdContextView)
    requires
        e.simple_type is Some || e.complex_type is Some || e.kind is Some,
    ensures
        crate::gen_spec::element_gen(e, c) is Done <==> crate::gen_spec::element_gen(once(e), c) is Done,
        ({
            match (crate::gen_spec::element_gen(e, c), crate::gen_spec::element_gen(once(e), c)) {
                (crate::gen_spec::GenOut::Done(p), crate::gen_spec::GenOut::Done(q)) => {
                    let inner = crate::context::element_type(q.element);
                    &&& element_is_multiple(e) ==> (p.element matches XsdElementView::Type(t) && t.name == "Vec"@
                        && t.generics == seq![inner])
                    &&& (element_could_be_none(e) && !element_is_multiple(e)) ==> (p.element matches XsdElementView::Type(
                        t,
                    ) && t.name == "Option"@ && t.generics == seq![inner])
                },
                _ => true,
            }
        }),
{
    reveal(crate::gen_spec::element_gen);
}

/// A vector of bounded length is accepted exactly when its length is at
/// least the minimum and, where the maximum is not 0, at most the maximum;
/// a refusal says the length is less than the minimum exactly when it is.
pub proof fn law_length_bounds_inclusive(len: nat, min: nat, max: nat)
    ensures
        crate::runtime::length_ok(len, min, max) <==> (min <= len && (max == 0 || len <= max)),
        !crate::runtime::length_ok(len, min, max) ==> (len < min <==> crate::runtime::length_message(
            len,
            min,
            max,
        ).take(55) == "Generated vector length is less than the minimum size ("@),
{
    reveal_strlit("Generated vector length is less than the minimum size (");
    reveal_strlit("Generated vector length is greater than the maximuim size (");
    let a = "Generated vector length is less than the minimum size ("@;
    let b = "Generated vector length is greater than the maximuim size ("@;
    if len < min {
        let m = crate::runtime::length_message(len, min, max);
        assert(m.take(55) =~= a);
    } else {
        let m = crate::runtime::length_message(len, min, max);
        assert(m.take(55)[27] == b[27]);
        assert(a[27] != b[27]);
    }
}

/// Whether the context `c` keeps, under the XML Schema simple type `xs`,
/// the Rust type `rust`.
pub open spec fn maps_builtin(c: XsdContextView, xs: Seq<char>, rust: Seq<char>) -> bool {
    lookup(
        c.structs,
        XsdNameView { namespace: Some("http://www.w3.org/2001/XMLSchema"@), local_name: xs, ty: XsdType::SimpleType },
    ) matches Some(x) && x.element == XsdElementView::Type(
        crate::code_model::TypeView { name: rust, generics: seq![], xml_name: None, docs: None },
    )
}

proof fn lemma_builtin_names_distinct()
    ensures
        basic_types().len() == 32,
        forall|i: int, j: int| 0 <= i < j < 32 ==> #[trigger] basic_types()[i].0 != #[trigger] basic_types()[j].0,
{
    let bt = basic_types();
    reveal_strlit("bool");
    reveal_strlit("boolean");
    reveal_strlit("positiveInteger");
    reveal_strlit("byte");
    reveal_strlit("unsignedByte");
    reveal_strlit("short");
    reveal_strlit("unsignedShort");
    reveal_strlit("int");
    reveal_strlit("integer");
    reveal_strlit("unsignedInt");
    reveal_strlit("long");
    reveal_strlit("unsignedLong");
    reveal_strlit("nonNegativeInteger");
    reveal_strlit("double");
    reveal_strlit("decimal");
    reveal_strlit("string");
    reveal_strlit("normalizedString");
    reveal_strlit("anyURI");
    reveal_strlit("NMTOKEN");
    reveal_strlit("token");
    reveal_strlit("language");
    reveal_strlit("hexBinary");
    reveal_strlit("dateTime");
    reveal_strlit("base64Binary");
    reveal_strlit("duration");
    reveal_strlit("gYear");
    reveal_strlit("ID");
    reveal_strlit("IDREF");
    reveal_strlit("IDREFS");
    reveal_strlit("anyType");
    reveal_strlit("date");
    reveal_strlit("NCName");
    assert(bt.len() == 32);
    assert(bt[0].0 == "bool"@);
    assert(bt[1].0 == "boolean"@);
    assert(bt[2].0 == "positiveInteger"@);
    assert(bt[3].0 == "byte"@);
    assert(bt[4].0 == "unsignedByte"@);
    assert(bt[5].0 == "short"@);
    assert(bt[6].0 == "unsignedShort"@);
    assert(bt[7].0 == "int"@);
    assert(bt[8].0 == "integer"@);
    assert(bt[9].0 == "unsignedInt"@);
    assert(bt[10].0 == "long"@);
    assert(bt[11].0 == "unsignedLong"@);
    assert(bt[12].0 == "nonNegativeInteger"@);
    assert(bt[13].0 == "double"@);
    assert(bt[14].0 == "decimal"@);
    assert(bt[15].0 == "string"@);
    assert(bt[16].0 == "normalizedString"@);
    assert(bt[17].0 == "anyURI"@);
    assert(bt[18].0 == "NMTOKEN"@);
    assert(bt[19].0 == "token"@);
    assert(bt[20].0 == "language"@);
    assert(bt[21].0 == "hexBinary"@);
    assert(bt[22].0 == "dateTime"@);
    assert(bt[23].0 == "base64Binary"@);
    assert(bt[24].0 == "duration"@);
    assert(bt[25].0 == "gYear"@);
    assert(bt[26].0 == "ID"@);
    assert(bt[27].0 == "IDREF"@);
    assert(bt[28].0 == "IDREFS"@);
    assert(bt[29].0 == "anyType"@);
    assert(bt[30].0 == "date"@);
    assert(bt[31].0 == "NCName"@);
    assert(bt[0].0.len() != bt[1].0.len());
    assert(bt[0].0.len() != bt[2].0.len());
    assert(bt[0].0[1] != bt[3].0[1]);
    assert(bt[0].0.len() != bt[4].0.len());
    assert(bt[0].0.len() != bt[5].0.len());
    assert(bt[0].0.len() != bt[6].0.len());
    assert(bt[0].0.len() != bt[7].0.len());
    assert(bt[0].0.len() != bt[8].0.len());
    assert(bt[0].0.len() != bt[9].0.len());
    assert(bt[0].0[0] != bt[10].0[0]);
    assert(bt[0].0.len() != bt[11].0.len());
    assert(bt[0].0.len() != bt[12].0.len());
    assert(bt[0].0.len() != bt[13].0.len());
    assert(bt[0].0.len() != bt[14].0.len());
    assert(bt[0].0.len() != bt[15].0.len());
    assert(bt[0].0.len() != bt[16].0.len());
    assert(bt[0].0.len() != bt[17].0.len());
    assert(bt[0].0.len() != bt[18].0.len());
    assert(bt[0].0.len() != bt[19].0.len());
    assert(bt[0].0.len() != bt[20].0.len());
    assert(bt[0].0.len() != bt[21].0.len());
    assert(bt[0].0.len() != bt[22].0.len());
    assert(bt[0].0.len() != bt[23].0.len());
    assert(bt[0].0.len() != bt[24].0.len());
    assert(bt[0].0.len() != bt[25].0.len());
    assert(bt[0].0.len() != bt[26].0.len());
    assert(bt[0].0.len() != bt[27].0.len());
    assert(bt[0].0.len() != bt[28].0.len());
    assert(bt[0].0.len() != bt[29].0.len());
    assert(bt[0].0[0] != bt[30].0[0]);
    assert(bt[0].0.len() != bt[31].0.len());
    assert(bt[1].0.len() != bt[2].0.len());
    assert(bt[1].0.len() != bt[3].0.len());
    assert(bt[1].0.len() != bt[4].0.len());
    assert(bt[1].0.len() != bt[5].0.len());
    assert(bt[1].0.len() != bt[6].0.len());
    assert(bt[1].0.len() != bt[7].0.len());
    assert(bt[1].0[0] != bt[8].0[0]);
    assert(bt[1].0.len() != bt[9].0.len());
    assert(bt[1].0.len() != bt[10].0.len());
    assert(bt[1].0.len() != bt[11].0.len());
    assert(bt[1].0.len() != bt[12].0.len());
    assert(bt[1].0.len() != bt[13].0.len());
    assert(bt[1].0[0] != bt[14].0[0]);
    assert(bt[1].0.len() != bt[15].0.len());
    assert(bt[1].0.len() != bt[16].0.len());
    assert(bt[1].0.len() != bt[17].0.len());
    assert(bt[1].0[0] != bt[18].0[0]);
    assert(bt[1].0.len() != bt[19].0.len());
    assert(bt[1].0.len() != bt[20].0.len());
    assert(bt[1].0.len() != bt[21].0.len());
    assert(bt[1].0.len() != bt[22].0.len());
    assert(bt[1].0.len() != bt[23].0.len());
    assert(bt[1].0.len() != bt[24].0.len());
    assert(bt[1].0.len() != bt[25].0.len());
    assert(bt[1].0.len() != bt[26].0.len());
    assert(bt[1].0.len() != bt[27].0.len());
    assert(bt[1].0.len() != bt[28].0.len());
    assert(bt[1].0[0] != bt[29].0[0]);
    assert(bt[1].0.len() != bt[30].0.len());
    assert(bt[1].0.len() != bt[31].0.len());
    assert(bt[2].0.len() != bt[3].0.len());
    assert(bt[2].0.len() != bt[4].0.len());
    assert(bt[2].0.len() != bt[5].0.len());
    assert(bt[2].0.len() != bt[6].0.len());
    assert(bt[2].0.len() != bt[7].0.len());
    assert(bt[2].0.len() != bt[8].0.len());
    assert(bt[2].0.len() != bt[9].0.len());
    assert(bt[2].0.len() != bt[10].0.len());
    assert(bt[2].0.len() != bt[11].0.len());
    assert(bt[2].0.len() != bt[12].0.len());
    assert(bt[2].0.len() != bt[13].0.len());
    assert(bt[2].0.len() != bt[14].0.len());
    assert(bt[2].0.len() != bt[15].0.len());
    assert(bt[2].0.len() != bt[16].0.len());
    assert(bt[2].0.len() != bt[17].0.len());
    assert(bt[2].0.len() != bt[18].0.len());
    assert(bt[2].0.len() != bt[19].0.len());
    assert(bt[2].0.len() != bt[20].0.len());
    assert(bt[2].0.len() != bt[21].0.len());
    assert(bt[2].0.len() != bt[22].0.len());
    assert(bt[2].0.len() != bt[23].0.len());
    assert(bt[2].0.len() != bt[24].0.len());
    assert(bt[2].0.len() != bt[25].0.len());
    assert(bt[2].0.len() != bt[26].0.len());
    assert(bt[2].0.len() != bt[27].0.len());
    assert(bt[2].0.len() != bt[28].0.len());
    assert(bt[2].0.len() != bt[29].0.len());
    assert(bt[2].0.len() != bt[30].0.len());
    assert(bt[2].0.len() != bt[31].0.len());
    assert(bt[3].0.len() != bt[4].0.len());
    assert(bt[3].0.len() != bt[5].0.len());
    assert(bt[3].0.len() != bt[6].0.len());
    assert(bt[3].0.len() != bt[7].0.len());
    assert(bt[3].0.len() != bt[8].0.len());
    assert(bt[3].0.len() != bt[9].0.len());
    assert(bt[3].0[0] != bt[10].0[0]);
    assert(bt[3].0.len() != bt[11].0.len());
    assert(bt[3].0.len() != bt[12].0.len());
    assert(bt[3].0.len() != bt[13].0.len());
    assert(bt[3].0.len() != bt[14].0.len());
    assert(bt[3].0.len() != bt[15].0.len());
    assert(bt[3].0.len() != bt[16].0.len());
    assert(bt[3].0.len() != bt[17].0.len());
    assert(bt[3].0.len() != bt[18].0.len());
    assert(bt[3].0.len() != bt[19].0.len());
    assert(bt[3].0.len() != bt[20].0.len());
    assert(bt[3].0.len() != bt[21].0.len());
    assert(bt[3].0.len() != bt[22].0.len());
    assert(bt[3].0.len() != bt[23].0.len());
    assert(bt[3].0.len() != bt[24].0.len());
    assert(bt[3].0.len() != bt[25].0.len());
    assert(bt[3].0.len() != bt[26].0.len());
    assert(bt[3].0.len() != bt[27].0.len());
    assert(bt[3].0.len() != bt[28].0.len());
    assert(bt[3].0.len() != bt[29].0.len());
    assert(bt[3].0[0] != bt[30].0[0]);
    assert(bt[3].0.len() != bt[31].0.len());
    assert(bt[4].0.len() != bt[5].0.len());
    assert(bt[4].0.len() != bt[6].0.len());
    assert(bt[4].0.len() != bt[7].0.len());
    assert(bt[4].0.len() != bt[8].0.len());
    assert(bt[4].0.len() != bt[9].0.len());
    assert(bt[4].0.len() != bt[10].0.len());
    assert(bt[4].0[8] != bt[11].0[8]);
    assert(bt[4].0.len() != bt[12].0.len());
    assert(bt[4].0.len() != bt[13].0.len());
    assert(bt[4].0.len() != bt[14].0.len());
    assert(bt[4].0.len() != bt[15].0.len());
    assert(bt[4].0.len() != bt[16].0.len());
    assert(bt[4].0.len() != bt[17].0.len());
    assert(bt[4].0.len() != bt[18].0.len());
    assert(bt[4].0.len() != bt[19].0.len());
    assert(bt[4].0.len() != bt[20].0.len());
    assert(bt[4].0.len() != bt[21].0.len());
    assert(bt[4].0.len() != bt[22].0.len());
    assert(bt[4].0[0] != bt[23].0[0]);
    assert(bt[4].0.len() != bt[24].0.len());
    assert(bt[4].0.len() != bt[25].0.len());
    assert(bt[4].0.len() != bt[26].0.len());
    assert(bt[4].0.len() != bt[27].0.len());
    assert(bt[4].0.len() != bt[28].0.len());
    assert(bt[4].0.len() != bt[29].0.len());
    assert(bt[4].0.len() != bt[30].0.len());
    assert(bt[4].0.len() != bt[31].0.len());
    assert(bt[5].0.len() != bt[6].0.len());
    assert(bt[5].0.len() != bt[7].0.len());
    assert(bt[5].0.len() != bt[8].0.len());
    assert(bt[5].0.len() != bt[9].0.len());
    assert(bt[5].0.len() != bt[10].0.len());
    assert(bt[5].0.len() != bt[11].0.len());
    assert(bt[5].0.len() != bt[12].0.len());
    assert(bt[5].0.len() != bt[13].0.len());
    assert(bt[5].0.len() != bt[14].0.len());
    assert(bt[5].0.len() != bt[15].0.len());
    assert(bt[5].0.len() != bt[16].0.len());
    assert(bt[5].0.len() != bt[17].0.len());
    assert(bt[5].0.len() != bt[18].0.len());
    assert(bt[5].0[0] != bt[19].0[0]);
    assert(bt[5].0.len() != bt[20].0.len());
    assert(bt[5].0.len() != bt[21].0.len());
    assert(bt[5].0.len() != bt[22].0.len());
    assert(bt[5].0.len() != bt[23].0.len());
    assert(bt[5].0.len() != bt[24].0.len());
    assert(bt[5].0[0] != bt[25].0[0]);
    assert(bt[5].0.len() != bt[26].0.len());
    assert(bt[5].0[0] != bt[27].0[0]);
    assert(bt[5].0.len() != bt[28].0.len());
    assert(bt[5].0.len() != bt[29].0.len());
    assert(bt[5].0.len() != bt[30].0.len());
    assert(bt[5].0.len() != bt[31].0.len());
    assert(bt[6].0.len() != bt[7].0.len());
    assert(bt[6].0.len() != bt[8].0.len());
    assert(bt[6].0.len() != bt[9].0.len());
    assert(bt[6].0.len() != bt[10].0.len());
    assert(bt[6].0.len() != bt[11].0.len());
    assert(bt[6].0.len() != bt[12].0.len());
    assert(bt[6].0.len() != bt[13].0.len());
    assert(bt[6].0.len() != bt[14].0.len());
    assert(bt[6].0.len() != bt[15].0.len());
    assert(bt[6].0.len() != bt[16].0.len());
    assert(bt[6].0.len() != bt[17].0.len());
    assert(bt[6].0.len() != bt[18].0.len());
    assert(bt[6].0.len() != bt[19].0.len());
    assert(bt[6].0.len() != bt[20].0.len());
    assert(bt[6].0.len() != bt[21].0.len());
    assert(bt[6].0.len() != bt[22].0.len());
    assert(bt[6].0.len() != bt[23].0.len());
    assert(bt[6].0.len() != bt[24].0.len());
    assert(bt[6].0.len() != bt[25].0.len());
    assert(bt[6].0.len() != bt[26].0.len());
    assert(bt[6].0.len() != bt[27].0.len());
    assert(bt[6].0.len() != bt[28].0.len());
    assert(bt[6].0.len() != bt[29].0.len());
    assert(bt[6].0.len() != bt[30].0.len());
    assert(bt[6].0.len() != bt[31].0.len());
    assert(bt[7].0.len() != bt[8].0.len());
    assert(bt[7].0.len() != bt[9].0.len());
    assert(bt[7].0.len() != bt[10].0.len());
    assert(bt[7].0.len() != bt[11].0.len());
    assert(bt[7].0.len() != bt[12].0.len());
    assert(bt[7].0.len() != bt[13].0.len());
    assert(bt[7].0.len() != bt[14].0.len());
    assert(bt[7].0.len() != bt[15].0.len());
    assert(bt[7].0.len() != bt[16].0.len());
    assert(bt[7].0.len() != bt[17].0.len());
    assert(bt[7].0.len() != bt[18].0.len());
    assert(bt[7].0.len() != bt[19].0.len());
    assert(bt[7].0.len() != bt[20].0.len());
    assert(bt[7].0.len() != bt[21].0.len());
    assert(bt[7].0.len() != bt[22].0.len());
    assert(bt[7].0.len() != bt[23].0.len());
    assert(bt[7].0.len() != bt[24].0.len());
    assert(bt[7].0.len() != bt[25].0.len());
    assert(bt[7].0.len() != bt[26].0.len());
    assert(bt[7].0.len() != bt[27].0.len());
    assert(bt[7].0.len() != bt[28].0.len());
    assert(bt[7].0.len() != bt[29].0.len());
    assert(bt[7].0.len() != bt[30].0.len());
    assert(bt[7].0.len() != bt[31].0.len());
    assert(bt[8].0.len() != bt[9].0.len());
    assert(bt[8].0.len() != bt[10].0.len());
    assert(bt[8].0.len() != bt[11].0.len());
    assert(bt[8].0.len() != bt[12].0.len());
    assert(bt[8].0.len() != bt[13].0.len());
    assert(bt[8].0[0] != bt[14].0[0]);
    assert(bt[8].0.len() != bt[15].0.len());
    assert(bt[8].0.len() != bt[16].0.len());
    assert(bt[8].0.len() != bt[17].0.len());
    assert(bt[8].0[0] != bt[18].0[0]);
    assert(bt[8].0.len() != bt[19].0.len());
    assert(bt[8].0.len() != bt[20].0.len());
    assert(bt[8].0.len() != bt[21].0.len());
    assert(bt[8].0.len() != bt[22].0.len());
    assert(bt[8].0.len() != bt[23].0.len());
    assert(bt[8].0.len() != bt[24].0.len());
    assert(bt[8].0.len() != bt[25].0.len());
    assert(bt[8].0.len() != bt[26].0.len());
    assert(bt[8].0.len() != bt[27].0.len());
    assert(bt[8].0.len() != bt[28].0.len());
    assert(bt[8].0[0] != bt[29].0[0]);
    assert(bt[8].0.len() != bt[30].0.len());
    assert(bt[8].0.len() != bt[31].0.len());
    assert(bt[9].0.len() != bt[10].0.len());
    assert(bt[9].0.len() != bt[11].0.len());
    assert(bt[9].0.len() != bt[12].0.len());
    assert(bt[9].0.len() != bt[13].0.len());
    assert(bt[9].0.len() != bt[14].0.len());
    assert(bt[9].0.len() != bt[15].0.len());
    assert(bt[9].0.len() != bt[16].0.len());
    assert(bt[9].0.len() != bt[17].0.len());
    assert(bt[9].0.len() != bt[18].0.len());
    assert(bt[9].0.len() != bt[19].0.len());
    assert(bt[9].0.len() != bt[20].0.len());
    assert(bt[9].0.len() != bt[21].0.len());
    assert(bt[9].0.len() != bt[22].0.len());
    assert(bt[9].0.len() != bt[23].0.len());
    assert(bt[9].0.len() != bt[24].0.len());
    assert(bt[9].0.len() != bt[25].0.len());
    assert(bt[9].0.len() != bt[26].0.len());
    assert(bt[9].0.len() != bt[27].0.len());
    assert(bt[9].0.len() != bt[28].0.len());
    assert(bt[9].0.len() != bt[29].0.len());
    assert(bt[9].0.len() != bt[30].0.len());
    assert(bt[9].0.len() != bt[31].0.len());
    assert(bt[10].0.len() != bt[11].0.len());
    assert(bt[10].0.len() != bt[12].0.len());
    assert(bt[10].0.len() != bt[13].0.len());
    assert(bt[10].0.len() != bt[14].0.len());
    assert(bt[10].0.len() != bt[15].0.len());
    assert(bt[10].0.len() != bt[16].0.len());
    assert(bt[10].0.len() != bt[17].0.len());
    assert(bt[10].0.len() != bt[18].0.len());
    assert(bt[10].0.len() != bt[19].0.len());
    assert(bt[10].0.len() != bt[20].0.len());
    assert(bt[10].0.len() != bt[21].0.len());
    assert(bt[10].0.len() != bt[22].0.len());
    assert(bt[10].0.len() != bt[23].0.len());
    assert(bt[10].0.len() != bt[24].0.len());
    assert(bt[10].0.len() != bt[25].0.len());
    assert(bt[10].0.len() != bt[26].0.len());
    assert(bt[10].0.len() != bt[27].0.len());
    assert(bt[10].0.len() != bt[28].0.len());
    assert(bt[10].0.len() != bt[29].0.len());
    assert(bt[10].0[0] != bt[30].0[0]);
    assert(bt[10].0.len() != bt[31].0.len());
    assert(bt[11].0.len() != bt[12].0.len());
    assert(bt[11].0.len() != bt[13].0.len());
    assert(bt[11].0.len() != bt[14].0.len());
    assert(bt[11].0.len() != bt[15].0.len());
    assert(bt[11].0.len() != bt[16].0.len());
    assert(bt[11].0.len() != bt[17].0.len());
    assert(bt[11].0.len() != bt[18].0.len());
    assert(bt[11].0.len() != bt[19].0.len());
    assert(bt[11].0.len() != bt[20].0.len());
    assert(bt[11].0.len() != bt[21].0.len());
    assert(bt[11].0.len() != bt[22].0.len());
    assert(bt[11].0[0] != bt[23].0[0]);
    assert(bt[11].0.len() != bt[24].0.len());
    assert(bt[11].0.len() != bt[25].0.len());
    assert(bt[11].0.len() != bt[26].0.len());
    assert(bt[11].0.len() != bt[27].0.len());
    assert(bt[11].0.len() != bt[28].0.len());
    assert(bt[11].0.len() != bt[29].0.len());
    assert(bt[11].0.len() != bt[30].0.len());
    assert(bt[11].0.len() != bt[31].0.len());
    assert(bt[12].0.len() != bt[13].0.len());
    assert(bt[12].0.len() != bt[14].0.len());
    assert(bt[12].0.len() != bt[15].0.len());
    assert(bt[12].0.len() != bt[16].0.len());
    assert(bt[12].0.len() != bt[17].0.len());
    assert(bt[12].0.len() != bt[18].0.len());
    assert(bt[12].0.len() != bt[19].0.len());
    assert(bt[12].0.len() != bt[20].0.len());
    assert(bt[12].0.len() != bt[21].0.len());
    assert(bt[12].0.len() != bt[22].0.len());
    assert(bt[12].0.len() != bt[23].0.len());
    assert(bt[12].0.len() != bt[24].0.len());
    assert(bt[12].0.len() != bt[25].0.len());
    assert(bt[12].0.len() != bt[26].0.len());
    assert(bt[12].0.len() != bt[27].0.len());
    assert(bt[12].0.len() != bt[28].0.len());
    assert(bt[12].0.len() != bt[29].0.len());
    assert(bt[12].0.len() != bt[30].0.len());
    assert(bt[12].0.len() != bt[31].0.len());
    assert(bt[13].0.len() != bt[14].0.len());
    assert(bt[13].0[0] != bt[15].0[0]);
    assert(bt[13].0.len() != bt[16].0.len());
    assert(bt[13].0[0] != bt[17].0[0]);
    assert(bt[13].0.len() != bt[18].0.len());
    assert(bt[13].0.len() != bt[19].0.len());
    assert(bt[13].0.len() != bt[20].0.len());
    assert(bt[13].0.len() != bt[21].0.len());
    assert(bt[13].0.len() != bt[22].0.len());
    assert(bt[13].0.len() != bt[23].0.len());
    assert(bt[13].0.len() != bt[24].0.len());
    assert(bt[13].0.len() != bt[25].0.len());
    assert(bt[13].0.len() != bt[26].0.len());
    assert(bt[13].0.len() != bt[27].0.len());
    assert(bt[13].0[0] != bt[28].0[0]);
    assert(bt[13].0.len() != bt[29].0.len());
    assert(bt[13].0.len() != bt[30].0.len());
    assert(bt[13].0[0] != bt[31].0[0]);
    assert(bt[14].0.len() != bt[15].0.len());
    assert(bt[14].0.len() != bt[16].0.len());
    assert(bt[14].0.len() != bt[17].0.len());
    assert(bt[14].0[0] != bt[18].0[0]);
    assert(bt[14].0.len() != bt[19].0.len());
    assert(bt[14].0.len() != bt[20].0.len());
    assert(bt[14].0.len() != bt[21].0.len());
    assert(bt[14].0.len() != bt[22].0.len());
    assert(bt[14].0.len() != bt[23].0.len());
    assert(bt[14].0.len() != bt[24].0.len());
    assert(bt[14].0.len() != bt[25].0.len());
    assert(bt[14].0.len() != bt[26].0.len());
    assert(bt[14].0.len() != bt[27].0.len());
    assert(bt[14].0.len() != bt[28].0.len());
    assert(bt[14].0[0] != bt[29].0[0]);
    assert(bt[14].0.len() != bt[30].0.len());
    assert(bt[14].0.len() != bt[31].0.len());
    assert(bt[15].0.len() != bt[16].0.len());
    assert(bt[15].0[0] != bt[17].0[0]);
    assert(bt[15].0.len() != bt[18].0.len());
    assert(bt[15].0.len() != bt[19].0.len());
    assert(bt[15].0.len() != bt[20].0.len());
    assert(bt[15].0.len() != bt[21].0.len());
    assert(bt[15].0.len() != bt[22].0.len());
    assert(bt[15].0.len() != bt[23].0.len());
    assert(bt[15].0.len() != bt[24].0.len());
    assert(bt[15].0.len() != bt[25].0.len());
    assert(bt[15].0.len() != bt[26].0.len());
    assert(bt[15].0.len() != bt[27].0.len());
    assert(bt[15].0[0] != bt[28].0[0]);
    assert(bt[15].0.len() != bt[29].0.len());
    assert(bt[15].0.len() != bt[30].0.len());
    assert(bt[15].0[0] != bt[31].0[0]);
    assert(bt[16].0.len() != bt[17].0.len());
    assert(bt[16].0.len() != bt[18].0.len());
    assert(bt[16].0.len() != bt[19].0.len());
    assert(bt[16].0.len() != bt[20].0.len());
    assert(bt[16].0.len() != bt[21].0.len());
    assert(bt[16].0.len() != bt[22].0.len());
    assert(bt[16].0.len() != bt[23].0.len());
    assert(bt[16].0.len() != bt[24].0.len());
    assert(bt[16].0.len() != bt[25].0.len());
    assert(bt[16].0.len() != bt[26].0.len());
    assert(bt[16].0.len() != bt[27].0.len());
    assert(bt[16].0.len() != bt[28].0.len());
    assert(bt[16].0.len() != bt[29].0.len());
    assert(bt[16].0.len() != bt[30].0.len());
    assert(bt[16].0.len() != bt[31].0.len());
    assert(bt[17].0.len() != bt[18].0.len());
    assert(bt[17].0.len() != bt[19].0.len());
    assert(bt[17].0.len() != bt[20].0.len());
    assert(bt[17].0.len() != bt[21].0.len());
    assert(bt[17].0.len() != bt[22].0.len());
    assert(bt[17].0.len() != bt[23].0.len());
    assert(bt[17].0.len() != bt[24].0.len());
    assert(bt[17].0.len() != bt[25].0.len());
    assert(bt[17].0.len() != bt[26].0.len());
    assert(bt[17].0.len() != bt[27].0.len());
    assert(bt[17].0[0] != bt[28].0[0]);
    assert(bt[17].0.len() != bt[29].0.len());
    assert(bt[17].0.len() != bt[30].0.len());
    assert(bt[17].0[0] != bt[31].0[0]);
    assert(bt[18].0.len() != bt[19].0.len());
    assert(bt[18].0.len() != bt[20].0.len());
    assert(bt[18].0.len() != bt[21].0.len());
    assert(bt[18].0.len() != bt[22].0.len());
    assert(bt[18].0.len() != bt[23].0.len());
    assert(bt[18].0.len() != bt[24].0.len());
    assert(bt[18].0.len() != bt[25].0.len());
    assert(bt[18].0.len() != bt[26].0.len());
    assert(bt[18].0.len() != bt[27].0.len());
    assert(bt[18].0.len() != bt[28].0.len());
    assert(bt[18].0[0] != bt[29].0[0]);
    assert(bt[18].0.len() != bt[30].0.len());
    assert(bt[18].0.len() != bt[31].0.len());
    assert(bt[19].0.len() != bt[20].0.len());
    assert(bt[19].0.len() != bt[21].0.len());
    assert(bt[19].0.len() != bt[22].0.len());
    assert(bt[19].0.len() != bt[23].0.len());
    assert(bt[19].0.len() != bt[24].0.len());
    assert(bt[19].0[0] != bt[25].0[0]);
    assert(bt[19].0.len() != bt[26].0.len());
    assert(bt[19].0[0] != bt[27].0[0]);
    assert(bt[19].0.len() != bt[28].0.len());
    assert(bt[19].0.len() != bt[29].0.len());
    assert(bt[19].0.len() != bt[30].0.len());
    assert(bt[19].0.len() != bt[31].0.len());
    assert(bt[20].0.len() != bt[21].0.len());
    assert(bt[20].0[0] != bt[22].0[0]);
    assert(bt[20].0.len() != bt[23].0.len());
    assert(bt[20].0[0] != bt[24].0[0]);
    assert(bt[20].0.len() != bt[25].0.len());
    assert(bt[20].0.len() != bt[26].0.len());
    assert(bt[20].0.len() != bt[27].0.len());
    assert(bt[20].0.len() != bt[28].0.len());
    assert(bt[20].0.len() != bt[29].0.len());
    assert(bt[20].0.len() != bt[30].0.len());
    assert(bt[20].0.len() != bt[31].0.len());
    assert(bt[21].0.len() != bt[22].0.len());
    assert(bt[21].0.len() != bt[23].0.len());
    assert(bt[21].0.len() != bt[24].0.len());
    assert(bt[21].0.len() != bt[25].0.len());
    assert(bt[21].0.len() != bt[26].0.len());
    assert(bt[21].0.len() != bt[27].0.len());
    assert(bt[21].0.len() != bt[28].0.len());
    assert(bt[21].0.len() != bt[29].0.len());
    assert(bt[21].0.len() != bt[30].0.len());
    assert(bt[21].0.len() != bt[31].0.len());
    assert(bt[22].0.len() != bt[23].0.len());
    assert(bt[22].0[1] != bt[24].0[1]);
    assert(bt[22].0.len() != bt[25].0.len());
    assert(bt[22].0.len() != bt[26].0.len());
    assert(bt[22].0.len() != bt[27].0.len());
    assert(bt[22].0.len() != bt[28].0.len());
    assert(bt[22].0.len() != bt[29].0.len());
    assert(bt[22].0.len() != bt[30].0.len());
    assert(bt[22].0.len() != bt[31].0.len());
    assert(bt[23].0.len() != bt[24].0.len());
    assert(bt[23].0.len() != bt[25].0.len());
    assert(bt[23].0.len() != bt[26].0.len());
    assert(bt[23].0.len() != bt[27].0.len());
    assert(bt[23].0.len() != bt[28].0.len());
    assert(bt[23].0.len() != bt[29].0.len());
    assert(bt[23].0.len() != bt[30].0.len());
    assert(bt[23].0.len() != bt[31].0.len());
    assert(bt[24].0.len() != bt[25].0.len());
    assert(bt[24].0.len() != bt[26].0.len());
    assert(bt[24].0.len() != bt[27].0.len());
    assert(bt[24].0.len() != bt[28].0.len());
    assert(bt[24].0.len() != bt[29].0.len());
    assert(bt[24].0.len() != bt[30].0.len());
    assert(bt[24].0.len() != bt[31].0.len());
    assert(bt[25].0.len() != bt[26].0.len());
    assert(bt[25].0[0] != bt[27].0[0]);
    assert(bt[25].0.len() != bt[28].0.len());
    assert(bt[25].0.len() != bt[29].0.len());
    assert(bt[25].0.len() != bt[30].0.len());
    assert(bt[25].0.len() != bt[31].0.len());
    assert(bt[26].0.len() != bt[27].0.len());
    assert(bt[26].0.len() != bt[28].0.len());
    assert(bt[26].0.len() != bt[29].0.len());
    assert(bt[26].0.len() != bt[30].0.len());
    assert(bt[26].0.len() != bt[31].0.len());
    assert(bt[27].0.len() != bt[28].0.len());
    assert(bt[27].0.len() != bt[29].0.len());
    assert(bt[27].0.len() != bt[30].0.len());
    assert(bt[27].0.len() != bt[31].0.len());
    assert(bt[28].0.len() != bt[29].0.len());
    assert(bt[28].0.len() != bt[30].0.len());
    assert(bt[28].0[0] != bt[31].0[0]);
    assert(bt[29].0.len() != bt[30].0.len());
    assert(bt[29].0.len() != bt[31].0.len());
    assert(bt[30].0.len() != bt[31].0.len());
    assert forall|i: int, j: int| 0 <= i < j < 32 implies #[trigger] bt[i].0 != #[trigger] bt[j].0 by {
        assert(i == 0 || i == 1 || i == 2 || i == 3 || i == 4 || i == 5 || i == 6 || i == 7 || i == 8 || i == 9 || i == 10 || i == 11 || i == 12 || i == 13 || i == 14 || i == 15 || i == 16 || i == 17 || i == 18 || i == 19 || i == 20 || i == 21 || i == 22 || i == 23 || i == 24 || i == 25 || i == 26 || i == 27 || i == 28 || i == 29 || i == 30 || i == 31);
        assert(j == 0 || j == 1 || j == 2 || j == 3 || j == 4 || j == 5 || j == 6 || j == 7 || j == 8 || j == 9 || j == 10 || j == 11 || j == 12 || j == 13 || j == 14 || j == 15 || j == 16 || j == 17 || j == 18 || j == 19 || j == 20 || j == 21 || j == 22 || j == 23 || j == 24 || j == 25 || j == 26 || j == 27 || j == 28 || j == 29 || j == 30 || j == 31);
    }
}

proof fn lemma_builtin_table_lookup(uri: Seq<char>, n: nat, j: int)
    requires
        0 <= j < n <= 32,
        basic_types().len() == 32,
        forall|a: int, b: int| 0 <= a < b < 32 ==> #[trigger] basic_types()[a].0 != #[trigger] basic_types()[b].0,
    ensures
        lookup(basic_table(uri, n), basic_entry(uri, basic_types()[j].0, basic_types()[j].1).0) == Some(
            basic_entry(uri, basic_types()[j].0, basic_types()[j].1).1,
        ),
    decreases n,
{
    let e = basic_entry(uri, basic_types()[n - 1].0, basic_types()[n - 1].1);
    lemma_put_any(basic_table(uri, (n - 1) as nat), e.0, e.1);
    if j < n - 1 {
        lemma_builtin_table_lookup(uri, (n - 1) as nat, j);
        assert(basic_types()[j].0 != basic_types()[n - 1].0);
    }
}

proof fn lemma_builtin_found(tag: crate::registry::StartTagView, j: int)
    requires
        0 <= j < 32,
    ensures
        maps_builtin(initial_context(tag), basic_types()[j].0, basic_types()[j].1),
{
    lemma_builtin_names_distinct();
    reveal_strlit("http://www.w3.org/2001/XMLSchema");
    lemma_builtin_table_lookup(crate::registry::xsd_uri(), 32, j);
}

/// The context a schema starts with keeps each built-in simple type of XML
/// Schema as the Rust type of the same range of values.
pub proof fn law_builtin_types(tag: crate::registry::StartTagView)
    ensures
        maps_builtin(initial_context(tag), "bool"@, "bool"@),
        maps_builtin(initial_context(tag), "boolean"@, "bool"@),
        maps_builtin(initial_context(tag), "positiveInteger"@, "u64"@),
        maps_builtin(initial_context(tag), "byte"@, "u8"@),
        maps_builtin(initial_context(tag), "unsignedByte"@, "u8"@),
        maps_builtin(initial_context(tag), "short"@, "i16"@),
        maps_builtin(initial_context(tag), "unsignedShort"@, "u16"@),
        maps_builtin(initial_context(tag), "int"@, "i32"@),
        maps_builtin(initial_context(tag), "integer"@, "i32"@),
        maps_builtin(initial_context(tag), "unsignedInt"@, "u32"@),
        maps_builtin(initial_context(tag), "long"@, "i64"@),
        maps_builtin(initial_context(tag), "unsignedLong"@, "u64"@),
        maps_builtin(initial_context(tag), "nonNegativeInteger"@, "u64"@),
        maps_builtin(initial_context(tag), "double"@, "f64"@),
        maps_builtin(initial_context(tag), "decimal"@, "f64"@),
        maps_builtin(initial_context(tag), "string"@, "String"@),
        maps_builtin(initial_context(tag), "normalizedString"@, "String"@),
        maps_builtin(initial_context(tag), "anyURI"@, "String"@),
        maps_builtin(initial_context(tag), "NMTOKEN"@, "String"@),
        maps_builtin(initial_context(tag), "token"@, "String"@),
        maps_builtin(initial_context(tag), "language"@, "String"@),
        maps_builtin(initial_context(tag), "hexBinary"@, "String"@),
        maps_builtin(initial_context(tag), "dateTime"@, "String"@),
        maps_builtin(initial_context(tag), "base64Binary"@, "String"@),
        maps_builtin(initial_context(tag), "duration"@, "String"@),
        maps_builtin(initial_context(tag), "gYear"@, "u16"@),
        maps_builtin(initial_context(tag), "ID"@, "String"@),
        maps_builtin(initial_context(tag), "IDREF"@, "String"@),
        maps_builtin(initial_context(tag), "IDREFS"@, "String"@),
        maps_builtin(initial_context(tag), "anyType"@, "String"@),
        maps_builtin(initial_context(tag), "date"@, "Date"@),
        maps_builtin(initial_context(tag), "NCName"@, "String"@),
{
    let bt = basic_types();
    reveal_strlit("bool");
    reveal_strlit("boolean");
    reveal_strlit("positiveInteger");
    reveal_strlit("byte");
    reveal_strlit("unsignedByte");
    reveal_strlit("short");
    reveal_strlit("unsignedShort");
    reveal_strlit("int");
    reveal_strlit("integer");
    reveal_strlit("unsignedInt");
    reveal_strlit("long");
    reveal_strlit("unsignedLong");
    reveal_strlit("nonNegativeInteger");
    reveal_strlit("double");
    reveal_strlit("decimal");
    reveal_strlit("string");
    reveal_strlit("normalizedString");
    reveal_strlit("anyURI");
    reveal_strlit("NMTOKEN");
    reveal_strlit("token");
    reveal_strlit("language");
    reveal_strlit("hexBinary");
    reveal_strlit("dateTime");
    reveal_strlit("base64Binary");
    reveal_strlit("duration");
    reveal_strlit("gYear");
    reveal_strlit("ID");
    reveal_strlit("IDREF");
    reveal_strlit("IDREFS");
    reveal_strlit("anyType");
    reveal_strlit("date");
    reveal_strlit("NCName");
    reveal_strlit("http://www.w3.org/2001/XMLSchema");

    lemma_builtin_found(tag, 0);
    lemma_builtin_found(tag, 1);
    lemma_builtin_found(tag, 2);
    lemma_builtin_found(tag, 3);
    lemma_builtin_found(tag, 4);
    lemma_builtin_found(tag, 5);
    lemma_builtin_found(tag, 6);
    lemma_builtin_found(tag, 7);
    lemma_builtin_found(tag, 8);
    lemma_builtin_found(tag, 9);
    lemma_builtin_found(tag, 10);
    lemma_builtin_found(tag, 11);
    lemma_builtin_found(tag, 12);
    lemma_builtin_found(tag, 13);
    lemma_builtin_found(tag, 14);
    lemma_builtin_found(tag, 15);
    lemma_builtin_found(tag, 16);
    lemma_builtin_found(tag, 17);
    lemma_builtin_found(tag, 18);
    lemma_builtin_found(tag, 19);
    lemma_builtin_found(tag, 20);
    lemma_builtin_found(tag, 21);
    lemma_builtin_found(tag, 22);
    lemma_builtin_found(tag, 23);
    lemma_builtin_found(tag, 24);
    lemma_builtin_found(tag, 25);
    lemma_builtin_found(tag, 26);
    lemma_builtin_found(tag, 27);
    lemma_builtin_found(tag, 28);
    lemma_builtin_found(tag, 29);
    lemma_builtin_found(tag, 30);
    lemma_builtin_found(tag, 31);
}

} // verus!
