//! Naming generated pieces of code, turning them into fields, and merging
//! one piece into another.
use vstd::prelude::*;

use crate::code_build::new_field_view;
use crate::code_eq::type_eq;
use crate::code_model::{
    Field, FieldView, Fields, FieldsView, Impl, ImplView, Type, TypeView, TupleFieldView,
    impls_view,
};
use crate::context::{
    clone_impl, element_type, element_with_type, impl_view, impls_seq_view, lemma_impls_seq_view,
    lemma_impls_seq_view_push, plain_type, type_text, xsd_impl_eq, XsdElement, XsdElementView,
    XsdImpl, XsdImplView,
};
use crate::names::{
    clone_opt_str, field_name_spec, opt_name_view, struct_name_spec, to_field_name,
    to_struct_name, xsd_type_label, XsdNameView, XsdType,
};
use crate::text::{concat, str_eq};

verus! {

// ----- names -----

/// The name that a piece of code suggests: its field name hint, or else
/// the name of its type.
pub open spec fn hint_or_type_name(x: XsdImplView) -> Seq<char> {
    match x.fieldname_hint {
        Some(h) => h,
        None => element_type(x.element).name,
    }
}

/// The names that a list of pieces suggests, one after the other.
pub open spec fn hints_name(s: Seq<XsdImplView>) -> Seq<char>
    decreases s.len(),
{
    if s.len() == 0 {
        seq![]
    } else {
        hints_name(s.drop_last()) + hint_or_type_name(s.last())
    }
}

/// The name that a list of pieces suggests: their field name hints, or else
/// the names of their types, one after the other.
pub fn infer_type_name(this: &[XsdImpl]) -> (r: String)
    ensures
        r@ == hints_name(impls_seq_view(this@)),
{
    proof {
        lemma_impls_seq_view(this@);
    }
    let mut output = String::new();
    let mut i: usize = 0;
    while i < this.len()
        invariant
            i <= this@.len(),
            impls_seq_view(this@).len() == this@.len(),
            forall|j: int| 0 <= j < this@.len() ==> #[trigger] impls_seq_view(this@)[j] == impl_view(this@[j]),
            output@ == hints_name(impls_seq_view(this@).take(i as int)),
        decreases this@.len() - i,
    {
        let x = &this[i];
        match &x.fieldname_hint {
            Some(h) => output.push_str(h.as_str()),
            None => {
                let t = x.element.get_type();
                output.push_str(t.name.as_str());
            },
        }
        assert(impls_seq_view(this@).take(i + 1).drop_last() =~= impls_seq_view(this@).take(i as int));
        i += 1;
    }
    assert(impls_seq_view(this@).take(i as int) =~= impls_seq_view(this@));
    output
}

pub open spec fn tuple_names(v: Seq<TupleFieldView>) -> Seq<char>
    decreases v.len(),
{
    if v.len() == 0 {
        seq![]
    } else {
        tuple_names(v.drop_last()) + v.last().ty.name
    }
}

pub open spec fn named_struct_names(v: Seq<FieldView>) -> Seq<char>
    decreases v.len(),
{
    if v.len() == 0 {
        seq![]
    } else {
        named_struct_names(v.drop_last()) + struct_name_spec(v.last().name)
    }
}

pub open spec fn variant_names(v: Seq<crate::code_model::VariantView>) -> Seq<char>
    decreases v.len(),
{
    if v.len() == 0 {
        seq![]
    } else {
        variant_names(v.drop_last()) + v.last().name
    }
}

/// The type name that an element suggests: the names of a struct's field
/// types (positional) or of its fields (named, as type names), the names of
/// an enum's variants, or the name of the type otherwise.
pub open spec fn element_type_name(e: XsdElementView) -> Seq<char> {
    match e {
        XsdElementView::Struct(s) => match s.fields {
            FieldsView::Tuple(v) => tuple_names(v),
            FieldsView::Named(v) => named_struct_names(v),
            FieldsView::Empty => seq![],
        },
        XsdElementView::Enum(x) => variant_names(x.variants),
        XsdElementView::Type(t) => t.name,
        XsdElementView::TypeAlias(t, _) => t.name,
        XsdElementView::Field(f) => f.ty.name,
    }
}

/// The view of a piece turned into a public field named by its hint, or by
/// its name where it has none.
pub open spec fn to_field_view(x: XsdImplView) -> XsdImplView {
    match x.element {
        XsdElementView::Field(_) => x,
        _ => {
            let t = element_type(x.element);
            let name = match x.fieldname_hint {
                Some(h) => h,
                None => field_name_spec(x.name.local_name),
            };
            XsdImplView {
                name: x.name,
                fieldname_hint: x.fieldname_hint,
                element: XsdElementView::Field(
                    FieldView { vis: Some("pub"@), ..new_field_view(t.xml_name, name, t, false, false) },
                ),
                inner: seq![],
                implementation: seq![],
                flatten: x.flatten,
            }
        },
    }
}

impl XsdImpl {
    /// The type name that the piece suggests; a struct without fields has
    /// none.
    pub fn infer_type_name(&self) -> (r: String)
        requires
            !(self@.element matches XsdElementView::Struct(s) && s.fields is Empty),
        ensures
            r@ == element_type_name(self@.element),
    {
        match &self.element {
            XsdElement::Struct(a) => match &a.fields {
                Fields::Empty => String::new(),
                Fields::Tuple(tup) => {
                    let mut out = String::new();
                    let mut i: usize = 0;
                    while i < tup.len()
                        invariant
                            i <= tup@.len(),
                            out@ == tuple_names(crate::code_model::tuple_fields_view(tup@).take(i as int)),
                        decreases tup@.len() - i,
                    {
                        out.push_str(tup[i].ty.name.as_str());
                        proof {
                            let v = crate::code_model::tuple_fields_view(tup@);
                            assert(v.take(i + 1).drop_last() =~= v.take(i as int));
                        }
                        i += 1;
                    }
                    assert(crate::code_model::tuple_fields_view(tup@).take(i as int) =~= crate::code_model::tuple_fields_view(tup@));
                    out
                },
                Fields::Named(names) => {
                    let mut out = String::new();
                    let mut i: usize = 0;
                    while i < names.len()
                        invariant
                            i <= names@.len(),
                            out@ == named_struct_names(crate::code_model::fields_seq_view(names@).take(i as int)),
                        decreases names@.len() - i,
                    {
                        let s = to_struct_name(names[i].name.as_str());
                        out.push_str(s.as_str());
                        proof {
                            let v = crate::code_model::fields_seq_view(names@);
                            assert(v.take(i + 1).drop_last() =~= v.take(i as int));
                        }
                        i += 1;
                    }
                    assert(crate::code_model::fields_seq_view(names@).take(i as int) =~= crate::code_model::fields_seq_view(names@));
                    out
                },
            },
            XsdElement::Enum(a) => {
                let mut out = String::new();
                let mut i: usize = 0;
                while i < a.variants.len()
                    invariant
                        i <= a.variants@.len(),
                        out@ == variant_names(crate::code_model::variants_view(a.variants@).take(i as int)),
                    decreases a.variants@.len() - i,
                {
                    out.push_str(a.variants[i].name.as_str());
                    proof {
                        let v = crate::code_model::variants_view(a.variants@);
                        assert(v.take(i + 1).drop_last() =~= v.take(i as int));
                    }
                    i += 1;
                }
                assert(crate::code_model::variants_view(a.variants@).take(i as int) =~= crate::code_model::variants_view(a.variants@));
                out
            },
            XsdElement::Type(ty) => ty.name.clone(),
            XsdElement::TypeAlias(ty, _) => ty.name.clone(),
            XsdElement::Field(f) => f.ty.name.clone(),
        }
    }

    /// The piece as a public field of its type, named by its hint or else by
    /// its name; a field stays as it is.
    pub fn to_field(&self) -> (r: XsdImpl)
        ensures
            r@ == to_field_view(self@),
    {
        match &self.element {
            XsdElement::Field(_) => clone_impl(self),
            _ => {
                let t = self.element.get_type();
                let name = match &self.fieldname_hint {
                    Some(h) => h.clone(),
                    None => self.name.to_field_name(),
                };
                let xml = crate::names::clone_opt_name(&t.xml_name);
                let field = Field::new(xml, name.as_str(), t, false, false).vis("pub");
                let r = XsdImpl {
                    name: self.name.clone(),
                    fieldname_hint: clone_opt_str(&self.fieldname_hint),
                    element: XsdElement::Field(field),
                    inner: Vec::new(),
                    implementation: Vec::new(),
                    flatten: self.flatten,
                };
                assert(impls_seq_view(r.inner@) =~= seq![]);
                assert(impls_view(r.implementation@) =~= seq![]);
                r
            },
        }
    }
}

// ----- merging nested pieces -----

/// The index of the first piece whose type is written `t`, or -1.
pub open spec fn first_same_type(inner: Seq<XsdImplView>, t: Seq<char>) -> int
    decreases inner.len(),
{
    if inner.len() == 0 {
        -1
    } else if type_text(element_type(inner[0].element)) == t {
        0
    } else {
        let r = first_same_type(inner.drop_first(), t);
        if r < 0 {
            -1
        } else {
            r + 1
        }
    }
}

pub proof fn lemma_first_same_type(inner: Seq<XsdImplView>, t: Seq<char>)
    ensures
        -1 <= first_same_type(inner, t) < inner.len(),
        first_same_type(inner, t) >= 0 ==> type_text(element_type(inner[first_same_type(inner, t)].element)) == t,
        forall|j: int|
            0 <= j < inner.len() && (first_same_type(inner, t) < 0 || j < first_same_type(inner, t))
                ==> type_text(element_type((#[trigger] inner[j]).element)) != t,
    decreases inner.len(),
{
    if inner.len() > 0 {
        lemma_first_same_type(inner.drop_first(), t);
        assert forall|j: int| 0 < j < inner.len() implies #[trigger] inner[j] == inner.drop_first()[j - 1] by {}
    }
}

/// The `impl` blocks with those for `old_t` moved to `new_t`.
pub open spec fn retarget(v: Seq<ImplView>, old_t: TypeView, new_t: TypeView) -> Seq<ImplView> {
    v.map_values(|i: ImplView| if i.target == old_t { ImplView { target: new_t, ..i } } else { i })
}

/// A piece whose type name is taken: its struct or enum is renamed to the
/// written type followed by the kind of its schema component, and its
/// `impl` blocks follow.
pub open spec fn renamed(o: XsdImplView) -> XsdImplView {
    let old_t = element_type(o.element);
    let e = element_with_type(
        o.element,
        plain_type(type_text(old_t) + struct_name_spec(xsd_type_label(o.name.ty))),
    );
    XsdImplView {
        element: e,
        implementation: retarget(o.implementation, old_t, element_type(e)),
        ..o
    }
}

/// Adds one nested piece: an equal piece already there is not added again;
/// one whose type is written as that of a piece already there is renamed.
pub open spec fn merge_one(inner: Seq<XsdImplView>, o: XsdImplView) -> Seq<XsdImplView> {
    let k = first_same_type(inner, type_text(element_type(o.element)));
    if k < 0 {
        inner.push(o)
    } else if inner[k] == o {
        inner
    } else {
        inner.push(renamed(o))
    }
}

/// Adds nested pieces one after the other.
pub open spec fn merge_all(inner: Seq<XsdImplView>, others: Seq<XsdImplView>) -> Seq<XsdImplView>
    decreases others.len(),
{
    if others.len() == 0 {
        inner
    } else {
        merge_one(merge_all(inner, others.drop_last()), others.last())
    }
}

fn retarget_impls(v: &Vec<Impl>, old_t: &Type, new_t: &Type) -> (r: Vec<Impl>)
    ensures
        impls_view(r@) == retarget(impls_view(v@), old_t@, new_t@),
{
    let mut out: Vec<Impl> = Vec::new();
    let mut i: usize = 0;
    while i < v.len()
        invariant
            i <= v@.len(),
            out@.len() == i,
            forall|j: int| 0 <= j < i ==> (#[trigger] out@[j])@ == (if v@[j]@.target == old_t@ {
                ImplView { target: new_t@, ..v@[j]@ }
            } else {
                v@[j]@
            }),
        decreases v@.len() - i,
    {
        let mut x = v[i].clone();
        if type_eq(&x.target, old_t) {
            x.target = new_t.clone();
        }
        out.push(x);
        i += 1;
    }
    assert(impls_view(out@) =~= retarget(impls_view(v@), old_t@, new_t@));
    out
}

pub(crate) fn rename_impl(o: XsdImpl) -> (r: XsdImpl)
    ensures
        r@ == renamed(o@),
{
    let mut o = o;
    let old_t = o.element.get_type();
    let text = old_t.to_string();
    let label = o.name.ty.label();
    let suffix = to_struct_name(label.as_str());
    let new_name = concat(text.as_str(), suffix.as_str());
    let t = Type { name: new_name, generics: Vec::new(), xml_name: None, docs: None };
    assert(crate::code_model::types_view(t.generics@) =~= seq![]);
    o.element.set_type(t);
    let nt = o.element.get_type();
    let imps = retarget_impls(&o.implementation, &old_t, &nt);
    o.implementation = imps;
    o
}

fn find_same_type(inner: &Vec<XsdImpl>, text: &str) -> (r: Option<usize>)
    ensures
        match r {
            Some(j) => j as int == first_same_type(impls_seq_view(inner@), text@),
            None => first_same_type(impls_seq_view(inner@), text@) < 0,
        },
{
    let ghost cur = impls_seq_view(inner@);
    proof {
        lemma_impls_seq_view(inner@);
        lemma_first_same_type(cur, text@);
    }
    let mut j: usize = 0;
    while j < inner.len()
        invariant
            j <= inner@.len(),
            cur == impls_seq_view(inner@),
            cur.len() == inner@.len(),
            forall|m: int| 0 <= m < inner@.len() ==> #[trigger] cur[m] == impl_view(inner@[m]),
            forall|m: int| 0 <= m < j ==> type_text(element_type((#[trigger] cur[m]).element)) != text@,
        decreases inner@.len() - j,
    {
        let t2 = inner[j].element.get_type().to_string();
        assert(cur[j as int] == impl_view(inner@[j as int]));
        if str_eq(t2.as_str(), text) {
            proof {
                lemma_first_same_type(cur, text@);
                let fk = first_same_type(cur, text@);
                if fk >= 0 && fk < j {
                    assert(type_text(element_type(cur[fk].element)) != text@);
                }
                if fk < 0 || fk > j {
                    assert(type_text(element_type(cur[j as int].element)) == text@);
                }
            }
            return Some(j);
        }
        j += 1;
    }
    proof {
        let fk = first_same_type(cur, text@);
        if fk >= 0 {
            assert(type_text(element_type(cur[fk].element)) != text@);
        }
    }
    None
}

impl XsdImpl {
    fn merge_one(&mut self, other: XsdImpl)
        ensures
            final(self)@ == (XsdImplView { inner: merge_one(old(self)@.inner, other@), ..old(self)@ }),
    {
        let text = other.element.get_type().to_string();
        proof {
            lemma_impls_seq_view(self.inner@);
            lemma_first_same_type(impls_seq_view(self.inner@), text@);
        }
        match find_same_type(&self.inner, text.as_str()) {
            Some(jj) => {
                if !xsd_impl_eq(&self.inner[jj], &other) {
                    let renamed_other = rename_impl(other);
                    proof {
                        lemma_impls_seq_view_push(self.inner@, renamed_other);
                    }
                    self.inner.push(renamed_other);
                }
            },
            None => {
                proof {
                    lemma_impls_seq_view_push(self.inner@, other);
                }
                self.inner.push(other);
            },
        }
    }

    fn merge_inner(&mut self, others: Vec<XsdImpl>)
        ensures
            final(self)@ == (XsdImplView {
                inner: merge_all(old(self)@.inner, impls_seq_view(others@)),
                ..old(self)@
            }),
    {
        proof {
            lemma_impls_seq_view(others@);
        }
        let mut k: usize = 0;
        while k < others.len()
            invariant
                k <= others@.len(),
                impls_seq_view(others@).len() == others@.len(),
                forall|j: int| 0 <= j < others@.len() ==> #[trigger] impls_seq_view(others@)[j] == impl_view(others@[j]),
                self@ == (XsdImplView {
                    inner: merge_all(old(self)@.inner, impls_seq_view(others@).take(k as int)),
                    ..old(self)@
                }),
            decreases others@.len() - k,
        {
            let other = clone_impl(&others[k]);
            proof {
                assert(impls_seq_view(others@).take(k + 1).drop_last() =~= impls_seq_view(others@).take(k as int));
            }
            self.merge_one(other);
            k += 1;
        }
        assert(impls_seq_view(others@).take(k as int) =~= impls_seq_view(others@));
    }
}


// ----- merging one piece into another -----

/// How a merge names a field that is already there.
pub enum MergeType {
    Field,
    Attribute,
}

/// Settings of a merge: the prefix given to a field whose name is taken
/// (none: names may repeat), and what is merged.
pub struct MergeSettings<'a> {
    pub conflict_prefix: Option<&'a str>,
    pub merge_type: MergeType,
}

impl<'a> MergeSettings<'a> {
    /// The settings for merging attributes: a taken name gets `attr_`
    /// before it.
    pub fn attribute() -> (r: MergeSettings<'static>)
        ensures
            r.conflict_prefix == Some("attr_"),
            r.merge_type is Attribute,
    {
        MergeSettings { conflict_prefix: Some("attr_"), merge_type: MergeType::Attribute }
    }
}

impl<'a> Default for MergeSettings<'a> {
    fn default() -> (r: Self)
        ensures
            r.conflict_prefix is None,
            r.merge_type is Field,
    {
        MergeSettings { conflict_prefix: None, merge_type: MergeType::Field }
    }
}

/// The conflict prefix of the settings, as text.
pub open spec fn prefix_view(p: Option<&str>) -> Option<Seq<char>> {
    match p {
        Some(x) => Some(x@),
        None => None,
    }
}

/// Whether the children of a merged piece are attributes.
pub open spec fn children_are_attributes(o: XsdImplView) -> bool {
    o.name.ty == XsdType::Attribute || o.name.ty == XsdType::AttributeGroup
}

/// Whether the children of a merged piece are flattened into the target.
pub open spec fn flatten_children(o: XsdImplView) -> bool {
    o.name.ty == XsdType::Group || o.name.ty == XsdType::AttributeGroup || o.flatten
}

pub open spec fn with_flags(f: FieldView, attrs: bool, flat: bool) -> FieldView {
    FieldView { attribute: attrs, flatten: flat, ..f }
}

pub open spec fn tuple_with_flags(f: TupleFieldView, attrs: bool, flat: bool) -> TupleFieldView {
    TupleFieldView { attribute: attrs, flatten: flat, ..f }
}

/// Whether a field of the list has the name `n`.
pub open spec fn has_field_named(fs: Seq<FieldView>, n: Seq<char>) -> bool {
    exists|j: int| 0 <= j < fs.len() && (#[trigger] fs[j]).name == n
}

/// The field list with `f` added; where its name is taken and there is a
/// prefix, the prefix is put before its name.
pub open spec fn add_named(fs: Seq<FieldView>, f: FieldView, prefix: Option<Seq<char>>) -> Seq<FieldView> {
    match prefix {
        Some(p) => if has_field_named(fs, f.name) {
            fs.push(FieldView { name: p + f.name, ..f })
        } else {
            fs.push(f)
        },
        None => fs.push(f),
    }
}

/// The field list with the fields `bs` added one after the other, each
/// marked with the flags of the merge.
pub open spec fn add_all_named(
    fs: Seq<FieldView>,
    bs: Seq<FieldView>,
    attrs: bool,
    flat: bool,
    prefix: Option<Seq<char>>,
) -> Seq<FieldView>
    decreases bs.len(),
{
    if bs.len() == 0 {
        fs
    } else {
        add_named(add_all_named(fs, bs.drop_last(), attrs, flat, prefix), with_flags(bs.last(), attrs, flat), prefix)
    }
}

/// The type `prefix::t`.
pub open spec fn qualify(t: TypeView, prefix: Seq<char>) -> TypeView {
    TypeView { name: prefix + "::"@ + t.name, ..t }
}

/// Puts a type under `prefix` where it is `it`.
pub open spec fn qualify_fn(it: TypeView, prefix: Seq<char>) -> spec_fn(TypeView) -> TypeView {
    |g: TypeView| if it == g { qualify(g, prefix) } else { g }
}

/// Marks a positional field with the flags of a merge.
pub open spec fn flags_fn(attrs: bool, flat: bool) -> spec_fn(TupleFieldView) -> TupleFieldView {
    |f: TupleFieldView| tuple_with_flags(f, attrs, flat)
}

/// One step of qualifying a type by a nested piece of type `it`: the type
/// itself, and then each of its generic arguments, is put under `prefix`
/// where it is `it`.
pub open spec fn requalify_step(b: TypeView, it: TypeView, prefix: Seq<char>) -> TypeView {
    let b1 = if it == b {
        qualify(b, prefix)
    } else {
        b
    };
    TypeView {
        generics: b1.generics.map_values(qualify_fn(it, prefix)),
        ..b1
    }
}

/// Whether a step of qualifying finds no path already in what it
/// qualifies.
pub open spec fn requalify_step_ok(b: TypeView, it: TypeView) -> bool {
    &&& (it == b ==> !crate::code_build::has_path_sep(b.name))
    &&& forall|k: int| 0 <= k < b.generics.len() && it == #[trigger] b.generics[k] ==> !crate::code_build::has_path_sep(b.generics[k].name)
}

/// Whether a nested piece defines a type of its own (a struct or an enum).
pub open spec fn defines_type(x: XsdImplView) -> bool {
    x.element is Struct || x.element is Enum
}

/// A type with the types of the nested structs and enums put under
/// `prefix`, piece after piece.
pub open spec fn requalify(b: TypeView, inner: Seq<XsdImplView>, prefix: Seq<char>) -> TypeView
    decreases inner.len(),
{
    if inner.len() == 0 {
        b
    } else {
        let b0 = requalify(b, inner.drop_last(), prefix);
        if defines_type(inner.last()) {
            requalify_step(b0, element_type(inner.last().element), prefix)
        } else {
            b0
        }
    }
}

pub open spec fn requalify_ok(b: TypeView, inner: Seq<XsdImplView>, prefix: Seq<char>) -> bool
    decreases inner.len(),
{
    if inner.len() == 0 {
        true
    } else {
        requalify_ok(b, inner.drop_last(), prefix) && (defines_type(inner.last()) ==> requalify_step_ok(
            requalify(b, inner.drop_last(), prefix),
            element_type(inner.last().element),
        ))
    }
}

/// A public field.
pub open spec fn pub_field(
    xml: Option<XsdNameView>,
    name: Seq<char>,
    ty: TypeView,
    attrs: bool,
    flat: bool,
) -> FieldView {
    FieldView { vis: Some("pub"@), ..new_field_view(xml, name, ty, attrs, flat) }
}

/// The name of the field or variant that stands for a nested piece: its
/// hint, or the name of its type, as a field name.
pub open spec fn nested_name(o: XsdImplView, bt: TypeView) -> Seq<char> {
    field_name_spec(
        match o.fieldname_hint {
            Some(h) => h,
            None => bt.name,
        },
    )
}

/// A variant with one positional field.
pub open spec fn tuple_variant(
    xml: Option<XsdNameView>,
    name: Seq<char>,
    ty: TypeView,
    attrs: bool,
    flat: bool,
) -> crate::code_model::VariantView {
    crate::code_model::VariantView {
        name,
        fields: FieldsView::Tuple(seq![TupleFieldView { vis: None, ty, attribute: attrs, flatten: flat }]),
        attributes: seq![],
        xml_name: xml,
        doc: None,
    }
}

/// What merging `o` into a piece that is a struct `a` makes of the struct,
/// which pieces it nests, and whether those are appended as they are
/// (`true`) or merged one by one (`false`).
pub open spec fn struct_merge(
    a: crate::code_model::StructView,
    o: XsdImplView,
    prefix: Option<Seq<char>>,
) -> (crate::code_model::StructView, Seq<XsdImplView>, bool) {
    let attrs = children_are_attributes(o);
    let flat = flatten_children(o);
    let at = a.type_def.ty;
    match o.element {
        XsdElementView::Struct(b) => match (a.fields, b.fields) {
            (FieldsView::Empty, bf) => (crate::code_model::StructView { fields: bf, ..a }, o.inner, true),
            (FieldsView::Tuple(af), FieldsView::Tuple(bf)) => (
                crate::code_model::StructView {
                    fields: FieldsView::Tuple(af + bf.map_values(flags_fn(attrs, flat))),
                    ..a
                },
                o.inner,
                false,
            ),
            (FieldsView::Named(af), FieldsView::Named(bf)) => (
                crate::code_model::StructView {
                    fields: FieldsView::Named(add_all_named(af, bf, attrs, flat, prefix)),
                    ..a
                },
                o.inner,
                false,
            ),
            _ => {
                let name = nested_name(o, b.type_def.ty);
                let ty = qualify(b.type_def.ty, field_name_spec(at.name));
                (
                    crate::code_model::StructView {
                        fields: crate::code_build::push_named_view(a.fields, pub_field(ty.xml_name, name, ty, attrs, flat)),
                        ..a
                    },
                    seq![XsdImplView { fieldname_hint: Some(name), ..o }],
                    false,
                )
            },
        },
        XsdElementView::Enum(b) => {
            let name = nested_name(o, b.type_def.ty);
            let ty = qualify(b.type_def.ty, field_name_spec(at.name));
            (
                crate::code_model::StructView {
                    fields: crate::code_build::push_named_view(a.fields, pub_field(ty.xml_name, name, ty, attrs, flat)),
                    ..a
                },
                seq![XsdImplView { fieldname_hint: Some(name), ..o }],
                false,
            )
        },
        XsdElementView::Field(b) => (
            crate::code_model::StructView {
                fields: match a.fields {
                    FieldsView::Empty => FieldsView::Named(seq![b]),
                    FieldsView::Tuple(af) => FieldsView::Tuple(
                        af.push(TupleFieldView { vis: b.vis, ty: b.ty, attribute: attrs, flatten: flat }),
                    ),
                    FieldsView::Named(af) => FieldsView::Named(add_named(af, with_flags(b, attrs, flat), prefix)),
                },
                ..a
            },
            seq![],
            true,
        ),
        _ => {
            let b = element_type(o.element);
            let name = nested_name(o, b);
            let b2 = requalify(b, o.inner, field_name_spec(type_text(at)));
            let f = pub_field(b2.xml_name, name, b2, attrs, flat);
            let conflict = prefix is Some && (a.fields matches FieldsView::Named(af) && has_field_named(af, name));
            let f2 = if conflict {
                FieldView { name: prefix.unwrap() + name, ..f }
            } else {
                f
            };
            (
                crate::code_model::StructView { fields: crate::code_build::push_named_view(a.fields, f2), ..a },
                o.inner,
                false,
            )
        },
    }
}

/// Whether merging `o` into the struct `a` runs without failing: a field
/// is never added to positional fields, and a type is never put under a
/// path twice.
pub open spec fn struct_merge_ok(a: crate::code_model::StructView, o: XsdImplView) -> bool {
    let at = a.type_def.ty;
    match o.element {
        XsdElementView::Struct(b) => match (a.fields, b.fields) {
            (FieldsView::Empty, _) => true,
            (FieldsView::Tuple(_), FieldsView::Tuple(_)) => true,
            (FieldsView::Named(_), FieldsView::Named(_)) => true,
            _ => !(a.fields is Tuple) && !crate::code_build::has_path_sep(b.type_def.ty.name),
        },
        XsdElementView::Enum(b) => !(a.fields is Tuple) && !crate::code_build::has_path_sep(b.type_def.ty.name),
        XsdElementView::Field(_) => true,
        _ => !(a.fields is Tuple) && requalify_ok(element_type(o.element), o.inner, field_name_spec(type_text(at))),
    }
}

/// What merging `o` into a piece that is an enum `a` makes of the enum and
/// which pieces it nests (always merged one by one).
pub open spec fn enum_merge(a: crate::code_model::EnumView, o: XsdImplView) -> (
    crate::code_model::EnumView,
    Seq<XsdImplView>,
) {
    let attrs = children_are_attributes(o);
    let flat = flatten_children(o);
    let at = a.type_def.ty;
    match o.element {
        XsdElementView::Struct(b) => {
            let name = nested_name(o, b.type_def.ty);
            let ty = qualify(b.type_def.ty, field_name_spec(at.name));
            (
                crate::code_model::EnumView {
                    variants: a.variants.push(tuple_variant(b.type_def.ty.xml_name, name, ty, attrs, flat)),
                    ..a
                },
                seq![XsdImplView { fieldname_hint: Some(name), ..o }],
            )
        },
        XsdElementView::Enum(b) => {
            let name = nested_name(o, b.type_def.ty);
            let ty = qualify(b.type_def.ty, field_name_spec(at.name));
            (
                crate::code_model::EnumView {
                    variants: a.variants.push(tuple_variant(None, struct_name_spec(name), ty, attrs, flat)),
                    ..a
                },
                seq![XsdImplView { fieldname_hint: Some(name), ..o }],
            )
        },
        XsdElementView::Field(b) => (
            crate::code_model::EnumView {
                variants: a.variants.push(tuple_variant(None, struct_name_spec(b.name), b.ty, attrs, flat)),
                ..a
            },
            seq![],
        ),
        _ => {
            let b = element_type(o.element);
            let name = struct_name_spec(
                match o.fieldname_hint {
                    Some(h) => h,
                    None => b.name,
                },
            );
            let b2 = requalify(b, o.inner, field_name_spec(type_text(at)));
            (
                crate::code_model::EnumView { variants: a.variants.push(tuple_variant(None, name, b2, attrs, flat)), ..a },
                o.inner,
            )
        },
    }
}

pub open spec fn enum_merge_ok(a: crate::code_model::EnumView, o: XsdImplView) -> bool {
    match o.element {
        XsdElementView::Struct(b) => !crate::code_build::has_path_sep(b.type_def.ty.name),
        XsdElementView::Enum(_) => true,
        XsdElementView::Field(_) => true,
        _ => requalify_ok(element_type(o.element), o.inner, field_name_spec(type_text(a.type_def.ty))),
    }
}

/// The piece `s` with `o` merged into it.
pub open spec fn merge_view(s: XsdImplView, o: XsdImplView, prefix: Option<Seq<char>>) -> XsdImplView {
    match s.element {
        XsdElementView::Struct(a) => {
            let (a2, nested, extend) = struct_merge(a, o, prefix);
            XsdImplView {
                element: XsdElementView::Struct(a2),
                inner: if extend {
                    s.inner + nested
                } else {
                    merge_all(s.inner, nested)
                },
                ..s
            }
        },
        XsdElementView::Enum(a) => {
            let (a2, nested) = enum_merge(a, o);
            XsdImplView { element: XsdElementView::Enum(a2), inner: merge_all(s.inner, nested), ..s }
        },
        _ => s,
    }
}

/// Whether `o` can be merged into `s`: `s` is a struct or an enum, and the
/// merge fails nowhere.
pub open spec fn merge_ok(s: XsdImplView, o: XsdImplView) -> bool {
    match s.element {
        XsdElementView::Struct(a) => struct_merge_ok(a, o),
        XsdElementView::Enum(a) => enum_merge_ok(a, o),
        _ => false,
    }
}


fn has_named(fs: &Vec<Field>, name: &str) -> (r: bool)
    ensures
        r == has_field_named(crate::code_model::fields_seq_view(fs@), name@),
{
    let ghost v = crate::code_model::fields_seq_view(fs@);
    let mut i: usize = 0;
    while i < fs.len()
        invariant
            i <= fs@.len(),
            v == crate::code_model::fields_seq_view(fs@),
            forall|j: int| 0 <= j < i ==> (#[trigger] v[j]).name != name@,
        decreases fs@.len() - i,
    {
        if str_eq(fs[i].name.as_str(), name) {
            assert(v[i as int].name == name@);
            return true;
        }
        i += 1;
    }
    false
}

fn add_named_exec(fs: &mut Vec<Field>, f: Field, prefix: Option<&str>)
    ensures
        crate::code_model::fields_seq_view(final(fs)@) == add_named(
            crate::code_model::fields_seq_view(old(fs)@),
            f@,
            prefix_view(prefix),
        ),
{
    let mut f = f;
    match prefix {
        Some(p) => {
            if has_named(fs, f.name.as_str()) {
                f.name = concat(p, f.name.as_str());
            }
        },
        None => {},
    }
    let ghost fv = f@;
    fs.push(f);
    assert(crate::code_model::fields_seq_view(fs@) =~= crate::code_model::fields_seq_view(old(fs)@).push(fv));
}

fn requalify_step_exec(b: Type, it: &Type, pre: &str) -> (r: Type)
    requires
        requalify_step_ok(b@, it@),
    ensures
        r@ == requalify_step(b@, it@, pre@),
{
    let b1 = if type_eq(it, &b) {
        b.path(pre)
    } else {
        b
    };
    proof {
        crate::code_model::lemma_types_view(b1.generics@);
    }
    let mut gs: Vec<Type> = Vec::new();
    let mut k: usize = 0;
    while k < b1.generics.len()
        invariant
            k <= b1.generics@.len(),
            gs@.len() == k,
            b1@.generics.len() == b1.generics@.len(),
            forall|j: int| 0 <= j < b1.generics@.len() ==> #[trigger] b1@.generics[j] == b1.generics@[j]@,
            forall|j: int| 0 <= j < k ==> (#[trigger] gs@[j])@ == qualify_fn(it@, pre@)(b1@.generics[j]),
            requalify_step_ok(b@, it@),
            it@ == b@ ==> b1@ == qualify(b@, pre@),
            it@ != b@ ==> b1@ == b@,
        decreases b1.generics@.len() - k,
    {
        let g = &b1.generics[k];
        if type_eq(it, g) {
            assert(b1@.generics[k as int] == g@);
            assert(b@.generics[k as int] == g@);
            gs.push(g.path(pre));
        } else {
            gs.push(g.clone());
        }
        k += 1;
    }
    proof {
        crate::code_model::lemma_types_view(gs@);
        assert(crate::code_model::types_view(gs@) =~= b1@.generics.map_values(qualify_fn(it@, pre@)));
    }
    Type { name: b1.name, generics: gs, xml_name: b1.xml_name, docs: b1.docs }
}

fn requalify_exec(b: Type, inner: &Vec<XsdImpl>, pre: &str) -> (r: Type)
    requires
        requalify_ok(b@, impls_seq_view(inner@), pre@),
    ensures
        r@ == requalify(b@, impls_seq_view(inner@), pre@),
{
    let ghost v = impls_seq_view(inner@);
    proof {
        lemma_impls_seq_view(inner@);
        lemma_requalify_ok_prefix(b@, v, pre@, v.len() as int);
    }
    let mut cur = b;
    let mut i: usize = 0;
    assert(v.take(0) =~= seq![]);
    while i < inner.len()
        invariant
            i <= inner@.len(),
            v == impls_seq_view(inner@),
            v.len() == inner@.len(),
            forall|j: int| 0 <= j < inner@.len() ==> #[trigger] v[j] == impl_view(inner@[j]),
            forall|n: int| 0 <= n <= v.len() ==> requalify_ok(b@, #[trigger] v.take(n), pre@),
            cur@ == requalify(b@, v.take(i as int), pre@),
        decreases inner@.len() - i,
    {
        let x = &inner[i];
        proof {
            assert(v.take(i + 1).drop_last() =~= v.take(i as int));
            assert(v.take(i + 1).last() == v[i as int]);
            assert(requalify_ok(b@, v.take(i + 1), pre@));
        }
        match &x.element {
            XsdElement::Struct(_) | XsdElement::Enum(_) => {
                let it = x.element.get_type();
                cur = requalify_step_exec(cur, &it, pre);
            },
            _ => {},
        }
        i += 1;
    }
    assert(v.take(i as int) =~= v);
    cur
}

/// Whether a step of qualifying finds no path already in what it
/// qualifies.
fn step_ok_exec(b: &Type, it: &Type) -> (r: bool)
    ensures
        r == requalify_step_ok(b@, it@),
{
    if type_eq(it, b) && crate::code_build::contains_path_sep(b.name.as_str()) {
        return false;
    }
    proof {
        crate::code_model::lemma_types_view(b.generics@);
    }
    let mut k: usize = 0;
    while k < b.generics.len()
        invariant
            k <= b.generics@.len(),
            b@.generics.len() == b.generics@.len(),
            forall|j: int| 0 <= j < b.generics@.len() ==> #[trigger] b@.generics[j] == b.generics@[j]@,
            it@ == b@ ==> !crate::code_build::has_path_sep(b@.name),
            forall|j: int|
                0 <= j < k && it@ == #[trigger] b@.generics[j] ==> !crate::code_build::has_path_sep(b@.generics[j].name),
        decreases b.generics@.len() - k,
    {
        let g = &b.generics[k];
        if type_eq(it, g) && crate::code_build::contains_path_sep(g.name.as_str()) {
            assert(it@ == b@.generics[k as int]);
            return false;
        }
        k += 1;
    }
    true
}

/// Whether qualifying `b` by the types of `inner` finds no path already in
/// what it qualifies.
fn requalify_ok_exec(b: &Type, inner: &Vec<XsdImpl>, pre: &str) -> (r: bool)
    ensures
        r == requalify_ok(b@, impls_seq_view(inner@), pre@),
{
    let ghost v = impls_seq_view(inner@);
    proof {
        lemma_impls_seq_view(inner@);
    }
    let mut cur = b.clone();
    let mut i: usize = 0;
    assert(v.take(0) =~= seq![]);
    while i < inner.len()
        invariant
            i <= inner@.len(),
            v == impls_seq_view(inner@),
            v.len() == inner@.len(),
            forall|j: int| 0 <= j < inner@.len() ==> #[trigger] v[j] == impl_view(inner@[j]),
            requalify_ok(b@, v.take(i as int), pre@),
            cur@ == requalify(b@, v.take(i as int), pre@),
        decreases inner@.len() - i,
    {
        let x = &inner[i];
        proof {
            assert(v.take(i + 1).drop_last() =~= v.take(i as int));
            assert(v.take(i + 1).last() == v[i as int]);
        }
        match &x.element {
            XsdElement::Struct(_) | XsdElement::Enum(_) => {
                let it = x.element.get_type();
                if !step_ok_exec(&cur, &it) {
                    proof {
                        if requalify_ok(b@, v, pre@) {
                            lemma_requalify_ok_prefix(b@, v, pre@, v.len() as int);
                        }
                    }
                    return false;
                }
                cur = requalify_step_exec(cur, &it, pre);
            },
            _ => {},
        }
        i += 1;
    }
    assert(v.take(i as int) =~= v);
    true
}

/// Whether `o` can be merged into `s`.
pub fn merge_ok_exec(s: &XsdImpl, o: &XsdImpl) -> (r: bool)
    ensures
        r == merge_ok(s@, o@),
{
    match &s.element {
        XsdElement::Struct(a) => {
            let a_tuple = match &a.fields {
                crate::code_model::Fields::Tuple(_) => true,
                _ => false,
            };
            match &o.element {
                XsdElement::Struct(b) => match (&a.fields, &b.fields) {
                    (crate::code_model::Fields::Empty, _) => true,
                    (crate::code_model::Fields::Tuple(_), crate::code_model::Fields::Tuple(_)) => true,
                    (crate::code_model::Fields::Named(_), crate::code_model::Fields::Named(_)) => true,
                    _ => !a_tuple && !crate::code_build::contains_path_sep(b.type_def.ty.name.as_str()),
                },
                XsdElement::Enum(b) => !a_tuple && !crate::code_build::contains_path_sep(b.type_def.ty.name.as_str()),
                XsdElement::Field(_) => true,
                _ => {
                    if a_tuple {
                        false
                    } else {
                        let pre = to_field_name(a.type_def.ty.to_string().as_str());
                        requalify_ok_exec(&o.element.get_type(), &o.inner, pre.as_str())
                    }
                },
            }
        },
        XsdElement::Enum(a) => match &o.element {
            XsdElement::Struct(b) => !crate::code_build::contains_path_sep(b.type_def.ty.name.as_str()),
            XsdElement::Enum(_) => true,
            XsdElement::Field(_) => true,
            _ => {
                let pre = to_field_name(a.type_def.ty.to_string().as_str());
                requalify_ok_exec(&o.element.get_type(), &o.inner, pre.as_str())
            },
        },
        _ => false,
    }
}

pub proof fn lemma_requalify_ok_prefix(b: TypeView, v: Seq<XsdImplView>, pre: Seq<char>, n: int)
    requires
        requalify_ok(b, v, pre),
        0 <= n <= v.len(),
    ensures
        forall|m: int| 0 <= m <= n ==> requalify_ok(b, #[trigger] v.take(m), pre),
    decreases v.len(),
{
    if v.len() > 0 {
        lemma_requalify_ok_prefix(b, v.drop_last(), pre, if n == v.len() { n - 1 } else { n });
        assert forall|m: int| 0 <= m <= n implies requalify_ok(b, #[trigger] v.take(m), pre) by {
            if m == v.len() {
                assert(v.take(m) =~= v);
            } else {
                assert(v.take(m) =~= v.drop_last().take(m));
            }
        }
    } else {
        assert forall|m: int| 0 <= m <= n implies requalify_ok(b, #[trigger] v.take(m), pre) by {
            assert(v.take(m) =~= v);
        }
    }
}


fn nested_field_name(other: &XsdImpl, bt: &Type) -> (r: String)
    ensures
        r@ == nested_name(other@, bt@),
{
    match &other.fieldname_hint {
        Some(h) => to_field_name(h.as_str()),
        None => to_field_name(bt.name.as_str()),
    }
}

fn one_impl(x: XsdImpl) -> (r: Vec<XsdImpl>)
    ensures
        impls_seq_view(r@) == seq![x@],
{
    let r = vec![x];
    proof {
        lemma_impls_seq_view(r@);
        assert(impls_seq_view(r@) =~= seq![r@[0]@]);
    }
    r
}

fn struct_merge_exec(a: &crate::code_model::Struct, other: XsdImpl, prefix: Option<&str>) -> (r: (
    crate::code_model::Struct,
    Vec<XsdImpl>,
    bool,
))
    requires
        struct_merge_ok(a@, other@),
    ensures
        (r.0@, impls_seq_view(r.1@), r.2) == struct_merge(a@, other@, prefix_view(prefix)),
{
    let attrs = matches!(other.name.ty, XsdType::Attribute | XsdType::AttributeGroup);
    let flat = matches!(other.name.ty, XsdType::Group | XsdType::AttributeGroup) || other.flatten;
    let mut a2 = a.clone();
    let mut other = other;
    let ghost ov = other@;
    match &other.element {
        XsdElement::Struct(b) => {
            match (&a.fields, &b.fields) {
                (Fields::Empty, bf) => {
                    a2.fields = bf.clone();
                    return (a2, other.inner, true);
                },
                (Fields::Tuple(af), Fields::Tuple(bf)) => {
                    let mut out = crate::code_model::clone_tuple_field_vec(af);
                    let ghost start = crate::code_model::tuple_fields_view(af@);
                    let ghost bv = crate::code_model::tuple_fields_view(bf@);
                    let mut i: usize = 0;
                    while i < bf.len()
                        invariant
                            i <= bf@.len(),
                            bv == crate::code_model::tuple_fields_view(bf@),
                            crate::code_model::tuple_fields_view(out@) == start + bv.take(i as int).map_values(flags_fn(attrs, flat)),
                        decreases bf@.len() - i,
                    {
                        let mut f = bf[i].clone();
                        f.attribute = attrs;
                        f.flatten = flat;
                        let ghost fv = f@;
                        let ghost prev = out@;
                        out.push(f);
                        proof {
                            assert(crate::code_model::tuple_fields_view(out@) =~= crate::code_model::tuple_fields_view(prev).push(fv));
                            assert(bv.take(i + 1).map_values(flags_fn(attrs, flat)) =~= bv.take(i as int).map_values(flags_fn(attrs, flat)).push(fv));
                        }
                        i += 1;
                    }
                    assert(bv.take(i as int) =~= bv);
                    a2.fields = Fields::Tuple(out);
                    let inner = other.inner;
                    return (a2, inner, false);
                },
                (Fields::Named(af), Fields::Named(bf)) => {
                    let mut out = crate::code_model::clone_field_vec(af);
                    let ghost start = crate::code_model::fields_seq_view(af@);
                    let ghost bv = crate::code_model::fields_seq_view(bf@);
                    let mut i: usize = 0;
                    while i < bf.len()
                        invariant
                            i <= bf@.len(),
                            bv == crate::code_model::fields_seq_view(bf@),
                            crate::code_model::fields_seq_view(out@) == add_all_named(start, bv.take(i as int), attrs, flat, prefix_view(prefix)),
                        decreases bf@.len() - i,
                    {
                        let mut f = bf[i].clone();
                        f.attribute = attrs;
                        f.flatten = flat;
                        proof {
                            assert(bv.take(i + 1).drop_last() =~= bv.take(i as int));
                        }
                        add_named_exec(&mut out, f, prefix);
                        i += 1;
                    }
                    assert(bv.take(i as int) =~= bv);
                    a2.fields = Fields::Named(out);
                    let inner = other.inner;
                    return (a2, inner, false);
                },
                _ => {},
            }
        },
        _ => {},
    }
    match &other.element {
        XsdElement::Struct(_) | XsdElement::Enum(_) => {
            let bt = other.element.get_type();
            let name = nested_field_name(&other, &bt);
            let prefix_name = to_field_name(a.type_def.ty.name.as_str());
            let ty = bt.path(prefix_name.as_str());
            let xml = crate::names::clone_opt_name(&ty.xml_name);
            let field = Field::new(xml, name.as_str(), ty, attrs, flat).vis("pub");
            a2.push_field(field);
            other.fieldname_hint = Some(name);
            let nested = one_impl(other);
            (a2, nested, false)
        },
        XsdElement::Field(b) => {
            match &mut a2.fields {
                Fields::Empty => {
                    let v = vec![b.clone()];
                    assert(crate::code_model::fields_seq_view(v@) =~= seq![b@]);
                    a2.fields = Fields::Named(v);
                },
                Fields::Tuple(fields) => {
                    let tf = crate::code_model::TupleField {
                        vis: crate::names::clone_opt_str(&b.vis),
                        ty: b.ty.clone(),
                        attribute: attrs,
                        flatten: flat,
                    };
                    let ghost tv = tf@;
                    let ghost before = crate::code_model::tuple_fields_view(fields@);
                    fields.push(tf);
                    assert(crate::code_model::tuple_fields_view(fields@) =~= before.push(tv));
                },
                Fields::Named(fields) => {
                    let mut f = b.clone();
                    f.attribute = attrs;
                    f.flatten = flat;
                    add_named_exec(fields, f, prefix);
                },
            }
            let none: Vec<XsdImpl> = Vec::new();
            assert(impls_seq_view(none@) =~= seq![]);
            (a2, none, true)
        },
        _ => {
            let b = other.element.get_type();
            let name = nested_field_name(&other, &b);
            let at_text = a.type_def.ty.to_string();
            let pre = to_field_name(at_text.as_str());
            let b2 = requalify_exec(b, &other.inner, pre.as_str());
            let xml = crate::names::clone_opt_name(&b2.xml_name);
            let mut field = Field::new(xml, name.as_str(), b2, attrs, flat).vis("pub");
            let conflict = match prefix {
                Some(_) => match &a.fields {
                    Fields::Named(af) => has_named(af, name.as_str()),
                    _ => false,
                },
                None => false,
            };
            if conflict {
                match prefix {
                    Some(p) => {
                        field.name = concat(p, name.as_str());
                    },
                    None => {},
                }
            }
            a2.push_field(field);
            let inner = other.inner;
            (a2, inner, false)
        },
    }
}


fn tuple_variant_exec(xml: Option<crate::names::XsdName>, name: &str, ty: Type, attrs: bool, flat: bool) -> (r: crate::code_model::Variant)
    ensures
        r@ == tuple_variant(opt_name_view(xml), name@, ty@, attrs, flat),
{
    crate::code_model::Variant::new(xml, name).tuple(None, ty, attrs, flat)
}

fn enum_merge_exec(a: &crate::code_model::Enum, other: XsdImpl) -> (r: (crate::code_model::Enum, Vec<XsdImpl>))
    requires
        enum_merge_ok(a@, other@),
    ensures
        (r.0@, impls_seq_view(r.1@)) == enum_merge(a@, other@),
{
    let attrs = matches!(other.name.ty, XsdType::Attribute | XsdType::AttributeGroup);
    let flat = matches!(other.name.ty, XsdType::Group | XsdType::AttributeGroup) || other.flatten;
    let mut other = other;
    let ghost ov = other@;
    let variant;
    let nested;
    match &other.element {
        XsdElement::Struct(_) => {
            let bt = other.element.get_type();
            let name = nested_field_name(&other, &bt);
            let prefix_name = to_field_name(a.type_def.ty.name.as_str());
            let ty = bt.path(prefix_name.as_str());
            let xml = crate::names::clone_opt_name(&bt.xml_name);
            variant = tuple_variant_exec(xml, name.as_str(), ty, attrs, flat);
            other.fieldname_hint = Some(name);
            nested = one_impl(other);
        },
        XsdElement::Enum(_) => {
            let bt = other.element.get_type();
            let name = nested_field_name(&other, &bt);
            let prefix_name = to_field_name(a.type_def.ty.name.as_str());
            let mut ty = bt.clone();
            ty.name = crate::text::concat3(prefix_name.as_str(), "::", bt.name.as_str());
            let vname = to_struct_name(name.as_str());
            variant = tuple_variant_exec(None, vname.as_str(), ty, attrs, flat);
            other.fieldname_hint = Some(name);
            nested = one_impl(other);
        },
        XsdElement::Field(b) => {
            let vname = to_struct_name(b.name.as_str());
            variant = tuple_variant_exec(None, vname.as_str(), b.ty.clone(), attrs, flat);
            let none: Vec<XsdImpl> = Vec::new();
            assert(impls_seq_view(none@) =~= seq![]);
            nested = none;
        },
        _ => {
            let b = other.element.get_type();
            let raw = match &other.fieldname_hint {
                Some(h) => h.clone(),
                None => b.name.clone(),
            };
            let name = to_struct_name(raw.as_str());
            let at_text = a.type_def.ty.to_string();
            let pre = to_field_name(at_text.as_str());
            let b2 = requalify_exec(b, &other.inner, pre.as_str());
            variant = tuple_variant_exec(None, name.as_str(), b2, attrs, flat);
            nested = other.inner;
        },
    }
    let a2 = a.clone().push_variant(variant);
    (a2, nested)
}

impl XsdImpl {
    /// Merges `other` into this piece, which must be a struct or an enum:
    /// it becomes a field or a variant of it (or its fields are added), and
    /// the pieces nested in it are nested here.
    pub fn merge(&mut self, other: XsdImpl, settings: MergeSettings)
        requires
            merge_ok(old(self)@, other@),
        ensures
            final(self)@ == merge_view(old(self)@, other@, prefix_view(settings.conflict_prefix)),
    {
        match &self.element {
            XsdElement::Struct(a) => {
                let (a2, nested, extend) = struct_merge_exec(a, other, settings.conflict_prefix);
                self.element = XsdElement::Struct(a2);
                if extend {
                    let ghost before = impls_seq_view(self.inner@);
                    let ghost s1 = *self;
                    let ghost nv = impls_seq_view(nested@);
                    proof {
                        lemma_impls_seq_view(nested@);
                    }
                    let mut i: usize = 0;
                    while i < nested.len()
                        invariant
                            i <= nested@.len(),
                            nv == impls_seq_view(nested@),
                            nv.len() == nested@.len(),
                            forall|j: int| 0 <= j < nested@.len() ==> #[trigger] nv[j] == impl_view(nested@[j]),
                            impls_seq_view(self.inner@) == before + nv.take(i as int),
                            self.name == s1.name,
                            self.fieldname_hint == s1.fieldname_hint,
                            self.element == s1.element,
                            self.implementation == s1.implementation,
                            self.flatten == s1.flatten,
                        decreases nested@.len() - i,
                    {
                        let x = clone_impl(&nested[i]);
                        proof {
                            lemma_impls_seq_view_push(self.inner@, x);
                            assert(before + nv.take(i + 1) =~= (before + nv.take(i as int)).push(nv[i as int]));
                        }
                        self.inner.push(x);
                        i += 1;
                    }
                    assert(nv.take(i as int) =~= nv);
                } else {
                    self.merge_inner(nested);
                }
            },
            XsdElement::Enum(a) => {
                let (a2, nested) = enum_merge_exec(a, other);
                self.element = XsdElement::Enum(a2);
                self.merge_inner(nested);
            },
            _ => {},
        }
    }
}

} // verus!
