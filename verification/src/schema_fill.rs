//! Filling the context with the code of every top-level component of a
//! schema: components are generated in rounds, in the order of their names;
//! one that needs a component not generated yet waits for the next round.
use vstd::prelude::*;

use crate::components::{Schema, SchemaOptions};
use crate::context::XsdImpl;
use crate::names::{clone_opt_str, name_lt, opt_str_view, XsdName, XsdNameView, XsdType};
use crate::registry::{
    lemma_name_insert_pos, lemma_name_pos, lemma_name_pos_at, lemma_put, lookup, name_insert_pos,
    name_pos, names_sorted, put, resolved_key, take_out, lemma_take_out, XsdContext, XsdError,
};
use crate::text::{concat, concat3, str_eq};
use crate::code_doc::render_text;
use crate::xsdgen::decimal_string;
use crate::gen_spec::GenOut;

verus! {

/// A component waiting in a round: the place of the schema child it stands
/// for (none for a name that others wait on) and the rounds it has waited.
pub type Waiting = (Option<usize>, usize);

pub open spec fn pending_view(t: Seq<(XsdName, Waiting)>) -> Seq<(XsdNameView, Waiting)> {
    t.map_values(|e: (XsdName, Waiting)| (e.0@, e.1))
}

/// How many entries stand for a schema child.
pub open spec fn runnable(t: Seq<(XsdNameView, Waiting)>) -> nat
    decreases t.len(),
{
    if t.len() == 0 {
        0
    } else {
        runnable(t.drop_last()) + if t.last().1.0 is Some {
            1nat
        } else {
            0nat
        }
    }
}

fn count_runnable(t: &Vec<(XsdName, Waiting)>) -> (r: usize)
    ensures
        r == runnable(pending_view(t@)),
{
    let ghost tv = pending_view(t@);
    let mut n: usize = 0;
    let mut i: usize = 0;
    while i < t.len()
        invariant
            i <= t@.len(),
            tv == pending_view(t@),
            n == runnable(tv.take(i as int)),
            n <= i,
        decreases t@.len() - i,
    {
        proof {
            assert(tv.take(i + 1).drop_last() =~= tv.take(i as int));
        }
        if t[i].1.0.is_some() {
            n += 1;
        }
        i += 1;
    }
    assert(tv.take(i as int) =~= tv);
    n
}

fn pending_find(t: &Vec<(XsdName, Waiting)>, k: &XsdName) -> (r: Option<usize>)
    ensures
        match r {
            Some(i) => i as int == name_pos(pending_view(t@), k@) && i < t@.len(),
            None => name_pos(pending_view(t@), k@) < 0,
        },
{
    let ghost tv = pending_view(t@);
    let mut i: usize = 0;
    while i < t.len()
        invariant
            i <= t@.len(),
            tv == pending_view(t@),
            forall|j: int| 0 <= j < i ==> (#[trigger] t@[j]).0@ != k@,
        decreases t@.len() - i,
    {
        if t[i].0.same_as(k) {
            proof {
                assert(tv[i as int].0 == k@);
                assert forall|j: int| 0 <= j < i implies #[trigger] tv[j].0 != k@ by {
                    assert(tv[j].0 == t@[j].0@);
                }
                lemma_name_pos_at(tv, k@, i as int);
            }
            return Some(i);
        }
        i += 1;
    }
    proof {
        lemma_name_pos(tv, k@);
        let p = name_pos(tv, k@);
        if p >= 0 {
            assert(tv[p].0 == t@[p].0@);
        }
    }
    None
}

/// What waits under `k`, if anything.
fn pending_get(t: &Vec<(XsdName, Waiting)>, k: &XsdName) -> (r: Option<Waiting>)
    ensures
        r == lookup(pending_view(t@), k@),
{
    match pending_find(t, k) {
        Some(i) => Some(t[i].1),
        None => None,
    }
}

/// Puts `v` under `k`, in place of what was there.
fn pending_put(t: &mut Vec<(XsdName, Waiting)>, k: XsdName, v: Waiting)
    ensures
        pending_view(final(t)@) == put(pending_view(old(t)@), k@, v),
{
    let ghost tv = pending_view(t@);
    proof {
        lemma_name_pos(tv, k@);
        lemma_name_insert_pos(tv, k@);
    }
    match pending_find(t, &k) {
        Some(i) => {
            let ghost ev = (k@, v);
            t.set(i, (k, v));
            assert(pending_view(t@) =~= tv.update(i as int, ev));
            return;
        },
        None => {},
    }
    let mut p: usize = 0;
    while p < t.len() && !k.precedes(&t[p].0)
        invariant
            p <= t@.len(),
            tv == pending_view(t@),
            forall|j: int| 0 <= j < p ==> !name_lt(k@, (#[trigger] t@[j]).0@),
        decreases t@.len() - p,
    {
        p += 1;
    }
    assert(name_insert_pos(tv, k@) == p) by {
        let ip = name_insert_pos(tv, k@);
        if ip < p {
            assert(tv[ip].0 == t@[ip].0@);
        }
        if ip > p {
            assert(tv[p as int].0 == t@[p as int].0@);
        }
    }
    let ghost ev = (k@, v);
    t.insert(p, (k, v));
    assert(pending_view(t@) =~= tv.insert(p as int, ev));
}

/// Takes out what waits under `k`.
fn pending_remove(t: &mut Vec<(XsdName, Waiting)>, k: &XsdName)
    ensures
        pending_view(final(t)@) == take_out(pending_view(old(t)@), k@),
{
    let ghost tv = pending_view(t@);
    match pending_find(t, k) {
        Some(i) => {
            t.remove(i);
            assert(pending_view(t@) =~= tv.remove(i as int));
        },
        None => {},
    }
}

/// Whether every child that the filling names has a name: imports a
/// location or a namespace, and every component but annotations its name.
pub open spec fn children_named(s: Schema) -> bool {
    forall|i: int| 0 <= i < s.children@.len() ==> match #[trigger] s.children@[i] {
        SchemaOptions::Import(im) => im.schema_location is Some || im.namespace is Some,
        SchemaOptions::Annotation(_) => true,
        SchemaOptions::Element(x) => x.name is Some,
        SchemaOptions::SimpleType(x) => x.name is Some,
        SchemaOptions::ComplexType(x) => x.name is Some,
        SchemaOptions::Attribute(x) => x.name is Some,
        SchemaOptions::AttributeGroup(x) => x.name is Some,
        SchemaOptions::Group(x) => x.name is Some,
    }
}

/// The name under which a child of the schema waits: an import under its
/// location (else its namespace), an annotation under its index, any other
/// component under its own name.
pub open spec fn child_key_view(child: SchemaOptions, index: nat) -> XsdNameView {
    match child {
        SchemaOptions::Import(im) => XsdNameView {
            namespace: None,
            local_name: match im.schema_location {
                Some(l) => l@,
                None => match im.namespace {
                    Some(n) => n@,
                    None => Seq::<char>::empty(),
                },
            },
            ty: XsdType::Import,
        },
        SchemaOptions::Annotation(_) => XsdNameView {
            namespace: None,
            local_name: crate::xsdgen::decimal(index),
            ty: XsdType::Annotation,
        },
        SchemaOptions::Element(x) => x.name.unwrap()@,
        SchemaOptions::SimpleType(x) => x.name.unwrap()@,
        SchemaOptions::ComplexType(x) => x.name.unwrap()@,
        SchemaOptions::Attribute(x) => x.name.unwrap()@,
        SchemaOptions::AttributeGroup(x) => x.name.unwrap()@,
        SchemaOptions::Group(x) => x.name.unwrap()@,
    }
}

/// The name under which a child of the schema waits.
fn child_key(child: &SchemaOptions, index: usize) -> (r: XsdName)
    requires
        match *child {
            SchemaOptions::Import(im) => im.schema_location is Some || im.namespace is Some,
            SchemaOptions::Annotation(_) => true,
            SchemaOptions::Element(x) => x.name is Some,
            SchemaOptions::SimpleType(x) => x.name is Some,
            SchemaOptions::ComplexType(x) => x.name is Some,
            SchemaOptions::Attribute(x) => x.name is Some,
            SchemaOptions::AttributeGroup(x) => x.name is Some,
            SchemaOptions::Group(x) => x.name is Some,
        },
    ensures
        r@ == child_key_view(*child, index as nat),
{
    match child {
        SchemaOptions::Import(im) => {
            let local = match &im.schema_location {
                Some(l) => l.clone(),
                None => match &im.namespace {
                    Some(n) => n.clone(),
                    None => String::new(),
                },
            };
            XsdName { namespace: None, local_name: local, ty: XsdType::Import }
        },
        SchemaOptions::Annotation(_) => XsdName {
            namespace: None,
            local_name: decimal_string(index),
            ty: XsdType::Annotation,
        },
        SchemaOptions::Element(x) => unwrap_name(&x.name),
        SchemaOptions::SimpleType(x) => unwrap_name(&x.name),
        SchemaOptions::ComplexType(x) => unwrap_name(&x.name),
        SchemaOptions::Attribute(x) => unwrap_name(&x.name),
        SchemaOptions::AttributeGroup(x) => unwrap_name(&x.name),
        SchemaOptions::Group(x) => unwrap_name(&x.name),
    }
}

fn unwrap_name(n: &Option<XsdName>) -> (r: XsdName)
    requires
        n is Some,
    ensures
        r@ == n.unwrap()@,
{
    match n {
        Some(x) => x.clone(),
        None => XsdName { namespace: None, local_name: String::new(), ty: XsdType::Unknown },
    }
}

/// Whether a generated name passes the namespace filter.
pub open spec fn passes_filter(n: XsdNameView, filter: Option<&str>) -> bool {
    match filter {
        Some(f) => n.namespace == Some(f@),
        None => true,
    }
}

/// What the filling keeps of the context: its namespaces and every key it
/// held, with the keys in order.
pub open spec fn context_grows(c0: crate::registry::XsdContextView, c: crate::registry::XsdContextView) -> bool {
    &&& c.namespace == c0.namespace
    &&& names_sorted(c.structs)
    &&& forall|k: XsdNameView| lookup(c0.structs, k) is Some ==> #[trigger] lookup(c.structs, k) is Some
}

/// The generated code of one schema child, where it is a component that
/// has some; imports (read beforehand by the caller) and annotations have
/// none.
fn child_implementation(child: &SchemaOptions, context: &XsdContext) -> (r: Option<Result<XsdImpl, XsdError>>)
    ensures
        r is None <==> (child is Import || child is Annotation),
        r matches Some(Err(e)) ==> !(e is XsdMissing),
        match r {
            None => child_gen(*child, context@) is None,
            Some(x) => child_gen(*child, context@) matches Some(g) && crate::gen_lists::gives(x, g),
        },
{
    match child {
        SchemaOptions::Import(_) => None,
        SchemaOptions::Annotation(_) => None,
        SchemaOptions::Element(e) => Some(e.get_implementation(context)),
        SchemaOptions::SimpleType(st) => Some(st.get_implementation(None, context)),
        SchemaOptions::ComplexType(ct) => Some(ct.get_implementation(true, None, context)),
        SchemaOptions::Attribute(a) => Some(a.get_implementation(context, true)),
        SchemaOptions::AttributeGroup(g) => Some(g.get_implementation(None, context)),
        SchemaOptions::Group(g) => Some(g.get_implementation(None, context)),
    }
}

fn inc(n: usize) -> (r: usize)
    ensures
        r == if n < usize::MAX {
            n + 1
        } else {
            n as int
        },
{
    if n < usize::MAX {
        n + 1
    } else {
        n
    }
}

/// The line that reports a component left waiting.
fn waiting_line(name: &XsdName, w: Waiting) -> (r: String)
    ensures
        r@.len() > 0,
        r@ == waiting_text(name@, w),
{
    let head = concat3("\n[", name.ty.label().as_str(), "] ");
    let star = if w.0.is_some() {
        "*"
    } else {
        ""
    };
    let a = concat(head.as_str(), star);
    let b = concat(a.as_str(), name.display_string().as_str());
    let c = concat3(b.as_str(), " [", decimal_string(w.1).as_str());
    let r = concat(c.as_str(), "]");
    assert(r@.len() > 0);
    r
}

/// What a top-level component generates in the context `c`: nothing for
/// imports and annotations.
pub open spec fn child_gen(child: SchemaOptions, c: crate::registry::XsdContextView) -> Option<GenOut> {
    match child {
        SchemaOptions::Import(_) => None,
        SchemaOptions::Annotation(_) => None,
        SchemaOptions::Element(e) => Some(crate::gen_spec::element_gen(e, c)),
        SchemaOptions::SimpleType(st) => Some(crate::gen_spec::simple_type_gen(st, None, c)),
        SchemaOptions::ComplexType(ct) => Some(crate::gen_spec::complex_type_gen(ct, true, None, c)),
        SchemaOptions::Attribute(a) => Some(crate::gen_spec::attribute_gen(a, c, true)),
        SchemaOptions::AttributeGroup(g) => Some(crate::gen_spec::attribute_group_gen(g, None, c)),
        SchemaOptions::Group(g) => Some(crate::gen_spec::group_gen(g, None, c)),
    }
}

/// One more round waited, short of the largest count.
pub open spec fn waited(n: usize) -> usize {
    if n < usize::MAX {
        (n + 1) as usize
    } else {
        n
    }
}

/// The line that reports a component left waiting.
pub open spec fn waiting_text(n: XsdNameView, w: Waiting) -> Seq<char> {
    "\n["@ + crate::names::xsd_type_label(n.ty) + "] "@ + (if w.0 is Some {
        "*"@
    } else {
        ""@
    }) + crate::names::name_display(n) + " ["@ + crate::xsdgen::decimal(w.1 as nat) + "]"@
}

/// The lines that report the components left waiting, in order.
pub open spec fn missing_lines(t: Seq<(XsdNameView, Waiting)>) -> Seq<char>
    decreases t.len(),
{
    if t.len() == 0 {
        seq![]
    } else {
        missing_lines(t.drop_last()) + waiting_text(t.last().0, t.last().1)
    }
}

/// The waiting table that filling starts with: every child under its key,
/// by index, not waited yet.
pub open spec fn initial_run(children: Seq<SchemaOptions>, n: nat) -> Seq<(XsdNameView, Waiting)>
    decreases n,
{
    if n == 0 {
        seq![]
    } else {
        let i = (n - 1) as nat;
        put(initial_run(children, i), child_key_view(children[i as int], i), (Some(i as usize), 0usize))
    }
}

/// The state of a round: the context, the table of the next round, the
/// names kept so far, and whether anything was generated.
pub struct RoundState {
    pub ctx: crate::registry::XsdContextView,
    pub next: Seq<(XsdNameView, Waiting)>,
    pub top: Seq<XsdNameView>,
    pub changed: bool,
}

/// How a round ends: with its state, or failing with the context reached
/// and the error of a component.
pub enum RoundEnd {
    Done(RoundState),
    Fail(crate::registry::XsdContextView, GenOut),
}

/// Whether a generated name is kept under the namespace filter `f`.
pub open spec fn kept(n: XsdNameView, f: Option<Seq<char>>) -> bool {
    match f {
        Some(x) => n.namespace == Some(x),
        None => true,
    }
}

/// The rest of a round over the table `tr`, from its entry `j` on, in the
/// state `st`: each entry of a child is generated in the context; a piece
/// is stored under its name (and the name kept where the filter lets it),
/// a missing component makes both wait for the next round, and any other
/// error ends the round.
pub open spec fn round_from(
    children: Seq<SchemaOptions>,
    f: Option<Seq<char>>,
    tr: Seq<(XsdNameView, Waiting)>,
    j: int,
    st: RoundState,
) -> RoundEnd
    decreases tr.len() - j,
{
    if j < 0 || j >= tr.len() {
        RoundEnd::Done(st)
    } else {
        let e = tr[j];
        match e.1.0 {
            Some(ix) => if ix < children.len() {
                match child_gen(children[ix as int], st.ctx) {
                    Some(GenOut::Done(p)) => round_from(
                        children,
                        f,
                        tr,
                        j + 1,
                        RoundState {
                            ctx: crate::registry::XsdContextView {
                                structs: put(
                                    st.ctx.structs,
                                    resolved_key(st.ctx, p.name),
                                    crate::registry::as_stored(st.ctx.structs, p),
                                ),
                                ..st.ctx
                            },
                            next: take_out(st.next, p.name),
                            top: if kept(p.name, f) {
                                st.top.push(p.name)
                            } else {
                                st.top
                            },
                            changed: true,
                        },
                    ),
                    Some(GenOut::NotFound(n)) => {
                        let curr = match lookup(tr, n) {
                            Some(w) => (w.0, waited(w.1)),
                            None => (None, 0usize),
                        };
                        round_from(
                            children,
                            f,
                            tr,
                            j + 1,
                            RoundState { next: put(put(st.next, n, curr), e.0, (e.1.0, waited(e.1.1))), ..st },
                        )
                    },
                    Some(g) => RoundEnd::Fail(st.ctx, g),
                    None => round_from(children, f, tr, j + 1, st),
                }
            } else {
                round_from(children, f, tr, j + 1, st)
            },
            None => round_from(children, f, tr, j + 1, st),
        }
    }
}

/// How filling ends: failing with the context reached and a component's
/// error, or settled with the context, the table still waiting, and the
/// names kept.
pub enum FillEnd {
    Failed(crate::registry::XsdContextView, GenOut),
    Settled(crate::registry::XsdContextView, Seq<(XsdNameView, Waiting)>, Seq<XsdNameView>),
}

/// Filling from the context `c` with the table `tr` and the names `top`:
/// round after round, until a round generates nothing or leaves no fewer
/// children waiting.
pub open spec fn fill_rounds(
    children: Seq<SchemaOptions>,
    f: Option<Seq<char>>,
    c: crate::registry::XsdContextView,
    tr: Seq<(XsdNameView, Waiting)>,
    top: Seq<XsdNameView>,
) -> FillEnd
    decreases runnable(tr),
{
    match round_from(children, f, tr, 0, RoundState { ctx: c, next: seq![], top, changed: false }) {
        RoundEnd::Fail(c2, g) => FillEnd::Failed(c2, g),
        RoundEnd::Done(st) => if !st.changed || runnable(st.next) >= runnable(tr) {
            FillEnd::Settled(st.ctx, st.next, st.top)
        } else {
            fill_rounds(children, f, st.ctx, st.next, st.top)
        },
    }
}

/// The namespace filter as text.
pub open spec fn filter_view(f: Option<&str>) -> Option<Seq<char>> {
    match f {
        Some(x) => Some(x@),
        None => None,
    }
}

/// How filling the schema `s` from the context `c0` with the filter `f`
/// ends, as `Schema::fill_context` does it.
pub open spec fn fill_end(s: Schema, c0: crate::registry::XsdContextView, f: Option<Seq<char>>) -> FillEnd {
    fill_rounds(
        s.children@,
        f,
        crate::registry::XsdContextView { xml_schema_prefix: opt_str_view(s.target_namespace), ..c0 },
        initial_run(s.children@, s.children@.len()),
        seq![],
    )
}

/// Whether `r`, and the context `c` it leaves, are how filling ends by `e`.
pub open spec fn fill_gives(
    r: Result<Vec<XsdName>, XsdError>,
    c: crate::registry::XsdContextView,
    e: FillEnd,
) -> bool {
    match e {
        FillEnd::Failed(c1, g) => c == c1 && (r matches Err(x) && crate::gen_lists::error_is(x, g)),
        FillEnd::Settled(c1, rest, top) => c == c1 && if rest.len() == 0 {
            (r matches Ok(names) && crate::schema_parse::names_view(names@) == top)
        } else {
            (r matches Err(XsdError::XsdMissing(m)) && m@ == "COULD NOT FIND:"@ + missing_lines(rest))
        },
    }
}

impl Schema {
    /// Generates the code of every top-level component into the context:
    /// round after round, in the order of their names; a component that
    /// needs one not generated yet waits for the next round. Returns the
    /// names of the generated components (those of `namespace_filter`,
    /// where one is given); an error other than a missing component stops
    /// the work, and components still waiting when a round settles none
    /// are reported as missing. Imports are left to the caller, which reads
    /// the schemas they name beforehand.
    pub fn fill_context(&self, context: &mut XsdContext, namespace_filter: Option<&str>) -> (r: Result<
        Vec<XsdName>,
        XsdError,
    >)
        requires
            names_sorted(old(context)@.structs),
            children_named(*self),
        ensures
            final(context)@.xml_schema_prefix == opt_str_view(self.target_namespace),
            context_grows(old(context)@, final(context)@),
            match r {
                Ok(names) => forall|i: int|
                    0 <= i < names@.len() ==> lookup(
                        final(context)@.structs,
                        resolved_key(final(context)@, (#[trigger] names@[i])@),
                    ) is Some && passes_filter(names@[i]@, namespace_filter),
                Err(e) => match e {
                    XsdError::XsdMissing(m) => m@.len() > "COULD NOT FIND:"@.len(),
                    XsdError::XsdImplNotFound(_) => false,
                    _ => true,
                },
            },
            fill_gives(r, final(context)@, fill_end(*self, old(context)@, filter_view(namespace_filter))),
    {
        let ghost c0 = context@;
        let ghost fv = filter_view(namespace_filter);
        let ghost ch = self.children@;
        let ghost goal = fill_end(*self, c0, fv);
        context.xml_schema_prefix = clone_opt_str(&self.target_namespace);
        let ghost prefix = context@.xml_schema_prefix;
        let mut top: Vec<XsdName> = Vec::new();
        let mut to_run: Vec<(XsdName, Waiting)> = Vec::new();
        let mut index: usize = 0;
        assert(pending_view(to_run@) =~= initial_run(ch, 0));
        while index < self.children.len()
            invariant
                index <= self.children@.len(),
                children_named(*self),
                ch == self.children@,
                pending_view(to_run@) == initial_run(ch, index as nat),
            decreases self.children@.len() - index,
        {
            let key = child_key(&self.children[index], index);
            pending_put(&mut to_run, key, (Some(index), 0));
            index += 1;
        }
        assert(crate::schema_parse::names_view(top@) =~= Seq::<XsdNameView>::empty());
        loop
            invariant_except_break
                goal == fill_rounds(ch, fv, context@, pending_view(to_run@), crate::schema_parse::names_view(top@)),
            invariant
                c0 == old(context)@,
                fv == filter_view(namespace_filter),
                ch == self.children@,
                goal == fill_end(*self, c0, fv),
                context@.xml_schema_prefix == prefix,
                prefix == opt_str_view(self.target_namespace),
                context_grows(c0, context@),
                forall|i: int|
                    0 <= i < top@.len() ==> lookup(context@.structs, resolved_key(context@, (#[trigger] top@[i])@))
                        is Some && passes_filter(top@[i]@, namespace_filter),
            ensures
                goal == FillEnd::Settled(context@, pending_view(to_run@), crate::schema_parse::names_view(top@)),
                c0 == old(context)@,
                context@.xml_schema_prefix == prefix,
                prefix == opt_str_view(self.target_namespace),
                context_grows(c0, context@),
                forall|i: int|
                    0 <= i < top@.len() ==> lookup(context@.structs, resolved_key(context@, (#[trigger] top@[i])@))
                        is Some && passes_filter(top@[i]@, namespace_filter),
            decreases runnable(pending_view(to_run@)),
        {
            let ghost s_ctx = context@;
            let ghost s_tr = pending_view(to_run@);
            let ghost s_top = crate::schema_parse::names_view(top@);
            let ghost start = RoundState { ctx: s_ctx, next: seq![], top: s_top, changed: false };
            let before = count_runnable(&to_run);
            let mut next: Vec<(XsdName, Waiting)> = Vec::new();
            let mut changed = false;
            let mut j: usize = 0;
            assert(pending_view(next@) =~= Seq::<(XsdNameView, Waiting)>::empty());
            while j < to_run.len()
                invariant
                    j <= to_run@.len(),
                    c0 == old(context)@,
                    fv == filter_view(namespace_filter),
                    ch == self.children@,
                    goal == fill_end(*self, c0, fv),
                    goal == fill_rounds(ch, fv, s_ctx, s_tr, s_top),
                    start == (RoundState { ctx: s_ctx, next: seq![], top: s_top, changed: false }),
                    s_tr == pending_view(to_run@),
                    round_from(ch, fv, s_tr, 0, start) == round_from(
                        ch,
                        fv,
                        s_tr,
                        j as int,
                        RoundState {
                            ctx: context@,
                            next: pending_view(next@),
                            top: crate::schema_parse::names_view(top@),
                            changed,
                        },
                    ),
                    context@.xml_schema_prefix == prefix,
                    prefix == opt_str_view(self.target_namespace),
                    context_grows(c0, context@),
                    forall|i: int|
                        0 <= i < top@.len() ==> lookup(context@.structs, resolved_key(context@, (#[trigger] top@[i])@))
                            is Some && passes_filter(top@[i]@, namespace_filter),
                decreases to_run@.len() - j,
            {
                let ghost cur = RoundState {
                    ctx: context@,
                    next: pending_view(next@),
                    top: crate::schema_parse::names_view(top@),
                    changed,
                };
                let entry_index = to_run[j].1.0;
                let entry_waits = to_run[j].1.1;
                assert(s_tr[j as int] == (to_run@[j as int].0@, to_run@[j as int].1));
                match entry_index {
                    Some(ix) => {
                        if ix < self.children.len() {
                            match child_implementation(&self.children[ix], context) {
                                Some(Ok(temp)) => {
                                    changed = true;
                                    let keep_name = match namespace_filter {
                                        Some(f) => match &temp.name.namespace {
                                            Some(ns) => str_eq(ns.as_str(), f),
                                            None => false,
                                        },
                                        None => true,
                                    };
                                    assert(keep_name == kept(temp@.name, fv));
                                    pending_remove(&mut next, &temp.name);
                                    let nm = temp.name.clone();
                                    let shown = temp.name.clone();
                                    let ghost tv = temp@;
                                    let ghost before_insert = context@;
                                    let ghost key = resolved_key(context@, nm@);
                                    context.insert_impl(nm, temp);
                                    proof {
                                        lemma_put(
                                            before_insert.structs,
                                            key,
                                            crate::registry::as_stored(before_insert.structs, tv),
                                        );
                                        assert forall|k: XsdNameView| lookup(c0.structs, k) is Some implies #[trigger] lookup(
                                            context@.structs,
                                            k,
                                        ) is Some by {
                                            assert(lookup(before_insert.structs, k) is Some);
                                        }
                                        assert forall|i: int| 0 <= i < top@.len() implies lookup(
                                            context@.structs,
                                            resolved_key(context@, (#[trigger] top@[i])@),
                                        ) is Some by {
                                            assert(lookup(before_insert.structs, resolved_key(before_insert, top@[i]@))
                                                is Some);
                                        }
                                    }
                                    if keep_name {
                                        assert(resolved_key(context@, shown@) == key);
                                        let ghost tb = top@;
                                        top.push(shown);
                                        assert(crate::schema_parse::names_view(top@) =~= crate::schema_parse::names_view(tb).push(tv.name));
                                    }
                                },
                                Some(Err(XsdError::XsdImplNotFound(name))) => {
                                    let curr = match pending_get(&to_run, &name) {
                                        Some(w) => (w.0, inc(w.1)),
                                        None => (None, 0),
                                    };
                                    pending_put(&mut next, name, curr);
                                    let key = to_run[j].0.clone();
                                    pending_put(&mut next, key, (entry_index, inc(entry_waits)));
                                },
                                Some(Err(e)) => {
                                    return Err(e);
                                },
                                None => {},
                            }
                        }
                    },
                    None => {},
                }
                j += 1;
            }
            let after = count_runnable(&next);
            to_run = next;
            if !changed || after >= before {
                break;
            }
        }
        let ghost rest = pending_view(to_run@);
        let mut msg = String::new();
        let mut k: usize = 0;
        assert(rest.take(0) =~= Seq::<(XsdNameView, Waiting)>::empty());
        while k < to_run.len()
            invariant
                k <= to_run@.len(),
                rest == pending_view(to_run@),
                k > 0 ==> msg@.len() > 0,
                msg@ == missing_lines(rest.take(k as int)),
            decreases to_run@.len() - k,
        {
            let line = waiting_line(&to_run[k].0, to_run[k].1);
            assert(rest.take(k + 1).drop_last() =~= rest.take(k as int));
            assert(rest[k as int] == (to_run@[k as int].0@, to_run@[k as int].1));
            msg = concat(msg.as_str(), line.as_str());
            k += 1;
        }
        assert(rest.take(k as int) =~= rest);
        if to_run.len() > 0 {
            let text = concat("COULD NOT FIND:", msg.as_str());
            return Err(XsdError::XsdMissing(text));
        }
        Ok(top)
    }
}


/// The text that generated code starts with: the items it uses.
pub open spec fn generated_header() -> Seq<char> {
    "use xml_schema_parser::{XsdIoError, XsdGenError, XMLElement, XsdType, XsdGen, GenState, GenType, Date, FromXmlString, RestrictedVec};\n\n"@
}

/// What the pieces of a context write, in the order of their names.
pub open spec fn values_doc(t: Seq<(XsdNameView, crate::context::XsdImplView)>) -> Seq<crate::code_doc::Chunk>
    decreases t.len(),
{
    if t.len() == 0 {
        seq![]
    } else {
        values_doc(t.drop_last()) + crate::xsd_output::xsd_impl_doc(t.last().1)
    }
}

/// Whether every piece of the table `t` can be written.
pub open spec fn all_printable(t: Seq<(XsdNameView, crate::context::XsdImplView)>) -> bool {
    forall|i: int| 0 <= i < t.len() ==> crate::xsd_output::printable(#[trigger] t[i].1)
}

/// Whether `r`, and the context `c` it leaves, are how generation ends
/// after filling ends by `e`: the error of filling where it fails, else the
/// header and the code of every piece, or an unknown error where a piece
/// cannot be written.
pub open spec fn generate_gives(r: Result<String, XsdError>, c: crate::registry::XsdContextView, e: FillEnd) -> bool {
    match e {
        FillEnd::Failed(c1, g) => c == c1 && (r matches Err(x) && crate::gen_lists::error_is(x, g)),
        FillEnd::Settled(c1, rest, _) => c == c1 && if rest.len() > 0 {
            (r matches Err(XsdError::XsdMissing(m)) && m@ == "COULD NOT FIND:"@ + missing_lines(rest))
        } else if all_printable(c.structs) {
            (r matches Ok(text) && text@ == generated_header() + render_text(values_doc(c.structs)))
        } else {
            r matches Err(XsdError::Unknown)
        },
    }
}

impl Schema {
    /// Fills the context (see `fill_context`) and writes the code of every
    /// piece in it, in the order of their names, after the items the code
    /// uses. A piece that cannot be written is refused.
    #[verifier::spinoff_prover]
    #[verifier::rlimit(40)]
    pub fn generate(&self, context: &mut XsdContext) -> (r: Result<String, XsdError>)
        requires
            names_sorted(old(context)@.structs),
            children_named(*self),
        ensures
            final(context)@.xml_schema_prefix == opt_str_view(self.target_namespace),
            context_grows(old(context)@, final(context)@),
            match r {
                Ok(text) => (forall|i: int|
                    0 <= i < final(context)@.structs.len() ==> crate::xsd_output::printable(
                        #[trigger] final(context)@.structs[i].1,
                    )) && text@ == generated_header() + render_text(values_doc(final(context)@.structs)),
                Err(e) => !(e is XsdImplNotFound),
            },
            generate_gives(r, final(context)@, fill_end(*self, old(context)@, None)),
    {
        match self.fill_context(context, None) {
            Ok(_) => {},
            Err(e) => {
                return Err(e);
            },
        }
        let ghost tv = context@.structs;
        let ghost fe = fill_end(*self, old(context)@, None);
        assert(fe matches FillEnd::Settled(c1, rest, _) && c1 == context@ && rest.len() == 0);
        let mut f = crate::code_doc::Formatter::new();
        let mut i: usize = 0;
        assert(values_doc(tv.take(0)) =~= seq![]) by {
            assert(tv.take(0).len() == 0);
        }
        while i < context.structs.len()
            invariant
                i <= context.structs@.len(),
                context@.xml_schema_prefix == opt_str_view(self.target_namespace),
                context_grows(old(context)@, context@),
                tv == context@.structs,
                fe == fill_end(*self, old(context)@, None),
                fe matches FillEnd::Settled(c1, rest, _) && c1 == context@ && rest.len() == 0,
                tv.len() == context.structs@.len(),
                f.origin() == crate::code_doc::empty_state(),
                f.log() == values_doc(tv.take(i as int)),
                forall|j: int| 0 <= j < i ==> crate::xsd_output::printable(#[trigger] tv[j].1),
            decreases context.structs@.len() - i,
        {
            let value = &context.structs[i].1;
            assert(tv[i as int].1 == value@);
            if !crate::xsd_output::is_printable(value) {
                assert(!all_printable(tv));
                return Err(XsdError::Unknown);
            }
            value.fmt(&mut f);
            proof {
                assert(tv.take(i + 1).drop_last() =~= tv.take(i as int));
            }
            i += 1;
        }
        assert(tv.take(i as int) =~= tv);
        let body = f.finish();
        let head = "use xml_schema_parser::{XsdIoError, XsdGenError, XMLElement, XsdType, XsdGen, GenState, GenType, Date, FromXmlString, RestrictedVec};\n\n";
        Ok(concat(head, body.as_str()))
    }
}

} // verus!
