//! A schema document read for code generation: its context and its
//! components.
use vstd::prelude::*;
use vstd::string::StringSliceAdditionalSpecFns;

use crate::components::{Import, Schema};
use crate::registry::{initial_context, names_sorted, namespace_put, schema_tag, schema_tag_pos, xml_events, XsdContext, XsdError};
use crate::context::XsdImplView;
use crate::names::{opt_str_view, XsdName, XsdNameView};
use crate::registry::{lemma_put, lookup, put, resolved_key, take_out, XsdContextView};
use crate::schema_fill::{children_named, context_grows, fill_end, FillEnd};
use crate::names::name_lt;
use crate::text::{split_once, str_eq};
use crate::xml_doc::{parsed_xml, XMLElement};

verus! {

/// A schema document: the context its code is generated into, and its
/// components.
pub struct Xsd {
    pub context: XsdContext,
    pub schema: Schema,
}

/// Whether a document reads as a schema: it has a `schema` tag of the XML
/// Schema namespace, it is well-formed XML, and its root element reads as
/// a schema (see `schema_reads`).
pub open spec fn schema_document_reads(content: Seq<char>, bytes: Seq<u8>) -> bool {
    &&& schema_tag_pos(xml_events(content)) >= 0
    &&& parsed_xml(bytes) matches Ok(t) && crate::schema_spec::schema_reads(
        crate::xml_doc::XMLElementView { element: t, default_namespace: None },
    )
}

/// The namespace map after `put(prefix, uri)`: unchanged where `prefix` is
/// mapped already.
pub open spec fn ns_put(m: Map<Seq<char>, Seq<char>>, prefix: Seq<char>, uri: Seq<char>) -> Map<Seq<char>, Seq<char>> {
    if m.contains_key(prefix) {
        m
    } else {
        m.insert(prefix, uri)
    }
}

/// The namespace map after the schema's left-over attributes `extra` are
/// registered, in order: each `xmlns:p` attribute of value `v` puts `v`
/// with `p`.
pub open spec fn ns_after(m: Map<Seq<char>, Seq<char>>, extra: Seq<(Seq<char>, Seq<char>)>) -> Map<
    Seq<char>,
    Seq<char>,
>
    decreases extra.len(),
{
    if extra.len() == 0 {
        m
    } else {
        let m1 = ns_after(m, extra.drop_last());
        let (key, value) = extra.last();
        match crate::text::split_once_spec(key, ':') {
            Some((lhs, rhs)) => if lhs == "xmlns"@ {
                ns_put(m1, value, rhs)
            } else {
                m1
            },
            None => m1,
        }
    }
}

/// Whether a schema is ready for generation: the context keeps its names
/// in order and each top-level component has a name.
pub open spec fn xsd_ready(x: Xsd) -> bool {
    names_sorted(x.context@.structs) && children_named(x.schema)
}

fn all_named(s: &Schema) -> (r: bool)
    ensures
        r == children_named(*s),
{
    let mut i: usize = 0;
    while i < s.children.len()
        invariant
            i <= s.children@.len(),
            forall|j: int| 0 <= j < i ==> match #[trigger] s.children@[j] {
                crate::components::SchemaOptions::Import(im) => im.schema_location is Some || im.namespace is Some,
                crate::components::SchemaOptions::Annotation(_) => true,
                crate::components::SchemaOptions::Element(x) => x.name is Some,
                crate::components::SchemaOptions::SimpleType(x) => x.name is Some,
                crate::components::SchemaOptions::ComplexType(x) => x.name is Some,
                crate::components::SchemaOptions::Attribute(x) => x.name is Some,
                crate::components::SchemaOptions::AttributeGroup(x) => x.name is Some,
                crate::components::SchemaOptions::Group(x) => x.name is Some,
            },
        decreases s.children@.len() - i,
    {
        let ok = match &s.children[i] {
            crate::components::SchemaOptions::Import(im) => im.schema_location.is_some() || im.namespace.is_some(),
            crate::components::SchemaOptions::Annotation(_) => true,
            crate::components::SchemaOptions::Element(x) => x.name.is_some(),
            crate::components::SchemaOptions::SimpleType(x) => x.name.is_some(),
            crate::components::SchemaOptions::ComplexType(x) => x.name.is_some(),
            crate::components::SchemaOptions::Attribute(x) => x.name.is_some(),
            crate::components::SchemaOptions::AttributeGroup(x) => x.name.is_some(),
            crate::components::SchemaOptions::Group(x) => x.name.is_some(),
        };
        if !ok {
            return false;
        }
        i += 1;
    }
    true
}

fn context_sorted(c: &XsdContext) -> (r: bool)
    ensures
        r == names_sorted(c@.structs),
{
    let ghost t = c@.structs;
    let n = c.structs.len();
    if n == 0 {
        return true;
    }
    let mut i: usize = 1;
    while i < n
        invariant
            1 <= i <= n,
            n == c.structs@.len(),
            t == c@.structs,
            t.len() == n,
            forall|a: int, b: int| 0 <= a < b < i ==> name_lt(#[trigger] t[a].0, #[trigger] t[b].0),
        decreases n - i,
    {
        assert(t[i - 1].0 == c.structs@[i - 1].0@);
        assert(t[i as int].0 == c.structs@[i as int].0@);
        if !c.structs[i - 1].0.precedes(&c.structs[i].0) {
            return false;
        }
        assert forall|a: int, b: int| 0 <= a < b < i + 1 implies name_lt(#[trigger] t[a].0, #[trigger] t[b].0) by {
            if b == i && a < i - 1 {
                crate::registry::lemma_name_lt_transitive(t[a].0, t[i - 1].0, t[b].0);
            }
        }
        i += 1;
    }
    true
}

impl Xsd {
    /// Reads a schema document: its context (see `XsdContext::new`), its
    /// `schema` element, and then the namespaces it declares: `xml` for the
    /// XML namespace, and each `xmlns:p="uri"` attribute of the schema
    /// registered with the URI as the key and `p` as the value.
    pub fn new(content: &str) -> (r: Result<Xsd, XsdError>)
        ensures
            match r {
                Ok(x) => {
                    &&& schema_tag_pos(xml_events(content@)) >= 0
                    &&& parsed_xml(content.spec_bytes()) is Ok
                    &&& x.context@.structs == initial_context(
                        schema_tag(xml_events(content@)),
                    ).structs
                    &&& names_sorted(x.context@.structs)
                    &&& x.context@.namespace.contains_key("xml"@)
                    &&& x.context@.xml_schema_prefix is None
                    &&& parsed_xml(content.spec_bytes()) matches Ok(t) && crate::schema_rel::schema_is(
                        crate::xml_doc::XMLElementView { element: t, default_namespace: None },
                        x.schema,
                    )
                    &&& x.context@.namespace == ns_after(
                        ns_put(
                            initial_context(schema_tag(xml_events(content@))).namespace,
                            "xml"@,
                            "http://www.w3.org/XML/1998/namespace"@,
                        ),
                        crate::xml_doc::pairs_view(x.schema.extra@),
                    )
                },
                Err(e) => if schema_tag_pos(xml_events(content@)) < 0 {
                    crate::registry::no_schema_error(e)
                } else {
                    match parsed_xml(content.spec_bytes()) {
                        Err(m) => e matches XsdError::XmlParseError(t) && t@ == m,
                        Ok(_) => e is XsdIoError,
                    }
                },
            },
            r is Ok <==> schema_document_reads(content@, content.spec_bytes()),
    {
        let mut context = XsdContext::new(content)?;
        let element = match XMLElement::parse(content.as_bytes()) {
            Ok(e) => e,
            Err(m) => {
                return Err(XsdError::XmlParseError(m));
            },
        };
        let schema = match Schema::parse(element) {
            Ok(s) => s,
            Err(e) => {
                return Err(XsdError::XsdIoError(e));
            },
        };
        namespace_put(&mut context.namespace, "xml", "http://www.w3.org/XML/1998/namespace");
        let ghost c0 = context@;
        let ghost ev = crate::xml_doc::pairs_view(schema.extra@);
        assert(ev.take(0) =~= Seq::<(Seq<char>, Seq<char>)>::empty());
        let mut i: usize = 0;
        while i < schema.extra.len()
            invariant
                i <= schema.extra@.len(),
                context@.structs == c0.structs,
                context@.xml_schema_prefix == c0.xml_schema_prefix,
                context@.namespace.contains_key("xml"@),
                ev == crate::xml_doc::pairs_view(schema.extra@),
                context@.namespace == ns_after(c0.namespace, ev.take(i as int)),
            decreases schema.extra@.len() - i,
        {
            let (key, value) = (&schema.extra[i].0, &schema.extra[i].1);
            assert(ev.take(i + 1).drop_last() =~= ev.take(i as int));
            assert(ev.take(i + 1).last() == (key@, value@));
            match split_once(key.as_str(), ':') {
                Some((lhs, rhs)) => {
                    if str_eq(lhs.as_str(), "xmlns") {
                        namespace_put(&mut context.namespace, value.as_str(), rhs.as_str());
                    }
                },
                None => {},
            }
            i += 1;
        }
        assert(ev.take(i as int) =~= ev);
        Ok(Xsd { context, schema })
    }

    /// Whether the schema is ready for generation (see `xsd_ready`).
    pub fn is_ready(&self) -> (r: bool)
        ensures
            r == xsd_ready(*self),
    {
        context_sorted(&self.context) && all_named(&self.schema)
    }

    /// Generates the code of the schema (see `Schema::generate`).
    pub fn generate(&mut self, target_prefix: &Option<String>) -> (r: Result<String, XsdError>)
        requires
            xsd_ready(*old(self)),
        ensures
            match r {
                Ok(text) => text@ == crate::schema_fill::generated_header() + crate::code_doc::render_text(
                    crate::schema_fill::values_doc(final(self).context@.structs),
                ),
                Err(e) => !(e is XsdImplNotFound),
            },
            crate::schema_fill::context_grows(old(self).context@, final(self).context@),
            final(self).schema == old(self).schema,
            crate::schema_fill::generate_gives(
                r,
                final(self).context@,
                crate::schema_fill::fill_end(old(self).schema, old(self).context@, None),
            ),
    {
        self.schema.generate(&mut self.context)
    }
}

/// Whether each of `names` is found, in turn, in `src` as it is emptied.
pub open spec fn all_found(src: XsdContextView, names: Seq<XsdNameView>) -> bool
    decreases names.len(),
{
    if names.len() == 0 {
        true
    } else {
        let k = resolved_key(src, names[0]);
        lookup(src.structs, k) is Some && all_found(
            XsdContextView { structs: take_out(src.structs, k), ..src },
            names.drop_first(),
        )
    }
}

/// The table `t` after each of `names` is moved into it from `src`: taken
/// out of `src` (its namespace resolved there) and kept in `t` under the
/// name as it is.
pub open spec fn moved_into(
    t: Seq<(XsdNameView, XsdImplView)>,
    src: XsdContextView,
    names: Seq<XsdNameView>,
) -> Seq<(XsdNameView, XsdImplView)>
    decreases names.len(),
{
    if names.len() == 0 {
        t
    } else {
        let k = resolved_key(src, names[0]);
        moved_into(
            put(t, names[0], lookup(src.structs, k)->Some_0),
            XsdContextView { structs: take_out(src.structs, k), ..src },
            names.drop_first(),
        )
    }
}

/// Whether `r`, and the context `c1` it leaves of `c0`, are how bringing in
/// an imported schema ends after filling its own context ends by `e`: the
/// error of filling where it fails, else each kept name moved over in turn,
/// or the first name not found again reported.
pub open spec fn absorb_gives(r: Result<(), XsdError>, c0: XsdContextView, c1: XsdContextView, e: FillEnd) -> bool {
    match e {
        FillEnd::Failed(_, g) => c1 == c0 && (r matches Err(x) && crate::gen_lists::error_is(x, g)),
        FillEnd::Settled(ci, rest, top) => if rest.len() > 0 {
            c1 == c0 && (r matches Err(XsdError::XsdMissing(m)) && m@ == "COULD NOT FIND:"@
                + crate::schema_fill::missing_lines(rest))
        } else if all_found(ci, top) {
            r is Ok && c1.structs == moved_into(c0.structs, ci, top)
        } else {
            r matches Err(XsdError::XsdImplNotFound(_))
        },
    }
}

impl Import {
    /// Brings the components of an imported schema into `context`: fills
    /// the imported schema's own context, keeping the names of this
    /// import's namespace where it names one, and moves each of those
    /// pieces over under its name. A name that cannot be found again in
    /// the imported context is reported.
    #[verifier::loop_isolation(false)]
    pub fn absorb(&self, imported: Xsd, context: &mut XsdContext) -> (r: Result<(), XsdError>)
        requires
            xsd_ready(imported),
            names_sorted(old(context)@.structs),
        ensures
            context_grows(old(context)@, final(context)@),
            final(context)@.namespace == old(context)@.namespace,
            final(context)@.xml_schema_prefix == old(context)@.xml_schema_prefix,
            absorb_gives(
                r,
                old(context)@,
                final(context)@,
                fill_end(imported.schema, imported.context@, opt_str_view(self.namespace)),
            ),
    {
        let ghost c00 = old(context)@;
        let ghost s0 = imported.schema;
        let ghost i0 = imported.context@;
        let mut imported = imported;
        let filter = match &self.namespace {
            Some(n) => Some(n.as_str()),
            None => None,
        };
        let ghost fe = fill_end(s0, i0, opt_str_view(self.namespace));
        assert(crate::schema_fill::filter_view(filter) == opt_str_view(self.namespace));
        let names = match imported.schema.fill_context(&mut imported.context, filter) {
            Ok(names) => names,
            Err(e) => {
                return Err(e);
            },
        };
        let ghost nv = names@.map_values(|n: XsdName| n@);
        let ghost c1 = imported.context@;
        assert(nv =~= crate::schema_parse::names_view(names@));
        assert(fe matches FillEnd::Settled(ci, rest, top) && ci == c1 && rest.len() == 0 && top == nv);
        assert(nv.skip(0) =~= nv);
        let mut i: usize = 0;
        while i < names.len()
            invariant
                i <= names@.len(),
                nv == names@.map_values(|n: XsdName| n@),
                context_grows(c00, context@),
                c00 == old(context)@,
                fe == fill_end(s0, i0, opt_str_view(self.namespace)),
                fe matches FillEnd::Settled(ci, rest, top) && ci == c1 && rest.len() == 0 && top == nv,
                context@.namespace == c00.namespace,
                context@.xml_schema_prefix == c00.xml_schema_prefix,
                all_found(c1, nv) <==> all_found(imported.context@, nv.skip(i as int)),
                moved_into(c00.structs, c1, nv) == moved_into(context@.structs, imported.context@, nv.skip(i as int)),
            decreases names@.len() - i,
        {
            let ghost src = imported.context@;
            let ghost rest = nv.skip(i as int);
            assert(rest.len() > 0 && rest[0] == names@[i as int]@);
            assert(rest.drop_first() =~= nv.skip(i + 1));
            match imported.context.remove_impl(&names[i]) {
                Some(gen) => {
                    let key = names[i].clone();
                    let ghost before = context@;
                    proof {
                        lemma_put(before.structs, key@, gen@);
                    }
                    context.insert_raw(key, gen);
                    assert(context_grows(old(context)@, context@)) by {
                        assert forall|k: crate::names::XsdNameView| lookup(old(context)@.structs, k) is Some implies #[trigger] lookup(
                            context@.structs,
                            k,
                        ) is Some by {
                            assert(lookup(before.structs, k) is Some);
                        }
                    }
                },
                None => {
                    assert(!all_found(src, rest));
                    assert(!all_found(c1, nv));
                    return Err(XsdError::XsdImplNotFound(names[i].clone()));
                },
            }
            i += 1;
        }
        assert(nv.skip(i as int) =~= Seq::<XsdNameView>::empty());
        assert(all_found(c1, nv));
        Ok(())
    }
}

} // verus!
