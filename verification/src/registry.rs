//! The context of a schema: the namespaces it declares and the generated
//! code of every component found so far, kept in name order.
use vstd::prelude::*;

use xml::namespace::Namespace;

use crate::code_model::{ImplView, Type};
use crate::code_tree::{lemma_str_lt_irreflexive, lemma_str_lt_total, lemma_str_lt_transitive};
use crate::context::{
    element_type, impl_view, type_text, XsdElement, XsdImpl, XsdImplView,
};
use crate::merge::renamed;
use crate::names::{
    clone_opt_str, name_lt, opt_str_lt, opt_str_view, xsd_type_rank, XsdName, XsdNameView, XsdType,
};
use crate::text::{str_eq, str_lt};

verus! {

// ----- the order of names -----

proof fn lemma_rank_injective(a: XsdType, b: XsdType)
    requires
        xsd_type_rank(a) == xsd_type_rank(b),
    ensures
        a == b,
{
}

/// No name comes before itself.
pub proof fn lemma_name_lt_irreflexive(a: XsdNameView)
    ensures
        !name_lt(a, a),
{
    lemma_str_lt_irreflexive(a.local_name);
    if let Some(x) = a.namespace {
        lemma_str_lt_irreflexive(x);
    }
}

/// Of two names, either they are equal or one comes before the other.
pub proof fn lemma_name_lt_total(a: XsdNameView, b: XsdNameView)
    ensures
        a == b || name_lt(a, b) || name_lt(b, a),
{
    lemma_str_lt_total(a.local_name, b.local_name);
    match (a.namespace, b.namespace) {
        (Some(x), Some(y)) => lemma_str_lt_total(x, y),
        _ => {},
    }
    if xsd_type_rank(a.ty) == xsd_type_rank(b.ty) {
        lemma_rank_injective(a.ty, b.ty);
    }
}

/// The order of names is transitive.
pub proof fn lemma_name_lt_transitive(a: XsdNameView, b: XsdNameView, c: XsdNameView)
    requires
        name_lt(a, b),
        name_lt(b, c),
    ensures
        name_lt(a, c),
{
    match (a.namespace, b.namespace, c.namespace) {
        (Some(x), Some(y), Some(z)) => {
            if str_lt(x, y) && str_lt(y, z) {
                lemma_str_lt_transitive(x, y, z);
            }
        },
        _ => {},
    }
    if str_lt(a.local_name, b.local_name) && str_lt(b.local_name, c.local_name) {
        lemma_str_lt_transitive(a.local_name, b.local_name, c.local_name);
    }
}

// ----- name-ordered tables -----

/// The index of the entry with key `k`, or -1.
pub open spec fn name_pos<V>(t: Seq<(XsdNameView, V)>, k: XsdNameView) -> int
    decreases t.len(),
{
    if t.len() == 0 {
        -1
    } else if t[0].0 == k {
        0
    } else {
        let r = name_pos(t.drop_first(), k);
        if r < 0 {
            -1
        } else {
            r + 1
        }
    }
}

/// The index of the first entry whose key comes after `k`, or the length.
pub open spec fn name_insert_pos<V>(t: Seq<(XsdNameView, V)>, k: XsdNameView) -> int
    decreases t.len(),
{
    if t.len() == 0 {
        0
    } else if name_lt(k, t[0].0) {
        0
    } else {
        name_insert_pos(t.drop_first(), k) + 1
    }
}

/// Whether the keys increase strictly.
pub open spec fn names_sorted<V>(t: Seq<(XsdNameView, V)>) -> bool {
    forall|i: int, j: int| 0 <= i < j < t.len() ==> name_lt(#[trigger] t[i].0, #[trigger] t[j].0)
}

/// The value stored under `k`, if any.
pub open spec fn lookup<V>(t: Seq<(XsdNameView, V)>, k: XsdNameView) -> Option<V> {
    let p = name_pos(t, k);
    if p >= 0 {
        Some(t[p].1)
    } else {
        None
    }
}

/// The table with `v` stored under `k`: it replaces what was there, or is
/// added where `k` belongs.
pub open spec fn put<V>(t: Seq<(XsdNameView, V)>, k: XsdNameView, v: V) -> Seq<(XsdNameView, V)> {
    let p = name_pos(t, k);
    if p >= 0 {
        t.update(p, (k, v))
    } else {
        t.insert(name_insert_pos(t, k), (k, v))
    }
}

/// The table without the entry under `k`.
pub open spec fn take_out<V>(t: Seq<(XsdNameView, V)>, k: XsdNameView) -> Seq<(XsdNameView, V)> {
    let p = name_pos(t, k);
    if p >= 0 {
        t.remove(p)
    } else {
        t
    }
}

pub proof fn lemma_name_pos<V>(t: Seq<(XsdNameView, V)>, k: XsdNameView)
    ensures
        -1 <= name_pos(t, k) < t.len(),
        name_pos(t, k) >= 0 ==> t[name_pos(t, k)].0 == k,
        forall|j: int| 0 <= j < t.len() && (name_pos(t, k) < 0 || j < name_pos(t, k)) ==> #[trigger] t[j].0 != k,
    decreases t.len(),
{
    if t.len() > 0 {
        lemma_name_pos(t.drop_first(), k);
        assert forall|j: int| 0 < j < t.len() implies #[trigger] t[j] == t.drop_first()[j - 1] by {}
    }
}

pub proof fn lemma_name_insert_pos<V>(t: Seq<(XsdNameView, V)>, k: XsdNameView)
    ensures
        0 <= name_insert_pos(t, k) <= t.len(),
        name_insert_pos(t, k) < t.len() ==> name_lt(k, t[name_insert_pos(t, k)].0),
        forall|j: int| 0 <= j < name_insert_pos(t, k) ==> !name_lt(k, #[trigger] t[j].0),
    decreases t.len(),
{
    if t.len() > 0 {
        lemma_name_insert_pos(t.drop_first(), k);
        assert forall|j: int| 0 < j < t.len() implies #[trigger] t[j] == t.drop_first()[j - 1] by {}
    }
}

/// The index of an entry fixes its key and the other way round.
pub proof fn lemma_name_pos_at<V>(t: Seq<(XsdNameView, V)>, k: XsdNameView, i: int)
    requires
        0 <= i < t.len(),
        t[i].0 == k,
        forall|j: int| 0 <= j < i ==> #[trigger] t[j].0 != k,
    ensures
        name_pos(t, k) == i,
{
    lemma_name_pos(t, k);
}

/// Storing a value keeps the keys in order, and a lookup of its key then
/// finds it while other keys find what they found before.
pub proof fn lemma_put<V>(t: Seq<(XsdNameView, V)>, k: XsdNameView, v: V)
    requires
        names_sorted(t),
    ensures
        names_sorted(put(t, k, v)),
        lookup(put(t, k, v), k) == Some(v),
        forall|k2: XsdNameView| k2 != k ==> #[trigger] lookup(put(t, k, v), k2) == lookup(t, k2),
{
    lemma_name_pos(t, k);
    lemma_name_insert_pos(t, k);
    let p = name_pos(t, k);
    let u = put(t, k, v);
    if p >= 0 {
        assert forall|i: int, j: int| 0 <= i < j < u.len() implies name_lt(#[trigger] u[i].0, #[trigger] u[j].0) by {
            assert(name_lt(t[i].0, t[j].0));
        }
        lemma_name_pos_at(u, k, p);
        assert forall|k2: XsdNameView| k2 != k implies #[trigger] lookup(u, k2) == lookup(t, k2) by {
            lemma_name_pos(t, k2);
            let q = name_pos(t, k2);
            if q >= 0 {
                lemma_name_pos_at(u, k2, q);
            } else {
                lemma_name_pos(u, k2);
                let q2 = name_pos(u, k2);
                if q2 >= 0 {
                    assert(u[q2].0 == t[q2].0);
                }
            }
        }
    } else {
        let ip = name_insert_pos(t, k);
        assert forall|i: int, j: int| 0 <= i < j < u.len() implies name_lt(#[trigger] u[i].0, #[trigger] u[j].0) by {
            if i < ip && j == ip {
                lemma_name_lt_total(t[i].0, k);
            } else if i == ip && j > ip {
                if j - 1 > ip {
                    lemma_name_lt_transitive(k, t[ip].0, t[j - 1].0);
                }
            } else if i < ip && j > ip {
                assert(name_lt(t[i].0, t[j - 1].0));
            } else if j < ip {
                assert(name_lt(t[i].0, t[j].0));
            } else {
                assert(name_lt(t[i - 1].0, t[j - 1].0));
            }
        }
        assert forall|j: int| 0 <= j < ip implies #[trigger] u[j].0 != k by {
            assert(u[j] == t[j]);
        }
        lemma_name_pos_at(u, k, ip);
        assert forall|k2: XsdNameView| k2 != k implies #[trigger] lookup(u, k2) == lookup(t, k2) by {
            lemma_name_pos(t, k2);
            lemma_name_pos(u, k2);
            let q = name_pos(t, k2);
            let q2 = name_pos(u, k2);
            if q >= 0 {
                let qq = if q < ip { q } else { q + 1 };
                assert(u[qq] == t[q]);
                assert forall|j: int| 0 <= j < qq implies #[trigger] u[j].0 != k2 by {
                    if j < ip {
                        assert(u[j] == t[j]);
                    } else if j > ip {
                        assert(u[j] == t[j - 1]);
                    }
                }
                lemma_name_pos_at(u, k2, qq);
            } else if q2 >= 0 {
                if q2 < ip {
                    assert(u[q2] == t[q2]);
                } else if q2 > ip {
                    assert(u[q2] == t[q2 - 1]);
                }
            }
        }
    }
}

/// Taking out an entry keeps the keys in order; its key then finds
/// nothing, and other keys find what they found before.
/// Whether no key occurs twice.
pub open spec fn keys_distinct<V>(t: Seq<(XsdNameView, V)>) -> bool {
    forall|i: int, j: int| 0 <= i < j < t.len() ==> #[trigger] t[i].0 != #[trigger] t[j].0
}

proof fn lemma_not_found<V>(t: Seq<(XsdNameView, V)>, k: XsdNameView)
    requires
        forall|j: int| 0 <= j < t.len() ==> #[trigger] t[j].0 != k,
    ensures
        name_pos(t, k) < 0,
{
    lemma_name_pos(t, k);
}

/// Storing under a key, in any table: a search for it finds what was
/// stored, and a search for any other key finds what it found before.
pub proof fn lemma_put_any<V>(t: Seq<(XsdNameView, V)>, k: XsdNameView, v: V)
    ensures
        lookup(put(t, k, v), k) == Some(v),
        forall|k2: XsdNameView| k2 != k ==> #[trigger] lookup(put(t, k, v), k2) == lookup(t, k2),
{
    lemma_name_pos(t, k);
    lemma_name_insert_pos(t, k);
    let p = name_pos(t, k);
    let u = put(t, k, v);
    if p >= 0 {
        lemma_name_pos_at(u, k, p);
        assert forall|k2: XsdNameView| k2 != k implies #[trigger] lookup(u, k2) == lookup(t, k2) by {
            lemma_name_pos(t, k2);
            let q = name_pos(t, k2);
            if q >= 0 {
                lemma_name_pos_at(u, k2, q);
            } else {
                lemma_not_found(u, k2);
            }
        }
    } else {
        let i = name_insert_pos(t, k);
        assert(u == t.insert(i, (k, v)));
        assert forall|j: int| 0 <= j < i implies #[trigger] u[j].0 != k by {
            assert(u[j] == t[j]);
        }
        lemma_name_pos_at(u, k, i);
        assert forall|k2: XsdNameView| k2 != k implies #[trigger] lookup(u, k2) == lookup(t, k2) by {
            lemma_name_pos(t, k2);
            let q = name_pos(t, k2);
            if q >= 0 {
                let q2 = if q < i { q } else { q + 1 };
                assert(u[q2] == t[q]);
                assert forall|j: int| 0 <= j < q2 implies #[trigger] u[j].0 != k2 by {
                    if j < i {
                        assert(u[j] == t[j]);
                    } else if j > i {
                        assert(u[j] == t[j - 1]);
                    }
                }
                lemma_name_pos_at(u, k2, q2);
            } else {
                assert forall|j: int| 0 <= j < u.len() implies #[trigger] u[j].0 != k2 by {
                    if j < i {
                        assert(u[j] == t[j]);
                    } else if j > i {
                        assert(u[j] == t[j - 1]);
                    }
                }
                lemma_not_found(u, k2);
            }
        }
    }
}

/// Taking a key out of any table leaves what a search for any other key
/// finds; where no key occurs twice, a search for it then finds nothing.
pub proof fn lemma_take_out_any<V>(t: Seq<(XsdNameView, V)>, k: XsdNameView)
    ensures
        forall|k2: XsdNameView| k2 != k ==> #[trigger] lookup(take_out(t, k), k2) == lookup(t, k2),
        keys_distinct(t) ==> lookup(take_out(t, k), k) is None,
{
    lemma_name_pos(t, k);
    let p = name_pos(t, k);
    let u = take_out(t, k);
    if p >= 0 {
        assert forall|k2: XsdNameView| k2 != k implies #[trigger] lookup(u, k2) == lookup(t, k2) by {
            lemma_name_pos(t, k2);
            let q = name_pos(t, k2);
            if q >= 0 {
                let q2 = if q < p { q } else { q - 1 };
                assert(u[q2] == t[q]);
                assert forall|j: int| 0 <= j < q2 implies #[trigger] u[j].0 != k2 by {
                    if j < p {
                        assert(u[j] == t[j]);
                    } else {
                        assert(u[j] == t[j + 1]);
                    }
                }
                lemma_name_pos_at(u, k2, q2);
            } else {
                assert forall|j: int| 0 <= j < u.len() implies #[trigger] u[j].0 != k2 by {
                    if j < p {
                        assert(u[j] == t[j]);
                    } else {
                        assert(u[j] == t[j + 1]);
                    }
                }
                lemma_not_found(u, k2);
            }
        }
        if keys_distinct(t) {
            assert forall|j: int| 0 <= j < u.len() implies #[trigger] u[j].0 != k by {
                if j < p {
                    assert(u[j] == t[j]);
                } else {
                    assert(u[j] == t[j + 1]);
                }
            }
            lemma_not_found(u, k);
        }
    } else {
        lemma_not_found(u, k);
    }
}

/// In any table, taking out a key just stored where none was stored gives
/// the table back.
pub proof fn lemma_take_out_put<V>(t: Seq<(XsdNameView, V)>, k: XsdNameView, v: V)
    requires
        lookup(t, k) is None,
    ensures
        take_out(put(t, k, v), k) == t,
{
    lemma_name_pos(t, k);
    lemma_name_insert_pos(t, k);
    let i = name_insert_pos(t, k);
    let u = put(t, k, v);
    assert(u == t.insert(i, (k, v)));
    assert forall|j: int| 0 <= j < i implies #[trigger] u[j].0 != k by {
        assert(u[j] == t[j]);
    }
    lemma_name_pos_at(u, k, i);
    assert(u.remove(i) =~= t);
}

pub proof fn lemma_take_out<V>(t: Seq<(XsdNameView, V)>, k: XsdNameView)
    requires
        names_sorted(t),
    ensures
        names_sorted(take_out(t, k)),
        lookup(take_out(t, k), k) is None,
        forall|k2: XsdNameView| k2 != k ==> #[trigger] lookup(take_out(t, k), k2) == lookup(t, k2),
{
    lemma_name_pos(t, k);
    let p = name_pos(t, k);
    let u = take_out(t, k);
    if p >= 0 {
        assert forall|i: int, j: int| 0 <= i < j < u.len() implies name_lt(#[trigger] u[i].0, #[trigger] u[j].0) by {
            let ii = if i < p { i } else { i + 1 };
            let jj = if j < p { j } else { j + 1 };
            assert(u[i] == t[ii]);
            assert(u[j] == t[jj]);
            assert(name_lt(t[ii].0, t[jj].0));
        }
        lemma_name_pos(u, k);
        let q = name_pos(u, k);
        if q >= 0 {
            if q < p {
                assert(u[q] == t[q]);
            } else {
                assert(u[q] == t[q + 1]);
                lemma_name_lt_irreflexive(k);
                assert(name_lt(t[p].0, t[q + 1].0));
            }
        }
        assert forall|k2: XsdNameView| k2 != k implies #[trigger] lookup(u, k2) == lookup(t, k2) by {
            lemma_name_pos(t, k2);
            lemma_name_pos(u, k2);
            let q1 = name_pos(t, k2);
            let q2 = name_pos(u, k2);
            if q1 >= 0 {
                let qq = if q1 < p { q1 } else { q1 - 1 };
                assert(u[qq] == t[q1]);
                assert forall|j: int| 0 <= j < qq implies #[trigger] u[j].0 != k2 by {
                    if j < p {
                        assert(u[j] == t[j]);
                    } else {
                        assert(u[j] == t[j + 1]);
                    }
                }
                lemma_name_pos_at(u, k2, qq);
            } else if q2 >= 0 {
                if q2 < p {
                    assert(u[q2] == t[q2]);
                } else {
                    assert(u[q2] == t[q2 + 1]);
                }
            }
        }
    }
}


// ----- namespaces -----

#[verifier::external_type_specification]
#[verifier::external_body]
pub struct ExNamespace(xml::namespace::Namespace);

/// The prefix-to-URI mappings that an xml-rs `Namespace` holds.
pub uninterp spec fn namespace_map(ns: Namespace) -> Map<Seq<char>, Seq<char>>;

/// `Namespace::get`: the URI mapped to `prefix`, if there is one.
#[verifier::external_body]
fn namespace_get(ns: &Namespace, prefix: &str) -> (r: Option<String>)
    ensures
        match r {
            Some(v) => namespace_map(*ns).contains_key(prefix@) && v@ == namespace_map(*ns)[prefix@],
            None => !namespace_map(*ns).contains_key(prefix@),
        },
{
    ns.get(prefix).map(|s| s.to_string())
}

/// `Namespace::put`: maps `prefix` to `uri` unless `prefix` is mapped
/// already, and says whether it was not.
#[verifier::external_body]
pub(crate) fn namespace_put(ns: &mut Namespace, prefix: &str, uri: &str) -> (r: bool)
    ensures
        r == !namespace_map(*old(ns)).contains_key(prefix@),
        namespace_map(*final(ns)) == if r {
            namespace_map(*old(ns)).insert(prefix@, uri@)
        } else {
            namespace_map(*old(ns))
        },
{
    ns.put(prefix, uri)
}

/// A start tag read from a document: the namespace and local part of its
/// name, and the namespace mappings in force there.
pub struct StartTag {
    pub namespace: Option<String>,
    pub local_name: String,
    pub scope: Namespace,
}

pub struct StartTagView {
    pub namespace: Option<Seq<char>>,
    pub local_name: Seq<char>,
    pub scope: Map<Seq<char>, Seq<char>>,
}

impl View for StartTag {
    type V = StartTagView;

    open spec fn view(&self) -> StartTagView {
        StartTagView {
            namespace: opt_str_view(self.namespace),
            local_name: self.local_name@,
            scope: namespace_map(self.scope),
        }
    }
}

/// An event of reading a document: a start tag, another event, or an
/// error.
pub enum ReadEvent {
    Start(StartTag),
    Other,
    Failed,
}

pub enum ReadEventView {
    Start(StartTagView),
    Other,
    Failed,
}

impl View for ReadEvent {
    type V = ReadEventView;

    open spec fn view(&self) -> ReadEventView {
        match self {
            ReadEvent::Start(t) => ReadEventView::Start(t@),
            ReadEvent::Other => ReadEventView::Other,
            ReadEvent::Failed => ReadEventView::Failed,
        }
    }
}

pub open spec fn events_view(v: Seq<ReadEvent>) -> Seq<ReadEventView> {
    v.map_values(|t: ReadEvent| t@)
}

/// The events that xml-rs reads from a document, in order.
pub uninterp spec fn xml_events(content: Seq<char>) -> Seq<ReadEventView>;

/// Runs xml-rs's `EventReader` over `content` and hands out each event it
/// yields, in order: a start tag with its name and the namespaces in force,
/// any other event, or an error.
#[verifier::external_body]
fn read_events(content: &str) -> (r: Vec<ReadEvent>)
    ensures
        events_view(r@) == xml_events(content@),
{
    let mut out = Vec::new();
    for event in xml::reader::EventReader::new(std::io::Cursor::new(content)) {
        out.push(match event {
            Ok(xml::reader::XmlEvent::StartElement { name, namespace, .. }) => ReadEvent::Start(
                StartTag { namespace: name.namespace, local_name: name.local_name, scope: namespace },
            ),
            Ok(_) => ReadEvent::Other,
            Err(_) => ReadEvent::Failed,
        });
    }
    out
}


// ----- errors -----

/// What can go wrong while reading a schema and generating its code.
#[derive(Debug)]
pub enum XsdError {
    XsdImplNotFound(XsdName),
    XsdIoError(crate::names::XsdIoError),
    XmlParseError(String),
    XsdMissing(String),
    ContextSearchError { name: XsdName, msg: String },
    Unknown,
}

// ----- the context -----

/// The namespaces of a schema and the generated code of its components,
/// by name (the names in increasing order).
pub struct XsdContext {
    pub namespace: Namespace,
    pub xml_schema_prefix: Option<String>,
    pub structs: Vec<(XsdName, XsdImpl)>,
}

pub struct XsdContextView {
    pub namespace: Map<Seq<char>, Seq<char>>,
    pub xml_schema_prefix: Option<Seq<char>>,
    pub structs: Seq<(XsdNameView, XsdImplView)>,
}

pub open spec fn entry_view(e: (XsdName, XsdImpl)) -> (XsdNameView, XsdImplView) {
    (e.0@, impl_view(e.1))
}

pub open spec fn entries_view(v: Seq<(XsdName, XsdImpl)>) -> Seq<(XsdNameView, XsdImplView)> {
    v.map_values(|e: (XsdName, XsdImpl)| entry_view(e))
}

impl View for XsdContext {
    type V = XsdContextView;

    open spec fn view(&self) -> XsdContextView {
        XsdContextView {
            namespace: namespace_map(self.namespace),
            xml_schema_prefix: opt_str_view(self.xml_schema_prefix),
            structs: entries_view(self.structs@),
        }
    }
}

/// The URI that a namespace prefix stands for, where the context maps it;
/// otherwise the prefix itself.
pub open spec fn resolve(ns: Map<Seq<char>, Seq<char>>, prefix: Option<Seq<char>>) -> Option<Seq<char>> {
    match prefix {
        Some(p) => if ns.contains_key(p) {
            Some(ns[p])
        } else {
            Some(p)
        },
        None => None,
    }
}

/// The key under which the context keeps a name: its namespace resolved.
pub open spec fn resolved_key(c: XsdContextView, n: XsdNameView) -> XsdNameView {
    XsdNameView { namespace: resolve(c.namespace, n.namespace), ..n }
}

/// Whether some piece of the table has a type written `text`.
pub open spec fn type_taken(t: Seq<(XsdNameView, XsdImplView)>, text: Seq<char>) -> bool {
    exists|i: int| 0 <= i < t.len() && type_text(element_type((#[trigger] t[i]).1.element)) == text
}

/// A piece as the context stores it: renamed where its type is written as
/// that of a piece already there.
pub open spec fn as_stored(t: Seq<(XsdNameView, XsdImplView)>, v: XsdImplView) -> XsdImplView {
    if type_taken(t, type_text(element_type(v.element))) {
        renamed(v)
    } else {
        v
    }
}

/// The XML Schema namespace.
pub open spec fn xsd_uri() -> Seq<char> {
    "http://www.w3.org/2001/XMLSchema"@
}

/// Whether the event `e` is the start tag that opens an XML Schema.
pub open spec fn opens_schema(e: ReadEventView) -> bool {
    e matches ReadEventView::Start(t) && t.namespace == Some(xsd_uri()) && t.local_name == "schema"@
}

/// The index of the first event that opens an XML Schema, or -1.
pub open spec fn schema_tag_pos(events: Seq<ReadEventView>) -> int
    decreases events.len(),
{
    if events.len() == 0 {
        -1
    } else if opens_schema(events[0]) {
        0
    } else {
        let r = schema_tag_pos(events.drop_first());
        if r < 0 {
            -1
        } else {
            r + 1
        }
    }
}

/// The start tag that opens the XML Schema among `events`.
pub open spec fn schema_tag(events: Seq<ReadEventView>) -> StartTagView {
    events[schema_tag_pos(events)]->Start_0
}

/// The built-in simple types of XML Schema and the Rust types they become.
pub open spec fn basic_types() -> Seq<(Seq<char>, Seq<char>)> {
    seq![
        ("bool"@, "bool"@),
        ("boolean"@, "bool"@),
        ("positiveInteger"@, "u64"@),
        ("byte"@, "u8"@),
        ("unsignedByte"@, "u8"@),
        ("short"@, "i16"@),
        ("unsignedShort"@, "u16"@),
        ("int"@, "i32"@),
        ("integer"@, "i32"@),
        ("unsignedInt"@, "u32"@),
        ("long"@, "i64"@),
        ("unsignedLong"@, "u64"@),
        ("nonNegativeInteger"@, "u64"@),
        ("double"@, "f64"@),
        ("decimal"@, "f64"@),
        ("string"@, "String"@),
        ("normalizedString"@, "String"@),
        ("anyURI"@, "String"@),
        ("NMTOKEN"@, "String"@),
        ("token"@, "String"@),
        ("language"@, "String"@),
        ("hexBinary"@, "String"@),
        ("dateTime"@, "String"@),
        ("base64Binary"@, "String"@),
        ("duration"@, "String"@),
        ("gYear"@, "u16"@),
        ("ID"@, "String"@),
        ("IDREF"@, "String"@),
        ("IDREFS"@, "String"@),
        ("anyType"@, "String"@),
        ("date"@, "Date"@),
        ("NCName"@, "String"@),
    ]
}

/// The piece for a built-in simple type.
pub open spec fn basic_entry(uri: Seq<char>, name: Seq<char>, ty: Seq<char>) -> (XsdNameView, XsdImplView) {
    let n = XsdNameView { namespace: Some(uri), local_name: name, ty: XsdType::SimpleType };
    (
        n,
        XsdImplView {
            name: n,
            fieldname_hint: None,
            element: crate::context::XsdElementView::Type(
                crate::code_model::TypeView { name: ty, generics: seq![], xml_name: None, docs: None },
            ),
            inner: seq![],
            implementation: seq![],
            flatten: false,
        },
    )
}

/// The table of the first `n` built-in simple types.
pub open spec fn basic_table(uri: Seq<char>, n: nat) -> Seq<(XsdNameView, XsdImplView)>
    decreases n,
{
    if n == 0 {
        seq![]
    } else {
        let e = basic_entry(uri, basic_types()[n - 1].0, basic_types()[n - 1].1);
        put(basic_table(uri, (n - 1) as nat), e.0, e.1)
    }
}

proof fn lemma_basic_table_sorted(uri: Seq<char>, n: nat)
    ensures
        names_sorted(basic_table(uri, n)),
    decreases n,
{
    if n > 0 {
        lemma_basic_table_sorted(uri, (n - 1) as nat);
        let e = basic_entry(uri, basic_types()[n - 1].0, basic_types()[n - 1].1);
        lemma_put(basic_table(uri, (n - 1) as nat), e.0, e.1);
    }
}

/// The context that a schema starts with: the namespaces of its `schema`
/// tag and the built-in simple types.
pub open spec fn initial_context(tag: StartTagView) -> XsdContextView {
    XsdContextView {
        namespace: tag.scope,
        xml_schema_prefix: None,
        structs: basic_table(xsd_uri(), basic_types().len()),
    }
}

/// The error of a document without an XML Schema.
pub open spec fn no_schema_error(e: XsdError) -> bool {
    e matches XsdError::XsdIoError(crate::names::XsdIoError::XsdParseError(p)) && p.node_name@ == "schema"@
        && p.msg@ == "Bad XML Schema, unable to found schema element."@
}

fn put_exec(t: &mut Vec<(XsdName, XsdImpl)>, k: XsdName, v: XsdImpl)
    ensures
        entries_view(final(t)@) == put(entries_view(old(t)@), k@, v@),
{
    let ghost tv = entries_view(t@);
    proof {
        lemma_name_pos(tv, k@);
        lemma_name_insert_pos(tv, k@);
    }
    let mut i: usize = 0;
    while i < t.len()
        invariant
            i <= t@.len(),
            tv == entries_view(t@),
            t@ == old(t)@,
            forall|j: int| 0 <= j < i ==> (#[trigger] t@[j]).0@ != k@,
        decreases t@.len() - i,
    {
        if t[i].0.same_as(&k) {
            proof {
                assert(tv[i as int].0 == k@);
                assert forall|j: int| 0 <= j < i implies #[trigger] tv[j].0 != k@ by {
                    assert(tv[j].0 == t@[j].0@);
                }
                lemma_name_pos_at(tv, k@, i as int);
            }
            let ghost ev = (k@, v@);
            t.set(i, (k, v));
            assert(entries_view(t@) =~= tv.update(i as int, ev));
            return;
        }
        i += 1;
    }
    assert(name_pos(tv, k@) == -1) by {
        let p = name_pos(tv, k@);
        if p >= 0 {
            assert(tv[p].0 == t@[p].0@);
        }
    }
    let mut p: usize = 0;
    while p < t.len() && !k.precedes(&t[p].0)
        invariant
            p <= t@.len(),
            tv == entries_view(t@),
            forall|j: int| 0 <= j < p ==> !name_lt(k@, (#[trigger] t@[j]).0@),
        decreases t@.len() - p,
    {
        p += 1;
    }
    assert(name_insert_pos(tv, k@) == p) by {
        let ip = name_insert_pos(tv, k@);
        if ip < p {
            assert(tv[ip].0 == t@[ip].0@);
        }
        if ip > p {
            assert(tv[p as int].0 == t@[p as int].0@);
        }
    }
    let ghost ev = (k@, v@);
    t.insert(p, (k, v));
    assert(entries_view(t@) =~= tv.insert(p as int, ev));
}

fn find_entry(t: &Vec<(XsdName, XsdImpl)>, k: &XsdName) -> (r: Option<usize>)
    ensures
        match r {
            Some(i) => i as int == name_pos(entries_view(t@), k@),
            None => name_pos(entries_view(t@), k@) < 0,
        },
{
    let ghost tv = entries_view(t@);
    let mut i: usize = 0;
    while i < t.len()
        invariant
            i <= t@.len(),
            tv == entries_view(t@),
            forall|j: int| 0 <= j < i ==> (#[trigger] t@[j]).0@ != k@,
        decreases t@.len() - i,
    {
        if t[i].0.same_as(k) {
            proof {
                assert(tv[i as int].0 == k@);
                assert forall|j: int| 0 <= j < i implies #[trigger] tv[j].0 != k@ by {
                    assert(tv[j].0 == t@[j].0@);
                }
                lemma_name_pos_at(tv, k@, i as int);
            }
            return Some(i);
        }
        i += 1;
    }
    proof {
        lemma_name_pos(tv, k@);
        let p = name_pos(tv, k@);
        if p >= 0 {
            assert(tv[p].0 == t@[p].0@);
        }
    }
    None
}

fn basic_impl(uri: &str, name: &str, ty: &str) -> (r: (XsdName, XsdImpl))
    ensures
        entry_view(r) == basic_entry(uri@, name@, ty@),
{
    let n = XsdName { namespace: Some(uri.to_owned()), local_name: name.to_owned(), ty: XsdType::SimpleType };
    let x = XsdImpl {
        name: n.clone(),
        fieldname_hint: None,
        element: XsdElement::Type(Type::new(None, ty)),
        inner: Vec::new(),
        implementation: Vec::new(),
        flatten: false,
    };
    assert(crate::context::impls_seq_view(x.inner@) =~= seq![]);
    assert(crate::code_model::impls_view(x.implementation@) =~= seq![]);
    (n, x)
}

/// Which of the kinds `types` a name has in the context.
pub enum SearchResult<'a> {
    MultipleMatches,
    NoMatches,
    SingleMatch(&'a XsdImpl),
}

/// The pieces that a search over several kinds finds, in the order of the
/// kinds.
pub open spec fn found_under(
    c: XsdContextView,
    namespace: Option<Seq<char>>,
    name: Seq<char>,
    types: Seq<XsdType>,
) -> Seq<XsdImplView>
    decreases types.len(),
{
    if types.len() == 0 {
        seq![]
    } else {
        let rest = found_under(c, namespace, name, types.drop_last());
        match lookup(
            c.structs,
            resolved_key(c, XsdNameView { namespace, local_name: name, ty: types.last() }),
        ) {
            Some(x) => rest.push(x),
            None => rest,
        }
    }
}

impl XsdContext {
    fn with_basic_types(tag: StartTag) -> (r: Self)
        ensures
            r@ == initial_context(tag@),
            names_sorted(r@.structs),
    {
        let list: Vec<(&str, &str)> = vec![
            ("bool", "bool"),
            ("boolean", "bool"),
            ("positiveInteger", "u64"),
            ("byte", "u8"),
            ("unsignedByte", "u8"),
            ("short", "i16"),
            ("unsignedShort", "u16"),
            ("int", "i32"),
            ("integer", "i32"),
            ("unsignedInt", "u32"),
            ("long", "i64"),
            ("unsignedLong", "u64"),
            ("nonNegativeInteger", "u64"),
            ("double", "f64"),
            ("decimal", "f64"),
            ("string", "String"),
            ("normalizedString", "String"),
            ("anyURI", "String"),
            ("NMTOKEN", "String"),
            ("token", "String"),
            ("language", "String"),
            ("hexBinary", "String"),
            ("dateTime", "String"),
            ("base64Binary", "String"),
            ("duration", "String"),
            ("gYear", "u16"),
            ("ID", "String"),
            ("IDREF", "String"),
            ("IDREFS", "String"),
            ("anyType", "String"),
            ("date", "Date"),
            ("NCName", "String"),
        ];
        assert(list@.len() == 32);
        assert(basic_types().len() == 32);
        assert forall|j: int| 0 <= j < 32 implies (#[trigger] list@[j]).0@ == basic_types()[j].0 && list@[j].1@
            == basic_types()[j].1 by {}
        let mut structs: Vec<(XsdName, XsdImpl)> = Vec::new();
        assert(entries_view(structs@) =~= basic_table(xsd_uri(), 0));
        let mut i: usize = 0;
        while i < list.len()
            invariant
                i <= list@.len(),
                list@.len() == 32,
                basic_types().len() == 32,
                forall|j: int| 0 <= j < 32 ==> (#[trigger] list@[j]).0@ == basic_types()[j].0 && list@[j].1@
                    == basic_types()[j].1,
                entries_view(structs@) == basic_table(xsd_uri(), i as nat),
            decreases list@.len() - i,
        {
            let (n, x) = basic_impl("http://www.w3.org/2001/XMLSchema", list[i].0, list[i].1);
            put_exec(&mut structs, n, x);
            i += 1;
        }
        proof {
            lemma_basic_table_sorted(xsd_uri(), 32);
        }
        XsdContext { namespace: tag.scope, xml_schema_prefix: None, structs }
    }

    /// The context of a schema document: the namespaces in force at its
    /// `schema` tag, and the built-in simple types under the XML Schema
    /// namespace. A document without a `schema` tag of that namespace is
    /// refused.
    pub fn new(content: &str) -> (r: Result<Self, XsdError>)
        ensures
            match r {
                Ok(c) => schema_tag_pos(xml_events(content@)) >= 0 && c@ == initial_context(
                    schema_tag(xml_events(content@)),
                ) && names_sorted(c@.structs),
                Err(e) => schema_tag_pos(xml_events(content@)) < 0 && no_schema_error(e),
            },
    {
        let mut events = read_events(content);
        let ghost tv = xml_events(content@);
        let mut i: usize = 0;
        while i < events.len()
            invariant
                i <= events@.len(),
                events_view(events@) == tv,
                tv == xml_events(content@),
                forall|j: int| 0 <= j < i ==> !opens_schema(#[trigger] tv[j]),
            decreases events@.len() - i,
        {
            assert(tv[i as int] == events@[i as int]@);
            let is_schema = match &events[i] {
                ReadEvent::Start(tag) => match &tag.namespace {
                    Some(ns) => str_eq(ns.as_str(), "http://www.w3.org/2001/XMLSchema") && str_eq(
                        tag.local_name.as_str(),
                        "schema",
                    ),
                    None => false,
                },
                _ => false,
            };
            if is_schema {
                proof {
                    lemma_schema_tag_pos(tv);
                    let p = schema_tag_pos(tv);
                    assert(opens_schema(tv[i as int]));
                    if p >= 0 && p < i {
                        assert(!opens_schema(tv[p]));
                    }
                    assert(p == i);
                }
                match events.remove(i) {
                    ReadEvent::Start(tag) => {
                        return Ok(Self::with_basic_types(tag));
                    },
                    _ => {
                        assert(false);
                    },
                }
            }
            i += 1;
        }
        proof {
            lemma_schema_tag_pos(tv);
            let p = schema_tag_pos(tv);
            if p >= 0 {
                assert(!opens_schema(tv[p]));
            }
        }
        Err(XsdError::XsdIoError(crate::names::XsdIoError::XsdParseError(crate::names::XsdParseError {
            node_name: "schema".to_owned(),
            msg: "Bad XML Schema, unable to found schema element.".to_owned(),
        })))
    }
}


proof fn lemma_schema_tag_pos(events: Seq<ReadEventView>)
    ensures
        -1 <= schema_tag_pos(events) < events.len(),
        schema_tag_pos(events) >= 0 ==> opens_schema(events[schema_tag_pos(events)]),
        forall|j: int|
            0 <= j < events.len() && (schema_tag_pos(events) < 0 || j < schema_tag_pos(events)) ==> !opens_schema(
                #[trigger] events[j],
            ),
    decreases events.len(),
{
    if events.len() > 0 {
        lemma_schema_tag_pos(events.drop_first());
        assert forall|j: int| 0 < j < events.len() implies #[trigger] events[j] == events.drop_first()[j - 1] by {}
    }
}


fn type_taken_exec(t: &Vec<(XsdName, XsdImpl)>, text: &str) -> (r: bool)
    ensures
        r == type_taken(entries_view(t@), text@),
{
    let ghost tv = entries_view(t@);
    let mut i: usize = 0;
    while i < t.len()
        invariant
            i <= t@.len(),
            tv == entries_view(t@),
            forall|j: int| 0 <= j < i ==> type_text(element_type((#[trigger] tv[j]).1.element)) != text@,
        decreases t@.len() - i,
    {
        let s2 = t[i].1.element.get_type().to_string();
        assert(tv[i as int] == entry_view(t@[i as int]));
        if str_eq(s2.as_str(), text) {
            return true;
        }
        i += 1;
    }
    false
}

impl XsdContext {
    /// The URI that `namespace` stands for in the context, or `namespace`
    /// itself where it stands for none.
    fn resolve_namespace(&self, namespace: Option<&str>) -> (r: Option<String>)
        ensures
            opt_str_view(r) == resolve(self@.namespace, match namespace {
                Some(p) => Some(p@),
                None => None,
            }),
    {
        match namespace {
            Some(ns) => match namespace_get(&self.namespace, ns) {
                Some(uri) => Some(uri),
                None => Some(ns.to_owned()),
            },
            None => None,
        }
    }

    fn key_of(&self, name: &XsdName) -> (r: XsdName)
        ensures
            r@ == resolved_key(self@, name@),
    {
        let ns = match &name.namespace {
            Some(n) => self.resolve_namespace(Some(n.as_str())),
            None => self.resolve_namespace(None),
        };
        XsdName { namespace: ns, local_name: name.local_name.clone(), ty: name.ty }
    }

    /// Takes out the piece kept under `name` (its namespace resolved).
    pub fn remove_impl(&mut self, name: &XsdName) -> (r: Option<XsdImpl>)
        ensures
            final(self)@ == (XsdContextView {
                structs: take_out(old(self)@.structs, resolved_key(old(self)@, name@)),
                ..old(self)@
            }),
            match r {
                Some(x) => lookup(old(self)@.structs, resolved_key(old(self)@, name@)) == Some(x@),
                None => lookup(old(self)@.structs, resolved_key(old(self)@, name@)) is None,
            },
    {
        let key = self.key_of(name);
        proof {
            lemma_name_pos(entries_view(self.structs@), key@);
        }
        match find_entry(&self.structs, &key) {
            Some(i) => {
                let ghost tv = entries_view(self.structs@);
                let e = self.structs.remove(i);
                assert(entries_view(self.structs@) =~= tv.remove(i as int));
                Some(e.1)
            },
            None => None,
        }
    }

    /// Keeps `value` under `name` (its namespace resolved), in place of what
    /// was there; a piece whose type is written as that of a piece already
    /// kept is renamed first.
    pub fn insert_impl(&mut self, name: XsdName, value: XsdImpl)
        ensures
            final(self)@ == (XsdContextView {
                structs: put(
                    old(self)@.structs,
                    resolved_key(old(self)@, name@),
                    as_stored(old(self)@.structs, value@),
                ),
                ..old(self)@
            }),
    {
        let key = self.key_of(&name);
        let text = value.element.get_type().to_string();
        let stored = if type_taken_exec(&self.structs, text.as_str()) {
            crate::merge::rename_impl(value)
        } else {
            value
        };
        put_exec(&mut self.structs, key, stored);
    }

    /// Keeps `value` under `name` exactly as given: no namespace resolved,
    /// no renaming.
    pub(crate) fn insert_raw(&mut self, name: XsdName, value: XsdImpl)
        ensures
            final(self)@ == (XsdContextView { structs: put(old(self)@.structs, name@, value@), ..old(self)@ }),
    {
        put_exec(&mut self.structs, name, value);
    }

    /// The piece kept under `name` (its namespace resolved), if any.
    pub fn search(&self, name: &XsdName) -> (r: Option<&XsdImpl>)
        ensures
            match r {
                Some(x) => lookup(self@.structs, resolved_key(self@, name@)) == Some(x@),
                None => lookup(self@.structs, resolved_key(self@, name@)) is None,
            },
    {
        let key = self.key_of(name);
        proof {
            lemma_name_pos(entries_view(self.structs@), key@);
        }
        match find_entry(&self.structs, &key) {
            Some(i) => {
                assert(entries_view(self.structs@)[i as int] == entry_view(self.structs@[i as int]));
                Some(&self.structs[i].1)
            },
            None => None,
        }
    }

    /// Searches `name` under each of the kinds `types`: no match, the one
    /// match, or more than one.
    pub fn multi_search(&self, namespace: Option<String>, name: String, types: &[XsdType]) -> (r: SearchResult<'_>)
        ensures
            ({
                let found = found_under(self@, opt_str_view(namespace), name@, types@);
                match r {
                    SearchResult::NoMatches => found.len() == 0,
                    SearchResult::SingleMatch(x) => found.len() == 1 && found[0] == x@,
                    SearchResult::MultipleMatches => found.len() >= 2,
                }
            }),
    {
        let mut output = SearchResult::NoMatches;
        let mut i: usize = 0;
        while i < types.len()
            invariant
                i <= types@.len(),
                ({
                    let found = found_under(self@, opt_str_view(namespace), name@, types@.take(i as int));
                    match output {
                        SearchResult::NoMatches => found.len() == 0,
                        SearchResult::SingleMatch(x) => found.len() == 1 && found[0] == x@,
                        SearchResult::MultipleMatches => false,
                    }
                }),
            decreases types@.len() - i,
        {
            let n = XsdName { namespace: clone_opt_str(&namespace), local_name: name.clone(), ty: types[i] };
            proof {
                assert(types@.take(i + 1).drop_last() =~= types@.take(i as int));
            }
            match self.search(&n) {
                Some(result) => {
                    if let SearchResult::SingleMatch(_) = output {
                        proof {
                            lemma_found_under_grows(self@, opt_str_view(namespace), name@, types@, i as int);
                        }
                        return SearchResult::MultipleMatches;
                    }
                    output = SearchResult::SingleMatch(result);
                },
                None => {},
            }
            i += 1;
        }
        proof {
            assert(types@.take(i as int) =~= types@);
        }
        output
    }
}

proof fn lemma_found_under_grows(
    c: XsdContextView,
    namespace: Option<Seq<char>>,
    name: Seq<char>,
    types: Seq<XsdType>,
    i: int,
)
    requires
        0 <= i < types.len(),
    ensures
        found_under(c, namespace, name, types).len() >= found_under(c, namespace, name, types.take(i + 1)).len(),
    decreases types.len(),
{
    if i + 1 < types.len() {
        lemma_found_under_grows(c, namespace, name, types.drop_last(), i);
        assert(types.drop_last().take(i + 1) =~= types.take(i + 1));
    } else {
        assert(types.take(i + 1) =~= types);
    }
}

} // verus!
