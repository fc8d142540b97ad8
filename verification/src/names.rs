//! Names of schema components, their kinds, the errors of reading and
//! generating, and the conversion of schema names to Rust identifiers.
use heck::{CamelCase, SnakeCase};
use vstd::prelude::*;

use crate::text::{chars_of, concat, concat3, replace_char, replace_char_spec, split_once, split_once_spec, str_eq, str_less, str_lt};

verus! {

/// Error raised while reading a schema node.
#[derive(Debug)]
pub struct XsdParseError {
    pub node_name: String,
    pub msg: String,
}

/// Error raised while generating code for a schema node.
#[derive(Debug)]
pub struct XsdGenError {
    pub node_name: String,
    pub ty: XsdType,
    pub msg: String,
}

/// Either kind of input/output error.
#[derive(Debug)]
pub enum XsdIoError {
    XsdParseError(XsdParseError),
    XsdGenError(XsdGenError),
}

/// The kind of schema component a name refers to.
#[derive(Copy, Clone, Debug, PartialEq, Eq, Structural)]
pub enum XsdType {
    Annotation,
    AttributeGroup,
    Attribute,
    Choice,
    ComplexContent,
    ComplexType,
    Element,
    Extension,
    Group,
    Import,
    List,
    Restriction,
    Sequence,
    SimpleContent,
    SimpleType,
    Union,
    Unknown,
}

/// Position of each kind in declaration order, which is the order of kinds.
pub open spec fn xsd_type_rank(t: XsdType) -> nat {
    match t {
        XsdType::Annotation => 0,
        XsdType::AttributeGroup => 1,
        XsdType::Attribute => 2,
        XsdType::Choice => 3,
        XsdType::ComplexContent => 4,
        XsdType::ComplexType => 5,
        XsdType::Element => 6,
        XsdType::Extension => 7,
        XsdType::Group => 8,
        XsdType::Import => 9,
        XsdType::List => 10,
        XsdType::Restriction => 11,
        XsdType::Sequence => 12,
        XsdType::SimpleContent => 13,
        XsdType::SimpleType => 14,
        XsdType::Union => 15,
        XsdType::Unknown => 16,
    }
}

pub fn xsd_type_position(t: XsdType) -> (r: u8)
    ensures
        r as nat == xsd_type_rank(t),
{
    match t {
        XsdType::Annotation => 0,
        XsdType::AttributeGroup => 1,
        XsdType::Attribute => 2,
        XsdType::Choice => 3,
        XsdType::ComplexContent => 4,
        XsdType::ComplexType => 5,
        XsdType::Element => 6,
        XsdType::Extension => 7,
        XsdType::Group => 8,
        XsdType::Import => 9,
        XsdType::List => 10,
        XsdType::Restriction => 11,
        XsdType::Sequence => 12,
        XsdType::SimpleContent => 13,
        XsdType::SimpleType => 14,
        XsdType::Union => 15,
        XsdType::Unknown => 16,
    }
}

/// The variant's name, as `{:?}` prints it.
pub open spec fn xsd_type_label(t: XsdType) -> Seq<char> {
    match t {
        XsdType::Annotation => "Annotation"@,
        XsdType::AttributeGroup => "AttributeGroup"@,
        XsdType::Attribute => "Attribute"@,
        XsdType::Choice => "Choice"@,
        XsdType::ComplexContent => "ComplexContent"@,
        XsdType::ComplexType => "ComplexType"@,
        XsdType::Element => "Element"@,
        XsdType::Extension => "Extension"@,
        XsdType::Group => "Group"@,
        XsdType::Import => "Import"@,
        XsdType::List => "List"@,
        XsdType::Restriction => "Restriction"@,
        XsdType::Sequence => "Sequence"@,
        XsdType::SimpleContent => "SimpleContent"@,
        XsdType::SimpleType => "SimpleType"@,
        XsdType::Union => "Union"@,
        XsdType::Unknown => "Unknown"@,
    }
}

impl XsdType {
    /// The variant's name, as the derived `Debug` prints it.
    pub fn label(&self) -> (r: String)
        ensures
            r@ == xsd_type_label(*self),
    {
        let s = match self {
            XsdType::Annotation => "Annotation",
            XsdType::AttributeGroup => "AttributeGroup",
            XsdType::Attribute => "Attribute",
            XsdType::Choice => "Choice",
            XsdType::ComplexContent => "ComplexContent",
            XsdType::ComplexType => "ComplexType",
            XsdType::Element => "Element",
            XsdType::Extension => "Extension",
            XsdType::Group => "Group",
            XsdType::Import => "Import",
            XsdType::List => "List",
            XsdType::Restriction => "Restriction",
            XsdType::Sequence => "Sequence",
            XsdType::SimpleContent => "SimpleContent",
            XsdType::SimpleType => "SimpleType",
            XsdType::Union => "Union",
            XsdType::Unknown => "Unknown",
        };
        s.to_owned()
    }
}

/// A possibly namespaced name of a schema component of a given kind.
#[derive(Debug)]
pub struct XsdName {
    pub namespace: Option<String>,
    pub local_name: String,
    pub ty: XsdType,
}

pub struct XsdNameView {
    pub namespace: Option<Seq<char>>,
    pub local_name: Seq<char>,
    pub ty: XsdType,
}

pub open spec fn opt_str_view(o: Option<String>) -> Option<Seq<char>> {
    match o {
        Some(s) => Some(s@),
        None => None,
    }
}

pub fn clone_opt_str(o: &Option<String>) -> (r: Option<String>)
    ensures
        opt_str_view(r) == opt_str_view(*o),
{
    match o {
        Some(s) => Some(s.clone()),
        None => None,
    }
}

pub fn opt_str_eq(a: &Option<String>, b: &Option<String>) -> (r: bool)
    ensures
        r == (opt_str_view(*a) == opt_str_view(*b)),
{
    match (a, b) {
        (Some(x), Some(y)) => str_eq(x.as_str(), y.as_str()),
        (None, None) => true,
        _ => false,
    }
}

impl View for XsdName {
    type V = XsdNameView;

    open spec fn view(&self) -> XsdNameView {
        XsdNameView { namespace: opt_str_view(self.namespace), local_name: self.local_name@, ty: self.ty }
    }
}

impl Clone for XsdName {
    fn clone(&self) -> (r: Self)
        ensures
            r@ == self@,
    {
        XsdName {
            namespace: clone_opt_str(&self.namespace),
            local_name: self.local_name.clone(),
            ty: self.ty,
        }
    }
}

pub open spec fn opt_name_view(o: Option<XsdName>) -> Option<XsdNameView> {
    match o {
        Some(n) => Some(n@),
        None => None,
    }
}

pub fn clone_opt_name(o: &Option<XsdName>) -> (r: Option<XsdName>)
    ensures
        opt_name_view(r) == opt_name_view(*o),
{
    match o {
        Some(n) => Some(n.clone()),
        None => None,
    }
}

/// Order of optional strings: `None` first, then by string order.
pub open spec fn opt_str_lt(a: Option<Seq<char>>, b: Option<Seq<char>>) -> bool {
    match (a, b) {
        (None, Some(_)) => true,
        (Some(x), Some(y)) => str_lt(x, y),
        _ => false,
    }
}

/// The order of names: by namespace, then local name, then kind.
pub open spec fn name_lt(a: XsdNameView, b: XsdNameView) -> bool {
    ||| opt_str_lt(a.namespace, b.namespace)
    ||| (a.namespace == b.namespace && str_lt(a.local_name, b.local_name))
    ||| (a.namespace == b.namespace && a.local_name == b.local_name && xsd_type_rank(a.ty)
        < xsd_type_rank(b.ty))
}

pub fn opt_str_less(a: &Option<String>, b: &Option<String>) -> (r: bool)
    ensures
        r == opt_str_lt(opt_str_view(*a), opt_str_view(*b)),
{
    match (a, b) {
        (None, Some(_)) => true,
        (Some(x), Some(y)) => str_less(x.as_str(), y.as_str()),
        _ => false,
    }
}

/// The display form of a name: `namespace:local` or `local`.
pub open spec fn name_display(n: XsdNameView) -> Seq<char> {
    match n.namespace {
        Some(ns) => ns + ":"@ + n.local_name,
        None => n.local_name,
    }
}

impl XsdName {
    /// A name read from `name`: the text before a `:` is its namespace.
    pub fn new(name: &str, ty: XsdType) -> (r: Self)
        ensures
            r@.ty == ty,
            match split_once_spec(name@, ':') {
                Some((lhs, rhs)) => r@.namespace == Some(lhs) && r@.local_name == rhs,
                None => r@.namespace is None && r@.local_name == name@,
            },
    {
        match split_once(name, ':') {
            Some((lhs, rhs)) => XsdName { namespace: Some(lhs), local_name: rhs, ty },
            None => XsdName { namespace: None, local_name: name.to_owned(), ty },
        }
    }

    /// As `new`, with `namespace` as the namespace of a name without one.
    pub fn new_namespace(name: &str, ty: XsdType, namespace: Option<&str>) -> (r: Self)
        ensures
            r@.ty == ty,
            match split_once_spec(name@, ':') {
                Some((lhs, rhs)) => r@.namespace == Some(lhs) && r@.local_name == rhs,
                None => r@.local_name == name@ && r@.namespace == match namespace {
                    Some(ns) => Some(ns@),
                    None => None::<Seq<char>>,
                },
            },
    {
        match split_once(name, ':') {
            Some((lhs, rhs)) => XsdName { namespace: Some(lhs), local_name: rhs, ty },
            None => {
                let ns = match namespace {
                    Some(s) => Some(s.to_owned()),
                    None => None,
                };
                XsdName { namespace: ns, local_name: name.to_owned(), ty }
            },
        }
    }

    /// The Rust type name of this name.
    pub fn to_struct_name(&self) -> (r: String)
        ensures
            r@ == struct_name_spec(self.local_name@),
    {
        to_struct_name(self.local_name.as_str())
    }

    /// The Rust field name of this name.
    pub fn to_field_name(&self) -> (r: String)
        ensures
            r@ == field_name_spec(self.local_name@),
    {
        to_field_name(self.local_name.as_str())
    }

    /// The display form (`namespace:local` or `local`).
    pub fn display_string(&self) -> (r: String)
        ensures
            r@ == name_display(self@),
    {
        match &self.namespace {
            Some(ns) => concat3(ns.as_str(), ":", self.local_name.as_str()),
            None => self.local_name.clone(),
        }
    }

    /// Whether two names are equal.
    pub fn same_as(&self, other: &XsdName) -> (r: bool)
        ensures
            r == (self@ == other@),
    {
        opt_str_eq(&self.namespace, &other.namespace) && str_eq(
            self.local_name.as_str(),
            other.local_name.as_str(),
        ) && self.ty == other.ty
    }

    /// Whether this name comes before `other` in name order.
    pub fn precedes(&self, other: &XsdName) -> (r: bool)
        ensures
            r == name_lt(self@, other@),
    {
        if opt_str_less(&self.namespace, &other.namespace) {
            return true;
        }
        if !opt_str_eq(&self.namespace, &other.namespace) {
            return false;
        }
        if str_less(self.local_name.as_str(), other.local_name.as_str()) {
            return true;
        }
        if !str_eq(self.local_name.as_str(), other.local_name.as_str()) {
            return false;
        }
        xsd_type_position(self.ty) < xsd_type_position(other.ty)
    }
}

/// What `heck`'s `to_camel_case` returns for a string.
pub uninterp spec fn camel_case(s: Seq<char>) -> Seq<char>;

/// What `heck`'s `to_snake_case` returns for a string.
pub uninterp spec fn snake_case(s: Seq<char>) -> Seq<char>;

/// Whether `char::is_numeric` holds of a character (Unicode number classes).
pub uninterp spec fn char_numeric(c: char) -> bool;

/// Calls `heck::CamelCase::to_camel_case`; its result is named `camel_case`.
#[verifier::external_body]
fn heck_camel_case(s: &str) -> (r: String)
    ensures
        r@ == camel_case(s@),
{
    s.to_camel_case()
}

/// Calls `heck::SnakeCase::to_snake_case`; its result is named `snake_case`.
#[verifier::external_body]
fn heck_snake_case(s: &str) -> (r: String)
    ensures
        r@ == snake_case(s@),
{
    s.to_snake_case()
}

/// Calls `char::is_numeric`; std documents that ASCII digits are numeric.
#[verifier::external_body]
fn is_numeric_char(c: char) -> (r: bool)
    ensures
        r == char_numeric(c),
        '0' <= c <= '9' ==> r,
{
    c.is_numeric()
}

/// A camel-case identifier made safe to start a Rust type name: prefixed
/// with `_` when its first character is numeric.
pub open spec fn guard_leading_number(camel: Seq<char>) -> Seq<char> {
    if camel.len() > 0 && char_numeric(camel[0]) {
        "_"@ + camel
    } else {
        camel
    }
}

/// The Rust type name for a schema name: dots become underscores, the
/// result is camel-cased, and a leading number gets a `_` prefix.
pub open spec fn struct_name_spec(name: Seq<char>) -> Seq<char> {
    guard_leading_number(camel_case(replace_char_spec(name, '.', "_"@)))
}

/// A snake-case identifier made usable as a field name: `type` is a
/// keyword and becomes `r#type`.
pub open spec fn guard_keyword(snake: Seq<char>) -> Seq<char> {
    if snake == "type"@ {
        "r#type"@
    } else {
        snake
    }
}

/// The Rust field name for a schema name.
pub open spec fn field_name_spec(name: Seq<char>) -> Seq<char> {
    guard_keyword(snake_case(name))
}

/// Prefixes a camel-case identifier with `_` when it starts with a number.
pub fn guard_struct_name(camel: String) -> (r: String)
    ensures
        r@ == guard_leading_number(camel@),
        camel@.len() > 0 && '0' <= camel@[0] <= '9' ==> r@ == "_"@ + camel@,
{
    let cs = chars_of(camel.as_str());
    if cs.len() > 0 && is_numeric_char(cs[0]) {
        concat("_", camel.as_str())
    } else {
        camel
    }
}

/// Replaces the keyword `type` by the raw identifier `r#type`.
pub fn guard_field_name(snake: String) -> (r: String)
    ensures
        r@ == guard_keyword(snake@),
{
    if str_eq(snake.as_str(), "type") {
        "r#type".to_owned()
    } else {
        snake
    }
}

/// The Rust type name for a schema name.
pub fn to_struct_name(name: &str) -> (r: String)
    ensures
        r@ == struct_name_spec(name@),
        ({
            let camel = camel_case(replace_char_spec(name@, '.', "_"@));
            camel.len() > 0 && '0' <= camel[0] <= '9' ==> r@ == "_"@ + camel
        }),
{
    let dotless = replace_char(name, '.', "_");
    let output = heck_camel_case(dotless.as_str());
    guard_struct_name(output)
}

/// The Rust field name for a schema name.
pub fn to_field_name(name: &str) -> (r: String)
    ensures
        r@ == field_name_spec(name@),
{
    let name = heck_snake_case(name);
    guard_field_name(name)
}

/// The message of a read error.
pub open spec fn parse_error_message(node: Seq<char>, msg: Seq<char>) -> Seq<char> {
    "Error parsing xml node["@ + node + "]: "@ + msg
}

/// The message of a generation error.
pub open spec fn gen_error_message(node: Seq<char>, ty: XsdType, msg: Seq<char>) -> Seq<char> {
    "Error generating xsd node ["@ + node + "; "@ + xsd_type_label(ty) + "]: "@ + msg
}

impl XsdIoError {
    /// The error's message.
    pub fn message(&self) -> (r: String)
        ensures
            r@ == match self {
                XsdIoError::XsdParseError(e) => parse_error_message(e.node_name@, e.msg@),
                XsdIoError::XsdGenError(e) => gen_error_message(e.node_name@, e.ty, e.msg@),
            },
    {
        match self {
            XsdIoError::XsdParseError(e) => {
                let mut s = concat3("Error parsing xml node[", e.node_name.as_str(), "]: ");
                s.push_str(e.msg.as_str());
                s
            },
            XsdIoError::XsdGenError(e) => {
                let mut s = concat3("Error generating xsd node [", e.node_name.as_str(), "; ");
                let label = e.ty.label();
                s.push_str(label.as_str());
                s.push_str("]: ");
                s.push_str(e.msg.as_str());
                s
            },
        }
    }
}

} // verus!
