//! The components of an XML Schema, as read from a schema document.
use vstd::prelude::*;

use crate::names::XsdName;
use crate::runtime::{parse_unsigned, parse_unsigned_spec, FromXmlString};
use crate::text::{concat, str_eq};

verus! {

/// Documentation of a component.
#[derive(Debug)]
pub struct Annotation {
    pub id: Option<String>,
    pub documentation: Vec<String>,
}

impl Annotation {
    /// The documentation lines.
    pub fn get_doc(&self) -> (r: Vec<String>)
        ensures
            crate::text::strs_view(r@) == crate::text::strs_view(self.documentation@),
    {
        crate::code_model::clone_strings(&self.documentation)
    }
}

/// Whether an attribute must be present.
#[derive(Clone, Copy, Debug, PartialEq, Eq, Structural)]
pub enum Required {
    Optional,
    Required,
}

impl Default for Required {
    fn default() -> (r: Self)
        ensures
            r == Required::Optional,
    {
        Required::Optional
    }
}

impl FromXmlString for Required {
    open spec fn reads_as(s: Seq<char>, v: Required) -> bool {
        (s == "optional"@ && v == Required::Optional) || (s == "required"@ && v == Required::Required)
    }

    open spec fn fails_with(s: Seq<char>, msg: Seq<char>) -> bool {
        s != "optional"@ && s != "required"@ && msg == s + " is not a valid value for optional|required"@
    }

    fn from_xml(string: &str) -> (r: Result<Required, String>) {
        if str_eq(string, "optional") {
            Ok(Required::Optional)
        } else if str_eq(string, "required") {
            Ok(Required::Required)
        } else {
            Err(concat(string, " is not a valid value for optional|required"))
        }
    }
}

/// Whether names of a schema are qualified.
#[derive(Clone, Copy, Debug, PartialEq, Eq, Structural)]
pub enum Qualification {
    Qualidified,
    Unqualified,
}

impl Default for Qualification {
    fn default() -> (r: Self)
        ensures
            r == Qualification::Unqualified,
    {
        Qualification::Unqualified
    }
}

impl FromXmlString for Qualification {
    open spec fn reads_as(s: Seq<char>, v: Qualification) -> bool {
        (s == "qualified"@ && v == Qualification::Qualidified) || (s == "unqualified"@ && v
            == Qualification::Unqualified)
    }

    open spec fn fails_with(s: Seq<char>, msg: Seq<char>) -> bool {
        s != "qualified"@ && s != "unqualified"@ && msg == s + " is not a valid value for qualified|unqualified"@
    }

    fn from_xml(string: &str) -> (r: Result<Qualification, String>) {
        if str_eq(string, "qualified") {
            Ok(Qualification::Qualidified)
        } else if str_eq(string, "unqualified") {
            Ok(Qualification::Unqualified)
        } else {
            Err(concat(string, " is not a valid value for qualified|unqualified"))
        }
    }
}

/// How white space in a value is handled.
#[derive(Clone, Copy, Debug, PartialEq, Eq, Structural)]
pub enum Whitespace {
    Preserve,
    Replace,
    Collapse,
}

impl Default for Whitespace {
    fn default() -> (r: Self)
        ensures
            r == Whitespace::Preserve,
    {
        Whitespace::Preserve
    }
}

impl FromXmlString for Whitespace {
    open spec fn reads_as(s: Seq<char>, v: Whitespace) -> bool {
        (s == "preserve"@ && v == Whitespace::Preserve) || (s == "replace"@ && v == Whitespace::Replace) || (s
            == "collapse"@ && v == Whitespace::Collapse)
    }

    open spec fn fails_with(s: Seq<char>, msg: Seq<char>) -> bool {
        s != "preserve"@ && s != "replace"@ && s != "collapse"@ && msg == s
            + " is not a recognized whitespace value; expected (preserve|replace|collapse)."@
    }

    fn from_xml(string: &str) -> (r: Result<Whitespace, String>) {
        if str_eq(string, "preserve") {
            Ok(Whitespace::Preserve)
        } else if str_eq(string, "replace") {
            Ok(Whitespace::Replace)
        } else if str_eq(string, "collapse") {
            Ok(Whitespace::Collapse)
        } else {
            Err(concat(string, " is not a recognized whitespace value; expected (preserve|replace|collapse)."))
        }
    }
}

/// The most times a component may occur.
#[derive(Clone, Copy, Debug, PartialEq, Eq, Structural)]
pub enum MaxOccurences {
    Unbounded,
    Number { value: u32 },
}

impl Default for MaxOccurences {
    fn default() -> (r: Self)
        ensures
            r == (MaxOccurences::Number { value: 1 }),
    {
        MaxOccurences::Number { value: 1 }
    }
}

impl FromXmlString for MaxOccurences {
    open spec fn reads_as(s: Seq<char>, v: MaxOccurences) -> bool {
        if s == "unbounded"@ {
            v == MaxOccurences::Unbounded
        } else {
            v matches MaxOccurences::Number { value } && parse_unsigned_spec(s, u32::MAX as nat) == Ok::<
                nat,
                Seq<char>,
            >(value as nat)
        }
    }

    open spec fn fails_with(s: Seq<char>, msg: Seq<char>) -> bool {
        s != "unbounded"@ && parse_unsigned_spec(s, u32::MAX as nat) == Err::<nat, Seq<char>>(msg)
    }

    fn from_xml(string: &str) -> (r: Result<MaxOccurences, String>) {
        if str_eq(string, "unbounded") {
            Ok(MaxOccurences::Unbounded)
        } else {
            match parse_unsigned(string, u32::MAX as u64) {
                Ok(v) => Ok(MaxOccurences::Number { value: v as u32 }),
                Err(e) => Err(e),
            }
        }
    }
}

/// What a restriction restricts.
#[derive(Clone, Copy, Debug, PartialEq, Eq, Structural)]
pub enum RestrictionParentType {
    SimpleType,
    ComplexContent,
    SimpleContent,
}

/// An `attribute` declaration.
#[derive(Debug)]
pub struct Attribute {
    pub annotation: Option<Annotation>,
    pub name: Option<XsdName>,
    pub type_ref: Option<XsdName>,
    pub default: Option<String>,
    pub fixed: Option<String>,
    pub required: Required,
    pub reference: Option<XsdName>,
    pub simple_type: Option<SimpleType>,
}

/// An `attributeGroup` definition or reference.
#[derive(Debug)]
pub struct AttributeGroup {
    pub name: Option<XsdName>,
    pub reference: Option<XsdName>,
    pub annotation: Option<Annotation>,
    pub attributes: Vec<Attribute>,
    pub attribute_groups: Vec<AttributeGroup>,
}

/// A `choice` between particles.
#[derive(Debug)]
pub struct Choice {
    pub id: Option<String>,
    pub min_occurences: u64,
    pub max_occurences: MaxOccurences,
    pub children: Vec<ChoiceOptions>,
}

/// One particle of a choice.
#[derive(Debug)]
pub enum ChoiceOptions {
    Element(Element),
    Group(Group),
    Choice(Choice),
    Sequence(Sequence),
}

/// A `complexContent` of a complex type.
#[derive(Debug)]
pub struct ComplexContent {
    pub extension: Option<Extension>,
    pub restriction: Option<Restriction>,
}

/// A `complexType` definition.
#[derive(Debug)]
pub struct ComplexType {
    pub name: Option<XsdName>,
    pub attributes: Vec<Attribute>,
    pub attribute_groups: Vec<AttributeGroup>,
    pub choice: Option<Choice>,
    pub group: Option<Group>,
    pub sequence: Option<Sequence>,
    pub simple_content: Option<SimpleContent>,
    pub complex_content: Option<ComplexContent>,
    pub annotation: Option<Annotation>,
}

/// An `element` declaration.
#[derive(Debug)]
pub struct Element {
    pub name: Option<XsdName>,
    pub kind: Option<XsdName>,
    pub refers: Option<XsdName>,
    pub min_occurences: u64,
    pub final_value: Option<String>,
    pub block: Option<String>,
    pub max_occurences: MaxOccurences,
    pub complex_type: Option<ComplexType>,
    pub simple_type: Option<SimpleType>,
    pub annotation: Option<Annotation>,
}

/// Whether an element occurs more than once: at most more than once, or at
/// least more than once.
pub open spec fn element_is_multiple(e: Element) -> bool {
    (match e.max_occurences {
        MaxOccurences::Unbounded => true,
        MaxOccurences::Number { value } => value > 1,
    }) || e.min_occurences > 1
}

/// Whether an element occurs at most once and may be absent.
pub open spec fn element_could_be_none(e: Element) -> bool {
    (match e.max_occurences {
        MaxOccurences::Unbounded => false,
        MaxOccurences::Number { value } => value == 1,
    }) && e.min_occurences == 0
}

impl Element {
    /// Whether the element occurs more than once.
    pub fn is_multiple(&self) -> (r: bool)
        ensures
            r == element_is_multiple(*self),
    {
        (match &self.max_occurences {
            MaxOccurences::Unbounded => true,
            MaxOccurences::Number { value } => *value > 1,
        }) || self.min_occurences > 1
    }

    /// Whether the element occurs at most once and may be absent.
    pub fn could_be_none(&self) -> (r: bool)
        ensures
            r == element_could_be_none(*self),
    {
        (match &self.max_occurences {
            MaxOccurences::Unbounded => false,
            MaxOccurences::Number { value } => *value == 1,
        }) && self.min_occurences == 0
    }
}

/// An `enumeration` facet.
#[derive(Debug)]
pub struct Enumeration {
    pub value: String,
}

/// An `extension` of a base type.
#[derive(Debug)]
pub struct Extension {
    pub base: XsdName,
    pub attributes: Vec<Attribute>,
    pub attribute_groups: Vec<AttributeGroup>,
    pub sequence: Option<Sequence>,
    pub group: Option<Group>,
    pub choice: Option<Choice>,
    pub annotation: Option<Annotation>,
}

/// A `group` definition or reference.
#[derive(Debug)]
pub struct Group {
    pub id: Option<String>,
    pub name: Option<XsdName>,
    pub refers: Option<XsdName>,
    pub min_occurences: u64,
    pub max_occurences: MaxOccurences,
    pub annotation: Option<Annotation>,
    pub sequence: Option<Sequence>,
    pub choice: Option<Choice>,
}

impl Group {
    /// Whether the group is a definition, which needs a type of its own,
    /// rather than a reference: it has a name.
    pub fn needs_define(&self) -> (r: bool)
        ensures
            r == self.name is Some,
    {
        self.name.is_some()
    }
}

/// An `import` of another schema.
#[derive(Debug)]
pub struct Import {
    pub id: Option<String>,
    pub namespace: Option<String>,
    pub schema_location: Option<String>,
}

/// A `list` of a simple type.
#[derive(Debug)]
pub struct List {
    pub item_type: XsdName,
}

/// A `restriction` of a base type.
#[derive(Debug)]
pub struct Restriction {
    pub base: XsdName,
    pub min_inclusive: Option<i64>,
    pub max_inclusive: Option<i64>,
    pub min_exclusive: Option<i64>,
    pub max_exclusive: Option<i64>,
    pub total_digits: Option<i64>,
    pub fraction_digits: Option<i64>,
    pub enumerations: Vec<String>,
    pub pattern: Option<String>,
    pub whitespace: Option<Whitespace>,
    pub length: Option<i64>,
    pub min_length: Option<i64>,
    pub max_length: Option<i64>,
    pub annotation: Option<Annotation>,
    pub choice: Option<Choice>,
    pub group: Option<Group>,
    pub sequence: Option<Sequence>,
    pub attributes: Vec<Attribute>,
    pub attribute_groups: Vec<AttributeGroup>,
}

/// A top-level component of a schema.
#[derive(Debug)]
pub enum SchemaOptions {
    Import(Import),
    Annotation(Annotation),
    Element(Element),
    SimpleType(SimpleType),
    ComplexType(ComplexType),
    Attribute(Attribute),
    AttributeGroup(AttributeGroup),
    Group(Group),
}

/// A schema: its target namespace, defaults, components and the attributes
/// of its `schema` tag that were not read.
#[derive(Debug)]
pub struct Schema {
    pub target_namespace: Option<String>,
    pub element_form_default: Qualification,
    pub attribute_form_default: Qualification,
    pub children: Vec<SchemaOptions>,
    pub extra: Vec<(String, String)>,
}

/// A `sequence` of particles.
#[derive(Debug)]
pub struct Sequence {
    pub id: Option<String>,
    pub min_occurences: u64,
    pub max_occurences: MaxOccurences,
    pub annotation: Option<Annotation>,
    pub elements: Vec<Element>,
    pub groups: Vec<Group>,
    pub choices: Vec<Choice>,
    pub sequences: Vec<Sequence>,
}

/// A `simpleContent` of a complex type.
#[derive(Debug)]
pub struct SimpleContent {
    pub restriction: Option<Restriction>,
    pub extension: Option<Extension>,
}

/// A `simpleType` definition.
#[derive(Debug)]
pub struct SimpleType {
    pub name: Option<XsdName>,
    pub annotation: Option<Annotation>,
    pub restriction: Option<Restriction>,
    pub list: Option<List>,
    pub union: Option<Union>,
}

/// A `union` of simple types.
#[derive(Debug)]
pub struct Union {
    pub member_types: Vec<XsdName>,
    pub simple_types: Vec<SimpleType>,
}

} // verus!
