use xml_schema_parser::components::{
    Annotation, Attribute, Choice, Element, Enumeration, Extension, Group, Import, List, MaxOccurences,
    Qualification, Required, Restriction, RestrictionParentType, Schema, SchemaOptions, SimpleType, Union,
};
use xml_schema_parser::names::{XsdIoError, XsdType};
use xml_schema_parser::xml_doc::XMLElement;

fn element_of(text: &str) -> XMLElement {
    XMLElement::parse(text.as_bytes()).expect("well-formed test document")
}

fn parse_message(e: XsdIoError) -> (String, String) {
    match e {
        XsdIoError::XsdParseError(p) => (p.node_name, p.msg),
        XsdIoError::XsdGenError(_) => panic!("a reading error was expected"),
    }
}

#[test]
fn enumeration_reads_its_value() {
    let e = Enumeration::parse(element_of(r#"<enumeration value="Red"/>"#)).unwrap();
    assert_eq!(e.value, "Red");
}

#[test]
fn enumeration_with_another_tag_is_refused() {
    let e = Enumeration::parse(element_of(r#"<list value="Red"/>"#)).unwrap_err();
    let (node, msg) = parse_message(e);
    assert_eq!(node, "list");
    assert_eq!(msg, "Unexpected element name enumeration expected list");
}

#[test]
fn enumeration_without_value_is_refused() {
    let (node, msg) = parse_message(Enumeration::parse(element_of("<enumeration/>")).unwrap_err());
    assert_eq!(node, "enumeration");
    assert_eq!(msg, "value not found");
}

#[test]
fn enumeration_with_an_unread_attribute_is_refused() {
    let e = Enumeration::parse(element_of(r#"<enumeration value="A" other="B"/>"#)).unwrap_err();
    let (_, msg) = parse_message(e);
    assert_eq!(msg, "Unused nodes found in enumeration; [extra attributes] other");
}

#[test]
fn enumeration_with_an_unread_child_is_refused() {
    let e = Enumeration::parse(element_of(r#"<enumeration value="A"><x/></enumeration>"#)).unwrap_err();
    let (_, msg) = parse_message(e);
    assert_eq!(msg, "Unused nodes found in enumeration; [extra children] x");
}

#[test]
fn list_reads_a_prefixed_item_type() {
    let l = List::parse(element_of(r#"<list itemType="xs:string"/>"#)).unwrap();
    assert_eq!(l.item_type.namespace.as_deref(), Some("xs"));
    assert_eq!(l.item_type.local_name, "string");
    assert!(l.item_type.ty == XsdType::SimpleType);
}

#[test]
fn list_name_without_prefix_takes_the_default_namespace() {
    let mut el = element_of(r#"<list itemType="colour"/>"#);
    el.default_namespace = Some("urn:example".to_string());
    let l = List::parse(el).unwrap();
    assert_eq!(l.item_type.namespace.as_deref(), Some("urn:example"));
    assert_eq!(l.item_type.local_name, "colour");
}

#[test]
fn import_reads_its_attributes() {
    let i = Import::parse(element_of(r#"<import namespace="urn:a" schemaLocation="a.xsd"/>"#)).unwrap();
    assert_eq!(i.id, None);
    assert_eq!(i.namespace.as_deref(), Some("urn:a"));
    assert_eq!(i.schema_location.as_deref(), Some("a.xsd"));
}

#[test]
fn annotation_widens_tabs() {
    let a = Annotation::parse(element_of(
        "<annotation id=\"n\"><documentation>a\tb</documentation><documentation/></annotation>",
    ))
    .unwrap();
    assert_eq!(a.id.as_deref(), Some("n"));
    assert_eq!(a.documentation, vec!["a  b".to_string()]);
    assert_eq!(a.get_doc(), vec!["a  b".to_string()]);
}

#[test]
fn attribute_with_name_and_ref_is_refused() {
    let e = Attribute::parse(element_of(r#"<attribute name="a" ref="b"/>"#)).unwrap_err();
    let (node, msg) = parse_message(e);
    assert_eq!(node, "attribute");
    assert_eq!(msg, "name and ref cannot both present");
}

#[test]
fn attribute_with_type_and_simple_type_is_refused() {
    let e = Attribute::parse(element_of(
        r#"<attribute name="a" type="xs:string"><simpleType><restriction base="xs:string"/></simpleType></attribute>"#,
    ))
    .unwrap_err();
    assert_eq!(parse_message(e).1, "simpleType and type cannot both present");
}

#[test]
fn attribute_reads_use_and_defaults() {
    let a = Attribute::parse(element_of(r#"<attribute name="a" type="xs:int" use="required" default="3"/>"#))
        .unwrap();
    assert_eq!(a.name.unwrap().local_name, "a");
    assert!(a.required == Required::Required);
    assert_eq!(a.default.as_deref(), Some("3"));
    let t = a.type_ref.unwrap();
    assert_eq!(t.namespace.as_deref(), Some("xs"));
    assert_eq!(t.local_name, "int");
    let b = Attribute::parse(element_of(r#"<attribute name="b"/>"#)).unwrap();
    assert!(b.required == Required::Optional);
}

#[test]
fn attribute_with_a_bad_use_is_refused() {
    let e = Attribute::parse(element_of(r#"<attribute name="a" use="always"/>"#)).unwrap_err();
    assert_eq!(
        parse_message(e).1,
        "error converting use from text: always is not a valid value for optional|required"
    );
}

#[test]
fn simple_type_name_depends_on_its_parent() {
    let top = SimpleType::parse(element_of(r#"<simpleType><restriction base="xs:string"/></simpleType>"#), true)
        .unwrap_err();
    assert_eq!(parse_message(top).1, "The name attribute is required if the parent node is a schema.");
    let inner = SimpleType::parse(
        element_of(r#"<simpleType name="n"><restriction base="xs:string"/></simpleType>"#),
        false,
    )
    .unwrap_err();
    assert_eq!(parse_message(inner).1, "The name attribute is not allowed if the parent of node is not a schema.");
    let ok = SimpleType::parse(element_of(r#"<simpleType name="n"><list itemType="xs:int"/></simpleType>"#), true)
        .unwrap();
    assert!(ok.list.is_some() && ok.restriction.is_none());
}

#[test]
fn restriction_reads_facets() {
    let r = Restriction::parse(
        RestrictionParentType::SimpleType,
        element_of(
            r#"<restriction base="xs:int"><minInclusive value="-3"/><maxInclusive value="40"/><enumeration value="1"/><enumeration value="2"/><whitespace value="collapse"/></restriction>"#,
        ),
    )
    .unwrap();
    assert_eq!(r.base.local_name, "int");
    assert_eq!(r.min_inclusive, Some(-3));
    assert_eq!(r.max_inclusive, Some(40));
    assert_eq!(r.enumerations, vec!["1".to_string(), "2".to_string()]);
    assert!(r.whitespace == Some(xml_schema_parser::components::Whitespace::Collapse));
}

#[test]
fn restriction_of_a_simple_type_takes_no_particles() {
    let e = Restriction::parse(
        RestrictionParentType::SimpleType,
        element_of(r#"<restriction base="xs:int"><sequence/></restriction>"#),
    )
    .unwrap_err();
    assert_eq!(
        parse_message(e).1,
        "choice | group | sequence | attribute | attributeGroup cannot be present in node when the parent is a simple type."
    );
}

#[test]
fn union_splits_member_types() {
    let u = Union::parse(element_of("<union memberTypes=\"xs:int  a:b\n c\"/>")).unwrap();
    let names: Vec<String> = u.member_types.iter().map(|n| n.local_name.clone()).collect();
    assert_eq!(names, vec!["int".to_string(), "b".to_string(), "c".to_string()]);
    assert_eq!(u.member_types[1].namespace.as_deref(), Some("a"));
}

#[test]
fn element_under_schema_needs_a_name_and_no_ref() {
    let e = Element::parse(element_of(r#"<element ref="xs:foo"/>"#), true).unwrap_err();
    assert_eq!(parse_message(e).1, "name attribute cannot be absent when parent is the schema tag.");
    let e = Element::parse(element_of(r#"<element name="a" ref="xs:foo"/>"#), true).unwrap_err();
    assert_eq!(parse_message(e).1, "ref attribute (xs:foo) cannot be present when parent is the schema tag.");
}

#[test]
fn element_reads_occurrences() {
    let e = Element::parse(element_of(r#"<element name="a" type="xs:int" minOccurs="0" maxOccurs="unbounded"/>"#), false)
        .unwrap();
    assert_eq!(e.min_occurences, 0);
    assert!(e.max_occurences == MaxOccurences::Unbounded);
    assert!(e.is_multiple());
    assert!(!e.could_be_none());
    let f = Element::parse(element_of(r#"<element name="b" minOccurs="0"/>"#), false).unwrap();
    assert!(f.max_occurences == MaxOccurences::Number { value: 1 });
    assert!(f.could_be_none());
    assert!(!f.is_multiple());
}

#[test]
fn element_with_a_bad_min_occurs_is_refused() {
    let e = Element::parse(element_of(r#"<element name="a" minOccurs="x"/>"#), false).unwrap_err();
    assert_eq!(parse_message(e).1, "error converting minOccurs from text: invalid digit found in string");
}

#[test]
fn group_with_sequence_and_choice_is_refused() {
    let e = Group::parse(element_of(r#"<group name="g"><sequence/><choice/></group>"#)).unwrap_err();
    assert_eq!(parse_message(e).1, "sequence and choice cannot both present in");
    let g = Group::parse(element_of(r#"<group name="g"><sequence/></group>"#)).unwrap();
    assert!(g.needs_define());
    let r = Group::parse(element_of(r#"<group ref="g"/>"#)).unwrap();
    assert!(!r.needs_define());
}

#[test]
fn choice_keeps_its_options_in_order() {
    let c = Choice::parse(element_of(
        r#"<choice maxOccurs="2"><element name="a"/><sequence/><group ref="g"/></choice>"#,
    ))
    .unwrap();
    assert_eq!(c.children.len(), 3);
    assert!(c.max_occurences == MaxOccurences::Number { value: 2 });
    assert_eq!(c.min_occurences, 1);
}

#[test]
fn choice_with_a_foreign_child_is_refused() {
    let e = Choice::parse(element_of(r#"<choice><annotation/></choice>"#)).unwrap_err();
    assert_eq!(parse_message(e).1, "Unexpected child name annotation");
}

#[test]
fn extension_reads_its_base() {
    let x = Extension::parse(element_of(r#"<extension base="xs:string"><attribute name="a"/></extension>"#)).unwrap();
    assert_eq!(x.base.local_name, "string");
    assert_eq!(x.attributes.len(), 1);
    let e = Extension::parse(element_of(r#"<extension base="b"><attribute name="a"/><sequence/></extension>"#))
        .unwrap_err();
    assert_eq!(parse_message(e).1, "(group | choice | sequence) and (attribute | attributeGroup) cannot both present");
}

#[test]
fn schema_reads_components_and_defaults() {
    let s = Schema::parse(element_of(
        r#"<xs:schema xmlns:xs="http://www.w3.org/2001/XMLSchema" targetNamespace="urn:t" elementFormDefault="qualified">
             <xs:element name="root" type="xs:string"/>
             <xs:complexType name="T"><xs:sequence/></xs:complexType>
           </xs:schema>"#,
    ))
    .unwrap();
    assert_eq!(s.target_namespace.as_deref(), Some("urn:t"));
    assert!(s.element_form_default == Qualification::Qualidified);
    assert!(s.attribute_form_default == Qualification::Unqualified);
    assert_eq!(s.children.len(), 2);
    match &s.children[0] {
        SchemaOptions::Element(e) => {
            let n = e.name.as_ref().unwrap();
            assert_eq!(n.local_name, "root");
            assert_eq!(n.namespace.as_deref(), Some("urn:t"));
        },
        _ => panic!("an element was expected first"),
    }
}

#[test]
fn schema_with_another_root_is_refused() {
    let e = Schema::parse(element_of("<element/>")).unwrap_err();
    assert_eq!(parse_message(e).1, "Unexpected element name schema expected element");
}

#[test]
fn complex_type_content_comes_alone() {
    let e = xml_schema_parser::components::ComplexType::parse(element_of(
        r#"<complexType name="T"><simpleContent><extension base="xs:string"/></simpleContent><attribute name="a"/></complexType>"#,
    ))
    .unwrap_err();
    assert_eq!(
        parse_message(e).1,
        "(simpleContent | complexContent) and (group | choice | sequence | attribute | attributeGroup) cannot both present"
    );
    let ok = xml_schema_parser::components::ComplexType::parse(element_of(
        r#"<complexType name="T"><sequence><element name="a" type="xs:int"/></sequence><attribute name="b"/></complexType>"#,
    ))
    .unwrap();
    assert!(ok.sequence.is_some());
    assert_eq!(ok.attributes.len(), 1);
}

#[test]
fn simple_content_takes_one_derivation() {
    let e = xml_schema_parser::components::SimpleContent::parse(element_of(
        r#"<simpleContent><restriction base="xs:string"/><extension base="xs:string"/></simpleContent>"#,
    ))
    .unwrap_err();
    assert_eq!(parse_message(e).1, "extension and restriction cannot both present in simpleContent");
}

#[test]
fn two_children_where_one_is_allowed_are_refused() {
    let e = SimpleType::parse(
        element_of(r#"<simpleType><list itemType="a"/><list itemType="b"/></simpleType>"#),
        false,
    )
    .unwrap_err();
    assert_eq!(parse_message(e).1, "Expected 0 or 1 children named list found 2");
}

#[test]
fn a_bad_nested_child_fails_its_parent() {
    let e = Group::parse(element_of(r#"<group name="g"><sequence><element name="x" minOccurs="-1"/></sequence></group>"#))
        .unwrap_err();
    let (node, msg) = parse_message(e);
    assert_eq!(node, "element");
    assert_eq!(msg, "error converting minOccurs from text: invalid digit found in string");
}

#[test]
fn import_with_id_reads_all_three() {
    let i = Import::parse(element_of(r#"<import id="i" namespace="n" schemaLocation="s"/>"#)).unwrap();
    assert_eq!(i.id.as_deref(), Some("i"));
    assert_eq!(i.namespace.as_deref(), Some("n"));
    assert_eq!(i.schema_location.as_deref(), Some("s"));
}

#[test]
fn children_handed_to_a_reader_come_back_in_order() {
    let mut e = element_of("<a><b>1</b><c>9</c><b>2</b></a>");
    let v: Vec<u64> = e.get_children_with("b", |mut c| c.get_content()).unwrap();
    assert_eq!(v, vec![1, 2]);
    let rest: Vec<u64> = e.get_children_with("b", |mut c| c.get_content()).unwrap();
    assert!(rest.is_empty());
}

#[test]
fn first_error_of_a_child_reader_is_returned() {
    let mut e = element_of("<a><b>1</b><b>x</b><b>y</b></a>");
    let r: Result<Vec<u64>, XsdIoError> = e.get_children_with("b", |mut c| c.get_content());
    match r {
        Err(XsdIoError::XsdParseError(p)) => assert_eq!(p.node_name, "b"),
        _ => panic!("an error of the second child was expected"),
    }
}

#[test]
fn filtered_children_keep_only_what_the_reader_gives() {
    let mut e = element_of("<a><b>1</b><b>2</b><b>3</b></a>");
    let v: Vec<u64> = e
        .get_children_with_filter("b", |mut c| {
            let n: u64 = c.get_content()?;
            Ok(if n == 2 { None } else { Some(n) })
        })
        .unwrap();
    assert_eq!(v, vec![1, 3]);
}

#[test]
fn one_child_handed_to_a_reader() {
    let mut e = element_of("<a><b>7</b><c>1</c><c>2</c></a>");
    let v: u64 = e.get_child_with("b", |mut c| c.get_content()).unwrap();
    assert_eq!(v, 7);
    let none: Option<u64> = e.try_get_child_with("d", |mut c| c.get_content()).unwrap();
    assert_eq!(none, None);
    let two: Result<Option<u64>, XsdIoError> = e.try_get_child_with("c", |mut c| c.get_content());
    assert!(matches!(two, Err(XsdIoError::XsdParseError(_))));
    let missing: Result<u64, XsdIoError> = e.get_child_with("b", |mut c| c.get_content());
    assert!(matches!(missing, Err(XsdIoError::XsdParseError(_))));
}

#[test]
fn absent_attribute_reads_as_the_default() {
    let mut e = element_of("<a n=\"4\"/>");
    let n: u64 = e.get_attribute_default("n").unwrap();
    assert_eq!(n, 4);
    let m: u64 = e.get_attribute_default("m").unwrap();
    assert_eq!(m, 0);
    let again: u64 = e.get_attribute_default("n").unwrap();
    assert_eq!(again, 0);
}
