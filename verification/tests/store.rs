use xml_schema_parser::code_model::{Scope, Struct};
use xml_schema_parser::code_model::Type;
use xml_schema_parser::context::{XsdElement, XsdImpl};
use xml_schema_parser::names::{XsdName, XsdType};
use xml_schema_parser::registry::XsdContext;

const SCHEMA: &str = r#"<xs:schema xmlns:xs="http://www.w3.org/2001/XMLSchema" targetNamespace="urn:t"></xs:schema>"#;

fn piece(name: &str) -> XsdImpl {
    XsdImpl {
        name: XsdName::new(name, XsdType::ComplexType),
        fieldname_hint: None,
        element: XsdElement::Type(Type::new(None, name)),
        inner: vec![],
        implementation: vec![],
        flatten: false,
    }
}

#[test]
fn context_knows_the_basic_types() {
    let c = XsdContext::new(SCHEMA).unwrap();
    let s = c.search(&XsdName::new("xs:string", XsdType::SimpleType)).unwrap();
    assert_eq!(s.element.get_type().name, "String");
    let d = c.search(&XsdName::new("xs:date", XsdType::SimpleType)).unwrap();
    assert_eq!(d.element.get_type().name, "Date");
    assert!(c.search(&XsdName::new("xs:nothing", XsdType::SimpleType)).is_none());
}

#[test]
fn search_finds_what_was_inserted() {
    let mut c = XsdContext::new(SCHEMA).unwrap();
    c.insert_impl(XsdName::new("Foo", XsdType::ComplexType), piece("Foo"));
    let found = c.search(&XsdName::new("Foo", XsdType::ComplexType)).unwrap();
    assert_eq!(found.element.get_type().name, "Foo");
    assert!(c.search(&XsdName::new("Foo", XsdType::Element)).is_none());
}

#[test]
fn insert_leaves_other_names() {
    let mut c = XsdContext::new(SCHEMA).unwrap();
    c.insert_impl(XsdName::new("Foo", XsdType::ComplexType), piece("Foo"));
    let s = c.search(&XsdName::new("xs:int", XsdType::SimpleType)).unwrap();
    assert_eq!(s.element.get_type().name, "i32");
}

#[test]
fn remove_takes_out_what_was_inserted() {
    let mut c = XsdContext::new(SCHEMA).unwrap();
    c.insert_impl(XsdName::new("Foo", XsdType::ComplexType), piece("Foo"));
    let taken = c.remove_impl(&XsdName::new("Foo", XsdType::ComplexType)).unwrap();
    assert_eq!(taken.element.get_type().name, "Foo");
    assert!(c.search(&XsdName::new("Foo", XsdType::ComplexType)).is_none());
    assert!(c.remove_impl(&XsdName::new("Foo", XsdType::ComplexType)).is_none());
    assert!(c.search(&XsdName::new("xs:int", XsdType::SimpleType)).is_some());
}

#[test]
fn a_taken_type_name_is_stored_renamed() {
    let mut c = XsdContext::new(SCHEMA).unwrap();
    let first = XsdImpl {
        name: XsdName::new("Foo", XsdType::ComplexType),
        fieldname_hint: None,
        element: XsdElement::Struct(Struct::new(None, "Foo")),
        inner: vec![],
        implementation: vec![],
        flatten: false,
    };
    let second = XsdImpl {
        name: XsdName::new("Foo", XsdType::Element),
        fieldname_hint: None,
        element: XsdElement::Struct(Struct::new(None, "Foo")),
        inner: vec![],
        implementation: vec![],
        flatten: false,
    };
    c.insert_impl(XsdName::new("Foo", XsdType::ComplexType), first);
    c.insert_impl(XsdName::new("Foo", XsdType::Element), second);
    let a = c.search(&XsdName::new("Foo", XsdType::ComplexType)).unwrap();
    let b = c.search(&XsdName::new("Foo", XsdType::Element)).unwrap();
    assert_eq!(a.element.get_type().name, "Foo");
    assert_eq!(b.element.get_type().name, "FooElement");
}

#[test]
fn names_show_as_read() {
    let n = XsdName::new("xs:foo", XsdType::Element);
    assert_eq!(n.display_string(), "xs:foo");
    assert_eq!(XsdName::new("bar", XsdType::Element).display_string(), "bar");
    let m = XsdName::new("a:b:c", XsdType::Element);
    assert_eq!(m.namespace.as_deref(), Some("a"));
    assert_eq!(m.local_name, "b:c");
    assert_eq!(m.display_string(), "a:b:c");
}

#[test]
fn rust_names_of_schema_names() {
    assert_eq!(xml_schema_parser::names::to_struct_name("my-name"), "MyName");
    assert_eq!(xml_schema_parser::names::to_field_name("MyName"), "my_name");
    assert_eq!(xml_schema_parser::names::to_field_name("type"), "r#type");
    assert_eq!(xml_schema_parser::names::to_struct_name("1st"), "_1st");
}

#[test]
fn missing_schema_tag_is_refused() {
    assert!(XsdContext::new("<root/>").is_err());
}

#[test]
fn struct_from_builders_prints() {
    let mut s = Struct::new(None, "Foo");
    s.derive("Debug");
    s.field(None, "one", Type::new(None, "usize"), false, false);
    let mut scope = Scope::new();
    scope.push_struct(s);
    let text = scope.to_string();
    assert!(text.contains("struct Foo"));
    assert!(text.contains("one: usize"));
}

#[test]
fn asking_twice_for_a_module_adds_it_once() {
    let mut scope = Scope::new();
    scope.get_or_new_module("m").new_struct(None, "Inner");
    let before = scope.items.len();
    let m = scope.get_or_new_module("m");
    assert_eq!(m.name, "m");
    assert_eq!(scope.items.len(), before);
    assert_eq!(before, 1);
    let text = scope.to_string();
    assert_eq!(text.matches("mod m").count(), 1);
    assert!(text.contains("struct Inner"));
}
