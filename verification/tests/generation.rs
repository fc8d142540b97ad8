use xml_schema_parser::components::SchemaOptions;
use xml_schema_parser::xsd::Xsd;
use xml_schema_parser::{XsdError, XsdIoError, XsdName, XsdType};

const SCHEMA: &str = r#"<xs:schema xmlns:xs="http://www.w3.org/2001/XMLSchema" targetNamespace="urn:t">
  <xs:complexType name="Person">
    <xs:sequence>
      <xs:element name="first-name" type="xs:string"/>
      <xs:element name="age" type="xs:int" minOccurs="0"/>
    </xs:sequence>
    <xs:attribute name="id" type="xs:string" use="required"/>
  </xs:complexType>
  <xs:simpleType name="Colour">
    <xs:restriction base="xs:string">
      <xs:enumeration value="red"/>
      <xs:enumeration value="green"/>
    </xs:restriction>
  </xs:simpleType>
</xs:schema>"#;

#[test]
fn schema_reads_and_is_ready() {
    let x = Xsd::new(SCHEMA).unwrap();
    assert!(x.is_ready());
    assert_eq!(x.schema.children.len(), 2);
    assert_eq!(x.schema.target_namespace.as_deref(), Some("urn:t"));
}

#[test]
fn schema_generates_code_for_its_types() {
    let mut x = Xsd::new(SCHEMA).unwrap();
    let text = x.generate(&None).unwrap();
    assert!(text.starts_with(
        "use xml_schema_parser::{XsdIoError, XsdGenError, XMLElement, XsdType, XsdGen, GenState, GenType, Date, FromXmlString, RestrictedVec};\n\n"
    ));
    assert!(text.contains("pub struct Person"));
    assert!(text.contains("first_name"));
    assert!(text.contains("pub enum Colour"));
}

#[test]
fn unnamed_top_level_type_is_not_ready() {
    let x = Xsd::new(
        r#"<xs:schema xmlns:xs="http://www.w3.org/2001/XMLSchema"><xs:complexType><xs:sequence/></xs:complexType></xs:schema>"#,
    )
    .unwrap();
    assert!(!x.is_ready());
}

#[test]
fn document_that_is_not_xml_is_refused() {
    let r = Xsd::new("<xs:schema xmlns:xs=\"http://www.w3.org/2001/XMLSchema\">");
    assert!(matches!(r, Err(XsdError::XmlParseError(_))));
}

#[test]
fn document_without_schema_tag_is_refused() {
    let r = Xsd::new("<root/>");
    match r {
        Err(XsdError::XsdIoError(XsdIoError::XsdParseError(p))) => assert_eq!(p.node_name, "schema"),
        _ => panic!("a missing schema tag was expected"),
    }
}

#[test]
fn schema_that_does_not_read_is_refused() {
    let r = Xsd::new(
        r#"<xs:schema xmlns:xs="http://www.w3.org/2001/XMLSchema"><xs:element ref="a"/></xs:schema>"#,
    );
    assert!(matches!(r, Err(XsdError::XsdIoError(_))));
}

#[test]
fn imported_schema_brings_its_types() {
    let mut main = Xsd::new(
        r#"<xs:schema xmlns:xs="http://www.w3.org/2001/XMLSchema" targetNamespace="urn:m">
             <xs:import namespace="urn:o" schemaLocation="o.xsd"/>
           </xs:schema>"#,
    )
    .unwrap();
    let other = Xsd::new(
        r#"<xs:schema xmlns:xs="http://www.w3.org/2001/XMLSchema" targetNamespace="urn:o">
             <xs:complexType name="Other"><xs:sequence><xs:element name="v" type="xs:string"/></xs:sequence></xs:complexType>
           </xs:schema>"#,
    )
    .unwrap();
    assert!(other.is_ready());
    let Xsd { context, schema } = &mut main;
    match &schema.children[0] {
        SchemaOptions::Import(import) => import.absorb(other, context).unwrap(),
        _ => panic!("an import was expected"),
    }
    let mut name = XsdName::new("Other", XsdType::ComplexType);
    name.namespace = Some("urn:o".to_string());
    assert!(main.context.search(&name).is_some());
}

#[test]
fn filling_names_every_top_level_component() {
    let mut x = Xsd::new(SCHEMA).unwrap();
    let names = x.schema.fill_context(&mut x.context, None).unwrap();
    let shown: Vec<String> = names.iter().map(|n| n.local_name.clone()).collect();
    assert_eq!(shown.len(), 2);
    assert!(shown.contains(&"Person".to_string()));
    assert!(shown.contains(&"Colour".to_string()));
    for n in names.iter() {
        assert!(x.context.search(n).is_some());
    }
}

#[test]
fn filling_keeps_only_the_names_of_the_filter() {
    let mut x = Xsd::new(SCHEMA).unwrap();
    let names = x.schema.fill_context(&mut x.context, Some("urn:other")).unwrap();
    assert!(names.is_empty());
    let mut y = Xsd::new(SCHEMA).unwrap();
    let kept = y.schema.fill_context(&mut y.context, Some("urn:t")).unwrap();
    assert_eq!(kept.len(), 2);
}

#[test]
fn component_that_never_resolves_is_reported_missing() {
    let mut x = Xsd::new(
        r#"<xs:schema xmlns:xs="http://www.w3.org/2001/XMLSchema" targetNamespace="urn:t">
             <xs:complexType name="Holder"><xs:sequence><xs:element name="v" type="Nowhere"/></xs:sequence></xs:complexType>
           </xs:schema>"#,
    )
    .unwrap();
    match x.generate(&None) {
        Err(XsdError::XsdMissing(m)) => assert!(m.starts_with("COULD NOT FIND:\n")),
        Err(e) => panic!("a missing component was expected, got {:?}", e),
        Ok(_) => panic!("a missing component was expected"),
    }
}

#[test]
fn top_level_element_with_a_reference_is_refused_by_itself() {
    let r = Xsd::new(
        r#"<xs:schema xmlns:xs="http://www.w3.org/2001/XMLSchema"><xs:element name="a" ref="b"/></xs:schema>"#,
    );
    match r {
        Err(XsdError::XsdIoError(XsdIoError::XsdParseError(p))) => assert_eq!(p.node_name, "element"),
        _ => panic!("a refusal of the element was expected"),
    }
}

#[test]
fn schema_tag_after_other_events_is_found() {
    let x = Xsd::new(
        "<?xml version=\"1.0\"?>\n<!-- a comment -->\n<xs:schema xmlns:xs=\"http://www.w3.org/2001/XMLSchema\" xmlns:t=\"urn:t\"/>",
    )
    .unwrap();
    assert_eq!(x.context.namespace.get("t"), Some("urn:t"));
    assert!(x.schema.children.is_empty());
}
