use xml_schema_parser::registry::XsdContext;

#[test]
fn bad_schema_definition() {
    let context = XsdContext::new(
        r#"
    <xs:schema
      xmlns="http://www.w3.org/2001/XMLSchema"
      >
    </xs:schema>
  "#,
    );

    assert!(context.is_err());
}
