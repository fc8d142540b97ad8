use xml_schema_parser::names::XsdIoError;
use xml_schema_parser::xml_doc::XMLElement;
use xml_schema_parser::{GenState, GenType, RestrictedVec, XsdGen};

fn element_of(text: &str) -> XMLElement {
    XMLElement::parse(text.as_bytes()).expect("well-formed test document")
}

fn attrs() -> GenState {
    GenState { is_root: true, state: GenType::Attribute }
}

fn content() -> GenState {
    GenState { is_root: true, state: GenType::Content }
}

#[test]
fn value_is_read_from_its_attribute_and_taken_out() {
    let mut e = element_of("<a n=\"12\" m=\"x\"/>");
    let n = <u64 as XsdGen>::gen(&mut e, attrs(), Some("n")).unwrap();
    assert_eq!(n, 12);
    assert!(!e.has_attr("n"));
    assert!(e.has_attr("m"));
    let again = <u64 as XsdGen>::gen(&mut e, attrs(), Some("n"));
    match again {
        Err(XsdIoError::XsdParseError(p)) => assert_eq!(p.msg, "n not found"),
        _ => panic!("a missing attribute was expected"),
    }
}

#[test]
fn value_from_attributes_needs_a_name() {
    let mut e = element_of("<a n=\"12\"/>");
    let r = <u64 as XsdGen>::gen(&mut e, attrs(), None);
    match r {
        Err(XsdIoError::XsdGenError(g)) => assert_eq!(g.node_name, "a"),
        _ => panic!("a generation error was expected"),
    }
}

#[test]
fn value_is_read_from_its_child_or_its_own_text() {
    let mut e = element_of("<a><v>7</v></a>");
    let v = <u64 as XsdGen>::gen(&mut e, content(), Some("v")).unwrap();
    assert_eq!(v, 7);
    let mut t = element_of("<t>hello</t>");
    let s = <String as XsdGen>::gen(&mut t, content(), None).unwrap();
    assert_eq!(s, "hello");
    let mut empty = element_of("<t/>");
    let s2 = <String as XsdGen>::gen(&mut empty, content(), None).unwrap();
    assert_eq!(s2, "");
    let mut bad = element_of("<t/>");
    let r = <u64 as XsdGen>::gen(&mut bad, content(), None);
    match r {
        Err(XsdIoError::XsdParseError(p)) => assert_eq!(p.msg, "failed to convert text to T"),
        _ => panic!("a refusal was expected"),
    }
}

#[test]
fn optional_value_is_none_where_absent() {
    let mut e = element_of("<a n=\"3\"><v>4</v></a>");
    let n = <Option<u64> as XsdGen>::gen(&mut e, attrs(), Some("n")).unwrap();
    assert_eq!(n, Some(3));
    let m = <Option<u64> as XsdGen>::gen(&mut e, attrs(), Some("m")).unwrap();
    assert_eq!(m, None);
    let v = <Option<u64> as XsdGen>::gen(&mut e, content(), Some("v")).unwrap();
    assert_eq!(v, Some(4));
    let w = <Option<u64> as XsdGen>::gen(&mut e, content(), Some("w")).unwrap();
    assert_eq!(w, None);
}

#[test]
fn optional_value_without_a_name_leaves_the_element_on_failure() {
    let mut e = element_of("<a k=\"1\"/>");
    let r = <Option<u64> as XsdGen>::gen(&mut e, content(), None).unwrap();
    assert_eq!(r, None);
    assert!(e.has_attr("k"));
}

#[test]
fn repeated_children_are_read_in_order() {
    let mut e = element_of("<a><v>1</v><w>9</w><v>2</v></a>");
    let v = <Vec<u64> as XsdGen>::gen(&mut e, content(), Some("v")).unwrap();
    assert_eq!(v, vec![1, 2]);
    let w = <Vec<u64> as XsdGen>::gen(&mut e, content(), Some("w")).unwrap();
    assert_eq!(w, vec![9]);
    let none = <Vec<u64> as XsdGen>::gen(&mut e, content(), Some("v")).unwrap();
    assert!(none.is_empty());
}

#[test]
fn repeated_read_stops_when_nothing_is_taken() {
    let mut e = element_of("<t>5</t>");
    let v = <Vec<u64> as XsdGen>::gen(&mut e, content(), None).unwrap();
    assert!(v.is_empty());
    let mut a = element_of("<a n=\"8\"/>");
    let one = <Vec<u64> as XsdGen>::gen(&mut a, attrs(), Some("n")).unwrap();
    assert_eq!(one, vec![8]);
}

#[test]
fn bounded_vector_checks_its_length() {
    let mut e = element_of("<a><v>1</v><v>2</v><v>3</v></a>");
    let r = <RestrictedVec<u64, 1, 2> as XsdGen>::gen(&mut e, content(), Some("v"));
    match r {
        Err(XsdIoError::XsdParseError(p)) => {
            assert_eq!(p.node_name, "a");
            assert_eq!(p.msg, "Generated vector length is greater than the maximuim size (3 > 2)");
        }
        _ => panic!("a refusal was expected"),
    }
    let mut f = element_of("<a><v>1</v><v>2</v></a>");
    let ok = <RestrictedVec<u64, 1, 2> as XsdGen>::gen(&mut f, content(), Some("v")).unwrap();
    assert_eq!(ok.as_vec(), &vec![1, 2]);
    let mut g = element_of("<a/>");
    let few = <RestrictedVec<u64, 1, 0> as XsdGen>::gen(&mut g, content(), Some("v"));
    match few {
        Err(XsdIoError::XsdParseError(p)) => {
            assert_eq!(p.msg, "Generated vector length is less than the minimum size (0 < 1)")
        }
        _ => panic!("a refusal was expected"),
    }
}

#[test]
fn copies_and_comparisons_of_elements() {
    let e = element_of("<a x=\"1\" y=\"2\"><b>t</b></a>");
    let c = e.duplicate();
    assert!(c.same_as(&e));
    let mut d = e.duplicate();
    let _: u64 = d.get_attribute("x").unwrap();
    assert!(!d.same_as(&e));
    let f = element_of("<a y=\"2\" x=\"1\"><b>t</b></a>");
    assert!(f.same_as(&e));
}
