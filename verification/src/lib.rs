pub mod text;
pub mod names;
pub mod code_model;
pub mod code_doc;
pub mod code_fmt;
pub mod code_scope;
pub mod code_build;
pub mod code_items;
pub mod code_tree;
pub mod code_eq;
pub mod context;
pub mod merge;
pub mod registry;
pub mod xsdgen;
pub mod runtime;
pub mod xml_doc;
pub mod components;
pub mod gen_spec;
pub mod gen_lists;
pub mod gen_impl;
pub mod gen_complex;
pub mod schema_fill;
pub mod xsd_output;
pub mod schema_read;
pub mod schema_parse;
pub mod laws;
pub mod dates;
pub mod xsd;
pub mod schema_spec;
pub mod schema_rel;

pub use dates::Date;
pub use names::{XsdGenError, XsdIoError, XsdName, XsdType};
pub use registry::XsdError;
pub use runtime::{FromXmlString, GenState, GenType, RestrictedVec, XsdGen};
pub use xml_doc::XMLElement;
pub use xsd::Xsd;

