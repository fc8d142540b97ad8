[package]
name = "xml_schema_parser"
version = "0.1.0"
edition = "2021"
publish = false

[dependencies]
heck = "=0.3.3"
xmltree = { version = "=0.10.3", features = ["attribute-order"] }
xml-rs = "=0.8.29"
indexmap = "=1.9.3"
chrono = "=0.4.45"
reqwest = { version = "=0.11.27", default-features = false, features = ["blocking"] }
