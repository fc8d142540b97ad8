# xml_schema_parser

Reads an XML Schema (XSD) document and generates Rust types for it. Verus
proves, among other things: that each schema reader succeeds exactly on the
elements its `*_reads` spec describes and returns what its `*_is` relation
says of the document; that the context keeps its pieces ordered by name and
that a search finds what was inserted; that each generator returns what its
spec in `gen_spec` gives; that filling a schema's context ends as the
round-by-round description `fill_end` in `schema_fill` says (the names kept,
the missing components reported, or a component's error passed on), and that
generation and imports follow from it; that every reading error is a parse
error, and a refusal of a node's own shape names that node; that merging
keeps a piece's identity and only appends; that asking a scope twice for
the same module changes nothing; and that each `XsdGen` reader of generated
code (values, optional values, vectors, bounded vectors) reads what its
`gen_gives` says and only ever takes attributes and children out of the
element, so that a repeated read ends.

- `src/` is the library. Reading: `xml_doc` (elements as the reader sees them),
  `schema_read` and `schema_parse` (each schema component from its element),
  `schema_spec` (when reading a component succeeds), `schema_rel` (what reading
  gives back). The context of a schema:
  `registry` (namespaces and the generated pieces, kept by name), `context`,
  `merge`. Generation: `gen_spec` (what each component generates), `gen_lists`,
  `gen_impl`, `gen_complex`, `xsdgen`, `schema_fill`, `xsd_output`, `xsd`.
  Writing code: `code_model`, `code_build`, `code_items`, `code_tree`,
  `code_doc`, `code_fmt`, `code_scope`, `code_eq`. Values: `runtime` (with the
  `XsdGen` readers of generated code), `dates`, `names`, `text`.
  Properties of the operations taken together: `laws`.
- `app/main.rs` is the command line: it reads a schema from a file or a URL,
  brings in the schemas it imports, and prints or writes the generated code.
- `tests/` runs the library on concrete documents.
