//! The `XsdGen` and `FromXmlString` impl blocks that generated types get:
//! the code that reads a value of the type from an XML element.
use vstd::prelude::*;

use crate::code_items::{arg_view, body_push_view, new_fn_view};
use crate::code_model::{
    Block, BlockView, Body, BodyView, FieldView, Fields, FieldsView, Function, FunctionView, Impl,
    ImplView, TupleFieldView, Type, TypeView, VariantView, block_view, bodies_view,
    lemma_bodies_view_push, opt_bodies_view,
};
use crate::context::{element_type, type_text, XsdElement, XsdElementView, XsdImpl, XsdImplView};
use crate::names::{name_display, XsdNameView};
use crate::text::{concat, concat3, join, join_spec, strs_view};

verus! {

// ----- decimal numbers -----

/// The decimal digits of `n`.
pub open spec fn decimal(n: nat) -> Seq<char>
    decreases n,
{
    if n < 10 {
        seq![digit_char(n)]
    } else {
        decimal(n / 10) + seq![digit_char(n % 10)]
    }
}

pub open spec fn digit_char(d: nat) -> char {
    if d == 0 { '0' } else if d == 1 { '1' } else if d == 2 { '2' } else if d == 3 { '3' } else if d == 4 { '4' }
    else if d == 5 { '5' } else if d == 6 { '6' } else if d == 7 { '7' } else if d == 8 { '8' } else { '9' }
}

fn digit(d: usize) -> (r: char)
    requires
        d < 10,
    ensures
        r == digit_char(d as nat),
{
    if d == 0 { '0' } else if d == 1 { '1' } else if d == 2 { '2' } else if d == 3 { '3' } else if d == 4 { '4' }
    else if d == 5 { '5' } else if d == 6 { '6' } else if d == 7 { '7' } else if d == 8 { '8' } else { '9' }
}

/// The decimal digits of `n`, as `format!("{}", n)` writes them.
pub fn decimal_string(n: usize) -> (r: String)
    ensures
        r@ == decimal(n as nat),
    decreases n,
{
    if n < 10 {
        let mut s = String::new();
        s.push(digit(n));
        assert(s@ =~= seq![digit_char(n as nat)]);
        s
    } else {
        let mut s = decimal_string(n / 10);
        s.push(digit(n % 10));
        s
    }
}

// ----- blocks -----

/// An empty block opened by `before`.
pub open spec fn blk(before: Seq<char>) -> BlockView {
    BlockView { before: Some(before), after: None, body: seq![] }
}

pub open spec fn with_line(b: BlockView, l: Seq<char>) -> BlockView {
    BlockView { body: b.body.push(BodyView::Line(l)), ..b }
}

pub open spec fn with_block(b: BlockView, c: BlockView) -> BlockView {
    BlockView { body: b.body.push(BodyView::Block(c)), ..b }
}

pub open spec fn with_after(b: BlockView, a: Seq<char>) -> BlockView {
    BlockView { after: Some(a), ..b }
}

/// The block with the blocks `cs` nested in it one after the other.
pub open spec fn with_blocks(b: BlockView, cs: Seq<BlockView>) -> BlockView
    decreases cs.len(),
{
    if cs.len() == 0 {
        b
    } else {
        with_block(with_blocks(b, cs.drop_last()), cs.last())
    }
}

// ----- the XsdGen and FromXmlString impl blocks -----

/// Whether a block adds nothing around its lines: no text, or empty text,
/// before and after it.
pub open spec fn bare(b: BlockView) -> bool {
    (b.before is None || b.before == Some(Seq::<char>::empty())) && (b.after is None || b.after
        == Some(Seq::<char>::empty()))
}

/// The body a block gives a function: its lines where it is bare, or else
/// the block itself.
pub open spec fn body_of(b: BlockView) -> Seq<BodyView> {
    if bare(b) {
        b.body
    } else {
        seq![BodyView::Block(b)]
    }
}

pub open spec fn plain(name: Seq<char>) -> TypeView {
    TypeView { name, generics: seq![], xml_name: None, docs: None }
}

/// The `gen` function of an `XsdGen` impl with the given body.
pub open spec fn gen_fn_view(b: BlockView) -> FunctionView {
    FunctionView {
        args: seq![
            arg_view("element"@, plain("&mut XMLElement"@)),
            arg_view("mut gen_state"@, plain("GenState"@)),
            arg_view("name"@, plain("Option<&str>"@)),
        ],
        ret: Some(plain("Result<Self, XsdIoError>"@)),
        body: Some(body_of(b)),
        ..new_fn_view("gen"@)
    }
}

/// The `from_xml` function of a `FromXmlString` impl with the given body.
pub open spec fn from_xml_fn_view(b: BlockView) -> FunctionView {
    FunctionView {
        args: seq![arg_view("string"@, plain("&str"@))],
        ret: Some(plain("Result<Self, String>"@)),
        body: Some(body_of(b)),
        ..new_fn_view("from_xml"@)
    }
}

/// An impl of the trait `tr` for `t` with the one function `f`.
pub open spec fn trait_impl_view(t: TypeView, tr: Seq<char>, f: FunctionView) -> ImplView {
    ImplView {
        target: t,
        generics: seq![],
        impl_trait: Some(plain(tr)),
        assoc_tys: seq![],
        bounds: seq![],
        fns: seq![f],
        macros: seq![],
    }
}

fn is_bare(block: &Block) -> (r: bool)
    ensures
        r == bare(block_view(*block)),
{
    let skip_b = match &block.before {
        Some(b) => crate::text::chars_of(b.as_str()).len() == 0,
        None => true,
    };
    let skip_a = match &block.after {
        Some(a) => crate::text::chars_of(a.as_str()).len() == 0,
        None => true,
    };
    proof {
        if block.before is Some && block.before.unwrap()@.len() == 0 {
            assert(block.before.unwrap()@ =~= Seq::<char>::empty());
        }
        if block.after is Some && block.after.unwrap()@.len() == 0 {
            assert(block.after.unwrap()@ =~= Seq::<char>::empty());
        }
    }
    skip_b && skip_a
}

fn body_from(block: Block) -> (r: Vec<Body>)
    ensures
        bodies_view(r@) == body_of(block_view(block)),
{
    if is_bare(&block) {
        block.body
    } else {
        let ghost bv = block_view(block);
        let v = vec![Body::Block(block)];
        proof {
            lemma_bodies_view_push(Seq::<Body>::empty(), v@[0]);
            assert(v@ =~= Seq::<Body>::empty().push(v@[0]));
            assert(bodies_view(Seq::<Body>::empty()) =~= seq![]);
        }
        v
    }
}

/// The `XsdGen` impl for `ty` whose `gen` function runs `block` (its
/// lines alone where the block is bare).
pub fn xsdgen_impl(ty: Type, block: Block) -> (r: Impl)
    ensures
        r@ == trait_impl_view(ty@, "XsdGen"@, gen_fn_view(block_view(block))),
{
    let mut function = Function::new("gen").arg("element", Type::new(None, "&mut XMLElement")).arg(
        "mut gen_state",
        Type::new(None, "GenState"),
    ).arg("name", Type::new(None, "Option<&str>")).ret(Type::new(None, "Result<Self, XsdIoError>"));
    assert(function@.args =~= seq![
        arg_view("element"@, plain("&mut XMLElement"@)),
        arg_view("mut gen_state"@, plain("GenState"@)),
        arg_view("name"@, plain("Option<&str>"@)),
    ]);
    let body = body_from(block);
    function.body = Some(body);
    let r = Impl::new(ty).impl_trait(Type::new(None, "XsdGen")).push_fn(function);
    assert(r@.fns =~= seq![gen_fn_view(block_view(block))]);
    r
}

/// The `FromXmlString` impl for `ty` whose `from_xml` function runs
/// `block` (its lines alone where the block is bare).
pub fn fromxml_impl(ty: Type, block: Block) -> (r: Impl)
    ensures
        r@ == trait_impl_view(ty@, "FromXmlString"@, from_xml_fn_view(block_view(block))),
{
    let mut function = Function::new("from_xml").arg("string", Type::new(None, "&str")).ret(
        Type::new(None, "Result<Self, String>"),
    );
    let body = body_from(block);
    function.body = Some(body);
    let r = Impl::new(ty).impl_trait(Type::new(None, "FromXmlString")).push_fn(function);
    assert(r@.fns =~= seq![from_xml_fn_view(block_view(block))]);
    r
}


// ----- the code that reads a generated type -----

/// The state handed to the reader of a field.
pub open spec fn state_text(attr: bool) -> Seq<char> {
    if attr {
        "gen_state.to_attr()"@
    } else {
        "gen_state.clone()"@
    }
}

/// The name handed to the reader of a field: none for a flattened field,
/// the field's schema name, or else the name being read.
pub open spec fn xml_arg(flatten: bool, xml: Option<XsdNameView>) -> Seq<char> {
    if flatten {
        "None"@
    } else {
        match xml {
            Some(v) => "Some(\""@ + name_display(v) + "\")"@,
            None => "name"@,
        }
    }
}

/// Whether the reader of a field uses the name being read.
pub open spec fn needs_name(flatten: bool, xml: Option<XsdNameView>) -> bool {
    !flatten && xml is None
}

/// `<ty as XsdGen>::gen(target, state, xml)`.
pub open spec fn gen_call(ty: TypeView, target: Seq<char>, state: Seq<char>, xml: Seq<char>) -> Seq<char> {
    "<"@ + type_text(ty) + " as XsdGen>::gen("@ + target + ", "@ + state + ", "@ + xml + ")"@
}

/// The head of the closure that reads the value itself.
pub open spec fn closure_head(uses_name: bool) -> Seq<char> {
    if uses_name {
        "let gen_self = |element: &mut XMLElement, name: Option<&str>|"@
    } else {
        "let gen_self = |element: &mut XMLElement, _name: Option<&str>|"@
    }
}

pub open spec fn tuple_line(f: TupleFieldView) -> Seq<char> {
    gen_call(f.ty, "element"@, state_text(f.attribute), xml_arg(f.flatten, f.ty.xml_name)) + "?,"@
}

pub open spec fn tuple_line_fn() -> spec_fn(TupleFieldView) -> BodyView {
    |f: TupleFieldView| BodyView::Line(tuple_line(f))
}

pub open spec fn tuple_uses_name(fs: Seq<TupleFieldView>) -> bool {
    exists|i: int| 0 <= i < fs.len() && needs_name((#[trigger] fs[i]).flatten, fs[i].ty.xml_name)
}

/// The closure that reads a tuple struct.
pub open spec fn tuple_self_gen(fs: Seq<TupleFieldView>) -> BlockView {
    BlockView {
        before: Some(closure_head(tuple_uses_name(fs))),
        after: Some(";"@),
        body: seq![BodyView::Line("Ok(Self ("@)] + fs.map_values(tuple_line_fn()) + seq![BodyView::Line("))"@)],
    }
}

pub open spec fn named_line(f: FieldView) -> Seq<char> {
    f.name + ": "@ + gen_call(f.ty, "element"@, state_text(f.attribute), xml_arg(f.flatten, f.xml_name)) + "?,"@
}

pub open spec fn named_line_fn() -> spec_fn(FieldView) -> BodyView {
    |f: FieldView| BodyView::Line(named_line(f))
}

pub open spec fn named_uses_name(fs: Seq<FieldView>) -> bool {
    exists|i: int| 0 <= i < fs.len() && needs_name((#[trigger] fs[i]).flatten, fs[i].xml_name)
}

/// The closure that reads a struct with named fields.
pub open spec fn named_self_gen(fs: Seq<FieldView>) -> BlockView {
    BlockView {
        before: Some(closure_head(named_uses_name(fs))),
        after: Some(";"@),
        body: seq![
            BodyView::Block(
                BlockView { before: Some("Ok(Self"@), after: Some(")"@), body: fs.map_values(named_line_fn()) },
            ),
        ],
    }
}

/// The closure, then reading from the child named `name` as content or from
/// the element itself.
pub open spec fn dispatch(self_gen: BlockView) -> BlockView {
    with_block(
        with_block(
            with_block(blk(""@), self_gen),
            with_line(
                blk("if let (Some(name), GenType::Content) = (name, gen_state.state)"@),
                "element.get_next_child_with(name, |mut element| gen_self(&mut element, None))"@,
            ),
        ),
        with_line(blk("else"@), "gen_self(element, name)"@),
    )
}

/// The block that reads a struct.
pub open spec fn struct_gen_block(fields: FieldsView) -> BlockView {
    match fields {
        FieldsView::Empty => with_line(
            with_block(
                blk(""@),
                with_block(
                    blk("if let Some(name) = name"@),
                    with_block(
                        with_block(
                            blk("match gen_state.state"@),
                            with_line(blk("GenType::Attribute =>"@), "element.get_attribute::<String>(name)?;"@),
                        ),
                        with_line(blk("GenType::Content =>"@), "element.get_child(name)?;"@),
                    ),
                ),
            ),
            "Ok(Self)"@,
        ),
        FieldsView::Tuple(fs) => dispatch(tuple_self_gen(fs)),
        FieldsView::Named(fs) => dispatch(named_self_gen(fs)),
    }
}

fn xml_arg_text(flatten: bool, xml: &Option<crate::names::XsdName>) -> (r: String)
    ensures
        r@ == xml_arg(flatten, crate::names::opt_name_view(*xml)),
{
    if flatten {
        "None".to_owned()
    } else {
        match xml {
            Some(v) => {
                let d = v.display_string();
                concat3("Some(\"", d.as_str(), "\")")
            },
            None => "name".to_owned(),
        }
    }
}

fn gen_call_text(ty: &Type, target: &str, state: &str, xml: &str) -> (r: String)
    ensures
        r@ == gen_call(ty@, target@, state@, xml@),
{
    let t = ty.to_string();
    let a = concat3("<", t.as_str(), " as XsdGen>::gen(");
    let b = concat3(a.as_str(), target, ", ");
    let c = concat3(b.as_str(), state, ", ");
    let d = concat3(c.as_str(), xml, ")");
    assert(d@ =~= gen_call(ty@, target@, state@, xml@));
    d
}

fn state_str(attr: bool) -> (r: &'static str)
    ensures
        r@ == state_text(attr),
{
    if attr {
        "gen_state.to_attr()"
    } else {
        "gen_state.clone()"
    }
}

fn new_block(before: &str) -> (r: Block)
    ensures
        block_view(r) == blk(before@),
{
    Block::new(before)
}

fn closure_head_str(uses_name: bool) -> (r: &'static str)
    ensures
        r@ == closure_head(uses_name),
{
    if uses_name {
        "let gen_self = |element: &mut XMLElement, name: Option<&str>|"
    } else {
        "let gen_self = |element: &mut XMLElement, _name: Option<&str>|"
    }
}

fn tuple_self_gen_exec(fs: &Vec<crate::code_model::TupleField>) -> (r: Block)
    ensures
        block_view(r) == tuple_self_gen(crate::code_model::tuple_fields_view(fs@)),
{
    let ghost fv = crate::code_model::tuple_fields_view(fs@);
    let mut b = new_block("").line("Ok(Self (");
    let mut uses = false;
    let mut i: usize = 0;
    while i < fs.len()
        invariant
            i <= fs@.len(),
            fv == crate::code_model::tuple_fields_view(fs@),
            block_view(b).after is None,
            block_view(b).body == seq![BodyView::Line("Ok(Self ("@)] + fv.take(i as int).map_values(tuple_line_fn()),
            uses == exists|j: int| 0 <= j < i && needs_name((#[trigger] fv[j]).flatten, fv[j].ty.xml_name),
        decreases fs@.len() - i,
    {
        let f = &fs[i];
        let xml = xml_arg_text(f.flatten, &f.ty.xml_name);
        if !f.flatten && f.ty.xml_name.is_none() {
            uses = true;
        }
        let call = gen_call_text(&f.ty, "element", state_str(f.attribute), xml.as_str());
        let line = concat(call.as_str(), "?,");
        proof {
            assert(fv[i as int] == fs@[i as int]@);
            assert(fv.take(i + 1).map_values(tuple_line_fn()) =~= fv.take(i as int).map_values(tuple_line_fn()).push(
                BodyView::Line(line@),
            ));
        }
        b = b.line(line.as_str());
        i += 1;
    }
    assert(fv.take(i as int) =~= fv);
    let mut b = b.line("))").after(";");
    b.before = Some(closure_head_str(uses).to_owned());
    assert(block_view(b).body =~= tuple_self_gen(fv).body);
    b
}

fn named_self_gen_exec(fs: &Vec<crate::code_model::Field>) -> (r: Block)
    ensures
        block_view(r) == named_self_gen(crate::code_model::fields_seq_view(fs@)),
{
    let ghost fv = crate::code_model::fields_seq_view(fs@);
    let mut inner = new_block("Ok(Self");
    let mut uses = false;
    let mut i: usize = 0;
    while i < fs.len()
        invariant
            i <= fs@.len(),
            fv == crate::code_model::fields_seq_view(fs@),
            block_view(inner).before == Some("Ok(Self"@),
            block_view(inner).after is None,
            block_view(inner).body == fv.take(i as int).map_values(named_line_fn()),
            uses == exists|j: int| 0 <= j < i && needs_name((#[trigger] fv[j]).flatten, fv[j].xml_name),
        decreases fs@.len() - i,
    {
        let f = &fs[i];
        let xml = xml_arg_text(f.flatten, &f.xml_name);
        if !f.flatten && f.xml_name.is_none() {
            uses = true;
        }
        let call = gen_call_text(&f.ty, "element", state_str(f.attribute), xml.as_str());
        let line = concat3(f.name.as_str(), ": ", call.as_str());
        let line = concat(line.as_str(), "?,");
        proof {
            assert(fv[i as int] == fs@[i as int]@);
            assert(line@ =~= named_line(fv[i as int]));
            assert(fv.take(i + 1).map_values(named_line_fn()) =~= fv.take(i as int).map_values(named_line_fn()).push(
                BodyView::Line(line@),
            ));
        }
        inner = inner.line(line.as_str());
        i += 1;
    }
    assert(fv.take(i as int) =~= fv);
    let mut b = new_block(closure_head_str(uses)).push_block(inner.after(")")).after(";");
    assert(block_view(b).body =~= named_self_gen(fv).body);
    b
}

fn dispatch_exec(self_gen: Block) -> (r: Block)
    ensures
        block_view(r) == dispatch(block_view(self_gen)),
{
    new_block("").push_block(self_gen).push_block(
        new_block("if let (Some(name), GenType::Content) = (name, gen_state.state)").line(
            "element.get_next_child_with(name, |mut element| gen_self(&mut element, None))",
        ),
    ).push_block(new_block("else").line("gen_self(element, name)"))
}

fn struct_gen_block_exec(fields: &Fields) -> (r: Block)
    ensures
        block_view(r) == struct_gen_block(fields@),
{
    match fields {
        Fields::Empty => new_block("").push_block(
            new_block("if let Some(name) = name").push_block(
                new_block("match gen_state.state").push_block(
                    new_block("GenType::Attribute =>").line("element.get_attribute::<String>(name)?;"),
                ).push_block(new_block("GenType::Content =>").line("element.get_child(name)?;")),
            ),
        ).line("Ok(Self)"),
        Fields::Tuple(fs) => dispatch_exec(tuple_self_gen_exec(fs)),
        Fields::Named(fs) => dispatch_exec(named_self_gen_exec(fs)),
    }
}


// ----- enums -----

/// The state handed to the reader of a variant's field: the last field of
/// the last variant takes the state itself.
pub open spec fn variant_state(attr: bool, last: bool) -> Seq<char> {
    if attr {
        "gen_state.to_attr()"@
    } else if last {
        "gen_state"@
    } else {
        "gen_state.clone()"@
    }
}

pub open spec fn first_opener() -> BlockView {
    with_line(blk(""@), "let mut variant_element = element.clone();"@)
}

/// `if let Ok(attempt_x) = attempt_x`.
pub open spec fn attempt_opener(label: Seq<char>) -> BlockView {
    blk("if let Ok(attempt_"@ + label + ") = attempt_"@ + label)
}

pub open spec fn attempt_line(label: Seq<char>, ty: TypeView, state: Seq<char>, xml: Seq<char>) -> Seq<char> {
    "let attempt_"@ + label + " = "@ + gen_call(ty, "&mut variant_element"@, state, xml) + ";"@
}

/// The block that reads a variant without fields.
pub open spec fn empty_variant_block(v: VariantView) -> BlockView {
    with_block(
        with_block(
            blk("match gen_state.state"@),
            with_line(
                blk("GenType::Attribute"@),
                "assert!(element.element.attributes.remove(\""@ + name_display(v.xml_name.unwrap())
                    + "\").is_some());"@,
            ),
        ),
        with_line(
            blk("GenType::Content"@),
            "assert!(element.try_get_child(\""@ + name_display(v.xml_name.unwrap()) + "\")?.is_some());"@,
        ),
    )
}

/// The label of a positional field.
pub open spec fn index_label(k: int) -> Seq<char> {
    decimal(k as nat)
}

/// The blocks that try to read the positional fields of a variant, one
/// inside the reading of the one before, and then build it.
pub open spec fn tuple_variant_blocks(v: VariantView, fs: Seq<TupleFieldView>, last_variant: bool) -> Seq<BlockView> {
    let n = fs.len() as int;
    Seq::new(
        fs.len(),
        |k: int|
            with_line(
                if k == 0 {
                    first_opener()
                } else {
                    attempt_opener(index_label(k - 1))
                },
                attempt_line(
                    index_label(k),
                    fs[k].ty,
                    variant_state(fs[k].attribute, k == n - 1 && last_variant),
                    xml_arg(fs[k].flatten, fs[k].ty.xml_name),
                ),
            ),
    ).push(
        with_line(
            with_line(
                if n == 0 {
                    first_opener()
                } else {
                    attempt_opener(index_label(n - 1))
                },
                "*element = variant_element;"@,
            ),
            "return Ok(Self::"@ + v.name + "("@ + join_spec(Seq::new(fs.len(), |i: int| "attempt_"@ + index_label(i)), ", "@)
                + "));"@,
        ),
    )
}

/// The same for named fields, labelled by their names.
pub open spec fn named_variant_blocks(v: VariantView, fs: Seq<FieldView>, last_variant: bool) -> Seq<BlockView> {
    let n = fs.len() as int;
    Seq::new(
        fs.len(),
        |k: int|
            with_line(
                if k == 0 {
                    first_opener()
                } else {
                    attempt_opener(fs[k - 1].name)
                },
                attempt_line(
                    fs[k].name,
                    fs[k].ty,
                    variant_state(fs[k].attribute, k == n - 1 && last_variant),
                    xml_arg(fs[k].flatten, fs[k].xml_name),
                ),
            ),
    ).push(
        with_block(
            with_line(
                if n == 0 {
                    first_opener()
                } else {
                    attempt_opener(fs[n - 1].name)
                },
                "*element = variant_element;"@,
            ),
            BlockView {
                before: Some("return Ok(Self::"@ + v.name),
                after: Some(");"@),
                body: Seq::new(fs.len(), |i: int| BodyView::Line(fs[i].name + ": attempt_"@ + fs[i].name + ","@)),
            },
        ),
    )
}

/// The first block with the others nested in it, one after the other.
pub open spec fn nest_all(bs: Seq<BlockView>) -> BlockView {
    with_blocks(bs[0], bs.drop_first())
}

/// The block of the enum's reader after the variant `v`.
pub open spec fn add_variant(b: BlockView, v: VariantView, last_variant: bool) -> BlockView {
    match v.fields {
        FieldsView::Empty => with_line(with_block(b, empty_variant_block(v)), "Ok(Self::"@ + v.name + ")"@),
        FieldsView::Tuple(fs) => with_block(b, nest_all(tuple_variant_blocks(v, fs, last_variant))),
        FieldsView::Named(fs) => with_block(b, nest_all(named_variant_blocks(v, fs, last_variant))),
    }
}

/// The reader's block after the first `k` of the variants `vs`.
pub open spec fn variants_block(vs: Seq<VariantView>, k: int) -> BlockView
    decreases k,
{
    if k <= 0 {
        blk(""@)
    } else {
        add_variant(variants_block(vs, k - 1), vs[k - 1], k - 1 == vs.len() - 1)
    }
}

/// The block that reads an enum: each variant in turn, then an error.
pub open spec fn enum_gen_block(vs: Seq<VariantView>) -> BlockView {
    with_line(
        variants_block(vs, vs.len() as int),
        "Err(XsdGenError { ty: XsdType::Unknown, node_name: element.name().to_string(), msg: \"No valid values could be parsed.\".to_string() }.into())"@,
    )
}

/// Whether every variant without fields has a schema name.
pub open spec fn variants_named(vs: Seq<VariantView>) -> bool {
    forall|i: int| 0 <= i < vs.len() && (#[trigger] vs[i]).fields is Empty ==> vs[i].xml_name is Some
}


fn variant_state_str(attr: bool, last: bool) -> (r: &'static str)
    ensures
        r@ == variant_state(attr, last),
{
    if attr {
        "gen_state.to_attr()"
    } else if last {
        "gen_state"
    } else {
        "gen_state.clone()"
    }
}

fn attempt_opener_exec(label: &str) -> (r: Block)
    ensures
        block_view(r) == attempt_opener(label@),
{
    let a = concat3("if let Ok(attempt_", label, ") = attempt_");
    let b = concat(a.as_str(), label);
    assert(b@ =~= "if let Ok(attempt_"@ + label@ + ") = attempt_"@ + label@);
    new_block(b.as_str())
}

fn attempt_line_exec(label: &str, ty: &Type, state: &str, xml: &str) -> (r: String)
    ensures
        r@ == attempt_line(label@, ty@, state@, xml@),
{
    let call = gen_call_text(ty, "&mut variant_element", state, xml);
    let a = concat3("let attempt_", label, " = ");
    let b = concat3(a.as_str(), call.as_str(), ";");
    assert(b@ =~= attempt_line(label@, ty@, state@, xml@));
    b
}

proof fn lemma_with_blocks_push(b: BlockView, cs: Seq<BlockView>, c: BlockView)
    ensures
        with_blocks(b, cs.push(c)) == with_block(with_blocks(b, cs), c),
{
    assert(cs.push(c).drop_last() =~= cs);
}

fn tuple_variant_exec(v: &crate::code_model::Variant, fs: &Vec<crate::code_model::TupleField>, last_variant: bool) -> (r: Block)
    ensures
        block_view(r) == nest_all(
            tuple_variant_blocks(v@, crate::code_model::tuple_fields_view(fs@), last_variant),
        ),
{
    let ghost fv = crate::code_model::tuple_fields_view(fs@);
    let ghost bs = tuple_variant_blocks(v@, fv, last_variant);
    let n = fs.len();
    let mut current = new_block("").line("let mut variant_element = element.clone();");
    let mut acc: Option<Block> = None;
    let mut labels: Vec<String> = Vec::new();
    let mut k: usize = 0;
    while k < n
        invariant
            k <= n,
            n == fs@.len(),
            fv == crate::code_model::tuple_fields_view(fs@),
            bs == tuple_variant_blocks(v@, fv, last_variant),
            block_view(current) == if k == 0 {
                first_opener()
            } else {
                attempt_opener(index_label(k - 1))
            },
            k == 0 ==> acc is None,
            k > 0 ==> acc is Some && block_view(acc.unwrap()) == with_blocks(bs[0], bs.subrange(1, k as int)),
            strs_view(labels@) == Seq::new(k as nat, |i: int| "attempt_"@ + index_label(i)),
        decreases n - k,
    {
        let f = &fs[k];
        let label = decimal_string(k);
        let xml = xml_arg_text(f.flatten, &f.ty.xml_name);
        let state = variant_state_str(f.attribute, k + 1 == n && last_variant);
        let line = attempt_line_exec(label.as_str(), &f.ty, state, xml.as_str());
        proof {
            assert(fv[k as int] == fs@[k as int]@);
        }
        let done = current.line(line.as_str());
        assert(block_view(done) == bs[k as int]);
        acc = match acc {
            None => Some(done),
            Some(a) => {
                proof {
                    lemma_with_blocks_push(bs[0], bs.subrange(1, k as int), bs[k as int]);
                    assert(bs.subrange(1, k as int).push(bs[k as int]) =~= bs.subrange(1, k + 1));
                }
                Some(a.push_block(done))
            },
        };
        proof {
            if k == 0 {
                assert(bs.subrange(1, 1) =~= Seq::<BlockView>::empty());
            }
        }
        current = attempt_opener_exec(label.as_str());
        let l = concat("attempt_", label.as_str());
        let ghost prev = labels@;
        let ghost lv = l@;
        labels.push(l);
        proof {
            assert(lv == "attempt_"@ + index_label(k as int));
            assert(strs_view(labels@) =~= strs_view(prev).push(lv));
            assert(Seq::new((k + 1) as nat, |i: int| "attempt_"@ + index_label(i)) =~= Seq::new(
                k as nat,
                |i: int| "attempt_"@ + index_label(i),
            ).push(lv));
        }
        k += 1;
    }
    let all = join(&labels, ", ");
    let a = concat3("return Ok(Self::", v.name.as_str(), "(");
    let last_line = concat3(a.as_str(), all.as_str(), "));");
    let fin = current.line("*element = variant_element;").line(last_line.as_str());
    proof {
        assert(last_line@ =~= "return Ok(Self::"@ + v@.name + "("@ + join_spec(Seq::new(fv.len(), |i: int| "attempt_"@ + index_label(i)), ", "@)
            + "));"@);
        assert(block_view(fin) == bs[n as int]);
    }
    match acc {
        None => {
            assert(bs.drop_first() =~= Seq::<BlockView>::empty());
            fin
        },
        Some(a) => {
            proof {
                lemma_with_blocks_push(bs[0], bs.subrange(1, n as int), bs[n as int]);
                assert(bs.subrange(1, n as int).push(bs[n as int]) =~= bs.drop_first());
            }
            a.push_block(fin)
        },
    }
}


fn named_variant_exec(v: &crate::code_model::Variant, fs: &Vec<crate::code_model::Field>, last_variant: bool) -> (r: Block)
    ensures
        block_view(r) == nest_all(
            named_variant_blocks(v@, crate::code_model::fields_seq_view(fs@), last_variant),
        ),
{
    let ghost fv = crate::code_model::fields_seq_view(fs@);
    let ghost bs = named_variant_blocks(v@, fv, last_variant);
    let n = fs.len();
    let mut current = new_block("").line("let mut variant_element = element.clone();");
    let mut acc: Option<Block> = None;
    let head = concat("return Ok(Self::", v.name.as_str());
    let mut all_fields = new_block(head.as_str());
    assert(Seq::new(0 as nat, |i: int| BodyView::Line(fv[i].name + ": attempt_"@ + fv[i].name + ","@)) =~= Seq::<BodyView>::empty());
    let mut k: usize = 0;
    while k < n
        invariant
            k <= n,
            n == fs@.len(),
            fv == crate::code_model::fields_seq_view(fs@),
            bs == named_variant_blocks(v@, fv, last_variant),
            block_view(current) == if k == 0 {
                first_opener()
            } else {
                attempt_opener(fv[k - 1].name)
            },
            k == 0 ==> acc is None,
            k > 0 ==> acc is Some && block_view(acc.unwrap()) == with_blocks(bs[0], bs.subrange(1, k as int)),
            block_view(all_fields) == (BlockView {
                before: Some("return Ok(Self::"@ + v@.name),
                after: None,
                body: Seq::new(k as nat, |i: int| BodyView::Line(fv[i].name + ": attempt_"@ + fv[i].name + ","@)),
            }),
        decreases n - k,
    {
        let f = &fs[k];
        proof {
            assert(fv[k as int] == fs@[k as int]@);
        }
        let xml = xml_arg_text(f.flatten, &f.xml_name);
        let state = variant_state_str(f.attribute, k + 1 == n && last_variant);
        let line = attempt_line_exec(f.name.as_str(), &f.ty, state, xml.as_str());
        let done = current.line(line.as_str());
        assert(block_view(done) == bs[k as int]);
        acc = match acc {
            None => Some(done),
            Some(a) => {
                proof {
                    lemma_with_blocks_push(bs[0], bs.subrange(1, k as int), bs[k as int]);
                    assert(bs.subrange(1, k as int).push(bs[k as int]) =~= bs.subrange(1, k + 1));
                }
                Some(a.push_block(done))
            },
        };
        proof {
            if k == 0 {
                assert(bs.subrange(1, 1) =~= Seq::<BlockView>::empty());
            }
        }
        current = attempt_opener_exec(f.name.as_str());
        let fl = concat3(f.name.as_str(), ": attempt_", f.name.as_str());
        let fl = concat(fl.as_str(), ",");
        let ghost prev = block_view(all_fields).body;
        all_fields = all_fields.line(fl.as_str());
        proof {
            assert(block_view(all_fields).body =~= Seq::new(
                (k + 1) as nat,
                |i: int| BodyView::Line(fv[i].name + ": attempt_"@ + fv[i].name + ","@),
            ));
        }
        k += 1;
    }
    let fin = current.line("*element = variant_element;").push_block(all_fields.after(");"));
    assert(block_view(fin) == bs[n as int]);
    match acc {
        None => {
            assert(bs.drop_first() =~= Seq::<BlockView>::empty());
            fin
        },
        Some(a) => {
            proof {
                lemma_with_blocks_push(bs[0], bs.subrange(1, n as int), bs[n as int]);
                assert(bs.subrange(1, n as int).push(bs[n as int]) =~= bs.drop_first());
            }
            a.push_block(fin)
        },
    }
}

fn add_variant_exec(b: Block, v: &crate::code_model::Variant, last_variant: bool) -> (r: Block)
    requires
        v@.fields is Empty ==> v@.xml_name is Some,
    ensures
        block_view(r) == add_variant(block_view(b), v@, last_variant),
{
    match &v.fields {
        Fields::Empty => {
            let xml = match &v.xml_name {
                Some(x) => x.display_string(),
                None => String::new(),
            };
            let attr_line = concat3("assert!(element.element.attributes.remove(\"", xml.as_str(), "\").is_some());");
            let content_line = concat3("assert!(element.try_get_child(\"", xml.as_str(), "\")?.is_some());");
            let ok_line = concat3("Ok(Self::", v.name.as_str(), ")");
            let m = new_block("match gen_state.state").push_block(
                new_block("GenType::Attribute").line(attr_line.as_str()),
            ).push_block(new_block("GenType::Content").line(content_line.as_str()));
            assert(block_view(m) == empty_variant_block(v@));
            b.push_block(m).line(ok_line.as_str())
        },
        Fields::Tuple(fs) => b.push_block(tuple_variant_exec(v, fs, last_variant)),
        Fields::Named(fs) => b.push_block(named_variant_exec(v, fs, last_variant)),
    }
}

fn enum_gen_block_exec(vs: &Vec<crate::code_model::Variant>) -> (r: Block)
    requires
        variants_named(crate::code_model::variants_view(vs@)),
    ensures
        block_view(r) == enum_gen_block(crate::code_model::variants_view(vs@)),
{
    let ghost vv = crate::code_model::variants_view(vs@);
    let mut b = new_block("");
    let mut k: usize = 0;
    while k < vs.len()
        invariant
            k <= vs@.len(),
            vv == crate::code_model::variants_view(vs@),
            variants_named(vv),
            block_view(b) == variants_block(vv, k as int),
        decreases vs@.len() - k,
    {
        proof {
            assert(vv[k as int] == vs@[k as int]@);
        }
        b = add_variant_exec(b, &vs[k], k + 1 == vs.len());
        k += 1;
    }
    b.line(
        "Err(XsdGenError { ty: XsdType::Unknown, node_name: element.name().to_string(), msg: \"No valid values could be parsed.\".to_string() }.into())",
    )
}

/// Whether the reader of a piece can be generated: an enum's variants
/// without fields have schema names.
pub open spec fn xsdgen_ok(x: XsdImplView) -> bool {
    x.element matches XsdElementView::Enum(e) ==> variants_named(e.variants)
}

/// A piece with the `XsdGen` impl of its struct or enum added; other
/// pieces get none.
pub open spec fn with_xsdgen(x: XsdImplView) -> XsdImplView {
    match x.element {
        XsdElementView::Struct(s) => XsdImplView {
            implementation: x.implementation.push(
                trait_impl_view(s.type_def.ty, "XsdGen"@, gen_fn_view(struct_gen_block(s.fields))),
            ),
            ..x
        },
        XsdElementView::Enum(e) => XsdImplView {
            implementation: x.implementation.push(
                trait_impl_view(e.type_def.ty, "XsdGen"@, gen_fn_view(enum_gen_block(e.variants))),
            ),
            ..x
        },
        _ => x,
    }
}

/// Whether the reader of a piece can be generated.
pub fn xsdgen_ok_exec(x: &XsdImpl) -> (r: bool)
    ensures
        r == xsdgen_ok(x@),
{
    match &x.element {
        XsdElement::Enum(e) => {
            let ghost vs = crate::code_model::variants_view(e.variants@);
            let mut i: usize = 0;
            while i < e.variants.len()
                invariant
                    i <= e.variants@.len(),
                    vs == crate::code_model::variants_view(e.variants@),
                    x@.element == crate::context::XsdElementView::Enum(e@),
                    forall|j: int| 0 <= j < i ==> !((#[trigger] vs[j]).fields is Empty && vs[j].xml_name is None),
                decreases e.variants@.len() - i,
            {
                let v = &e.variants[i];
                let empty = match &v.fields {
                    crate::code_model::Fields::Empty => true,
                    _ => false,
                };
                if empty && v.xml_name.is_none() {
                    assert(vs[i as int].fields is Empty && vs[i as int].xml_name is None);
                    assert(e@.variants == vs);
                    assert(!variants_named(vs));
                    assert(x@.element == crate::context::XsdElementView::Enum(e@));
                    return false;
                }
                i += 1;
            }
            true
        },
        _ => true,
    }
}

/// Adds to a struct or an enum the `XsdGen` impl that reads it from an
/// XML element.
pub fn general_xsdgen(generated_impl: XsdImpl) -> (r: XsdImpl)
    requires
        xsdgen_ok(generated_impl@),
    ensures
        r@ == with_xsdgen(generated_impl@),
{
    let mut generated_impl = generated_impl;
    let block = match &generated_impl.element {
        XsdElement::Struct(s) => Some(struct_gen_block_exec(&s.fields)),
        XsdElement::Enum(e) => Some(enum_gen_block_exec(&e.variants)),
        _ => None,
    };
    match block {
        Some(b) => {
            let t = generated_impl.element.get_type();
            let imp = xsdgen_impl(t, b);
            let ghost iv = imp@;
            let ghost before = generated_impl.implementation@;
            generated_impl.implementation.push(imp);
            assert(crate::code_model::impls_view(generated_impl.implementation@) =~= crate::code_model::impls_view(before).push(iv));
        },
        None => {},
    }
    generated_impl
}

} // verus!
