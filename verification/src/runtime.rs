//! What generated readers use: the reading state, values read from text,
//! vectors with bounded lengths, and a store that numbers type names.
use vstd::prelude::*;

use crate::names::{XsdGenError, XsdIoError, XsdParseError, XsdType};
use crate::text::{chars_of, str_eq, strs_view};
use crate::xml_doc::{
    attr_value, elem_same, map_ends, named_children, parse_error_is, taken_from, text_of, weight, without_attr, without_children,
    XMLElement, XMLElementView, XmlTreeView,
};

verus! {

// ----- numbering names -----

/// Numbers names in the order they are first asked for.
pub struct TypeStore {
    names: Vec<String>,
}

impl View for TypeStore {
    type V = Seq<Seq<char>>;

    closed spec fn view(&self) -> Seq<Seq<char>> {
        strs_view(self.names@)
    }
}

/// Whether no name occurs twice.
pub open spec fn distinct_names(s: Seq<Seq<char>>) -> bool {
    forall|i: int, j: int| 0 <= i < j < s.len() ==> s[i] != s[j]
}

impl TypeStore {
    /// An empty store.
    pub fn new() -> (r: TypeStore)
        ensures
            r@ == Seq::<Seq<char>>::empty(),
    {
        let r = TypeStore { names: Vec::new() };
        assert(strs_view(r.names@) =~= Seq::<Seq<char>>::empty());
        r
    }

    /// The number of `name`: the one it was given, or else the next
    /// number, which it is given now.
    pub fn get(&mut self, name: &str) -> (r: usize)
        requires
            distinct_names(old(self)@),
        ensures
            distinct_names(final(self)@),
            old(self)@.contains(name@) ==> final(self)@ == old(self)@ && r < old(self)@.len() && old(self)@[r as int]
                == name@,
            !old(self)@.contains(name@) ==> final(self)@ == old(self)@.push(name@) && r == old(self)@.len(),
    {
        let ghost v = strs_view(self.names@);
        let mut i: usize = 0;
        while i < self.names.len()
            invariant
                i <= self.names@.len(),
                v == strs_view(self.names@),
                v == old(self)@,
                self.names == old(self).names,
                distinct_names(old(self)@),
                forall|j: int| 0 <= j < i ==> v[j] != name@,
            decreases self.names@.len() - i,
        {
            if str_eq(self.names[i].as_str(), name) {
                assert(v[i as int] == name@);
                return i;
            }
            i += 1;
        }
        assert(!v.contains(name@));
        let ghost before = self.names@;
        self.names.push(name.to_owned());
        assert(strs_view(self.names@) =~= v.push(name@));
        i
    }
}

// ----- reading state -----

/// Whether a value is read from attributes or from content.
#[derive(Clone, Copy, Debug, PartialEq, Eq, Structural)]
pub enum GenType {
    Attribute,
    Content,
}

/// The state of a reader: whether it reads the root, and what it reads
/// from.
#[derive(Clone, Copy, Debug, PartialEq, Eq, Structural)]
pub struct GenState {
    pub is_root: bool,
    pub state: GenType,
}

impl GenState {
    /// The same state, reading from attributes.
    pub fn to_attr(&self) -> (r: Self)
        ensures
            r == (GenState { is_root: self.is_root, state: GenType::Attribute }),
    {
        GenState { is_root: self.is_root, state: GenType::Attribute }
    }
}

// ----- values read from text -----

/// A value that can be read from text.
pub trait FromXmlString: Sized {
    /// Whether reading `s` gives `v`.
    spec fn reads_as(s: Seq<char>, v: Self) -> bool;

    /// Whether reading `s` fails with the message `msg`.
    spec fn fails_with(s: Seq<char>, msg: Seq<char>) -> bool;

    /// Reads a value from text.
    fn from_xml(string: &str) -> (r: Result<Self, String>)
        ensures
            match r {
                Ok(v) => Self::reads_as(string@, v),
                Err(e) => Self::fails_with(string@, e@),
            };
}

impl FromXmlString for String {
    open spec fn reads_as(s: Seq<char>, v: String) -> bool {
        v@ == s
    }

    open spec fn fails_with(s: Seq<char>, msg: Seq<char>) -> bool {
        false
    }

    fn from_xml(string: &str) -> (r: Result<String, String>) {
        Ok(string.to_owned())
    }
}

/// The value of a string of decimal digits.
pub open spec fn digits_value(s: Seq<char>) -> nat
    decreases s.len(),
{
    if s.len() == 0 {
        0
    } else {
        digits_value(s.drop_last()) * 10 + ((s.last() as u32) - ('0' as u32)) as nat
    }
}

pub open spec fn is_digit(c: char) -> bool {
    '0' <= c && c <= '9'
}

/// The index of the first character that is not a digit, or the length.
pub open spec fn first_non_digit(s: Seq<char>) -> int
    decreases s.len(),
{
    if s.len() == 0 {
        0
    } else if !is_digit(s[0]) {
        0
    } else {
        first_non_digit(s.drop_first()) + 1
    }
}

/// The index of the first digit at which the value read so far exceeds
/// `max`, or the length.
pub open spec fn first_overflow(s: Seq<char>, max: nat) -> int
    decreases s.len(),
{
    if s.len() == 0 {
        0
    } else if digits_value(s.take(1)) > max {
        0
    } else {
        first_overflow_from(s, max, 1)
    }
}

/// The first index `k >= i` at which the value of the first `k + 1`
/// characters exceeds `max`, or the length.
pub open spec fn first_overflow_from(s: Seq<char>, max: nat, i: int) -> int
    decreases s.len() - i,
{
    if i >= s.len() {
        s.len() as int
    } else if digits_value(s.take(i + 1)) > max {
        i
    } else {
        first_overflow_from(s, max, i + 1)
    }
}

pub open spec fn empty_msg() -> Seq<char> {
    "cannot parse integer from empty string"@
}

pub open spec fn invalid_msg() -> Seq<char> {
    "invalid digit found in string"@
}

pub open spec fn overflow_msg() -> Seq<char> {
    "number too large to fit in target type"@
}

/// Reading an unsigned integer no larger than `max` from text, as Rust's
/// `str::parse` does: an optional `+`, then digits; the first character
/// that is not a digit, or the first digit at which the value grows past
/// `max`, fails the reading.
pub open spec fn parse_unsigned_spec(s: Seq<char>, max: nat) -> Result<nat, Seq<char>> {
    let body = if s.len() > 0 && s[0] == '+' {
        s.drop_first()
    } else {
        s
    };
    if s.len() == 0 {
        Err(empty_msg())
    } else if body.len() == 0 {
        Err(invalid_msg())
    } else {
        let bad = first_non_digit(body);
        let over = first_overflow(body, max);
        if bad < body.len() && bad <= over {
            Err(invalid_msg())
        } else if over < body.len() {
            Err(overflow_msg())
        } else {
            Ok(digits_value(body))
        }
    }
}

proof fn lemma_digits_value_take(s: Seq<char>, i: int)
    requires
        0 <= i < s.len(),
    ensures
        digits_value(s.take(i + 1)) == digits_value(s.take(i)) * 10 + ((s[i] as u32) - ('0' as u32)) as nat,
{
    assert(s.take(i + 1).drop_last() =~= s.take(i));
}

/// Reads an unsigned integer no larger than `max`.
pub fn parse_unsigned(s: &str, max: u64) -> (r: Result<u64, String>)
    ensures
        r matches Ok(v) ==> v <= max,
        match r {
            Ok(v) => parse_unsigned_spec(s@, max as nat) == Ok::<nat, Seq<char>>(v as nat),
            Err(e) => parse_unsigned_spec(s@, max as nat) == Err::<nat, Seq<char>>(e@),
        },
{
    let cs = chars_of(s);
    if cs.len() == 0 {
        return Err("cannot parse integer from empty string".to_owned());
    }
    let start: usize = if cs[0] == '+' { 1 } else { 0 };
    let ghost body = if s@.len() > 0 && s@[0] == '+' { s@.drop_first() } else { s@ };
    assert(body =~= s@.skip(start as int));
    if start == cs.len() {
        return Err("invalid digit found in string".to_owned());
    }
    proof {
        lemma_first_non_digit(body);
        lemma_first_overflow(body, max as nat);
    }
    let mut value: u64 = 0;
    let mut i: usize = start;
    while i < cs.len()
        invariant
            cs@ == s@,
            start <= i <= cs@.len(),
            body == s@.skip(start as int),
            body == (if s@.len() > 0 && s@[0] == '+' { s@.drop_first() } else { s@ }),
            s@.len() > 0,
            body.len() > 0,
            value as nat == digits_value(body.take(i - start)),
            value <= max,
            forall|j: int| 0 <= j < i - start ==> is_digit(#[trigger] body[j]),
            forall|j: int| 0 <= j < i - start ==> digits_value(#[trigger] body.take(j + 1)) <= max,
            0 <= first_non_digit(body) <= body.len(),
            forall|j: int| 0 <= j < first_non_digit(body) ==> is_digit(#[trigger] body[j]),
            first_non_digit(body) < body.len() ==> !is_digit(body[first_non_digit(body)]),
            forall|j: int| 0 <= j < first_overflow(body, max as nat) ==> digits_value(#[trigger] body.take(j + 1)) <= max,
            first_overflow(body, max as nat) < body.len() ==> digits_value(body.take(first_overflow(body, max as nat) + 1)) > max,
            0 <= first_overflow(body, max as nat) <= body.len(),
        decreases cs@.len() - i,
    {
        let k: usize = i - start;
        let c = cs[i];
        assert(body[k as int] == c);
        if !('0' <= c && c <= '9') {
            proof {
                assert(!is_digit(body[k as int]));
                let fnd = first_non_digit(body);
                if fnd < k {
                    assert(is_digit(body[fnd]));
                }
                if fnd > k {
                    assert(is_digit(body[k as int]));
                }
                assert(first_non_digit(body) == k);
                if first_overflow(body, max as nat) < k {
                    let o = first_overflow(body, max as nat);
                    assert(digits_value(body.take(o + 1)) <= max);
                }
            }
            return Err("invalid digit found in string".to_owned());
        }
        proof {
            lemma_digits_value_take(body, k as int);
        }
        let d: u64 = ((c as u32) - ('0' as u32)) as u64;
        assert(is_digit(body[k as int]));
        if d > max || value > (max - d) / 10 {
            proof {
                let dv = digits_value(body.take(k + 1));
                assert(dv == value * 10 + d);
                if d <= max {
                    assert(value * 10 + d > max) by (nonlinear_arith)
                        requires
                            value > (max - d) / 10,
                            d <= max,
                    ;
                }
                assert(dv > max);
                let o = first_overflow(body, max as nat);
                if o < k {
                    assert(digits_value(body.take(o + 1)) <= max);
                }
                if o > k {
                    assert(digits_value(body.take(k + 1)) <= max);
                }
                assert(o == k);
                let fnd = first_non_digit(body);
                if fnd <= k {
                    assert(is_digit(body[fnd]));
                }
            }
            return Err("number too large to fit in target type".to_owned());
        }
        proof {
            assert(value * 10 + d <= max) by (nonlinear_arith)
                requires
                    value <= (max - d) / 10,
                    d <= max,
            ;
        }
        value = value * 10 + d;
        i += 1;
    }
    proof {
        assert(body.take(body.len() as int) =~= body);
        let fnd = first_non_digit(body);
        if fnd < body.len() {
            assert(is_digit(body[fnd]));
        }
        let o = first_overflow(body, max as nat);
        if o < body.len() {
            assert(digits_value(body.take(o + 1)) <= max);
        }
    }
    Ok(value)
}

proof fn lemma_first_non_digit(s: Seq<char>)
    ensures
        0 <= first_non_digit(s) <= s.len(),
        forall|j: int| 0 <= j < first_non_digit(s) ==> is_digit(#[trigger] s[j]),
        first_non_digit(s) < s.len() ==> !is_digit(s[first_non_digit(s)]),
    decreases s.len(),
{
    if s.len() > 0 {
        lemma_first_non_digit(s.drop_first());
        assert forall|j: int| 0 < j < s.len() implies #[trigger] s[j] == s.drop_first()[j - 1] by {}
    }
}

proof fn lemma_first_overflow(s: Seq<char>, max: nat)
    ensures
        0 <= first_overflow(s, max) <= s.len(),
        forall|j: int| 0 <= j < first_overflow(s, max) ==> digits_value(#[trigger] s.take(j + 1)) <= max,
        first_overflow(s, max) < s.len() ==> digits_value(s.take(first_overflow(s, max) + 1)) > max,
{
    if s.len() > 0 && digits_value(s.take(1)) <= max {
        lemma_first_overflow_from(s, max, 1);
    }
}

proof fn lemma_first_overflow_from(s: Seq<char>, max: nat, i: int)
    requires
        1 <= i <= s.len(),
        forall|j: int| 0 <= j < i ==> digits_value(#[trigger] s.take(j + 1)) <= max,
    ensures
        i <= first_overflow_from(s, max, i) <= s.len(),
        forall|j: int| 0 <= j < first_overflow_from(s, max, i) ==> digits_value(#[trigger] s.take(j + 1)) <= max,
        first_overflow_from(s, max, i) < s.len() ==> digits_value(s.take(first_overflow_from(s, max, i) + 1)) > max,
    decreases s.len() - i,
{
    if i < s.len() && digits_value(s.take(i + 1)) <= max {
        lemma_first_overflow_from(s, max, i + 1);
    }
}


pub open spec fn underflow_msg() -> Seq<char> {
    "number too small to fit in target type"@
}

/// Reading a signed 64-bit integer from text, as Rust's `str::parse`
/// does: an optional sign, then digits.
pub open spec fn parse_i64_spec(s: Seq<char>) -> Result<int, Seq<char>> {
    if s.len() > 0 && s[0] == '-' {
        let rest = s.drop_first();
        if rest.len() == 0 || rest[0] == '+' {
            Err(invalid_msg())
        } else {
            match parse_unsigned_spec(rest, 0x8000_0000_0000_0000) {
                Ok(v) => Ok(-v),
                Err(m) => Err(if m == overflow_msg() { underflow_msg() } else { m }),
            }
        }
    } else {
        match parse_unsigned_spec(s, 0x7fff_ffff_ffff_ffff) {
            Ok(v) => Ok(v as int),
            Err(m) => Err(m),
        }
    }
}

impl FromXmlString for u64 {
    open spec fn reads_as(s: Seq<char>, v: u64) -> bool {
        parse_unsigned_spec(s, u64::MAX as nat) == Ok::<nat, Seq<char>>(v as nat)
    }

    open spec fn fails_with(s: Seq<char>, msg: Seq<char>) -> bool {
        parse_unsigned_spec(s, u64::MAX as nat) == Err::<nat, Seq<char>>(msg)
    }

    fn from_xml(string: &str) -> (r: Result<u64, String>) {
        parse_unsigned(string, u64::MAX)
    }
}

impl FromXmlString for u32 {
    open spec fn reads_as(s: Seq<char>, v: u32) -> bool {
        parse_unsigned_spec(s, u32::MAX as nat) == Ok::<nat, Seq<char>>(v as nat)
    }

    open spec fn fails_with(s: Seq<char>, msg: Seq<char>) -> bool {
        parse_unsigned_spec(s, u32::MAX as nat) == Err::<nat, Seq<char>>(msg)
    }

    fn from_xml(string: &str) -> (r: Result<u32, String>) {
        match parse_unsigned(string, u32::MAX as u64) {
            Ok(v) => Ok(v as u32),
            Err(e) => Err(e),
        }
    }
}

impl FromXmlString for usize {
    open spec fn reads_as(s: Seq<char>, v: usize) -> bool {
        parse_unsigned_spec(s, usize::MAX as nat) == Ok::<nat, Seq<char>>(v as nat)
    }

    open spec fn fails_with(s: Seq<char>, msg: Seq<char>) -> bool {
        parse_unsigned_spec(s, usize::MAX as nat) == Err::<nat, Seq<char>>(msg)
    }

    fn from_xml(string: &str) -> (r: Result<usize, String>) {
        match parse_unsigned(string, usize::MAX as u64) {
            Ok(v) => Ok(v as usize),
            Err(e) => Err(e),
        }
    }
}

impl FromXmlString for i64 {
    open spec fn reads_as(s: Seq<char>, v: i64) -> bool {
        parse_i64_spec(s) == Ok::<int, Seq<char>>(v as int)
    }

    open spec fn fails_with(s: Seq<char>, msg: Seq<char>) -> bool {
        parse_i64_spec(s) == Err::<int, Seq<char>>(msg)
    }

    fn from_xml(string: &str) -> (r: Result<i64, String>) {
        let cs = chars_of(string);
        if cs.len() > 0 && cs[0] == '-' {
            let rest = crate::text::string_of_range(&cs, 1, cs.len());
            assert(rest@ =~= string@.drop_first());
            let rs = chars_of(rest.as_str());
            if rs.len() == 0 || rs[0] == '+' {
                return Err("invalid digit found in string".to_owned());
            }
            match parse_unsigned(rest.as_str(), 0x8000_0000_0000_0000) {
                Ok(v) => {
                    if v == 0x8000_0000_0000_0000 {
                        Ok(i64::MIN)
                    } else {
                        Ok(-(v as i64))
                    }
                },
                Err(e) => {
                    if str_eq(e.as_str(), "number too large to fit in target type") {
                        Err("number too small to fit in target type".to_owned())
                    } else {
                        Err(e)
                    }
                },
            }
        } else {
            match parse_unsigned(string, 0x7fff_ffff_ffff_ffff) {
                Ok(v) => Ok(v as i64),
                Err(e) => Err(e),
            }
        }
    }
}


// ----- vectors of bounded length -----

/// A vector whose length is at least `MIN` and, where `MAX` is not 0, at
/// most `MAX`.
#[derive(Debug)]
pub struct RestrictedVec<T, const MIN: usize, const MAX: usize>(Vec<T>);

/// Whether a length suits the bounds `min` and `max` (0: unbounded).
pub open spec fn length_ok(len: nat, min: nat, max: nat) -> bool {
    len >= min && (max == 0 || len <= max)
}

/// The message that says how a length does not suit the bounds.
pub open spec fn length_message(len: nat, min: nat, max: nat) -> Seq<char> {
    if len < min {
        "Generated vector length is less than the minimum size ("@ + crate::xsdgen::decimal(len) + " < "@
            + crate::xsdgen::decimal(min) + ")"@
    } else {
        "Generated vector length is greater than the maximuim size ("@ + crate::xsdgen::decimal(len) + " > "@
            + crate::xsdgen::decimal(max) + ")"@
    }
}

impl<T, const MIN: usize, const MAX: usize> RestrictedVec<T, MIN, MAX> {
    /// The elements.
    pub closed spec fn elems(&self) -> Seq<T> {
        self.0@
    }

    /// The vector, where its length suits the bounds; otherwise the message
    /// that says how it does not.
    pub fn new(v: Vec<T>) -> (r: Result<Self, String>)
        ensures
            match r {
                Ok(x) => x.elems() == v@ && length_ok(v@.len(), MIN as nat, MAX as nat),
                Err(msg) => !length_ok(v@.len(), MIN as nat, MAX as nat) && msg@ == length_message(
                    v@.len(),
                    MIN as nat,
                    MAX as nat,
                ),
            },
    {
        let n = v.len();
        if n < MIN {
            let a = crate::text::concat3(
                "Generated vector length is less than the minimum size (",
                crate::xsdgen::decimal_string(n).as_str(),
                " < ",
            );
            let b = crate::text::concat3(a.as_str(), crate::xsdgen::decimal_string(MIN).as_str(), ")");
            return Err(b);
        }
        if MAX != 0 && n > MAX {
            let a = crate::text::concat3(
                "Generated vector length is greater than the maximuim size (",
                crate::xsdgen::decimal_string(n).as_str(),
                " > ",
            );
            let b = crate::text::concat3(a.as_str(), crate::xsdgen::decimal_string(MAX).as_str(), ")");
            return Err(b);
        }
        Ok(RestrictedVec(v))
    }

    /// The elements.
    pub fn as_vec(&self) -> (r: &Vec<T>)
        ensures
            r@ == self.elems(),
    {
        &self.0
    }

    /// The elements, given up.
    pub fn into_inner(self) -> (r: Vec<T>)
        ensures
            r@ == self.elems(),
    {
        self.0
    }
}

// ----- reading generated types -----

/// A name given to a reader, as text.
pub open spec fn opt_text_view(n: Option<&str>) -> Option<Seq<char>> {
    match n {
        Some(x) => Some(x@),
        None => None,
    }
}

/// The child element `t` of `e`, read with `e`'s namespace.
pub open spec fn child_view(e: XMLElementView, t: XmlTreeView) -> XMLElementView {
    XMLElementView { element: t, default_namespace: e.default_namespace }
}

/// Whether `r` is what reading the attribute `name` of `e` as a `T` gives
/// (as `XMLElement::get_attribute` does).
pub open spec fn attribute_gives<T: FromXmlString>(e: XMLElementView, name: Seq<char>, r: Result<T, XsdIoError>) -> bool {
    match (attr_value(e, name), r) {
        (None, Err(x)) => parse_error_is(x, e.element.name, name + " not found"@),
        (Some(t), Ok(v)) => T::reads_as(t, v),
        (Some(t), Err(x)) => exists|m: Seq<char>|
            T::fails_with(t, m) && #[trigger] parse_error_is(
                x,
                e.element.name,
                "error converting "@ + name + " from text: "@ + m,
            ),
        _ => false,
    }
}

/// Whether `r` is what reading the text of `e` as a `T` gives (as
/// `XMLElement::get_content` does).
pub open spec fn content_gives<T: FromXmlString>(e: XMLElementView, r: Result<T, XsdIoError>) -> bool {
    match (text_of(e.element), r) {
        (None, Err(x)) => parse_error_is(x, e.element.name, "no text found"@),
        (Some(t), Ok(v)) => T::reads_as(t, v),
        (Some(t), Err(x)) => exists|m: Seq<char>|
            T::fails_with(t, m) && #[trigger] parse_error_is(
                x,
                e.element.name,
                "could not parse node content from text: "@ + m,
            ),
        _ => false,
    }
}

/// Whether `r` is what reading the text of the one child of `e` named
/// `name` gives; another number of such children is an error.
pub open spec fn one_child_gives<T: FromXmlString>(e: XMLElementView, name: Seq<char>, r: Result<T, XsdIoError>) -> bool {
    let kids = named_children(e.element.children, name);
    if kids.len() == 1 {
        content_gives::<T>(child_view(e, kids[0]), r)
    } else {
        r matches Err(x) && parse_error_is(
            x,
            e.element.name,
            "Expected 1 child named "@ + name + " found "@ + crate::xsdgen::decimal(kids.len()),
        )
    }
}

/// Whether the text of `e` cannot be read as a `T`, or there is none.
pub open spec fn content_fails<T: FromXmlString>(e: XMLElementView) -> bool {
    match text_of(e.element) {
        None => true,
        Some(t) => exists|m: Seq<char>| #[trigger] T::fails_with(t, m),
    }
}

/// Whether `r` is what reading `e` itself as a `T` gives: its text, or
/// else the empty text.
pub open spec fn own_content_gives<T: FromXmlString>(e: XMLElementView, r: Result<T, XsdIoError>) -> bool {
    match r {
        Ok(v) => (text_of(e.element) matches Some(t) && T::reads_as(t, v)) || (content_fails::<T>(e) && T::reads_as(
            ""@,
            v,
        )),
        Err(x) => content_fails::<T>(e) && (exists|m: Seq<char>| #[trigger] T::fails_with(""@, m)) && parse_error_is(
            x,
            e.element.name,
            "failed to convert text to T"@,
        ),
    }
}

/// The result of reading an optional value from the result `rt` of
/// reading the value.
pub open spec fn some_of<T>(rt: Result<T, XsdIoError>) -> Result<Option<T>, XsdIoError> {
    match rt {
        Ok(v) => Ok(Some(v)),
        Err(x) => Err(x),
    }
}

/// The reading state for what lies below the root.
pub open spec fn below(st: GenState) -> GenState {
    GenState { is_root: false, ..st }
}

/// A value that generated code reads from an element.
pub trait XsdGen: Sized {
    /// Whether reading with `gen_state` and `name` from the element `e`
    /// may give `r` and leave `e2`.
    spec fn gen_gives(
        e: XMLElementView,
        gen_state: GenState,
        name: Option<Seq<char>>,
        e2: XMLElementView,
        r: Result<Self, XsdIoError>,
    ) -> bool;

    /// Reads a value from the element, taking out what it reads; an
    /// attribute or a child is named by `name`, where one is given.
    fn gen(element: &mut XMLElement, gen_state: GenState, name: Option<&str>) -> (r: Result<Self, XsdIoError>)
        ensures
            taken_from(final(element)@, old(element)@),
            Self::gen_gives(old(element)@, gen_state, opt_text_view(name), final(element)@, r),
    ;
}

impl<T: FromXmlString> XsdGen for T {
    /// From attributes: the attribute `name` (one is needed). From content:
    /// the text of the one child `name`, or else of the element itself, or
    /// else of the empty text.
    open spec fn gen_gives(
        e: XMLElementView,
        gen_state: GenState,
        name: Option<Seq<char>>,
        e2: XMLElementView,
        r: Result<T, XsdIoError>,
    ) -> bool {
        match (gen_state.state, name) {
            (GenType::Attribute, Some(n)) => e2 == without_attr(e, n) && attribute_gives::<T>(e, n, r),
            (GenType::Attribute, None) => e2 == e && (r matches Err(XsdIoError::XsdGenError(g)) && g.node_name@
                == e.element.name && g.ty == XsdType::Unknown),
            (GenType::Content, Some(n)) => e2 == without_children(e, n) && one_child_gives::<T>(e, n, r),
            (GenType::Content, None) => e2 == e && own_content_gives::<T>(e, r),
        }
    }

    fn gen(element: &mut XMLElement, gen_state: GenState, name: Option<&str>) -> (r: Result<T, XsdIoError>) {
        proof {
            crate::xml_doc::lemma_elem_same_refl(element@);
        }
        match gen_state.state {
            GenType::Attribute => match name {
                Some(n) => {
                    proof {
                        crate::xml_doc::lemma_taken_attr(element@, n@);
                    }
                    element.get_attribute(n)
                },
                None => {
                    let msg = "Expected node name to parse an attribute implementing FromXmlString got None.".to_owned();
                    Err(XsdIoError::XsdGenError(XsdGenError { node_name: element.node_name(), ty: XsdType::Unknown, msg }))
                },
            },
            GenType::Content => match name {
                Some(n) => {
                    proof {
                        crate::xml_doc::lemma_taken_children(element@, n@);
                    }
                    match element.get_child(n) {
                        Ok(c) => {
                            let mut c = c;
                            c.get_content()
                        },
                        Err(x) => Err(x),
                    }
                },
                None => match element.get_content() {
                    Ok(v) => Ok(v),
                    Err(_) => match T::from_xml("") {
                        Ok(v) => {
                            proof {
                                reveal_strlit("");
                            }
                            Ok(v)
                        },
                        Err(m) => {
                            proof {
                                reveal_strlit("");
                                assert(T::fails_with(""@, m@));
                            }
                            Err(
                                XsdIoError::XsdParseError(
                                    XsdParseError { node_name: element.node_name(), msg: "failed to convert text to T".to_owned() },
                                ),
                            )
                        },
                    },
                },
            },
        }
    }
}

impl<T: XsdGen> XsdGen for Option<T> {
    /// With a name: the attribute `name` where there is one, or the child
    /// `name` where there is one (more is an error), read below the root;
    /// otherwise nothing. Without a name: the value read from the element,
    /// or nothing (and the element left as it was) where that fails.
    open spec fn gen_gives(
        e: XMLElementView,
        gen_state: GenState,
        name: Option<Seq<char>>,
        e2: XMLElementView,
        r: Result<Option<T>, XsdIoError>,
    ) -> bool {
        match name {
            Some(n) => match gen_state.state {
                GenType::Attribute => if attr_value(e, n) is Some {
                    exists|rt: Result<T, XsdIoError>|
                        #[trigger] T::gen_gives(e, below(gen_state), Some(n), e2, rt) && r == some_of(rt)
                } else {
                    e2 == e && r == Ok::<Option<T>, XsdIoError>(None)
                },
                GenType::Content => {
                    let kids = named_children(e.element.children, n);
                    &&& e2 == without_children(e, n)
                    &&& if kids.len() == 0 {
                        r == Ok::<Option<T>, XsdIoError>(None)
                    } else if kids.len() == 1 {
                        exists|c2: XMLElementView, rt: Result<T, XsdIoError>|
                            #[trigger] T::gen_gives(child_view(e, kids[0]), below(gen_state), None, c2, rt) && r
                                == some_of(rt)
                    } else {
                        r matches Err(x) && parse_error_is(
                            x,
                            e.element.name,
                            "Expected 0 or 1 children named "@ + n + " found "@ + crate::xsdgen::decimal(kids.len()),
                        )
                    }
                },
            },
            None => exists|e1: XMLElementView, rt: Result<T, XsdIoError>|
                #[trigger] T::gen_gives(e, gen_state, None, e1, rt) && match rt {
                    Ok(v) => r == Ok::<Option<T>, XsdIoError>(Some(v)) && e2 == e1,
                    Err(_) => r == Ok::<Option<T>, XsdIoError>(None) && e2 == e,
                },
        }
    }

    fn gen(element: &mut XMLElement, gen_state: GenState, name: Option<&str>) -> (r: Result<Option<T>, XsdIoError>) {
        let ghost e0 = element@;
        proof {
            crate::xml_doc::lemma_elem_same_refl(e0);
        }
        let new_state = GenState { is_root: false, state: gen_state.state };
        match name {
            Some(n) => match gen_state.state {
                GenType::Attribute => {
                    if element.has_attr(n) {
                        let rt = T::gen(element, new_state, Some(n));
                        let ghost e2 = element@;
                        assert(T::gen_gives(e0, below(gen_state), Some(n@), e2, rt));
                        match rt {
                            Ok(v) => Ok(Some(v)),
                            Err(x) => Err(x),
                        }
                    } else {
                        Ok(None)
                    }
                },
                GenType::Content => {
                    proof {
                        crate::xml_doc::lemma_taken_children(e0, n@);
                    }
                    match element.try_get_child(n) {
                        Err(x) => Err(x),
                        Ok(None) => Ok(None),
                        Ok(Some(c)) => {
                            let mut c = c;
                            let ghost c0 = c@;
                            let rt = T::gen(&mut c, new_state, None);
                            let ghost c2 = c@;
                            assert(T::gen_gives(c0, below(gen_state), None, c2, rt));
                            match rt {
                                Ok(v) => Ok(Some(v)),
                                Err(x) => Err(x),
                            }
                        },
                    }
                },
            },
            None => {
                let last = element.duplicate();
                let rt = T::gen(element, gen_state, None);
                let ghost e1 = element@;
                assert(T::gen_gives(e0, gen_state, None, e1, rt));
                match rt {
                    Ok(v) => {
                        let keep = element.duplicate();
                        *element = keep;
                        Ok(Some(v))
                    },
                    Err(_) => {
                        *element = last;
                        Ok(None)
                    },
                }
            },
        }
    }
}

/// Whether `outs` are what reading each of the first children `kids` (with
/// the namespace `d`) in the state `st` gave, leaving them as `ends`.
pub open spec fn each_gives<T: XsdGen>(
    kids: Seq<XmlTreeView>,
    d: Option<Seq<char>>,
    st: GenState,
    ends: Seq<XMLElementView>,
    outs: Seq<Result<T, XsdIoError>>,
) -> bool {
    &&& ends.len() == outs.len()
    &&& outs.len() <= kids.len()
    &&& forall|i: int|
        0 <= i < outs.len() ==> #[trigger] T::gen_gives(
            XMLElementView { element: kids[i], default_namespace: d },
            st,
            None,
            ends[i],
            outs[i],
        )
}

/// Whether reading values one after the other from `e` in the state `st`
/// went through the elements `es` and gave `vs`: each read changed the
/// element, and the next one failed or changed nothing.
pub open spec fn repeated<T: XsdGen>(e: XMLElementView, st: GenState, es: Seq<XMLElementView>, vs: Seq<T>) -> bool {
    &&& es.len() == vs.len() + 1
    &&& es[0] == e
    &&& forall|i: int|
        0 <= i < vs.len() ==> #[trigger] T::gen_gives(es[i], st, None, es[i + 1], Ok(vs[i])) && !elem_same(
            es[i + 1],
            es[i],
        )
    &&& exists|e_end: XMLElementView, r_end: Result<T, XsdIoError>|
        #[trigger] T::gen_gives(es.last(), st, None, e_end, r_end) && (r_end is Err || elem_same(e_end, es.last()))
}

impl<T: XsdGen> XsdGen for Vec<T> {
    /// From attributes: the one value read. From content with a name: the
    /// value of each child `name`, read below the root, or the first
    /// error. From content without a name: the values read one after the
    /// other while each read changes the element.
    open spec fn gen_gives(
        e: XMLElementView,
        gen_state: GenState,
        name: Option<Seq<char>>,
        e2: XMLElementView,
        r: Result<Vec<T>, XsdIoError>,
    ) -> bool {
        match gen_state.state {
            GenType::Attribute => exists|rt: Result<T, XsdIoError>|
                #[trigger] T::gen_gives(e, gen_state, name, e2, rt) && match rt {
                    Ok(v) => r matches Ok(w) && w@ == seq![v],
                    Err(x) => r == Err::<Vec<T>, XsdIoError>(x),
                },
            GenType::Content => match name {
                Some(n) => {
                    let kids = named_children(e.element.children, n);
                    &&& e2 == without_children(e, n)
                    &&& exists|ends: Seq<XMLElementView>, outs: Seq<Result<T, XsdIoError>>|
                        #[trigger] each_gives(kids, e.default_namespace, below(gen_state), ends, outs) && map_ends(
                            outs,
                            kids.len(),
                            r,
                        )
                },
                None => exists|es: Seq<XMLElementView>, vs: Seq<T>|
                    #[trigger] repeated(e, gen_state, es, vs) && e2 == es.last() && (r matches Ok(w) && w@ == vs),
            },
        }
    }

    fn gen(element: &mut XMLElement, gen_state: GenState, name: Option<&str>) -> (r: Result<Vec<T>, XsdIoError>) {
        let ghost e0 = element@;
        proof {
            crate::xml_doc::lemma_elem_same_refl(e0);
        }
        match gen_state.state {
            GenType::Attribute => {
                let rt = T::gen(element, gen_state, name);
                let ghost e2 = element@;
                assert(T::gen_gives(e0, gen_state, opt_text_view(name), e2, rt));
                match rt {
                    Ok(v) => {
                        let out = vec![v];
                        assert(out@ =~= seq![v]);
                        Ok(out)
                    },
                    Err(x) => Err(x),
                }
            },
            GenType::Content => match name {
                Some(n) => {
                    let new_state = GenState { is_root: false, state: gen_state.state };
                    let ghost kids = named_children(e0.element.children, n@);
                    let ghost d = e0.default_namespace;
                    proof {
                        crate::xml_doc::lemma_taken_children(e0, n@);
                    }
                    let children = element.get_children(n);
                    let mut output: Vec<T> = Vec::new();
                    let ghost mut ends: Seq<XMLElementView> = seq![];
                    let ghost mut outs: Seq<Result<T, XsdIoError>> = seq![];
                    let mut rest = children;
                    while rest.len() > 0
                        invariant
                            rest@.len() + outs.len() == kids.len(),
                            new_state == below(gen_state),
                            element@ == without_children(e0, n@),
                            e0 == old(element)@,
                            opt_text_view(name) == Some(n@),
                            gen_state.state == GenType::Content,
                            taken_from(without_children(e0, n@), e0),
                            kids == named_children(e0.element.children, n@),
                            d == e0.default_namespace,
                            forall|i: int|
                                0 <= i < rest@.len() ==> (#[trigger] rest@[i])@ == (XMLElementView {
                                    element: kids[outs.len() + i],
                                    default_namespace: d,
                                }),
                            each_gives(kids, d, new_state, ends, outs),
                            output@.len() == outs.len(),
                            forall|i: int| 0 <= i < outs.len() ==> outs[i] == Ok::<T, XsdIoError>(#[trigger] output@[i]),
                        decreases rest@.len(),
                    {
                        let mut child = rest.remove(0);
                        let ghost c0 = child@;
                        let ghost prev = outs;
                        let out = T::gen(&mut child, new_state, None);
                        proof {
                            ends = ends.push(child@);
                            outs = outs.push(out);
                            assert forall|i: int| 0 <= i < outs.len() - 1 implies (#[trigger] outs[i]) is Ok by {
                                assert(outs[i] == prev[i]);
                                assert(prev[i] == Ok::<T, XsdIoError>(output@[i]));
                            }
                            assert(c0 == XMLElementView { element: kids[outs.len() - 1], default_namespace: d });
                        }
                        match out {
                            Ok(v) => {
                                output.push(v);
                            },
                            Err(x) => {
                                assert(each_gives(kids, d, new_state, ends, outs));
                                assert(map_ends(outs, kids.len(), Err::<Vec<T>, XsdIoError>(x)));
                                return Err(x);
                            },
                        }
                    }
                    assert(each_gives(kids, d, new_state, ends, outs));
                    Ok(output)
                },
                None => {
                    let mut output: Vec<T> = Vec::new();
                    let mut last = element.duplicate();
                    let ghost mut es: Seq<XMLElementView> = seq![e0];
                    loop
                        invariant_except_break
                            element@ == last@,
                        invariant
                            es.len() == output@.len() + 1,
                            es[0] == e0,
                            es.last() == last@,
                            forall|i: int|
                                0 <= i < output@.len() ==> #[trigger] T::gen_gives(
                                    es[i],
                                    gen_state,
                                    None,
                                    es[i + 1],
                                    Ok(output@[i]),
                                ) && !elem_same(es[i + 1], es[i]),
                            elem_same(last@, e0) || weight(last@) < weight(e0),
                        ensures
                            repeated(e0, gen_state, es, output@),
                            es.last() == last@,
                            elem_same(last@, e0) || weight(last@) < weight(e0),
                        decreases weight(element@),
                    {
                        let ghost before = element@;
                        let rt = T::gen(element, gen_state, None);
                        let ghost after = element@;
                        match rt {
                            Ok(v) => {
                                if element.same_as(&last) {
                                    assert(T::gen_gives(es.last(), gen_state, None, after, Ok(v)));
                                    break;
                                }
                                proof {
                                    let ghost prev = es;
                                    es = es.push(after);
                                    assert forall|i: int| 0 <= i < output@.len() + 1 implies #[trigger] T::gen_gives(
                                        es[i],
                                        gen_state,
                                        None,
                                        es[i + 1],
                                        Ok(output@.push(v)[i]),
                                    ) && !elem_same(es[i + 1], es[i]) by {
                                        if i < output@.len() {
                                            assert(es[i] == prev[i] && es[i + 1] == prev[i + 1]);
                                            assert(output@.push(v)[i] == output@[i]);
                                        }
                                    }
                                }
                                output.push(v);
                                last = element.duplicate();
                            },
                            Err(x) => {
                                assert(T::gen_gives(es.last(), gen_state, None, after, Err::<T, XsdIoError>(x)));
                                break;
                            },
                        }
                    }
                    *element = last;
                    Ok(output)
                },
            },
        }
    }
}

impl<T: XsdGen, const MIN: usize, const MAX: usize> XsdGen for RestrictedVec<T, MIN, MAX> {
    /// The values read as a vector, where their number suits the bounds;
    /// otherwise an error of the element that says how it does not.
    open spec fn gen_gives(
        e: XMLElementView,
        gen_state: GenState,
        name: Option<Seq<char>>,
        e2: XMLElementView,
        r: Result<RestrictedVec<T, MIN, MAX>, XsdIoError>,
    ) -> bool {
        exists|rv: Result<Vec<T>, XsdIoError>|
            #[trigger] Vec::<T>::gen_gives(e, gen_state, name, e2, rv) && match rv {
                Err(x) => r == Err::<RestrictedVec<T, MIN, MAX>, XsdIoError>(x),
                Ok(v) => if length_ok(v@.len(), MIN as nat, MAX as nat) {
                    r matches Ok(x) && x.elems() == v@
                } else {
                    r matches Err(x) && parse_error_is(
                        x,
                        e2.element.name,
                        length_message(v@.len(), MIN as nat, MAX as nat),
                    )
                },
            }
    }

    fn gen(element: &mut XMLElement, gen_state: GenState, name: Option<&str>) -> (r: Result<
        RestrictedVec<T, MIN, MAX>,
        XsdIoError,
    >) {
        let ghost e0 = element@;
        let rv = Vec::<T>::gen(element, gen_state, name);
        let ghost e2 = element@;
        assert(Vec::<T>::gen_gives(e0, gen_state, opt_text_view(name), e2, rv));
        match rv {
            Err(x) => Err(x),
            Ok(v) => match RestrictedVec::new(v) {
                Ok(x) => Ok(x),
                Err(msg) => Err(XsdIoError::XsdParseError(XsdParseError { node_name: element.node_name(), msg })),
            },
        }
    }
}

} // verus!
