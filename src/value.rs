use vstd::prelude::*;

verus! {

/// An event record: a JSON-like tree with string keys.
///
/// Numbers keep the distinction that the record source makes: negative
/// integers, non-negative integers, and other numbers, which are carried as
/// their canonical text.
pub enum JsonValue {
    Null,
    Bool(bool),
    Int(i64),
    UInt(u64),
    Float(String),
    Str(String),
    Array(Vec<JsonValue>),
    Object(Vec<(String, JsonValue)>),
}

/// A node of a rule document: a mapping, a sequence, or a scalar.
///
/// Real numbers are carried as the text they were written with. `Alias`
/// stands for a document construct that has no comparable scalar form.
pub enum DocNode {
    Null,
    Boolean(bool),
    Integer(i64),
    Real(String),
    Text(String),
    Array(Vec<DocNode>),
    Hash(Vec<(String, DocNode)>),
    Alias(usize),
}

pub open spec fn digit_char(d: nat) -> char {
    seq!['0', '1', '2', '3', '4', '5', '6', '7', '8', '9'][(d % 10) as int]
}

/// The decimal digits of a natural number, most significant first.
pub open spec fn nat_text(n: nat) -> Seq<char>
    decreases n,
{
    if n < 10 {
        seq![digit_char(n)]
    } else {
        nat_text(n / 10).push(digit_char(n % 10))
    }
}

/// The decimal text of an integer, with a leading `-` when negative.
pub open spec fn int_text(i: int) -> Seq<char> {
    if i < 0 {
        seq!['-'] + nat_text((-i) as nat)
    } else {
        nat_text(i as nat)
    }
}

pub open spec fn bool_text(b: bool) -> Seq<char> {
    if b {
        "true"@
    } else {
        "false"@
    }
}

/// Relies on the `Display` impl of `i64` (through `to_string`): the decimal
/// form of the number.
#[verifier::external_body]
fn i64_text(i: i64) -> (r: String)
    ensures
        r@ == int_text(i as int),
{
    i.to_string()
}

/// Relies on the `Display` impl of `u64` (through `to_string`): the decimal
/// form of the number.
#[verifier::external_body]
fn u64_text(n: u64) -> (r: String)
    ensures
        r@ == nat_text(n as nat),
{
    n.to_string()
}

pub fn bool_string(b: bool) -> (r: String)
    ensures
        r@ == bool_text(b),
{
    if b {
        String::from_str("true")
    } else {
        String::from_str("false")
    }
}

/// The text against which a record value is compared, for the scalar kinds
/// that can be compared at all.
pub open spec fn json_text(v: JsonValue) -> Option<Seq<char>> {
    match v {
        JsonValue::Bool(b) => Some(bool_text(b)),
        JsonValue::Int(i) => Some(int_text(i as int)),
        JsonValue::UInt(n) => Some(nat_text(n as nat)),
        JsonValue::Float(t) => Some(t@),
        JsonValue::Str(s) => Some(s@),
        _ => None,
    }
}

/// The text of a configured rule value, for the scalar kinds that can be
/// turned into a pattern.
pub open spec fn doc_text(d: DocNode) -> Option<Seq<char>> {
    match d {
        DocNode::Boolean(b) => Some(bool_text(b)),
        DocNode::Integer(i) => Some(int_text(i as int)),
        DocNode::Real(t) => Some(t@),
        DocNode::Text(s) => Some(s@),
        _ => None,
    }
}

/// Stringifies a scalar record value; `None` for null and composite values.
pub fn json_to_text(v: &JsonValue) -> (r: Option<String>)
    ensures
        r.is_some() == json_text(*v).is_some(),
        r matches Some(t) ==> json_text(*v) == Some(t@),
{
    match v {
        JsonValue::Bool(b) => Some(bool_string(*b)),
        JsonValue::Int(i) => Some(i64_text(*i)),
        JsonValue::UInt(n) => Some(u64_text(*n)),
        JsonValue::Float(t) => Some(t.clone()),
        JsonValue::Str(s) => Some(s.clone()),
        _ => None,
    }
}

/// Stringifies a scalar rule value; `None` for null, composite and alias
/// nodes.
pub fn doc_to_text(d: &DocNode) -> (r: Option<String>)
    ensures
        r.is_some() == doc_text(*d).is_some(),
        r matches Some(t) ==> doc_text(*d) == Some(t@),
{
    match d {
        DocNode::Boolean(b) => Some(bool_string(*b)),
        DocNode::Integer(i) => Some(i64_text(*i)),
        DocNode::Real(t) => Some(t.clone()),
        DocNode::Text(s) => Some(s.clone()),
        _ => None,
    }
}

} // verus!
