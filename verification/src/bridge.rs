//! The boundary to `serde_json`: the outside types this crate carries, the
//! names of what they hold, and one small function per outside call. Nothing
//! here is proved; every contract restates what `serde_json` does.

use crate::json::{distinct_keys, entries_map, number_equal, JsonSpec, NumberSpec};
use vstd::prelude::*;

verus! {

/// `serde_json::Number`, carried as it is.
#[verifier::external_type_specification]
#[verifier::external_body]
pub struct ExNumber(serde_json::Number);

/// The number that a `serde_json::Number` holds.
pub uninterp spec fn number_spec(n: serde_json::Number) -> NumberSpec;

/// `serde_json::Number::from` on a `u64`, which stores the integer as it is.
#[verifier::external_body]
pub(crate) fn number_from_u64(n: u64) -> (r: serde_json::Number)
    ensures
        number_spec(r) == NumberSpec::PosInt(n),
{
    serde_json::Number::from(n)
}

/// `serde_json::Number::from` on an `i64`, which stores a negative integer as
/// such and any other as a non-negative integer.
#[verifier::external_body]
pub(crate) fn number_from_i64(n: i64) -> (r: serde_json::Number)
    ensures
        n < 0 ==> number_spec(r) == NumberSpec::NegInt(n),
        n >= 0 ==> number_spec(r) == NumberSpec::PosInt(n as u64),
{
    serde_json::Number::from(n)
}

/// What `str::parse::<serde_json::Number>` makes of a text: the number
/// read, or nothing where it reports an error.
pub uninterp spec fn number_of_text(text: Seq<char>) -> Option<NumberSpec>;

/// `str::parse::<serde_json::Number>`, with the error dropped.
#[verifier::external_body]
pub(crate) fn number_parse(text: &str) -> (r: Option<serde_json::Number>)
    ensures
        match r {
            Some(n) => number_of_text(text@) == Some(number_spec(n)),
            None => number_of_text(text@) is None,
        },
{
    text.parse::<serde_json::Number>().ok()
}

/// The bits of the float that `serde_json::Number::as_f64` gives for a number:
/// the float itself where the number holds one, else the integer converted.
pub uninterp spec fn float_bits_of(n: NumberSpec) -> u64;

/// `serde_json::Number::as_f64` followed by `serde_json::Number::from_f64`:
/// the same number held as a float. The first returns a float for each kind
/// of number, and it is finite, so the second accepts it; a number that
/// holds a float comes back as it was.
#[verifier::external_body]
pub(crate) fn number_to_float(n: &serde_json::Number) -> (r: Option<serde_json::Number>)
    ensures
        r is Some,
        number_spec(r.unwrap()) == NumberSpec::Float(float_bits_of(number_spec(*n))),
        number_spec(*n) is Float ==> number_spec(r.unwrap()) == number_spec(*n),
{
    n.as_f64().and_then(serde_json::Number::from_f64)
}

/// `PartialEq::eq` of `serde_json::Number`: integers of the same sign class
/// compare as integers, floats compare numerically, mixed classes differ.
#[verifier::external_body]
pub(crate) fn number_eq(a: &serde_json::Number, b: &serde_json::Number) -> (r: bool)
    ensures
        r == number_equal(number_spec(*a), number_spec(*b)),
{
    a == b
}

/// `Clone::clone` of `serde_json::Number`, a copy holding the same number.
#[verifier::external_body]
pub(crate) fn number_clone(n: &serde_json::Number) -> (r: serde_json::Number)
    ensures
        number_spec(r) == number_spec(*n),
{
    n.clone()
}

/// `serde_json::Value`, carried as it is.
#[verifier::external_type_specification]
#[verifier::external_body]
pub struct ExValue(serde_json::Value);

/// `serde_json::Error`, carried as it is.
#[verifier::external_type_specification]
#[verifier::external_body]
pub struct ExError(serde_json::Error);

/// The JSON value that a `serde_json::Value` holds. An object is the mapping
/// from its keys to their values.
pub uninterp spec fn value_spec(v: serde_json::Value) -> JsonSpec;

/// One level of a `serde_json::Value`, borrowed: its variant, with the values
/// inside an array or an object still as `serde_json` holds them.
pub(crate) enum BorrowedNode<'a> {
    Null,
    Bool(bool),
    Number(&'a serde_json::Number),
    String(&'a String),
    Array(&'a Vec<serde_json::Value>),
    Object(Vec<(&'a String, &'a serde_json::Value)>),
}

/// One level of a `serde_json::Value`, owned.
pub(crate) enum OwnedNode {
    Null,
    Bool(bool),
    Number(serde_json::Number),
    String(String),
    Array(Vec<serde_json::Value>),
    Object(Vec<(String, serde_json::Value)>),
}

/// The JSON values that a list of `serde_json::Value` holds, in order.
pub(crate) open spec fn items_spec(items: Seq<serde_json::Value>) -> Seq<JsonSpec> {
    Seq::new(items.len(), |i: int| value_spec(items[i]))
}

/// The keys and JSON values of a list of borrowed entries, in order.
pub(crate) open spec fn borrowed_entries_spec(
    entries: Seq<(&String, &serde_json::Value)>,
) -> Seq<(Seq<char>, JsonSpec)> {
    Seq::new(entries.len(), |i: int| ((*entries[i].0)@, value_spec(*entries[i].1)))
}

/// The keys and JSON values of a list of owned entries, in order.
pub(crate) open spec fn owned_entries_spec(entries: Seq<(String, serde_json::Value)>) -> Seq<
    (Seq<char>, JsonSpec),
> {
    Seq::new(entries.len(), |i: int| (entries[i].0@, value_spec(entries[i].1)))
}

impl<'a> BorrowedNode<'a> {
    /// The JSON value that the node stands for.
    pub(crate) open spec fn spec(self) -> JsonSpec {
        match self {
            BorrowedNode::Null => JsonSpec::Null,
            BorrowedNode::Bool(b) => JsonSpec::Bool(b),
            BorrowedNode::Number(n) => JsonSpec::Number(number_spec(*n)),
            BorrowedNode::String(s) => JsonSpec::String((*s)@),
            BorrowedNode::Array(items) => JsonSpec::Array(items_spec((*items)@)),
            BorrowedNode::Object(entries) => JsonSpec::Object(
                entries_map(borrowed_entries_spec(entries@)),
            ),
        }
    }

    /// The entries of an object have distinct keys.
    pub(crate) open spec fn distinct(self) -> bool {
        self matches BorrowedNode::Object(entries) ==> distinct_keys(
            borrowed_entries_spec(entries@),
        )
    }
}

impl OwnedNode {
    /// The JSON value that the node stands for.
    pub(crate) open spec fn spec(self) -> JsonSpec {
        match self {
            OwnedNode::Null => JsonSpec::Null,
            OwnedNode::Bool(b) => JsonSpec::Bool(b),
            OwnedNode::Number(n) => JsonSpec::Number(number_spec(n)),
            OwnedNode::String(s) => JsonSpec::String(s@),
            OwnedNode::Array(items) => JsonSpec::Array(items_spec(items@)),
            OwnedNode::Object(entries) => JsonSpec::Object(
                entries_map(owned_entries_spec(entries@)),
            ),
        }
    }

    /// The entries of an object have distinct keys.
    pub(crate) open spec fn distinct(self) -> bool {
        self matches OwnedNode::Object(entries) ==> distinct_keys(owned_entries_spec(entries@))
    }
}

/// Takes a `serde_json::Value` apart by its variant. The entries of an object
/// come from `serde_json::Map::iter`, each key once.
#[verifier::external_body]
pub(crate) fn value_open<'a>(v: &'a serde_json::Value) -> (r: BorrowedNode<'a>)
    ensures
        r.spec() == value_spec(*v),
        r.distinct(),
{
    match v {
        serde_json::Value::Null => BorrowedNode::Null,
        serde_json::Value::Bool(b) => BorrowedNode::Bool(*b),
        serde_json::Value::Number(n) => BorrowedNode::Number(n),
        serde_json::Value::String(s) => BorrowedNode::String(s),
        serde_json::Value::Array(items) => BorrowedNode::Array(items),
        serde_json::Value::Object(m) => BorrowedNode::Object(m.iter().collect()),
    }
}

/// Builds the `serde_json::Value` of the matching variant. The entries of an
/// object are collected into a `serde_json::Map`.
#[verifier::external_body]
pub(crate) fn value_close(node: OwnedNode) -> (r: serde_json::Value)
    requires
        node.distinct(),
    ensures
        value_spec(r) == node.spec(),
{
    match node {
        OwnedNode::Null => serde_json::Value::Null,
        OwnedNode::Bool(b) => serde_json::Value::Bool(b),
        OwnedNode::Number(n) => serde_json::Value::Number(n),
        OwnedNode::String(s) => serde_json::Value::String(s),
        OwnedNode::Array(items) => serde_json::Value::Array(items),
        OwnedNode::Object(entries) => serde_json::Value::Object(entries.into_iter().collect()),
    }
}

/// The text that `serde_json::to_string` gives for a JSON value, where it
/// gives one.
pub uninterp spec fn json_text(v: JsonSpec) -> Option<Seq<char>>;

/// `serde_json::to_string` on a `serde_json::Value`.
#[verifier::external_body]
pub(crate) fn value_print(v: &serde_json::Value) -> (r: Result<String, serde_json::Error>)
    ensures
        match r {
            Ok(text) => json_text(value_spec(*v)) == Some(text@),
            Err(_) => json_text(value_spec(*v)) is None,
        },
{
    serde_json::to_string(v)
}

/// The JSON value that `serde_json::from_str` reads from a text, where the
/// text is JSON.
pub uninterp spec fn json_parse(text: Seq<char>) -> Option<JsonSpec>;

/// `serde_json::from_str` for a `serde_json::Value`.
#[verifier::external_body]
pub(crate) fn value_read(text: &str) -> (r: Result<serde_json::Value, serde_json::Error>)
    ensures
        match r {
            Ok(v) => json_parse(text@) == Some(value_spec(v)),
            Err(_) => json_parse(text@) is None,
        },
{
    serde_json::from_str::<serde_json::Value>(text)
}

/// `ToString::to_string` of a `serde_json::Error`: the parser's message.
/// Nothing is claimed of it.
#[verifier::external_body]
pub(crate) fn error_message(e: &serde_json::Error) -> (r: String) {
    e.to_string()
}

} // verus!
