//! JSON documents as plain trees, and the lookups the extractors are built from.

use serde_json::Value;
use vstd::prelude::*;

verus! {

/// A double, carried as its bit pattern: nothing in this crate computes with it.
#[derive(Clone, Copy, Debug, PartialEq, Eq, Structural)]
pub struct Double {
    pub bits: u64,
}

/// A JSON number, by the three readings that there are of it.
#[derive(Clone, Copy, Debug, PartialEq, Eq, Structural)]
pub struct Number {
    /// The number as an unsigned 64-bit integer, where it is one.
    pub unsigned: Option<u64>,
    /// The number as a signed 64-bit integer, where it is one.
    pub signed: Option<i64>,
    /// The number as a double, where it has one.
    pub double: Option<Double>,
}

/// A JSON document.
#[derive(Debug)]
pub enum Json {
    Null,
    Bool(bool),
    Number(Number),
    Str(String),
    Array(Vec<Json>),
    /// The members of an object, each key with its value.
    Object(Vec<(String, Json)>),
}

impl Number {
    /// Reads the number as a signed 64-bit integer.
    pub fn as_i64(&self) -> (out: Option<i64>)
        ensures
            out == self.signed,
    {
        self.signed
    }

    /// Reads the number as a double.
    pub fn as_double(&self) -> (out: Option<Double>)
        ensures
            out == self.double,
    {
        self.double
    }
}

/// `serde_json::Value`, a document as the parser builds it.
#[verifier::external_type_specification]
#[verifier::external_body]
pub struct ExValue(Value);

/// `serde_json::Error`, what the parser reports of a text that is no document.
#[verifier::external_type_specification]
#[verifier::external_body]
pub struct ExError(serde_json::Error);

/// The document that `text` denotes, when `text` is well-formed JSON.
pub uninterp spec fn parsed(text: Seq<char>) -> Option<Json>;

/// Rebuilds a `serde_json::Value` as a [`Json`], variant by variant and one for one: a number
/// by what `serde_json::Number::as_u64`, `as_i64` and `as_f64` give of it, the last as the bits
/// of the double, an object by its members in the order the map yields them. Nothing is
/// claimed of the result here; `read` names it.
#[verifier::external_body]
fn tree_of(value: Value) -> Json {
    match value {
        Value::Null => Json::Null,
        Value::Bool(b) => Json::Bool(b),
        Value::Number(n) => Json::Number(
            Number {
                unsigned: n.as_u64(),
                signed: n.as_i64(),
                double: n.as_f64().map(|x| Double { bits: x.to_bits() }),
            },
        ),
        Value::String(s) => Json::Str(s),
        Value::Array(items) => Json::Array(items.into_iter().map(tree_of).collect()),
        Value::Object(m) => Json::Object(m.into_iter().map(|(k, v)| (k, tree_of(v))).collect()),
    }
}

/// Calls `serde_json::from_str` for a `serde_json::Value` and rebuilds the value as a
/// [`Json`]. What comes back depends on the text alone: `parsed` is the name of that result,
/// and nothing else is claimed of it.
#[verifier::external_body]
fn read(text: &str) -> (out: Result<Json, serde_json::Error>)
    ensures
        out.is_ok() == parsed(text@).is_some(),
        out.is_ok() ==> Some(out.unwrap()) == parsed(text@),
{
    serde_json::from_str::<Value>(text).map(tree_of)
}

/// The document that `text` denotes, written out again with one member or element to a line
/// and two spaces of indentation for each level, when `text` is well-formed JSON.
pub uninterp spec fn pretty(text: Seq<char>) -> Option<Seq<char>>;

/// Calls `serde_json::from_str` for a `serde_json::Value` and, on the value it gives,
/// `serde_json::to_string_pretty`. What comes back depends on the text alone: `pretty` is the
/// name of that result. The first call succeeds on the texts that denote a document. The
/// second writes into memory and fails only where a writer fails or a key is no string, which
/// neither memory nor a `Value` brings about: every document has a pretty form.
#[verifier::external_body]
fn render(text: &str) -> (out: Option<String>)
    ensures
        crate::text::opt_view(out) == pretty(text@),
        out.is_some() == parsed(text@).is_some(),
{
    match serde_json::from_str::<Value>(text) {
        Ok(value) => serde_json::to_string_pretty(&value).ok(),
        Err(_) => None,
    }
}

/// Renders the message of a `serde_json::Error` through its `Display` impl.
#[verifier::external_body]
fn describe(error: &serde_json::Error) -> String {
    error.to_string()
}

/// Why a text is not a JSON document.
#[derive(Debug)]
pub struct ParseError {
    pub message: String,
}

/// The value stored under `key` among `members`: that of the first member with this key.
pub open spec fn lookup(members: Seq<(String, Json)>, key: Seq<char>) -> Option<Json>
    decreases members.len(),
{
    if members.len() == 0 {
        None
    } else if members[0].0@ == key {
        Some(members[0].1)
    } else {
        lookup(members.drop_first(), key)
    }
}

impl Json {
    /// The member `key` of an object; `None` for a missing key and for anything but an object.
    pub open spec fn field(self, key: Seq<char>) -> Option<Json> {
        match self {
            Json::Object(members) => lookup(members@, key),
            _ => None,
        }
    }

    /// The integer that a document is.
    pub open spec fn i64_value(self) -> Option<i64> {
        match self {
            Json::Number(n) => n.signed,
            _ => None,
        }
    }

    /// The string that a document is.
    pub open spec fn str_value(self) -> Option<Seq<char>> {
        match self {
            Json::Str(s) => Some(s@),
            _ => None,
        }
    }

    /// The boolean that a document is.
    pub open spec fn bool_value(self) -> Option<bool> {
        match self {
            Json::Bool(b) => Some(b),
            _ => None,
        }
    }

    /// The number that a document is.
    pub open spec fn number_value(self) -> Option<Number> {
        match self {
            Json::Number(n) => Some(n),
            _ => None,
        }
    }

    /// The elements of the array that a document is.
    pub open spec fn items(self) -> Option<Seq<Json>> {
        match self {
            Json::Array(items) => Some(items@),
            _ => None,
        }
    }

    /// The integer stored under `key`.
    pub open spec fn int_at(self, key: Seq<char>) -> Option<i64> {
        match self.field(key) {
            Some(v) => v.i64_value(),
            None => None,
        }
    }

    /// The string stored under `key`.
    pub open spec fn str_at(self, key: Seq<char>) -> Option<Seq<char>> {
        match self.field(key) {
            Some(v) => v.str_value(),
            None => None,
        }
    }

    /// The boolean stored under `key`.
    pub open spec fn bool_at(self, key: Seq<char>) -> Option<bool> {
        match self.field(key) {
            Some(v) => v.bool_value(),
            None => None,
        }
    }

    /// The double stored under `key`: the double of the number there.
    pub open spec fn double_at(self, key: Seq<char>) -> Option<Double> {
        match self.number_at(key) {
            Some(n) => n.double,
            None => None,
        }
    }

    /// The number stored under `key`.
    pub open spec fn number_at(self, key: Seq<char>) -> Option<Number> {
        match self.field(key) {
            Some(v) => v.number_value(),
            None => None,
        }
    }

    /// The elements of the array stored under `key`.
    pub open spec fn items_at(self, key: Seq<char>) -> Option<Seq<Json>> {
        match self.field(key) {
            Some(v) => v.items(),
            None => None,
        }
    }

    /// Reads a document from its text.
    pub fn parse(text: &str) -> (out: Result<Json, ParseError>)
        ensures
            out.is_ok() == parsed(text@).is_some(),
            out.is_ok() ==> Some(out.unwrap()) == parsed(text@),
    {
        match read(text) {
            Ok(doc) => Ok(doc),
            Err(error) => Err(ParseError { message: describe(&error) }),
        }
    }

    /// Writes the document of a text out again, pretty-printed; every text that denotes a
    /// document has a pretty form.
    pub fn to_pretty(text: &str) -> (out: Option<String>)
        ensures
            crate::text::opt_view(out) == pretty(text@),
            out.is_some() == parsed(text@).is_some(),
    {
        render(text)
    }

    /// Looks a member of an object up.
    pub fn get(&self, key: &str) -> (out: Option<&Json>)
        ensures
            out.is_some() == self.field(key@).is_some(),
            out.is_some() ==> *out.unwrap() == self.field(key@).unwrap(),
    {
        match self {
            Json::Object(members) => {
                let mut i: usize = 0;
                assert(members@.skip(0) =~= members@);
                while i < members.len()
                    invariant
                        i <= members.len(),
                        self.field(key@) == lookup(members@.skip(i as int), key@),
                    decreases members.len() - i,
                {
                    assert(members@.skip(i as int)[0] == members@[i as int]);
                    if members[i].0.as_str().eq(key) {
                        return Some(&members[i].1);
                    }
                    assert(members@.skip(i as int).drop_first() =~= members@.skip(i as int + 1));
                    i += 1;
                }
                None
            },
            _ => None,
        }
    }

    /// Reads an integer.
    pub fn as_i64(&self) -> (out: Option<i64>)
        ensures
            out == self.i64_value(),
    {
        match self {
            Json::Number(n) => n.as_i64(),
            _ => None,
        }
    }

    /// Reads the integer stored under `key`.
    pub fn get_i64(&self, key: &str) -> (out: Option<i64>)
        ensures
            out == self.int_at(key@),
    {
        match self.get(key) {
            Some(v) => v.as_i64(),
            None => None,
        }
    }

    /// Reads the string stored under `key`.
    pub fn get_str(&self, key: &str) -> (out: Option<&str>)
        ensures
            out.is_some() == self.str_at(key@).is_some(),
            out.is_some() ==> out.unwrap()@ == self.str_at(key@).unwrap(),
    {
        match self.get(key) {
            Some(v) => v.as_str(),
            None => None,
        }
    }

    /// Reads the boolean stored under `key`.
    pub fn get_bool(&self, key: &str) -> (out: Option<bool>)
        ensures
            out == self.bool_at(key@),
    {
        match self.get(key) {
            Some(v) => v.as_bool(),
            None => None,
        }
    }

    /// Reads the double stored under `key`.
    pub fn get_double(&self, key: &str) -> (out: Option<Double>)
        ensures
            out == self.double_at(key@),
    {
        match self.get_number(key) {
            Some(n) => n.as_double(),
            None => None,
        }
    }

    /// Reads the number stored under `key`.
    pub fn get_number(&self, key: &str) -> (out: Option<Number>)
        ensures
            out == self.number_at(key@),
    {
        match self.get(key) {
            Some(v) => v.as_number(),
            None => None,
        }
    }

    /// Reads the array stored under `key`.
    pub fn get_array(&self, key: &str) -> (out: Option<&Vec<Json>>)
        ensures
            out.is_some() == self.items_at(key@).is_some(),
            out.is_some() ==> out.unwrap()@ == self.items_at(key@).unwrap(),
    {
        match self.get(key) {
            Some(v) => v.as_array(),
            None => None,
        }
    }

    /// Reads a string.
    pub fn as_str(&self) -> (out: Option<&str>)
        ensures
            out.is_some() == self.str_value().is_some(),
            out.is_some() ==> out.unwrap()@ == self.str_value().unwrap(),
    {
        match self {
            Json::Str(s) => Some(s.as_str()),
            _ => None,
        }
    }

    /// Reads a boolean.
    pub fn as_bool(&self) -> (out: Option<bool>)
        ensures
            out == self.bool_value(),
    {
        match self {
            Json::Bool(b) => Some(*b),
            _ => None,
        }
    }

    /// Reads a number.
    pub fn as_number(&self) -> (out: Option<Number>)
        ensures
            out == self.number_value(),
    {
        match self {
            Json::Number(n) => Some(*n),
            _ => None,
        }
    }

    /// Reads an array.
    pub fn as_array(&self) -> (out: Option<&Vec<Json>>)
        ensures
            out.is_some() == self.items().is_some(),
            out.is_some() ==> out.unwrap()@ == self.items().unwrap(),
    {
        match self {
            Json::Array(items) => Some(items),
            _ => None,
        }
    }
}

} // verus!
