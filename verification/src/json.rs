//! JSON values as the library reads and writes them.

use crate::text::optional;
use serde_json::Value;
use vstd::prelude::*;

verus! {

broadcast use vstd::string::group_string_axioms;

/// The contents of a JSON value.
pub enum Json {
    Null,
    Bool(bool),
    /// A number that fits `i64` or `u64`.
    Int(int),
    /// Any other number.
    Float,
    Text(Seq<char>),
    Array(Seq<Json>),
    Object(Map<Seq<char>, Json>),
}

impl Json {
    /// The member `key`, `Null` where there is none.
    pub open spec fn at(self, key: Seq<char>) -> Json {
        match self {
            Json::Object(members) if members.contains_key(key) => members[key],
            _ => Json::Null,
        }
    }

    /// Item `index`, `Null` where there is none.
    pub open spec fn item(self, index: int) -> Json {
        match self {
            Json::Array(items) if 0 <= index < items.len() => items[index],
            _ => Json::Null,
        }
    }

    /// Whether this is an object with the member `key`.
    pub open spec fn has(self, key: Seq<char>) -> bool {
        self matches Json::Object(members) && members.contains_key(key)
    }

    /// The text, where this is a string.
    pub open spec fn text(self) -> Option<Seq<char>> {
        match self {
            Json::Text(text) => Some(text),
            _ => None,
        }
    }

    /// The truth value, where this is a boolean.
    pub open spec fn truth(self) -> Option<bool> {
        match self {
            Json::Bool(value) => Some(value),
            _ => None,
        }
    }

    /// Whether arrays and objects lie at most `depth` deep inside each other.
    pub open spec fn nested_at_most(self, depth: nat) -> bool
        decreases depth,
    {
        match self {
            Json::Array(items) => depth > 0 && forall|i: int|
                0 <= i < items.len() ==> (#[trigger] items[i]).nested_at_most((depth - 1) as nat),
            Json::Object(members) => depth > 0 && forall|key: Seq<char>| #[trigger]
                members.contains_key(key) ==> members[key].nested_at_most((depth - 1) as nat),
            _ => true,
        }
    }
}

/// `serde_json::Value`, known only through [`contents`].
#[verifier::external_type_specification]
#[verifier::external_body]
pub struct ExValue(Value);

/// What a JSON value holds.
pub uninterp spec fn contents(value: Value) -> Json;

/// What `serde_json` reads out of a text; `None` where it is not one JSON value.
pub uninterp spec fn parsed(text: Seq<char>) -> Option<Json>;

/// `serde_json::from_str`: the value that the text spells, `None` on its error.
#[verifier::external_body]
pub(crate) fn parse(text: &str) -> (value: Option<Value>)
    ensures
        match value {
            Some(value) => parsed(text@) == Some(contents(value)),
            None => parsed(text@) is None,
        },
{
    serde_json::from_str(text).ok()
}

/// What `serde_json` reads out of bytes; `None` where they are not one JSON value.
pub uninterp spec fn parsed_bytes(bytes: Seq<u8>) -> Option<Json>;

/// `serde_json::from_slice`: the value that the bytes spell, `None` on its error.
#[verifier::external_body]
pub(crate) fn parse_bytes(bytes: &[u8]) -> (value: Option<Value>)
    ensures
        match value {
            Some(value) => parsed_bytes(bytes@) == Some(contents(value)),
            None => parsed_bytes(bytes@) is None,
        },
{
    serde_json::from_slice(bytes).ok()
}

/// `Index<&str>` of `serde_json::Value`: the member under the key. A value that is no
/// object, or an object without the key, gives `Null`.
#[verifier::external_body]
pub(crate) fn at<'a>(value: &'a Value, key: &str) -> (member: &'a Value)
    ensures
        contents(*member) == contents(*value).at(key@),
{
    &value[key]
}

/// `Index<usize>` of `serde_json::Value`: the item at the index. A value that is no array,
/// or an array that is too short, gives `Null`.
#[verifier::external_body]
pub(crate) fn item(value: &Value, index: usize) -> (member: &Value)
    ensures
        contents(*member) == contents(*value).item(index as int),
{
    &value[index]
}

/// `serde_json::Value::get` with a string: the member under the key, where the value is an
/// object that has it.
#[verifier::external_body]
pub(crate) fn get<'a>(value: &'a Value, key: &str) -> (member: Option<&'a Value>)
    ensures
        match member {
            Some(member) => contents(*value).has(key@) && contents(*member) == contents(*value).at(
                key@,
            ),
            None => !contents(*value).has(key@),
        },
{
    value.get(key)
}

/// `serde_json::Value::as_str`: the text of a string, `None` for any other value.
#[verifier::external_body]
pub(crate) fn as_str(value: &Value) -> (text: Option<&str>)
    ensures
        match text {
            Some(text) => contents(*value).text() == Some(text@),
            None => contents(*value).text() is None,
        },
{
    value.as_str()
}

/// A copy of the text of a string, `None` for any other value.
pub(crate) fn text_of(value: &Value) -> (text: Option<String>)
    ensures
        optional(text) == contents(*value).text(),
{
    match as_str(value) {
        Some(text) => Some(text.to_owned()),
        None => None,
    }
}

/// `serde_json::Value::as_bool`: the truth value of a boolean, `None` for any other value.
#[verifier::external_body]
pub(crate) fn as_bool(value: &Value) -> (truth: Option<bool>)
    ensures
        truth == contents(*value).truth(),
{
    value.as_bool()
}

/// `From<&str>` for `serde_json::Value`: a string.
#[verifier::external_body]
pub(crate) fn string(text: &str) -> (value: Value)
    ensures
        contents(value) == Json::Text(text@),
{
    Value::from(text)
}

/// `From<bool>` for `serde_json::Value`: a boolean.
#[verifier::external_body]
pub(crate) fn boolean(truth: bool) -> (value: Value)
    ensures
        contents(value) == Json::Bool(truth),
{
    Value::from(truth)
}

/// `From<u32>` for `serde_json::Value`: a number.
#[verifier::external_body]
pub(crate) fn integer(number: u32) -> (value: Value)
    ensures
        contents(value) == Json::Int(number as int),
{
    Value::from(number)
}

/// `serde_json::Value::Array`: an array of the items, in their order.
#[verifier::external_body]
pub(crate) fn array(items: Vec<Value>) -> (value: Value)
    ensures
        contents(value) == Json::Array(items@.map_values(|item: Value| contents(item))),
{
    Value::Array(items)
}

/// `serde_json::Map::new` as a `serde_json::Value`: an object without members.
#[verifier::external_body]
pub(crate) fn object() -> (value: Value)
    ensures
        contents(value) == Json::Object(Map::empty()),
{
    Value::Object(serde_json::Map::new())
}

/// `IndexMut<&str>` of `serde_json::Value`: on an object, sets the member under the key,
/// in place of the one that was there. It panics on values that are neither an object nor
/// `Null`.
#[verifier::external_body]
pub(crate) fn set(value: &mut Value, key: &str, member: Value)
    requires
        contents(*old(value)) is Object,
    ensures
        contents(*final(value)) == Json::Object(
            contents(*old(value))->Object_0.insert(key@, contents(member)),
        ),
{
    value[key] = member;
}

/// `Display` of `serde_json::Value`: a JSON text that reads back as the same value, as
/// long as the value stays clear of the reader's nesting limit.
#[verifier::external_body]
pub(crate) fn render(value: &Value) -> (text: String)
    requires
        contents(*value).nested_at_most(16),
    ensures
        parsed(text@) == Some(contents(*value)),
{
    value.to_string()
}

} // verus!
