//! Reading JSON documents through `serde_json`.
use serde_json::Value;
use vstd::prelude::*;

verus! {

#[verifier::external_type_specification]
#[verifier::external_body]
pub struct ExValue(serde_json::Value);

/// What a JSON value is. A number written as an integer has its value; any other
/// number is only known to be one.
pub enum JsonModel {
    Null,
    Bool(bool),
    Number(Option<int>),
    Text(Seq<char>),
    List(Seq<JsonModel>),
    Record(Map<Seq<char>, JsonModel>),
}

impl JsonModel {
    /// The member of a record under a key.
    pub open spec fn member(self, key: Seq<char>) -> Option<JsonModel> {
        match self {
            JsonModel::Record(fields) => if fields.contains_key(key) {
                Some(fields[key])
            } else {
                None
            },
            _ => None,
        }
    }

    /// The characters of a text.
    pub open spec fn text(self) -> Option<Seq<char>> {
        match self {
            JsonModel::Text(chars) => Some(chars),
            _ => None,
        }
    }

    /// The value of an integer.
    pub open spec fn integer(self) -> Option<int> {
        match self {
            JsonModel::Number(n) => n,
            _ => None,
        }
    }

    /// The integer member under a key, within bounds; `otherwise` where there is
    /// none.
    pub open spec fn integer_at(self, key: Seq<char>, lo: int, hi: int, otherwise: int) -> int {
        match self.member(key) {
            Some(m) => match m.integer() {
                Some(n) => if lo <= n <= hi {
                    n
                } else {
                    otherwise
                },
                None => otherwise,
            },
            None => otherwise,
        }
    }

    /// The text member under a key.
    pub open spec fn text_at(self, key: Seq<char>) -> Option<Seq<char>> {
        match self.member(key) {
            Some(m) => m.text(),
            None => None,
        }
    }
}

/// What a value of `serde_json` holds.
pub uninterp spec fn value_model(value: Value) -> JsonModel;

/// What the JSON document in a byte string is, where it is one.
pub uninterp spec fn json_document(bytes: Seq<u8>) -> Option<JsonModel>;

/// Calls `serde_json::from_slice` into a `Value`: the document in the bytes, or an
/// error where they hold none. The text of the error is left open.
#[verifier::external_body]
pub(crate) fn parse_json(bytes: &[u8]) -> (parsed: Result<Value, String>)
    ensures
        match parsed {
            Ok(value) => json_document(bytes@) == Some(value_model(value)),
            Err(_) => json_document(bytes@) is None,
        },
{
    serde_json::from_slice::<Value>(bytes).map_err(|e| e.to_string())
}

/// Calls `Value::get` with a string: the member of an object under that key;
/// nothing where the key is missing or the value is no object.
#[verifier::external_body]
pub(crate) fn member<'a>(value: &'a Value, key: &str) -> (found: Option<&'a Value>)
    ensures
        match found {
            Some(m) => value_model(*value).member(key@) == Some(value_model(*m)),
            None => value_model(*value).member(key@) is None,
        },
{
    value.get(key)
}

/// Calls `Value::as_str`: the characters of a string, nothing for another value.
#[verifier::external_body]
pub(crate) fn as_text<'a>(value: &'a Value) -> (text: Option<&'a str>)
    ensures
        match text {
            Some(s) => value_model(*value).text() == Some(s@),
            None => value_model(*value).text() is None,
        },
{
    value.as_str()
}

/// Calls `Value::clone`: a value that holds the same.
#[verifier::external_body]
pub(crate) fn duplicate(value: &Value) -> (copy: Value)
    ensures
        value_model(copy) == value_model(*value),
{
    value.clone()
}

/// What the elements of a list are.
pub open spec fn models(values: Seq<Value>) -> Seq<JsonModel> {
    values.map_values(|v: Value| value_model(v))
}

/// Calls `Value::as_array`: the elements of an array, nothing for another value.
#[verifier::external_body]
pub(crate) fn as_list<'a>(value: &'a Value) -> (list: Option<&'a Vec<Value>>)
    ensures
        match list {
            Some(items) => value_model(*value) == JsonModel::List(models(items@)),
            None => !(value_model(*value) is List),
        },
{
    value.as_array()
}

/// Whether a list is the members of a record, each once, in some order.
pub open spec fn lists_members(
    list: Seq<(String, Value)>,
    fields: Map<Seq<char>, JsonModel>,
) -> bool {
    &&& forall|i: int|
        #![trigger list[i]]
        0 <= i < list.len() ==> fields.contains_key(list[i].0@) && fields[list[i].0@]
            == value_model(list[i].1)
    &&& forall|i: int, j: int|
        #![trigger list[i], list[j]]
        0 <= i < list.len() && 0 <= j < list.len() && list[i].0@ == list[j].0@ ==> i == j
    &&& forall|key: Seq<char>|
        #![trigger fields.contains_key(key)]
        fields.contains_key(key) ==> exists|i: int|
            0 <= i < list.len() && (#[trigger] list[i]).0@ == key
}

/// Calls `Value::as_object`: the members of an object, copied out; nothing for
/// another value.
#[verifier::external_body]
pub(crate) fn as_members(value: &Value) -> (members: Option<Vec<(String, Value)>>)
    ensures
        match members {
            Some(list) => value_model(*value) matches JsonModel::Record(fields) && lists_members(
                list@,
                fields,
            ),
            None => !(value_model(*value) is Record),
        },
{
    value.as_object().map(|m| m.iter().map(|(k, v)| (k.clone(), v.clone())).collect())
}

/// Calls `Value::as_i64`: the integer, where the value is one and fits.
#[verifier::external_body]
pub(crate) fn as_i64(value: &Value) -> (n: Option<i64>)
    ensures
        match n {
            Some(i) => value_model(*value).integer() == Some(i as int),
            None => match value_model(*value).integer() {
                Some(i) => i < i64::MIN || i > i64::MAX,
                None => true,
            },
        },
{
    value.as_i64()
}

/// Calls `Value::as_u64`: the integer, where the value is one and fits.
#[verifier::external_body]
pub(crate) fn as_u64(value: &Value) -> (n: Option<u64>)
    ensures
        match n {
            Some(i) => value_model(*value).integer() == Some(i as int),
            None => match value_model(*value).integer() {
                Some(i) => i < 0 || i > u64::MAX,
                None => true,
            },
        },
{
    value.as_u64()
}

/// The signed integer member under a key, or `otherwise`.
pub fn i64_at(value: &Value, key: &str, otherwise: i64) -> (n: i64)
    ensures
        n == value_model(*value).integer_at(
            key@,
            i64::MIN as int,
            i64::MAX as int,
            otherwise as int,
        ),
{
    match member(value, key) {
        Some(m) => match as_i64(m) {
            Some(n) => n,
            None => otherwise,
        },
        None => otherwise,
    }
}

/// The unsigned integer member under a key, or `otherwise`.
pub fn u64_at(value: &Value, key: &str, otherwise: u64) -> (n: u64)
    ensures
        n == value_model(*value).integer_at(key@, 0, u64::MAX as int, otherwise as int),
{
    match member(value, key) {
        Some(m) => match as_u64(m) {
            Some(n) => n,
            None => otherwise,
        },
        None => otherwise,
    }
}

/// The text member under a key.
pub fn text_at<'a>(value: &'a Value, key: &str) -> (text: Option<&'a str>)
    ensures
        match text {
            Some(s) => value_model(*value).text_at(key@) == Some(s@),
            None => value_model(*value).text_at(key@) is None,
        },
{
    match member(value, key) {
        Some(m) => as_text(m),
        None => None,
    }
}

} // verus!
