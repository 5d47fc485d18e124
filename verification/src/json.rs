use vstd::prelude::*;

verus! {

/// serde_json's dynamically typed value; opaque to Verus.
#[verifier::external_type_specification]
#[verifier::external_body]
pub struct ExJsonValue(serde_json::Value);

/// A JSON value as the structured-data rules read it: numbers only by kind,
/// object members in the order the parser keeps them.
#[derive(Debug)]
pub enum JsonValue {
    Null,
    Bool(bool),
    Number,
    Str(String),
    Array(Vec<JsonValue>),
    Object(Vec<(String, JsonValue)>),
}

/// What `serde_json::from_str::<serde_json::Value>` makes of `text`: the value,
/// or the text of the parse error (its `Display`).
pub uninterp spec fn json_parse(text: Seq<char>) -> Result<JsonValue, Seq<char>>;

/// The position of the first member with key `key` at or after position `k`,
/// or -1 when there is none.
pub open spec fn key_index(entries: Seq<(String, JsonValue)>, key: Seq<char>, k: int) -> int
    decreases entries.len() - k,
{
    if k < 0 || k >= entries.len() {
        -1
    } else if entries[k].0@ == key {
        k
    } else {
        key_index(entries, key, k + 1)
    }
}

/// The value of member `key` of an object (`serde_json::Map::get`): that of the
/// first member with that key.
pub open spec fn json_get(entries: Seq<(String, JsonValue)>, key: Seq<char>) -> Option<JsonValue> {
    let i = key_index(entries, key, 0);
    if 0 <= i < entries.len() {
        Some(entries[i].1)
    } else {
        None
    }
}

/// The member found by [`key_index`] lies in the searched range.
pub proof fn lemma_key_index_range(entries: Seq<(String, JsonValue)>, key: Seq<char>, k: int)
    requires
        0 <= k,
    ensures
        key_index(entries, key, k) == -1 || k <= key_index(entries, key, k) < entries.len(),
    decreases entries.len() - k,
{
    if k < entries.len() && entries[k].0@ != key {
        lemma_key_index_range(entries, key, k + 1);
    }
}

/// `serde_json::from_str::<serde_json::Value>`: parses `text` as JSON and
/// converts the value member by member; a parse error becomes its message.
#[verifier::external_body]
pub(crate) fn parse_json(text: &str) -> (parsed: Result<JsonValue, String>)
    ensures
        match parsed {
            Ok(v) => json_parse(text@) == Ok::<JsonValue, Seq<char>>(v),
            Err(e) => json_parse(text@) == Err::<JsonValue, Seq<char>>(e@),
        },
{
    match serde_json::from_str::<serde_json::Value>(text) {
        Ok(v) => Ok(json_from(v)),
        Err(e) => Err(e.to_string()),
    }
}

/// Converts a `serde_json::Value` into a [`JsonValue`], one variant for one,
/// keeping array order and the map's member order.
#[verifier::external_body]
fn json_from(v: serde_json::Value) -> JsonValue {
    match v {
        serde_json::Value::Null => JsonValue::Null,
        serde_json::Value::Bool(b) => JsonValue::Bool(b),
        serde_json::Value::Number(_) => JsonValue::Number,
        serde_json::Value::String(s) => JsonValue::Str(s),
        serde_json::Value::Array(a) => JsonValue::Array(a.into_iter().map(json_from).collect()),
        serde_json::Value::Object(m) => JsonValue::Object(m.into_iter().map(|(k, x)| (k, json_from(x))).collect()),
    }
}

/// The member `key` of an object's members.
pub fn get_member<'a>(entries: &'a Vec<(String, JsonValue)>, key: &str) -> (found: Option<&'a JsonValue>)
    ensures
        match found {
            Some(v) => json_get(entries@, key@) == Some(*v),
            None => json_get(entries@, key@) is None,
        },
{
    let n = entries.len();
    let mut i: usize = 0;
    while i < n
        invariant
            n == entries@.len(),
            i <= n,
            key_index(entries@, key@, 0) == key_index(entries@, key@, i as int),
        decreases n - i,
    {
        if crate::text::same_text(entries[i].0.as_str(), key) {
            return Some(&entries[i].1);
        }
        i = i + 1;
    }
    None
}

} // verus!
