//! A JSON tree held as plain values, its mathematical model, and the calls
//! that parse text into it.

use vstd::prelude::*;

verus! {

/// A JSON number: its text, and its value where it is a non-negative
/// integer that fits an unsigned 64-bit word.
#[derive(Debug, PartialEq)]
pub struct JsonNumber {
    pub text: String,
    pub unsigned: Option<u64>,
}

/// A JSON value. An object holds its members in order, each key once.
#[derive(Debug, PartialEq)]
pub enum Json {
    Null,
    Bool(bool),
    Number(JsonNumber),
    Text(String),
    Array(Vec<Json>),
    Object(Vec<(String, Json)>),
}

/// The mathematical model of a JSON value.
pub enum JsonValue {
    Null,
    Bool(bool),
    Number(Seq<char>, Option<u64>),
    Text(Seq<char>),
    Array(Seq<JsonValue>),
    Object(Seq<(Seq<char>, JsonValue)>),
}

impl Json {
    /// The model of this value.
    pub open spec fn deep(&self) -> JsonValue
        decreases self,
    {
        match self {
            Json::Null => JsonValue::Null,
            Json::Bool(b) => JsonValue::Bool(*b),
            Json::Number(n) => JsonValue::Number(n.text@, n.unsigned),
            Json::Text(s) => JsonValue::Text(s@),
            Json::Array(items) => JsonValue::Array(
                Seq::new(
                    items.len() as nat,
                    |i: int|
                        if 0 <= i < items.len() {
                            items[i].deep()
                        } else {
                            JsonValue::Null
                        },
                ),
            ),
            Json::Object(members) => JsonValue::Object(
                Seq::new(
                    members.len() as nat,
                    |i: int|
                        if 0 <= i < members.len() {
                            (members[i].0@, members[i].1.deep())
                        } else {
                            (Seq::empty(), JsonValue::Null)
                        },
                ),
            ),
        }
    }

    /// A copy of the whole tree.
    pub fn duplicate(&self) -> (r: Json)
        ensures
            r.deep() == self.deep(),
        decreases self,
    {
        match self {
            Json::Null => Json::Null,
            Json::Bool(b) => Json::Bool(*b),
            Json::Number(n) => Json::Number(
                JsonNumber { text: n.text.clone(), unsigned: n.unsigned },
            ),
            Json::Text(s) => Json::Text(s.clone()),
            Json::Array(items) => {
                let mut copy: Vec<Json> = Vec::new();
                let mut i: usize = 0;

                while i < items.len()
                    invariant
                        0 <= i <= items.len(),
                        forall|k: int|
                            0 <= k < items.len() ==> decreases_to!(self => #[trigger] items[k]),
                        copy.len() == i,
                        forall|k: int| 0 <= k < i ==> copy[k].deep() == items[k].deep(),
                    decreases items.len() - i,
                {
                    let child: &Json = &items[i];
                    let item = child.duplicate();
                    copy.push(item);
                    i = i + 1;
                }
                let r = Json::Array(copy);
                assert(r.deep()->Array_0 =~= self.deep()->Array_0);
                r
            },
            Json::Object(members) => {
                let mut copy: Vec<(String, Json)> = Vec::new();
                let mut i: usize = 0;
                while i < members.len()
                    invariant
                        0 <= i <= members.len(),
                        forall|k: int|
                            0 <= k < members.len() ==> decreases_to!(self => #[trigger] members[k]),
                        copy.len() == i,
                        forall|k: int|
                            0 <= k < i ==> copy[k].0@ == members[k].0@ && copy[k].1.deep()
                                == members[k].1.deep(),
                    decreases members.len() - i,
                {
                    let member: &(String, Json) = &members[i];
                    let key = member.0.clone();
                    let value = member.1.duplicate();
                    copy.push((key, value));
                    i = i + 1;
                }
                let r = Json::Object(copy);
                assert(r.deep()->Object_0 =~= self.deep()->Object_0);
                r
            },
        }
    }
}

/// The position of the first member named `key` at or after `from`, or the
/// number of members if there is none.
pub open spec fn key_index(members: Seq<(Seq<char>, JsonValue)>, key: Seq<char>, from: int) -> int
    decreases members.len() - from,
{
    if from >= members.len() {
        members.len() as int
    } else if members[from].0 == key {
        from
    } else {
        key_index(members, key, from + 1)
    }
}

impl JsonValue {
    /// The member named `key` of an object; nothing for any other value.
    pub open spec fn member(self, key: Seq<char>) -> Option<JsonValue> {
        match self {
            JsonValue::Object(members) => {
                let i = key_index(members, key, 0);
                if 0 <= i < members.len() {
                    Some(members[i].1)
                } else {
                    None
                }
            },
            _ => None,
        }
    }

    /// The characters of a string value.
    pub open spec fn text(self) -> Option<Seq<char>> {
        match self {
            JsonValue::Text(s) => Some(s),
            _ => None,
        }
    }

    /// The value of a number that is an unsigned 64-bit integer.
    pub open spec fn unsigned(self) -> Option<u64> {
        match self {
            JsonValue::Number(_, n) => n,
            _ => None,
        }
    }

    /// The value of a boolean.
    pub open spec fn boolean(self) -> Option<bool> {
        match self {
            JsonValue::Bool(b) => Some(b),
            _ => None,
        }
    }

    /// The string member named `key`, if there is one.
    pub open spec fn text_member(self, key: Seq<char>) -> Option<Seq<char>> {
        match self.member(key) {
            Some(v) => v.text(),
            None => None,
        }
    }

    /// The unsigned integer member named `key`, if there is one.
    pub open spec fn unsigned_member(self, key: Seq<char>) -> Option<u64> {
        match self.member(key) {
            Some(v) => v.unsigned(),
            None => None,
        }
    }
}

/// The model of a tree that may be absent.
pub open spec fn deep_option(value: Option<Json>) -> Option<JsonValue> {
    match value {
        Some(v) => Some(v.deep()),
        None => None,
    }
}

/// The model of a borrowed tree that may be absent.
pub open spec fn deep_borrowed(value: Option<&Json>) -> Option<JsonValue> {
    match value {
        Some(v) => Some(v.deep()),
        None => None,
    }
}

/// The characters of a string that may be absent.
pub open spec fn text_option(value: Option<String>) -> Option<Seq<char>> {
    match value {
        Some(s) => Some(s@),
        None => None,
    }
}

impl Json {
    /// The member named `key` of an object: the first with that exact name.
    pub fn get(&self, key: &str) -> (r: Option<&Json>)
        ensures
            deep_borrowed(r) == self.deep().member(key@),
    {
        match self {
            Json::Object(members) => {
                let wanted: String = key.to_owned();
                let ghost model = self.deep()->Object_0;
                let mut i: usize = 0;
                while i < members.len()
                    invariant
                        0 <= i <= members.len(),
                        wanted@ == key@,
                        self.deep() == JsonValue::Object(model),
                        model.len() == members.len(),
                        forall|k: int|
                            0 <= k < members.len() ==> (#[trigger] model[k]) == (
                                members[k].0@,
                                members[k].1.deep(),
                            ),
                        key_index(model, key@, 0) == key_index(model, key@, i as int),
                    decreases members.len() - i,
                {
                    assert(model[i as int].0 == members[i as int].0@);
                    if members[i].0 == wanted {
                        return Some(&members[i].1);
                    }
                    i = i + 1;
                }
                None
            },
            _ => None,
        }
    }

    /// The characters of a string value, copied out.
    pub fn as_text(&self) -> (r: Option<String>)
        ensures
            text_option(r) == self.deep().text(),
    {
        match self {
            Json::Text(s) => Some(s.clone()),
            _ => None,
        }
    }

    /// The value of a number that is an unsigned 64-bit integer.
    pub fn as_unsigned(&self) -> (r: Option<u64>)
        ensures
            r == self.deep().unsigned(),
    {
        match self {
            Json::Number(n) => n.unsigned,
            _ => None,
        }
    }

    /// The value of a boolean.
    pub fn as_bool(&self) -> (r: Option<bool>)
        ensures
            r == self.deep().boolean(),
    {
        match self {
            Json::Bool(b) => Some(*b),
            _ => None,
        }
    }

    /// The string member named `key`, copied out.
    pub fn text_member(&self, key: &str) -> (r: Option<String>)
        ensures
            text_option(r) == self.deep().text_member(key@),
    {
        match self.get(key) {
            Some(v) => v.as_text(),
            None => None,
        }
    }

    /// The unsigned integer member named `key`.
    pub fn unsigned_member(&self, key: &str) -> (r: Option<u64>)
        ensures
            r == self.deep().unsigned_member(key@),
    {
        match self.get(key) {
            Some(v) => v.as_unsigned(),
            None => None,
        }
    }
}

#[verifier::external_type_specification]
#[verifier::external_body]
pub struct ExternalJsonValue(serde_json::Value);

/// What `serde_json::from_slice` yields for these bytes when asked for a
/// `serde_json::Value`: the parsed tree, or nothing where it reports an
/// error. A number stands with the text that `serde_json::Number` displays
/// and with what its `as_u64` gives; an object's members stand in the order
/// in which its map walks them.
pub uninterp spec fn json_of_bytes(bytes: Seq<u8>) -> Option<JsonValue>;

/// What `serde_json::from_str` yields for this text when asked for a
/// `serde_json::Value`: the parsed tree, modelled as for `json_of_bytes`, or
/// nothing where it reports an error.
pub uninterp spec fn json_of_text(text: Seq<char>) -> Option<JsonValue>;

/// What `String::from_utf8_lossy` makes of these bytes.
pub uninterp spec fn lossy_text(bytes: Seq<u8>) -> Seq<char>;

/// Copies a `serde_json::Value` into a tree of plain values, variant by
/// variant; an object's members come in the order its map walks them.
/// Nothing is claimed of the result here: the parsers below name it.
#[verifier::external_body]
fn json_from_value(value: &serde_json::Value) -> Json {
    match value {
        serde_json::Value::Null => Json::Null,
        serde_json::Value::Bool(b) => Json::Bool(*b),
        serde_json::Value::Number(n) => Json::Number(
            JsonNumber { text: n.to_string(), unsigned: n.as_u64() },
        ),
        serde_json::Value::String(s) => Json::Text(s.clone()),
        serde_json::Value::Array(a) => Json::Array(a.iter().map(json_from_value).collect()),
        serde_json::Value::Object(m) => Json::Object(
            m.iter().map(|(k, v)| (k.clone(), json_from_value(v))).collect(),
        ),
    }
}

/// Calls `serde_json::from_slice` for a `serde_json::Value`. Trusted: the
/// result is a function of the bytes alone, named `json_of_bytes`; an error
/// of the parser becomes `None`.
#[verifier::external_body]
pub(crate) fn parse_bytes(bytes: &[u8]) -> (r: Option<Json>)
    ensures
        deep_option(r) == json_of_bytes(bytes@),
{
    match serde_json::from_slice::<serde_json::Value>(bytes) {
        Ok(value) => Some(json_from_value(&value)),
        Err(_) => None,
    }
}

/// Calls `serde_json::from_str` for a `serde_json::Value`. Trusted: the
/// result is a function of the text alone, named `json_of_text`; an error
/// of the parser becomes `None`.
#[verifier::external_body]
pub(crate) fn parse_text(text: &str) -> (r: Option<Json>)
    ensures
        deep_option(r) == json_of_text(text@),
{
    match serde_json::from_str::<serde_json::Value>(text) {
        Ok(value) => Some(json_from_value(&value)),
        Err(_) => None,
    }
}

/// Calls `String::from_utf8_lossy`. Trusted: the text is a function of the
/// bytes alone, named `lossy_text`.
#[verifier::external_body]
pub(crate) fn decode_lossy(bytes: &[u8]) -> (r: String)
    ensures
        r@ == lossy_text(bytes@),
{
    String::from_utf8_lossy(bytes).into_owned()
}

} // verus!
