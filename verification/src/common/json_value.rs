use vstd::prelude::*;

use crate::common::symbol::same_text;

verus! {

/// A JSON number, told apart as serde_json's accessors tell it apart: an
/// integer that `as_u64` reads, a negative integer that `as_i64` reads, or
/// a number that neither reads (a float, whose value the library never
/// looks at).
#[derive(Clone, Copy, Debug, PartialEq, Eq, Structural)]
pub enum JsonNumber {
    PosInt(u64),
    NegInt(i64),
    Float,
}

/// A JSON value as the library reads it.
#[derive(Debug)]
pub enum Json {
    Null,
    Bool(bool),
    Number(JsonNumber),
    Str(String),
    Array(Vec<Json>),
    Object(Vec<(String, Json)>),
}

/// The mathematical form of a JSON value: texts as character sequences.
pub enum JsonValue {
    Null,
    Bool(bool),
    Number(JsonNumber),
    Str(Seq<char>),
    Array(Seq<JsonValue>),
    Object(Seq<(Seq<char>, JsonValue)>),
}

/// The mathematical form of a JSON value.
pub open spec fn json_view(j: Json) -> JsonValue
    decreases j,
{
    match j {
        Json::Null => JsonValue::Null,
        Json::Bool(b) => JsonValue::Bool(b),
        Json::Number(n) => JsonValue::Number(n),
        Json::Str(s) => JsonValue::Str(s@),
        Json::Array(items) => JsonValue::Array(items_view(items@)),
        Json::Object(fields) => JsonValue::Object(fields_view(fields@)),
    }
}

/// The mathematical forms of a run of JSON values.
pub open spec fn items_view(items: Seq<Json>) -> Seq<JsonValue>
    decreases items,
{
    if items.len() == 0 {
        Seq::empty()
    } else {
        items_view(items.drop_last()).push(json_view(items.last()))
    }
}

/// The mathematical forms of an object's fields.
pub open spec fn fields_view(fields: Seq<(String, Json)>) -> Seq<(Seq<char>, JsonValue)>
    decreases fields,
{
    if fields.len() == 0 {
        Seq::empty()
    } else {
        fields_view(fields.drop_last()).push((fields.last().0@, json_view(fields.last().1)))
    }
}

/// A run of values views item by item.
pub proof fn lemma_items_view(items: Seq<Json>)
    ensures
        items_view(items).len() == items.len(),
        forall|k: int| 0 <= k < items.len() ==> #[trigger] items_view(items)[k] == json_view(items[k]),
    decreases items.len(),
{
    if items.len() > 0 {
        lemma_items_view(items.drop_last());
    }
}

/// An object's fields view field by field.
pub proof fn lemma_fields_view(fields: Seq<(String, Json)>)
    ensures
        fields_view(fields).len() == fields.len(),
        forall|k: int| 0 <= k < fields.len() ==> #[trigger] fields_view(fields)[k] == (fields[k].0@, json_view(fields[k].1)),
    decreases fields.len(),
{
    if fields.len() > 0 {
        lemma_fields_view(fields.drop_last());
    }
}

impl View for Json {
    type V = JsonValue;

    open spec fn view(&self) -> JsonValue {
        json_view(*self)
    }
}

/// What serde_json reads a text as: `None` where the text is no JSON.
pub uninterp spec fn json_of(text: Seq<char>) -> Option<JsonValue>;

/// The compact text that serde_json writes back for the value it read from
/// a text.
pub uninterp spec fn json_rendering(text: Seq<char>) -> Seq<char>;

/// The value of the first field named `key`.
pub open spec fn field(fields: Seq<(Seq<char>, JsonValue)>, key: Seq<char>) -> Option<JsonValue>
    decreases fields.len(),
{
    if fields.len() == 0 {
        None
    } else if fields[0].0 == key {
        Some(fields[0].1)
    } else {
        field(fields.drop_first(), key)
    }
}

/// The member `key` of an object; `None` for a missing member or a value
/// that is no object.
pub open spec fn member(v: JsonValue, key: Seq<char>) -> Option<JsonValue> {
    match v {
        JsonValue::Object(fields) => field(fields, key),
        _ => None,
    }
}

/// A number read as a `u64`.
pub open spec fn u64_of(v: JsonValue) -> Option<u64> {
    match v {
        JsonValue::Number(JsonNumber::PosInt(n)) => Some(n),
        _ => None,
    }
}

/// A number read as an `i64`.
pub open spec fn i64_of(v: JsonValue) -> Option<i64> {
    match v {
        JsonValue::Number(JsonNumber::PosInt(n)) => if n <= i64::MAX {
            Some(n as i64)
        } else {
            None
        },
        JsonValue::Number(JsonNumber::NegInt(n)) => Some(n),
        _ => None,
    }
}

/// A string's characters.
pub open spec fn text_of(v: JsonValue) -> Option<Seq<char>> {
    match v {
        JsonValue::Str(s) => Some(s),
        _ => None,
    }
}

/// An array's items.
pub open spec fn items_of(v: JsonValue) -> Option<Seq<JsonValue>> {
    match v {
        JsonValue::Array(items) => Some(items),
        _ => None,
    }
}

/// The text at position `i` of an array.
pub open spec fn text_at(v: JsonValue, i: int) -> Option<Seq<char>> {
    match items_of(v) {
        Some(items) => if 0 <= i < items.len() {
            text_of(items[i])
        } else {
            None
        },
        None => None,
    }
}

/// The member `key` of an optional object.
pub open spec fn opt_member(v: Option<JsonValue>, key: Seq<char>) -> Option<JsonValue> {
    match v {
        Some(v) => member(v, key),
        None => None,
    }
}

/// The view of an optional value.
pub open spec fn opt_view(j: Option<&Json>) -> Option<JsonValue> {
    match j {
        Some(j) => Some(j@),
        None => None,
    }
}

/// Converts serde_json's value into the library's, variant by variant.
///
/// Numbers are told apart by `Number::as_u64` and `Number::as_i64`; arrays
/// keep their order and objects the order in which serde_json's map yields
/// its entries.
#[verifier::external_body]
fn value_tree(v: serde_json::Value) -> Json {
    match v {
        serde_json::Value::Null => Json::Null,
        serde_json::Value::Bool(b) => Json::Bool(b),
        serde_json::Value::Number(n) => Json::Number(match (n.as_u64(), n.as_i64()) {
            (Some(u), _) => JsonNumber::PosInt(u),
            (None, Some(i)) => JsonNumber::NegInt(i),
            (None, None) => JsonNumber::Float,
        }),
        serde_json::Value::String(s) => Json::Str(s),
        serde_json::Value::Array(items) => Json::Array(items.into_iter().map(value_tree).collect()),
        serde_json::Value::Object(m) => Json::Object(m.into_iter().map(|(k, v)| (k, value_tree(v))).collect()),
    }
}

/// Reads a text as a JSON value.
///
/// Calls `serde_json::from_str::<serde_json::Value>` and converts the value
/// read. What comes back is named by `json_of`: serde_json's parser decides
/// it from the text alone.
#[verifier::external_body]
pub(crate) fn parse_json(text: &str) -> (r: Option<Json>)
    ensures
        opt_json_view(r) == json_of(text@),
{
    serde_json::from_str::<serde_json::Value>(text).ok().map(value_tree)
}

/// Writes back, in compact form, the JSON value that a text holds.
///
/// Calls `serde_json::from_str::<serde_json::Value>`, then `to_string` on
/// the value; `None` exactly where the text is no JSON. What comes back is
/// named by `json_rendering`, a function of the text alone.
#[verifier::external_body]
pub(crate) fn render_json(text: &str) -> (r: Option<String>)
    ensures
        r is None <==> json_of(text@) is None,
        r matches Some(s) ==> s@ == json_rendering(text@),
{
    serde_json::from_str::<serde_json::Value>(text).ok().map(|v| v.to_string())
}

/// The view of an optional owned value.
pub open spec fn opt_json_view(j: Option<Json>) -> Option<JsonValue> {
    match j {
        Some(j) => Some(j@),
        None => None,
    }
}

impl Json {
    /// The member `key` of an object.
    pub fn get(&self, key: &str) -> (r: Option<&Json>)
        ensures
            opt_view(r) == member(self@, key@),
    {
        match self {
            Json::Object(fields) => {
                let ghost all = fields_view(fields@);
                proof {
                    lemma_fields_view(fields@);
                    assert(all.subrange(0, all.len() as int) =~= all);
                }
                let mut i: usize = 0;
                while i < fields.len()
                    invariant
                        0 <= i <= fields.len(),
                        all.len() == fields.len(),
                        self@ == JsonValue::Object(all),
                        forall|k: int| 0 <= k < fields.len() ==> #[trigger] all[k] == (fields@[k].0@, fields@[k].1@),
                        field(all, key@) == field(all.subrange(i as int, all.len() as int), key@),
                    decreases fields.len() - i,
                {
                    let ghost rest = all.subrange(i as int, all.len() as int);
                    assert(rest[0] == all[i as int]);
                    assert(rest.drop_first() =~= all.subrange(i + 1, all.len() as int));
                    if same_text(fields[i].0.as_str(), key) {
                        return Some(&fields[i].1);
                    }
                    i = i + 1;
                }
                None
            },
            _ => None,
        }
    }

    /// A number as a `u64`.
    pub fn as_u64(&self) -> (r: Option<u64>)
        ensures
            r == u64_of(self@),
    {
        match self {
            Json::Number(JsonNumber::PosInt(n)) => Some(*n),
            _ => None,
        }
    }

    /// A number as an `i64`.
    pub fn as_i64(&self) -> (r: Option<i64>)
        ensures
            r == i64_of(self@),
    {
        match self {
            Json::Number(JsonNumber::PosInt(n)) => if *n <= i64::MAX as u64 {
                Some(*n as i64)
            } else {
                None
            },
            Json::Number(JsonNumber::NegInt(n)) => Some(*n),
            _ => None,
        }
    }

    /// A string's text.
    pub fn as_str(&self) -> (r: Option<&str>)
        ensures
            match r {
                Some(s) => text_of(self@) == Some(s@),
                None => text_of(self@) is None,
            },
    {
        match self {
            Json::Str(s) => Some(s.as_str()),
            _ => None,
        }
    }

    /// An array's items.
    pub fn as_array(&self) -> (r: Option<&Vec<Json>>)
        ensures
            match r {
                Some(items) => items_of(self@) == Some(items_view(items@)),
                None => items_of(self@) is None,
            },
    {
        match self {
            Json::Array(items) => {
                Some(items)
            },
            _ => None,
        }
    }

    /// The text at position `i` of an array.
    pub fn text_at_index(&self, i: usize) -> (r: Option<String>)
        ensures
            match r {
                Some(s) => text_at(self@, i as int) == Some(s@),
                None => text_at(self@, i as int) is None,
            },
    {
        match self.as_array() {
            Some(items) => {
                proof {
                    lemma_items_view(items@);
                }
                if i < items.len() {
                    match items[i].as_str() {
                        Some(s) => Some(String::from_str(s)),
                        None => None,
                    }
                } else {
                    None
                }
            },
            None => None,
        }
    }
}

} // verus!
