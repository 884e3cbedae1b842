use vstd::prelude::*;

use crate::binance::schema::{lemma_stream_symbol_prefix, stream_symbol};
use crate::common::json_value::{items_of, lemma_items_view, opt_view, text_at, Json, JsonValue};

verus! {

/// The answer to a stream request, matched to the request by its id.
pub struct RequestResponse {
    pub result: serde_json::Value,
    pub id: String,
}

/// A price level of a diff-depth event: price and quantity as decimal text.
pub struct Level(pub String, pub String);

/// The payload of a diff-depth event.
pub struct DepthUpdateInner {
    pub event_type: String,
    pub event_time: u64,
    pub symbol: String,
    pub first_update_id: u64,
    pub last_update_id: u64,
    pub bids: Vec<Level>,
    pub asks: Vec<Level>,
}

/// A diff-depth event with the name of the stream that carried it.
pub struct DepthUpdate {
    pub stream: String,
    pub data: DepthUpdateInner,
}

/// A message that arrives on the stream connection.
pub enum IncomingMessage {
    Response(RequestResponse),
    DepthUpdate(DepthUpdate),
    Other(serde_json::Value),
}

/// The part of a stream name before its first `@`.
pub fn symbol_of_stream(stream: &str) -> (s: &str)
    ensures
        s@ == stream_symbol(stream@),
{
    let n = stream.unicode_len();
    let mut i: usize = 0;
    while i < n
        invariant
            n == stream@.len(),
            i <= n,
            forall|j: int| 0 <= j < i ==> stream@[j] != '@',
        ensures
            i <= n,
            i == n || stream@[i as int] == '@',
            forall|j: int| 0 <= j < i ==> stream@[j] != '@',
        decreases n - i,
    {
        if stream.get_char(i) == '@' {
            break;
        }
        i = i + 1;
    }
    proof {
        lemma_stream_symbol_prefix(stream@, i as int);
    }
    stream.substring_char(0, i)
}

/// A price level as the JSON writes it: the texts at positions 0 (price)
/// and 1 (quantity) of its array, where they are texts.
pub struct LevelText {
    pub price: Option<String>,
    pub quantity: Option<String>,
}

/// The texts of an optional text.
pub open spec fn opt_text(t: Option<String>) -> Option<Seq<char>> {
    match t {
        Some(t) => Some(t@),
        None => None,
    }
}

/// A level's two texts.
pub open spec fn level_text_view(l: LevelText) -> (Option<Seq<char>>, Option<Seq<char>>) {
    (opt_text(l.price), opt_text(l.quantity))
}

/// The levels' texts, in order.
pub open spec fn levels_view(levels: Seq<LevelText>) -> Seq<(Option<Seq<char>>, Option<Seq<char>>)> {
    Seq::new(levels.len(), |i: int| level_text_view(levels[i]))
}

/// The levels' texts of an optional run of levels.
pub open spec fn opt_levels_view(levels: Option<Vec<LevelText>>) -> Option<Seq<(Option<Seq<char>>, Option<Seq<char>>)>> {
    match levels {
        Some(v) => Some(levels_view(v@)),
        None => None,
    }
}

/// What a JSON value writes of a level: its price and quantity texts.
pub open spec fn level_text_of(v: JsonValue) -> (Option<Seq<char>>, Option<Seq<char>>) {
    (text_at(v, 0), text_at(v, 1))
}

/// The levels that an optional JSON value lists: `None` unless it is an
/// array; each item read by `level_text_of`.
pub open spec fn levels_text_of(v: Option<JsonValue>) -> Option<Seq<(Option<Seq<char>>, Option<Seq<char>>)>> {
    match v {
        Some(v) => match items_of(v) {
            Some(items) => Some(Seq::new(items.len(), |i: int| level_text_of(items[i]))),
            None => None,
        },
        None => None,
    }
}

/// A level written `[price, quantity, ...]` reads its price from the first
/// item and its quantity from the second; an item that is no text, or is
/// missing, reads as none.
pub proof fn law_level_text_positions(items: Seq<JsonValue>, p: Seq<char>, q: Seq<char>)
    ensures
        items.len() >= 1 && items[0] == JsonValue::Str(p) ==> level_text_of(JsonValue::Array(items)).0 == Some(p),
        items.len() >= 2 && items[1] == JsonValue::Str(q) ==> level_text_of(JsonValue::Array(items)).1 == Some(q),
        items.len() < 1 || !(items[0] is Str) ==> level_text_of(JsonValue::Array(items)).0 is None,
        items.len() < 2 || !(items[1] is Str) ==> level_text_of(JsonValue::Array(items)).1 is None,
{
}

/// The levels of an array are read item by item, in order; a value that is
/// no array lists no levels.
pub proof fn law_levels_in_order(v: JsonValue)
    ensures
        v matches JsonValue::Array(items) ==> levels_text_of(Some(v)) matches Some(ls) && ls.len() == items.len()
            && forall|i: int| 0 <= i < items.len() ==> ls[i] == level_text_of(#[trigger] items[i]),
        !(v is Array) ==> levels_text_of(Some(v)) is None,
{
}

/// Reads the levels that an optional JSON value lists.
pub fn read_levels(v: Option<&Json>) -> (r: Option<Vec<LevelText>>)
    ensures
        opt_levels_view(r) == levels_text_of(opt_view(v)),
{
    let items = match v {
        Some(v) => match v.as_array() {
            Some(items) => items,
            None => {
                return None;
            },
        },
        None => {
            return None;
        },
    };
    proof {
        lemma_items_view(items@);
    }
    let ghost target = levels_text_of(opt_view(v))->Some_0;
    let mut levels: Vec<LevelText> = Vec::new();
    let n = items.len();
    for i in 0..n
        invariant
            n == items@.len(),
            target.len() == n,
            forall|k: int| 0 <= k < n ==> #[trigger] target[k] == level_text_of(items@[k]@),
            levels@.len() == i,
            forall|k: int| 0 <= k < i ==> #[trigger] level_text_view(levels@[k]) == target[k],
    {
        let level = LevelText { price: items[i].text_at_index(0), quantity: items[i].text_at_index(1) };
        levels.push(level);
    }
    assert(levels_view(levels@) =~= target);
    Some(levels)
}

impl DepthUpdate {
    /// The market's symbol: the stream name up to its first `@`
    /// (stream names read `symbol@depth@100ms`).
    pub fn get_symbol_str(&self) -> (s: &str)
        ensures
            s@ == stream_symbol(self.stream@),
    {
        symbol_of_stream(self.stream.as_str())
    }

    pub fn get_event_time(&self) -> (t: u64)
        ensures
            t == self.data.event_time,
    {
        self.data.event_time
    }

    pub fn get_first_update_id(&self) -> (id: u64)
        ensures
            id == self.data.first_update_id,
    {
        self.data.first_update_id
    }

    pub fn get_last_update_id(&self) -> (id: u64)
        ensures
            id == self.data.last_update_id,
    {
        self.data.last_update_id
    }

    pub fn get_bids(&self) -> (bids: &Vec<Level>)
        ensures
            bids == &self.data.bids,
    {
        &self.data.bids
    }

    pub fn get_asks(&self) -> (asks: &Vec<Level>)
        ensures
            asks == &self.data.asks,
    {
        &self.data.asks
    }
}

} // verus!
