use vstd::prelude::*;

use crate::binance::schema::{numbered_request_text, request_object, request_text, stream_name};
use crate::common::json::{json_integer, json_string_list, quote_json_string};
use crate::common::process_id::id_text;
use crate::common::symbol::{spot_symbol, Spot};

verus! {

/// The stream names of some markets.
pub open spec fn stream_names(symbols: Seq<Spot>) -> Seq<Seq<char>> {
    symbols.map_values(|s: Spot| stream_name(spot_symbol(s@)))
}

/// The name of a market's diff-depth stream.
fn stream_text(symbol: &Spot) -> (s: String)
    ensures
        s@ == stream_name(spot_symbol(symbol@)),
{
    symbol.to_string().concat("@depth@100ms")
}

/// The text of a request object with the given id text, `method` and `streams`.
fn request(id_json: String, method: &str, streams: &Vec<String>) -> (r: String)
    ensures
        r@ == request_object(id_json@, method@, streams@.map_values(|s: String| s@)),
{
    let ghost names = streams@.map_values(|s: String| s@);
    let mut out = String::from_str("{\"id\":");
    out.append(id_json.as_str());
    out.append(",\"method\":");
    out.append(quote_json_string(method).as_str());
    out.append(",\"params\":[");
    let ghost head = out@;
    let n = streams.len();
    for i in 0..n
        invariant
            n == streams@.len(),
            names == streams@.map_values(|s: String| s@),
            out@ == head + json_string_list(names.take(i as int)),
    {
        let ghost before = out@;
        assert(names.take(i + 1).drop_last() =~= names.take(i as int));
        assert(names[i as int] == streams@[i as int]@);
        if i > 0 {
            out.append(",");
        }
        out.append(quote_json_string(streams[i].as_str()).as_str());
        proof {
            let item = crate::common::json::json_string(names[i as int]);
            if i > 0 {
                reveal_strlit(",");
                assert(out@ =~= before + seq![','] + item);
            } else {
                assert(out@ =~= before + item);
                assert(names.take(1)[0] == names[0]);
            }
            assert(out@ =~= head + json_string_list(names.take(i + 1)));
        }
    }
    assert(names.take(n as int) =~= names);
    out.append("]}");
    out
}

/// The stream texts of some markets.
fn stream_texts(symbols: &[Spot]) -> (v: Vec<String>)
    ensures
        v@.map_values(|s: String| s@) == stream_names(symbols@),
{
    let mut v: Vec<String> = Vec::new();
    let n = symbols.len();
    for i in 0..n
        invariant
            n == symbols@.len(),
            v@.map_values(|s: String| s@) == stream_names(symbols@.take(i as int)),
    {
        let ghost before = v@;
        let text = stream_text(&symbols[i]);
        v.push(text);
        assert(symbols@.take(i + 1) =~= symbols@.take(i as int).push(symbols@[i as int]));
        assert(v@.map_values(|s: String| s@) =~= before.map_values(|s: String| s@).push(symbols@[i as int]@.1 + symbols@[i as int]@.0 + "@depth@100ms"@));
        assert(v@.map_values(|s: String| s@) =~= stream_names(symbols@.take(i + 1)));
    }
    assert(symbols@.take(n as int) =~= symbols@);
    v
}

/// A request with a numeric id over one stream given by its symbol text.
pub(crate) fn numbered_request(method: &str, symbol: &str, task_id: i32) -> (r: String)
    ensures
        r@ == numbered_request_text(method@, seq![stream_name(symbol@)], task_id),
{
    let mut streams: Vec<String> = Vec::new();
    streams.push(String::from_str(symbol).concat("@depth@100ms"));
    assert(streams@.map_values(|s: String| s@) =~= seq![stream_name(symbol@)]);
    request(json_integer(task_id), method, &streams)
}

/// The request that subscribes to a market's diff-depth stream.
pub fn subscribe(symbol: &Spot, task_id: u128) -> (r: String)
    ensures
        r@ == request_text("SUBSCRIBE"@, seq![stream_name(spot_symbol(symbol@))], task_id),
{
    let mut streams: Vec<String> = Vec::new();
    streams.push(stream_text(symbol));
    assert(streams@.map_values(|s: String| s@) =~= seq![stream_name(spot_symbol(symbol@))]);
    request(quote_json_string(id_text(task_id).as_str()), "SUBSCRIBE", &streams)
}

/// The request that subscribes to several markets' streams at once.
pub fn subscribe_many(symbols: &[Spot], task_id: u128) -> (r: String)
    ensures
        r@ == request_text("SUBSCRIBE"@, stream_names(symbols@), task_id),
{
    let streams = stream_texts(symbols);
    request(quote_json_string(id_text(task_id).as_str()), "SUBSCRIBE", &streams)
}

/// The request that unsubscribes from a market's diff-depth stream.
pub fn unsubscribe(symbol: &Spot, task_id: u128) -> (r: String)
    ensures
        r@ == request_text("UNSUBSCRIBE"@, seq![stream_name(spot_symbol(symbol@))], task_id),
{
    let mut streams: Vec<String> = Vec::new();
    streams.push(stream_text(symbol));
    assert(streams@.map_values(|s: String| s@) =~= seq![stream_name(spot_symbol(symbol@))]);
    request(quote_json_string(id_text(task_id).as_str()), "UNSUBSCRIBE", &streams)
}

/// The request that unsubscribes from several markets' streams at once.
pub fn unsubscribe_many(symbols: &[Spot], task_id: u128) -> (r: String)
    ensures
        r@ == request_text("UNSUBSCRIBE"@, stream_names(symbols@), task_id),
{
    let streams = stream_texts(symbols);
    request(quote_json_string(id_text(task_id).as_str()), "UNSUBSCRIBE", &streams)
}

} // verus!
