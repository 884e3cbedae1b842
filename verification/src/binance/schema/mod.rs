use vstd::prelude::*;

pub mod incoming;
pub mod outgoing;

verus! {

/// `serde_json::Value`, carried through untouched.
#[verifier::external_type_specification]
#[verifier::external_body]
pub struct ExJsonValue(serde_json::Value);

/// The name of a market's diff-depth stream at 100 ms.
pub open spec fn stream_name(symbol: Seq<char>) -> Seq<char> {
    symbol + "@depth@100ms"@
}

/// The text of a stream request object: the keys in the order serde_json
/// writes them, `id_json` as the id's JSON text, the method, and the
/// stream names.
pub open spec fn request_object(id_json: Seq<char>, method: Seq<char>, streams: Seq<Seq<char>>) -> Seq<char> {
    "{\"id\":"@ + id_json + ",\"method\":"@ + crate::common::json::json_string(method) + ",\"params\":["@
        + crate::common::json::json_string_list(streams) + "]}"@
}

/// The text of a stream request whose id is a UUID, written as its
/// hyphenated text.
pub open spec fn request_text(method: Seq<char>, streams: Seq<Seq<char>>, id: u128) -> Seq<char> {
    request_object(crate::common::json::json_string(crate::common::process_id::uuid_text(id)), method, streams)
}

/// The text of a stream request whose id is a number.
pub open spec fn numbered_request_text(method: Seq<char>, streams: Seq<Seq<char>>, id: i32) -> Seq<char> {
    request_object(crate::common::json::json_integer_text(id as int), method, streams)
}

/// The part of a stream name before its first `@`: the market's symbol.
pub open spec fn stream_symbol(stream: Seq<char>) -> Seq<char>
    decreases stream.len(),
{
    if stream.len() == 0 {
        stream
    } else if stream[0] == '@' {
        Seq::empty()
    } else {
        seq![stream[0]] + stream_symbol(stream.drop_first())
    }
}

/// `stream_symbol` is the prefix up to the first `@`.
pub proof fn lemma_stream_symbol_prefix(stream: Seq<char>, i: int)
    requires
        0 <= i <= stream.len(),
        i == stream.len() || stream[i] == '@',
        forall|j: int| 0 <= j < i ==> stream[j] != '@',
    ensures
        stream_symbol(stream) == stream.take(i),
    decreases stream.len(),
{
    if stream.len() > 0 && i > 0 {
        lemma_stream_symbol_prefix(stream.drop_first(), i - 1);
        assert(seq![stream[0]] + stream.drop_first().take(i - 1) =~= stream.take(i));
    } else if stream.len() > 0 {
        assert(stream.take(0) =~= Seq::<char>::empty());
    }
}


/// A request whose id is a UUID is the object
/// `{"id":"<id>","method":"<method>","params":[<streams>]}`, the id written
/// as its hyphenated text and the streams as a comma-separated list of
/// string literals, for a method of plain characters.
pub proof fn law_request_text(method: Seq<char>, streams: Seq<Seq<char>>, id: u128)
    requires
        forall|i: int| 0 <= i < method.len() ==> crate::common::json::plain_char(#[trigger] method[i]),
    ensures
        request_text(method, streams, id) == "{\"id\":\""@ + crate::common::process_id::uuid_text(id) + "\",\"method\":\""@
            + method + "\",\"params\":["@ + crate::common::json::json_string_list(streams) + "]}"@,
{
    let u = crate::common::process_id::uuid_text(id);
    crate::common::process_id::law_uuid_text_plain(id);
    crate::common::json::law_plain_text_unescaped(u);
    crate::common::json::law_plain_text_unescaped(method);
    reveal_strlit("{\"id\":");
    reveal_strlit(",\"method\":");
    reveal_strlit(",\"params\":[");
    reveal_strlit("{\"id\":\"");
    reveal_strlit("\",\"method\":\"");
    reveal_strlit("\",\"params\":[");
    let l = crate::common::json::json_string_list(streams);
    assert(request_text(method, streams, id) =~= "{\"id\":\""@ + u + "\",\"method\":\""@ + method + "\",\"params\":["@ + l + "]}"@);
}

/// A request whose id is a number is the object
/// `{"id":<id>,"method":"<method>","params":[<streams>]}`, the id written as
/// a JSON integer, for a method of plain characters.
pub proof fn law_numbered_request_text(method: Seq<char>, streams: Seq<Seq<char>>, id: i32)
    requires
        forall|i: int| 0 <= i < method.len() ==> crate::common::json::plain_char(#[trigger] method[i]),
    ensures
        numbered_request_text(method, streams, id) == "{\"id\":"@ + crate::common::json::json_integer_text(id as int)
            + ",\"method\":\""@ + method + "\",\"params\":["@ + crate::common::json::json_string_list(streams) + "]}"@,
{
    crate::common::json::law_plain_text_unescaped(method);
    reveal_strlit(",\"method\":");
    reveal_strlit(",\"method\":\"");
    reveal_strlit(",\"params\":[");
    reveal_strlit("\",\"params\":[");
    let n = crate::common::json::json_integer_text(id as int);
    let l = crate::common::json::json_string_list(streams);
    assert(numbered_request_text(method, streams, id) =~= "{\"id\":"@ + n + ",\"method\":\""@ + method + "\",\"params\":["@ + l + "]}"@);
}

/// The symbol read from a stream name is the name's longest prefix without
/// `@`: it is followed by the first `@`, or it is the whole name.
pub proof fn law_stream_symbol_is_prefix_before_at(stream: Seq<char>)
    ensures
        stream_symbol(stream).len() <= stream.len(),
        stream_symbol(stream) == stream.take(stream_symbol(stream).len() as int),
        forall|i: int| 0 <= i < stream_symbol(stream).len() ==> stream[i] != '@',
        stream_symbol(stream).len() == stream.len() || stream[stream_symbol(stream).len() as int] == '@',
    decreases stream.len(),
{
    if stream.len() > 0 && stream[0] != '@' {
        let rest = stream.drop_first();
        law_stream_symbol_is_prefix_before_at(rest);
        let t = stream_symbol(rest);
        assert(seq![stream[0]] + t =~= stream.take(t.len() as int + 1)) by {
            assert forall|i: int| 0 <= i < t.len() implies t[i] == rest[i] by {
                assert(t[i] == rest.take(t.len() as int)[i]);
            }
        }
        assert forall|i: int| 0 <= i < t.len() + 1 implies stream[i] != '@' by {
            if i > 0 {
                assert(stream[i] == rest[i - 1]);
            }
        }
    } else if stream.len() > 0 {
        assert(stream.take(0) =~= Seq::<char>::empty());
    } else {
        assert(stream.take(0) =~= stream);
    }
}

/// The symbol read back from a stream name is the symbol the name was made
/// from, for a symbol without `@`.
pub proof fn law_stream_name_round_trip(symbol: Seq<char>)
    requires
        forall|i: int| 0 <= i < symbol.len() ==> symbol[i] != '@',
    ensures
        stream_symbol(stream_name(symbol)) == symbol,
{
    reveal_strlit("@depth@100ms");
    let name = stream_name(symbol);
    assert(name[symbol.len() as int] == '@');
    lemma_stream_symbol_prefix(name, symbol.len() as int);
    assert(name.take(symbol.len() as int) =~= symbol);
}

} // verus!
