use orderbook::binance::schema::incoming::{DepthUpdate, DepthUpdateInner, Level};
use orderbook::binance::schema::outgoing;
use orderbook::Spot;

const BTCUSDT: Spot = Spot { base: "usdt", quote: "btc" };
const ETHUSDT: Spot = Spot { base: "usdt", quote: "eth" };

#[test]
fn subscribe_message_text() {
    let text = outgoing::subscribe(&BTCUSDT, 42);
    assert_eq!(
        text,
        "{\"id\":\"00000000-0000-0000-0000-00000000002a\",\"method\":\"SUBSCRIBE\",\"params\":[\"btcusdt@depth@100ms\"]}"
    );
}

#[test]
fn unsubscribe_message_text() {
    let id = 0x0123456789abcdef0011223344556677u128;
    let text = outgoing::unsubscribe(&ETHUSDT, id);
    assert_eq!(
        text,
        "{\"id\":\"01234567-89ab-cdef-0011-223344556677\",\"method\":\"UNSUBSCRIBE\",\"params\":[\"ethusdt@depth@100ms\"]}"
    );
}

#[test]
fn many_message_texts() {
    let text = outgoing::subscribe_many(&[BTCUSDT, ETHUSDT], 1);
    assert_eq!(
        text,
        "{\"id\":\"00000000-0000-0000-0000-000000000001\",\"method\":\"SUBSCRIBE\",\"params\":[\"btcusdt@depth@100ms\",\"ethusdt@depth@100ms\"]}"
    );
    let text = outgoing::unsubscribe_many(&[], 1);
    assert_eq!(
        text,
        "{\"id\":\"00000000-0000-0000-0000-000000000001\",\"method\":\"UNSUBSCRIBE\",\"params\":[]}"
    );
}

#[test]
fn message_text_matches_serde_json() {
    let id = uuid::Uuid::from_u128(7);
    let mut map = serde_json::Map::new();
    map.insert("method".to_string(), serde_json::Value::String("SUBSCRIBE".to_string()));
    map.insert(
        "params".to_string(),
        serde_json::Value::Array(vec![serde_json::Value::String("btcusdt@depth@100ms".to_string())]),
    );
    map.insert("id".to_string(), serde_json::Value::String(id.to_string()));
    let expected = serde_json::Value::Object(map).to_string();
    assert_eq!(outgoing::subscribe(&BTCUSDT, 7), expected);
}

#[test]
fn message_escapes_symbol() {
    let odd = Spot { base: "u\"s\\d", quote: "b\n\u{1}" };
    let text = outgoing::subscribe(&odd, 0);
    assert_eq!(
        text,
        "{\"id\":\"00000000-0000-0000-0000-000000000000\",\"method\":\"SUBSCRIBE\",\"params\":[\"b\\n\\u0001u\\\"s\\\\d@depth@100ms\"]}"
    );
}

fn update(stream: &str) -> DepthUpdate {
    DepthUpdate {
        stream: stream.to_string(),
        data: DepthUpdateInner {
            event_type: "depthUpdate".to_string(),
            event_time: 1700000000000,
            symbol: "BTCUSDT".to_string(),
            first_update_id: 157,
            last_update_id: 160,
            bids: vec![Level("0.0024".to_string(), "10".to_string())],
            asks: vec![Level("0.0026".to_string(), "100".to_string()), Level("0.0027".to_string(), "0".to_string())],
        },
    }
}

#[test]
fn depth_update_symbol_is_stream_prefix() {
    assert_eq!(update("btcusdt@depth@100ms").get_symbol_str(), "btcusdt");
    assert_eq!(update("ethusdt").get_symbol_str(), "ethusdt");
    assert_eq!(update("@depth").get_symbol_str(), "");
    assert_eq!(update("").get_symbol_str(), "");
}

#[test]
fn depth_update_getters() {
    let u = update("btcusdt@depth@100ms");
    assert_eq!(u.get_event_time(), 1700000000000);
    assert_eq!(u.get_first_update_id(), 157);
    assert_eq!(u.get_last_update_id(), 160);
    assert_eq!(u.get_bids().len(), 1);
    assert_eq!(u.get_bids()[0].0, "0.0024");
    assert_eq!(u.get_asks().len(), 2);
    assert_eq!(u.get_asks()[1].1, "0");
}
