use orderbook::binance::{Completion, Process};
use orderbook::Spot;

const BTCUSDT: Spot = Spot { base: "usdt", quote: "btc" };
const ETHUSDT: Spot = Spot { base: "usdt", quote: "eth" };

type P = Process<u32, &'static str, &'static str>;

fn subscribe(p: &mut P, symbol: Spot, sender: &'static str, book: u32) -> orderbook::binance::Request {
    let req = P::subscription_request(&symbol);
    p.file_subscription(req.id, symbol, sender, book);
    req
}

fn unsubscribe(p: &mut P, symbol: Spot, sender: &'static str) -> orderbook::binance::Request {
    let req = P::unsubscription_request(&symbol);
    p.file_unsubscription(req.id, symbol, sender);
    req
}

fn id_text(id: u128) -> String {
    uuid::Uuid::from_u128(id).to_string()
}

#[test]
fn subscription_answer_returns_sender_and_book() {
    let mut p: P = Process::new("worker");
    assert_eq!(p.name(), "worker");
    let req = subscribe(&mut p, BTCUSDT, "btc-sender", 7);
    assert!(req.text.contains("\"SUBSCRIBE\""));
    assert!(req.text.contains(&id_text(req.id)));
    assert_eq!(p.book("btcusdt"), Some(&7));
    match p.complete(&id_text(req.id)) {
        Completion::Subscribed { sender, book } => {
            assert_eq!(sender, "btc-sender");
            assert_eq!(book, Some(7));
        }
        _ => panic!("expected Subscribed"),
    }
    assert!(matches!(p.complete(&id_text(req.id)), Completion::Unknown));
}

#[test]
fn upper_case_id_answers_too() {
    let mut p: P = Process::new("worker");
    let req = subscribe(&mut p, BTCUSDT, "s", 1);
    let upper = id_text(req.id).to_uppercase();
    assert!(matches!(p.complete(&upper), Completion::Subscribed { .. }));
}

#[test]
fn braced_simple_and_urn_ids_answer_too() {
    let mut p: P = Process::new("worker");
    let a = subscribe(&mut p, BTCUSDT, "a", 1);
    let b = subscribe(&mut p, ETHUSDT, "b", 2);
    let braced = format!("{{{}}}", id_text(a.id));
    assert!(matches!(p.complete(&braced), Completion::Subscribed { sender: "a", .. }));
    let simple = format!("{:032x}", b.id);
    assert!(matches!(p.complete(&simple), Completion::Subscribed { sender: "b", .. }));
    let c = subscribe(&mut p, BTCUSDT, "c", 3);
    let urn = format!("URN:uuid:{}", id_text(c.id));
    assert!(matches!(p.complete(&urn), Completion::Subscribed { sender: "c", .. }));
    assert!(matches!(p.complete(&format!("[{}]", id_text(c.id))), Completion::InvalidId));
}

#[test]
fn unsubscription_answer_returns_sender() {
    let mut p: P = Process::new("worker");
    subscribe(&mut p, ETHUSDT, "s", 3);
    let req = unsubscribe(&mut p, ETHUSDT, "u");
    assert!(req.text.contains("\"UNSUBSCRIBE\""));
    assert_eq!(p.book("ethusdt"), None);
    match p.complete(&id_text(req.id)) {
        Completion::Unsubscribed { sender } => assert_eq!(sender, "u"),
        _ => panic!("expected Unsubscribed"),
    }
}

#[test]
fn subscription_answer_after_book_dropped() {
    let mut p: P = Process::new("worker");
    let sub = subscribe(&mut p, ETHUSDT, "s", 3);
    unsubscribe(&mut p, ETHUSDT, "u");
    match p.complete(&id_text(sub.id)) {
        Completion::Subscribed { sender, book } => {
            assert_eq!(sender, "s");
            assert_eq!(book, None);
        }
        _ => panic!("expected Subscribed"),
    }
}

#[test]
fn unknown_and_invalid_ids() {
    let mut p: P = Process::new("worker");
    subscribe(&mut p, BTCUSDT, "s", 1);
    assert!(matches!(p.complete(&id_text(12345)), Completion::Unknown));
    assert!(matches!(p.complete("not-a-uuid"), Completion::InvalidId));
}

#[test]
fn resubscribe_replaces_book() {
    let mut p: P = Process::new("worker");
    subscribe(&mut p, BTCUSDT, "a", 1);
    subscribe(&mut p, BTCUSDT, "b", 2);
    assert_eq!(p.book("btcusdt"), Some(&2));
    assert_eq!(p.book("ethusdt"), None);
}

#[test]
fn requests_get_distinct_ids() {
    let mut p: P = Process::new("worker");
    let a = subscribe(&mut p, BTCUSDT, "a", 1);
    let b = subscribe(&mut p, ETHUSDT, "b", 2);
    assert_ne!(a.id, b.id);
    assert_eq!(uuid::Uuid::from_u128(a.id).get_version_num(), 4);
}
