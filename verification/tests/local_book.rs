use orderbook::binance::data::depth_snapshot::{read_snapshot, snapshot_from_text, snapshot_url, LevelNumbers};
use orderbook::Error;
use orderbook::binance::data::DepthSnapshot;
use orderbook::binance::local_book::{LocalBook, PriceLevel};

fn level(price: f32, quantity: f32) -> PriceLevel {
    PriceLevel { key: (price * 1000000000.0) as u64, price: price.to_bits(), quantity: quantity.to_bits() }
}

#[test]
fn new_book_is_empty() {
    let book = LocalBook::new();
    assert_eq!(book.bid_count(), 0);
    assert_eq!(book.ask_count(), 0);
}

#[test]
fn best_bid_is_highest_price() {
    let mut book = LocalBook::new();
    book.update_with_bid(level(10.0, 1.0), 1, 1);
    book.update_with_bid(level(12.5, 2.0), 1, 1);
    book.update_with_bid(level(11.0, 3.0), 1, 1);
    let (p, q) = book.best_bid();
    assert_eq!(f32::from_bits(p), 12.5);
    assert_eq!(f32::from_bits(q), 2.0);
}

#[test]
fn best_ask_is_lowest_price() {
    let mut book = LocalBook::new();
    book.update_with_ask(level(10.0, 1.0), 1, 1);
    book.update_with_ask(level(9.5, 2.0), 1, 1);
    book.update_with_ask(level(11.0, 3.0), 1, 1);
    let (p, q) = book.best_ask();
    assert_eq!(f32::from_bits(p), 9.5);
    assert_eq!(f32::from_bits(q), 2.0);
}

#[test]
fn zero_quantity_removes_level() {
    let mut book = LocalBook::new();
    book.update_with_bid(level(10.0, 1.0), 1, 1);
    book.update_with_bid(level(12.0, 1.0), 1, 1);
    book.update_with_bid(level(12.0, 0.0), 2, 2);
    assert_eq!(book.bid_count(), 1);
    assert_eq!(f32::from_bits(book.best_bid().0), 10.0);
    book.update_with_bid(level(10.0, -0.0), 3, 3);
    assert_eq!(book.bid_count(), 0);
}

#[test]
fn snapshot_drops_stale_rows() {
    let mut book = LocalBook::new();
    book.update_with_bid(level(10.0, 1.0), 5, 5);
    book.update_with_bid(level(11.0, 1.0), 20, 20);
    book.update_with_ask(level(13.0, 1.0), 5, 5);
    let snapshot = DepthSnapshot { last_update_id: 10, bids: vec![level(9.0, 4.0)], asks: vec![level(14.0, 2.0)] };
    snapshot.update_book(&mut book);
    assert_eq!(book.bid_count(), 2);
    assert_eq!(f32::from_bits(book.best_bid().0), 11.0);
    assert_eq!(book.ask_count(), 1);
    assert_eq!(f32::from_bits(book.best_ask().0), 14.0);
}

#[test]
fn same_level_twice_is_same_as_once() {
    let mut once = LocalBook::new();
    once.update_with_ask(level(10.0, 2.0), 3, 4);
    let mut twice = LocalBook::new();
    twice.update_with_ask(level(10.0, 2.0), 3, 4);
    twice.update_with_ask(level(10.0, 2.0), 3, 4);
    assert_eq!(once.ask_count(), twice.ask_count());
    assert_eq!(once.best_ask(), twice.best_ask());
}

#[test]
fn level_leaves_other_side_and_keys() {
    let mut book = LocalBook::new();
    book.update_with_bid(level(10.0, 1.0), 1, 1);
    book.update_with_ask(level(11.0, 1.0), 1, 1);
    book.update_with_bid(level(9.0, 5.0), 2, 2);
    assert_eq!(book.ask_count(), 1);
    assert_eq!(f32::from_bits(book.best_ask().1), 1.0);
    assert_eq!(f32::from_bits(book.best_bid().0), 10.0);
}

#[test]
fn snapshot_last_level_at_a_price_wins() {
    let mut book = LocalBook::new();
    book.update_with_bid(level(10.0, 1.0), 30, 30);
    let snapshot = DepthSnapshot {
        last_update_id: 40,
        bids: vec![level(12.0, 1.0), level(12.0, 3.0), level(11.0, 2.0), level(11.0, 0.0)],
        asks: vec![],
    };
    snapshot.update_book(&mut book);
    assert_eq!(book.bid_count(), 1);
    let (p, q) = book.best_bid();
    assert_eq!(f32::from_bits(p), 12.0);
    assert_eq!(f32::from_bits(q), 3.0);
    assert_eq!(book.ask_count(), 0);
}

#[test]
fn nan_quantity_sets_level() {
    let mut book = LocalBook::new();
    book.update_with_bid(level(10.0, f32::NAN), 1, 1);
    assert_eq!(book.bid_count(), 1);
    assert!(f32::from_bits(book.best_bid().1).is_nan());
}

#[test]
fn separate_bid_and_ask_updates() {
    let mut book = LocalBook::new();
    book.update_with_bids(&vec![level(1.0, 1.0), level(2.0, 1.0), level(1.0, 0.0)], 5, 6);
    book.update_with_asks(&vec![level(3.0, 1.0), level(4.0, 2.0)], 5, 6);
    assert_eq!(book.bid_count(), 1);
    assert_eq!(f32::from_bits(book.best_bid().0), 2.0);
    assert_eq!(book.ask_count(), 2);
    assert_eq!(f32::from_bits(book.best_ask().0), 3.0);
    book.drop_rows_up_to(6);
    assert_eq!(book.bid_count(), 0);
    assert_eq!(book.ask_count(), 0);
}

#[test]
fn snapshot_applied_twice_changes_nothing() {
    let mut book = LocalBook::new();
    book.update_with_bid(level(10.0, 1.0), 30, 30);
    book.update_with_bid(level(13.0, 1.0), 50, 50);
    let snapshot = DepthSnapshot { last_update_id: 40, bids: vec![level(12.0, 1.0), level(13.0, 2.0)], asks: vec![] };
    snapshot.update_book(&mut book);
    let once = (book.bid_count(), book.best_bid());
    snapshot.update_book(&mut book);
    assert_eq!((book.bid_count(), book.best_bid()), once);
    assert_eq!(once.0, 2);
    assert_eq!(f32::from_bits(once.1 .1), 2.0);
}

#[test]
fn snapshot_body_must_be_json() {
    match read_snapshot("btcusdt", "<html>".to_string()) {
        Err(Error::SnapshotParsingError { symbol, message, body }) => {
            assert_eq!(symbol, "btcusdt");
            assert_eq!(message, "Unable to parse body into JSON");
            assert_eq!(body, "<html>");
        }
        _ => panic!("expected SnapshotParsingError"),
    }
}

#[test]
fn snapshot_fields_are_taken_out() {
    let body = "{\"lastUpdateId\":5,\"bids\":[[\"1.5\",\"2\"],[\"3\"],7],\"asks\":[]}";
    let t = read_snapshot("btcusdt", body.to_string()).ok().unwrap();
    assert_eq!(t.last_update_id, Some(5));
    let bids = t.bids.as_ref().unwrap();
    assert_eq!(bids.len(), 3);
    assert_eq!((bids[0].price.as_deref(), bids[0].quantity.as_deref()), (Some("1.5"), Some("2")));
    assert_eq!((bids[1].price.as_deref(), bids[1].quantity.as_deref()), (Some("3"), None));
    assert_eq!((bids[2].price.as_deref(), bids[2].quantity.as_deref()), (None, None));
    assert_eq!(t.asks.as_ref().map(|a| a.len()), Some(0));
    assert_eq!(t.rendering, "{\"asks\":[],\"bids\":[[\"1.5\",\"2\"],[\"3\"],7],\"lastUpdateId\":5}");
    let t = read_snapshot("btcusdt", "{\"lastUpdateId\":-5,\"bids\":{}}".to_string()).ok().unwrap();
    assert_eq!((t.last_update_id, t.bids.is_none(), t.asks.is_none()), (None, true, true));
    let t = read_snapshot("btcusdt", "[1,2]".to_string()).ok().unwrap();
    assert_eq!((t.last_update_id, t.bids.is_none()), (None, true));
}

fn numbers(price: f32, quantity: f32) -> LevelNumbers {
    LevelNumbers { price: Some(((price * 1000000000.0) as u64, price.to_bits())), quantity: Some(quantity.to_bits()) }
}

#[test]
fn snapshot_from_text_pairs_levels_with_reads() {
    let body = "{\"lastUpdateId\":9,\"bids\":[[\"1\",\"2\"]],\"asks\":[[\"3\",\"4\"],[\"5\",\"0\"]]}";
    let t = read_snapshot("btcusdt", body.to_string()).ok().unwrap();
    let snap = snapshot_from_text(t, &vec![numbers(1.0, 2.0)], &vec![numbers(3.0, 4.0), numbers(5.0, 0.0)]).ok().unwrap();
    assert_eq!(snap.last_update_id, 9);
    assert_eq!(snap.bids, vec![level(1.0, 2.0)]);
    assert_eq!(snap.asks, vec![level(3.0, 4.0), level(5.0, 0.0)]);
    // A quantity that is no number is reported after the price it follows.
    let t = read_snapshot("s", body.to_string()).ok().unwrap();
    let bad = LevelNumbers { price: numbers(1.0, 2.0).price, quantity: None };
    match snapshot_from_text(t, &vec![bad], &vec![numbers(3.0, 4.0), numbers(5.0, 0.0)]) {
        Err(Error::SnapshotParsingError { symbol, message, body }) => {
            assert_eq!(symbol, "");
            assert_eq!(message, "Error parsing bid.quantity");
            assert_eq!(body, "{\"asks\":[[\"3\",\"4\"],[\"5\",\"0\"]],\"bids\":[[\"1\",\"2\"]],\"lastUpdateId\":9}");
        }
        _ => panic!("expected SnapshotParsingError"),
    }
    // A missing text is refused though a read was supplied.
    let t = read_snapshot("s", "{\"lastUpdateId\":1,\"bids\":[[\"1\"]],\"asks\":[]}".to_string()).ok().unwrap();
    match snapshot_from_text(t, &vec![numbers(1.0, 2.0)], &vec![]) {
        Err(Error::SnapshotParsingError { message, .. }) => assert_eq!(message, "Error parsing bid.quantity"),
        _ => panic!("expected SnapshotParsingError"),
    }
}

#[test]
fn snapshot_url_upper_cases_the_symbol() {
    assert_eq!(snapshot_url("btcusdt"), "https://api.binance.com/api/v3/depth?symbol=BTCUSDT&limit=5000");
    assert_eq!(snapshot_url("eth1"), "https://api.binance.com/api/v3/depth?symbol=ETH1&limit=5000");
}

use orderbook::binance::data::depth_snapshot::{snapshot_from_reads, LevelRead};

fn parsing_message(r: orderbook::Result<DepthSnapshot>) -> String {
    match r {
        Err(Error::SnapshotParsingError { symbol, message, body }) => {
            assert_eq!(symbol, "");
            assert_eq!(body, "B");
            message
        }
        _ => panic!("expected SnapshotParsingError"),
    }
}

#[test]
fn snapshot_reads_report_first_failure() {
    let good = LevelRead::Read(level(1.0, 2.0));
    let r = snapshot_from_reads("B".to_string(), Some(9), Some(vec![good]), Some(vec![good, good]));
    let snap = r.unwrap();
    assert_eq!(snap.last_update_id, 9);
    assert_eq!((snap.bids.len(), snap.asks.len()), (1, 2));
    assert_eq!(parsing_message(snapshot_from_reads("B".to_string(), None, None, None)), "Error parsing lastUpdateId");
    assert_eq!(parsing_message(snapshot_from_reads("B".to_string(), Some(1), None, None)), "Error parsing bids");
    assert_eq!(
        parsing_message(snapshot_from_reads("B".to_string(), Some(1), Some(vec![good, LevelRead::BadQuantity, LevelRead::BadPrice]), None)),
        "Error parsing bid.quantity"
    );
    assert_eq!(
        parsing_message(snapshot_from_reads("B".to_string(), Some(1), Some(vec![LevelRead::BadPrice]), None)),
        "Error parsing bid.price_level"
    );
    assert_eq!(parsing_message(snapshot_from_reads("B".to_string(), Some(1), Some(vec![good]), None)), "Error parsing asks");
    assert_eq!(
        parsing_message(snapshot_from_reads("B".to_string(), Some(1), Some(vec![]), Some(vec![LevelRead::BadPrice]))),
        "Error parsing ask.price_level"
    );
    assert_eq!(
        parsing_message(snapshot_from_reads("B".to_string(), Some(1), Some(vec![]), Some(vec![good, LevelRead::BadQuantity]))),
        "Error parsing ask.quantity"
    );
}
