use orderbook::binance::manager_communication::TaskKind;
use orderbook::binance::Task;
use orderbook::common::IDGenerator;
use orderbook::Spot;

#[test]
fn spot_symbol_is_quote_then_base() {
    let s = Spot { base: "usdt", quote: "btc" };
    assert_eq!(s.to_string(), "btcusdt");
}

#[test]
fn spots_compare_by_text() {
    let a = Spot { base: "usdt", quote: "btc" };
    let b = Spot { base: "usdt", quote: "btc" };
    let c = Spot { base: "usdt", quote: "eth" };
    assert!(a.same_as(&b));
    assert!(!a.same_as(&c));
}

#[test]
fn id_generator_counts_from_minus_one() {
    let mut g = IDGenerator::new();
    assert_eq!(g.next(), -1);
    assert_eq!(g.next(), 0);
    assert_eq!(g.next(), 1);
}

#[test]
fn task_texts() {
    let s = Spot { base: "usdt", quote: "btc" };
    let t: Task<(), ()> = Task::Subscribe(s, ());
    assert_eq!(t.to_string(), "Task::Subscribe(btcusdt)");
    assert_eq!(t.spot(), s);
    let t: Task<(), ()> = Task::SnapShot(s, ());
    assert_eq!(t.to_string(), "Task::Snapshot(btcusdt)");
    let t: Task<(), ()> = Task::Unsubscribe(s, ());
    assert_eq!(t.to_string(), "Task::Unsubscribe(btcusdt)");
}

#[test]
fn task_kind_values() {
    assert_eq!(TaskKind::Suscribe("btcusdt".to_string()), TaskKind::Suscribe("btcusdt".to_string()));
    assert_ne!(TaskKind::Stop, TaskKind::DepthSnapshot("btcusdt".to_string()));
}
