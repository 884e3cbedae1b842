use orderbook::binance::{Configuration, Manager, Schedule, Task};
use orderbook::{Error, Spot};

const BTCUSDT: Spot = Spot { base: "usdt", quote: "btc" };
const ETHUSDT: Spot = Spot { base: "usdt", quote: "eth" };
const BNBUSDT: Spot = Spot { base: "usdt", quote: "bnb" };

fn config(schedule: Schedule) -> Configuration {
    Configuration { num_threads: 1, scheduling_strategy: schedule }
}

fn subscribe(m: &mut Manager<u8>, spot: Spot) -> orderbook::Result<orderbook::binance::Assignment> {
    let task: Task<(), ()> = Task::Subscribe(spot, ());
    let a = m.spawn(&task)?;
    m.register_symbol(&spot, a.process_id, spot.quote.len() as u8);
    Ok(a)
}

#[test]
fn configuration_new_defaults() {
    let c = Configuration::new();
    assert_eq!(c.num_threads, 1);
    assert_eq!(c.scheduling_strategy, Schedule::Balanced(1));
}

#[test]
fn balanced_reuses_single_process() {
    let mut m: Manager<u8> = Manager::new(config(Schedule::Balanced(1)));
    let a = subscribe(&mut m, BTCUSDT).unwrap();
    assert!(a.new_process);
    let b = subscribe(&mut m, ETHUSDT).unwrap();
    assert!(!b.new_process);
    assert_eq!(a.process_id, b.process_id);
}

#[test]
fn balanced_two_processes_then_least_used() {
    let mut m: Manager<u8> = Manager::new(config(Schedule::Balanced(2)));
    let a = subscribe(&mut m, BTCUSDT).unwrap();
    let b = subscribe(&mut m, ETHUSDT).unwrap();
    assert!(a.new_process && b.new_process);
    assert_ne!(a.process_id, b.process_id);
    let c = subscribe(&mut m, BNBUSDT).unwrap();
    assert!(!c.new_process);
    assert!(c.process_id == a.process_id || c.process_id == b.process_id);
    let (pid, n) = m.least_used_process().unwrap();
    assert_eq!(n, 1);
    assert_ne!(pid, c.process_id);
}

#[test]
fn already_tracked_is_refused() {
    let mut m: Manager<u8> = Manager::new(config(Schedule::Balanced(1)));
    subscribe(&mut m, BTCUSDT).unwrap();
    let again = Spot { base: "usdt", quote: "btc" };
    match subscribe(&mut m, again) {
        Err(Error::AlreadyTracked { symbol }) => assert_eq!(symbol, again),
        _ => panic!("expected AlreadyTracked"),
    }
}

#[test]
fn not_tracked_is_refused() {
    let mut m: Manager<u8> = Manager::new(config(Schedule::Balanced(1)));
    let task: Task<(), ()> = Task::Unsubscribe(BTCUSDT, ());
    match m.spawn(&task) {
        Err(Error::NotTracked { symbol }) => assert_eq!(symbol, BTCUSDT),
        _ => panic!("expected NotTracked"),
    }
    let task: Task<(), ()> = Task::SnapShot(ETHUSDT, ());
    assert!(matches!(m.spawn(&task), Err(Error::NotTracked { .. })));
}

#[test]
fn snapshot_and_unsubscribe_route_to_serving_process() {
    let mut m: Manager<u8> = Manager::new(config(Schedule::Balanced(2)));
    let a = subscribe(&mut m, BTCUSDT).unwrap();
    let b = subscribe(&mut m, ETHUSDT).unwrap();
    let snap: Task<(), ()> = Task::SnapShot(ETHUSDT, ());
    let r = m.spawn(&snap).unwrap();
    assert_eq!(r.process_id, b.process_id);
    assert!(!r.new_process);
    let unsub: Task<(), ()> = Task::Unsubscribe(BTCUSDT, ());
    assert_eq!(m.spawn(&unsub).unwrap().process_id, a.process_id);
}

#[test]
fn max_per_task_starts_process_when_full() {
    let mut m: Manager<u8> = Manager::new(config(Schedule::MaxPerTask(2)));
    let a = subscribe(&mut m, BTCUSDT).unwrap();
    let b = subscribe(&mut m, ETHUSDT).unwrap();
    assert!(a.new_process);
    assert!(!b.new_process);
    assert_eq!(a.process_id, b.process_id);
    let c = subscribe(&mut m, BNBUSDT).unwrap();
    assert!(c.new_process);
    assert_ne!(c.process_id, a.process_id);
}

#[test]
fn max_per_task_zero_gives_each_market_a_process() {
    let mut m: Manager<u8> = Manager::new(config(Schedule::MaxPerTask(0)));
    let a = subscribe(&mut m, BTCUSDT).unwrap();
    let b = subscribe(&mut m, ETHUSDT).unwrap();
    assert!(a.new_process && b.new_process);
    assert_ne!(a.process_id, b.process_id);
}

#[test]
fn unregister_retires_idle_process() {
    let mut m: Manager<u8> = Manager::new(config(Schedule::Balanced(1)));
    let a = subscribe(&mut m, BTCUSDT).unwrap();
    subscribe(&mut m, ETHUSDT).unwrap();
    assert!(!m.unregister_symbol(&BTCUSDT, a.process_id));
    assert!(m.unregister_symbol(&ETHUSDT, a.process_id));
    assert!(m.least_used_process().is_none());
    let unsub: Task<(), ()> = Task::Unsubscribe(ETHUSDT, ());
    assert!(matches!(m.spawn(&unsub), Err(Error::NotTracked { .. })));
}

#[test]
fn subscribe_then_unsubscribe_restores_state() {
    let mut m: Manager<u8> = Manager::new(config(Schedule::Balanced(3)));
    let a = subscribe(&mut m, BTCUSDT).unwrap();
    let b = subscribe(&mut m, ETHUSDT).unwrap();
    assert!(b.new_process);
    assert!(m.unregister_symbol(&ETHUSDT, b.process_id));
    let again = subscribe(&mut m, ETHUSDT).unwrap();
    assert!(again.new_process);
    let (pid, n) = m.least_used_process().unwrap();
    assert_eq!(n, 1);
    assert!(pid == a.process_id || pid == again.process_id);
}

#[test]
fn stalled_subscription_is_detected() {
    let m: Manager<u8> = Manager::new(config(Schedule::Balanced(0)));
    let task: Task<(), ()> = Task::Subscribe(BTCUSDT, ());
    assert!(!m.can_spawn(&task));
    let m: Manager<u8> = Manager::new(config(Schedule::Balanced(1)));
    assert!(m.can_spawn(&task));
}

#[test]
fn books_follow_markets() {
    let mut m: Manager<u8> = Manager::new(config(Schedule::Balanced(1)));
    assert_eq!(m.book(&BTCUSDT), None);
    let a = subscribe(&mut m, BTCUSDT).unwrap();
    assert_eq!(m.book(&BTCUSDT), Some(&3));
    assert_eq!(m.book(&ETHUSDT), None);
    m.register_symbol(&BTCUSDT, a.process_id, 9);
    assert_eq!(m.book(&BTCUSDT), Some(&9));
    assert!(m.unregister_symbol(&BTCUSDT, a.process_id));
    assert_eq!(m.book(&BTCUSDT), None);
}

#[test]
fn register_on_unknown_process_is_recorded() {
    let mut m: Manager<u8> = Manager::new(config(Schedule::Balanced(1)));
    m.register_symbol(&BTCUSDT, 77, 1);
    let snap: Task<(), ()> = Task::SnapShot(BTCUSDT, ());
    assert_eq!(m.spawn(&snap).unwrap().process_id, 77);
    assert!(m.unregister_symbol(&BTCUSDT, 77));
}
