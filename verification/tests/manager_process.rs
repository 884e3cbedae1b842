use orderbook::binance::manager_communication::{Task, TaskKind};
use orderbook::binance::manager_process::{Answer, ManagerProcess, Step};

#[test]
fn task_constructors() {
    let t = Task::subscribe("btcusdt", 1u8);
    assert_eq!(t.kind, TaskKind::Suscribe("btcusdt".to_string()));
    assert_eq!(t.notifier, 1);
    assert_eq!(Task::unsubscribe("ethusdt", 2u8).kind, TaskKind::Unsuscribe("ethusdt".to_string()));
    assert_eq!(Task::depth_snapshot("ethusdt", 3u8).kind, TaskKind::DepthSnapshot("ethusdt".to_string()));
    assert_eq!(Task::stop(4u8).kind, TaskKind::Stop);
}

#[test]
fn subscription_gets_numbered_request() {
    let mut p: ManagerProcess<u8> = ManagerProcess::new();
    assert!(p.can_take());
    match p.take(Task::subscribe("btcusdt", 1)) {
        Step::Subscribe { symbol, text } => {
            assert_eq!(symbol, "btcusdt");
            assert_eq!(text, "{\"id\":-1,\"method\":\"SUBSCRIBE\",\"params\":[\"btcusdt@depth@100ms\"]}");
        }
        _ => panic!("expected Subscribe"),
    }
    match p.take(Task::unsubscribe("ethusdt", 2)) {
        Step::Unsubscribe { symbol, text } => {
            assert_eq!(symbol, "ethusdt");
            assert_eq!(text, "{\"id\":0,\"method\":\"UNSUBSCRIBE\",\"params\":[\"ethusdt@depth@100ms\"]}");
        }
        _ => panic!("expected Unsubscribe"),
    }
}

#[test]
fn snapshot_and_stop_steps() {
    let mut p: ManagerProcess<u8> = ManagerProcess::new();
    match p.take(Task::depth_snapshot("btcusdt", 9)) {
        Step::Snapshot { symbol, notifier } => {
            assert_eq!(symbol, "btcusdt");
            assert_eq!(notifier, 9);
        }
        _ => panic!("expected Snapshot"),
    }
    assert!(matches!(p.take(Task::stop(5)), Step::Stop { notifier: 5 }));
}

#[test]
fn answers_by_id() {
    let mut p: ManagerProcess<u8> = ManagerProcess::new();
    p.take(Task::subscribe("btcusdt", 1));
    p.take(Task::unsubscribe("ethusdt", 2));
    match p.answer(-1) {
        Answer::FollowUp(t) => {
            assert_eq!(t.kind, TaskKind::DepthSnapshot("btcusdt".to_string()));
            assert_eq!(t.notifier, 1);
        }
        _ => panic!("expected FollowUp"),
    }
    assert!(matches!(p.answer(0), Answer::Done(2)));
    assert!(matches!(p.answer(0), Answer::Done(2)));
    assert!(matches!(p.answer(7), Answer::NotFound));
    assert!(matches!(p.answer(1i64 << 32), Answer::Done(2)));
}

#[test]
fn many_ids_count_up() {
    let mut p: ManagerProcess<u8> = ManagerProcess::new();
    for i in 0..12 {
        match p.take(Task::subscribe("x", 0)) {
            Step::Subscribe { text, .. } => {
                assert!(text.starts_with(&format!("{{\"id\":{},", i - 1)));
            }
            _ => panic!("expected Subscribe"),
        }
    }
}

use orderbook::binance::manager_process::Frame;

#[test]
fn frames_are_read() {
    let mut p: ManagerProcess<u8> = ManagerProcess::new();
    p.take(Task::subscribe("btcusdt", 4));
    assert!(matches!(p.read_frame("not json"), Frame::NotJson));
    match p.read_frame("{\"result\":null,\"id\":-1}") {
        Frame::Answer { id, answer: Answer::FollowUp(t) } => {
            assert_eq!(id, -1);
            assert_eq!(t.kind, TaskKind::DepthSnapshot("btcusdt".to_string()));
        }
        _ => panic!("expected an answer"),
    }
    assert!(matches!(p.read_frame("{\"id\":5}"), Frame::Answer { id: 5, answer: Answer::NotFound }));
    assert!(matches!(p.read_frame("{\"id\":\"x\"}"), Frame::BadId));
    assert!(matches!(p.read_frame("{\"id\":1.5}"), Frame::BadId));
    assert!(matches!(p.read_frame("{\"id\":18446744073709551615}"), Frame::BadId));
    assert!(matches!(p.read_frame("{\"id\":-7}"), Frame::Answer { id: -7, answer: Answer::NotFound }));
    assert!(matches!(p.read_frame("{\"stream\":\"btcusdt@depth\"}"), Frame::Malformed));
    assert!(matches!(p.read_frame("{\"stream\":3,\"data\":{}}"), Frame::Malformed));
    assert!(matches!(p.read_frame("{\"stream\":\"btcusdt@depth@100ms\",\"data\":{\"U\":1}}"), Frame::Malformed));
    assert!(matches!(
        p.read_frame("{\"stream\":\"btcusdt@depth\",\"data\":{\"U\":1,\"u\":2,\"b\":[],\"a\":{}}}"),
        Frame::Malformed
    ));
    let event = "{\"stream\":\"btcusdt@depth@100ms\",\"data\":{\"e\":\"depthUpdate\",\"U\":1,\"u\":3,\"b\":[[\"10.5\",\"2\"]],\"a\":[[\"11\",\"0\"],[\"12\"]]}}";
    match p.read_frame(event) {
        Frame::Diff { symbol, first_update_id, last_update_id, bids, asks } => {
            assert_eq!(symbol, "btcusdt");
            assert_eq!((first_update_id, last_update_id), (1, 3));
            assert_eq!(bids.len(), 1);
            assert_eq!((bids[0].price.as_deref(), bids[0].quantity.as_deref()), (Some("10.5"), Some("2")));
            assert_eq!(asks.len(), 2);
            assert_eq!((asks[0].price.as_deref(), asks[0].quantity.as_deref()), (Some("11"), Some("0")));
            assert_eq!((asks[1].price.as_deref(), asks[1].quantity.as_deref()), (Some("12"), None));
        }
        _ => panic!("expected a diff"),
    }
}
