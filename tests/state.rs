use chat_relay::history::HistoryRing;
use chat_relay::hub::{Delivery, Hub};
use chat_relay::message::{Chat, Field, ValidationError};
use chat_relay::state::AppState;

fn chat(name: &str, body: &str, t: i64) -> Chat {
    Chat::sanitize(name, body, t).unwrap()
}

fn bodies(v: &[Chat]) -> Vec<String> {
    v.iter().map(|c| c.message().to_string()).collect()
}

#[test]
fn history_keeps_last_two() {
    let mut h = HistoryRing::new(2);
    h.append(chat("a", "A", 1));
    h.append(chat("a", "B", 2));
    h.append(chat("a", "C", 3));
    assert_eq!(bodies(&h.snapshot()), vec!["B", "C"]);
    assert_eq!(h.len(), 2);
}

#[test]
fn history_evicts_oldest_first() {
    let mut h = HistoryRing::new(3);
    for i in 0..10 {
        h.append(chat("a", &format!("m{i}"), i));
        assert!(h.len() <= 3);
    }
    assert_eq!(bodies(&h.snapshot()), vec!["m7", "m8", "m9"]);
}

#[test]
fn history_with_zero_limit_keeps_nothing() {
    let mut h = HistoryRing::new(0);
    h.append(chat("a", "A", 1));
    assert_eq!(h.len(), 0);
}

#[test]
fn seed_keeps_last_messages_in_order() {
    let mut h = HistoryRing::new(2);
    h.seed(vec![chat("a", "1", 1), chat("a", "2", 2), chat("a", "3", 3)]);
    assert_eq!(bodies(&h.snapshot()), vec!["2", "3"]);
}

#[test]
fn relay_history_limit_two() {
    let mut r = AppState::new(2, 8);
    for b in ["A", "B", "C"] {
        r.submit(&format!(r#"{{"name":"x","message":"{b}"}}"#), 0).unwrap();
    }
    assert_eq!(bodies(&r.get_history()), vec!["B", "C"]);
}

#[test]
fn rejected_message_is_not_stored_or_broadcast() {
    let mut r = AppState::new(10, 8);
    let (id, replay) = r.join().unwrap();
    assert!(replay.is_empty());
    let res = r.submit(r#"{"name":"","message":"hi"}"#, 0);
    assert!(matches!(res, Err(ValidationError::EmptyField(Field::Name))));
    assert!(r.get_history().is_empty());
    assert!(matches!(r.recv(id), Delivery::Empty));
}

#[test]
fn two_sessions_both_receive_and_survive_disconnect() {
    let mut r = AppState::new(10, 8);
    let (s1, _) = r.join().unwrap();
    let (s2, _) = r.join().unwrap();
    assert_eq!(r.submit(r#"{"name":"s1","message":"hello"}"#, 1), Ok(2));
    for s in [s1, s2] {
        match r.recv(s) {
            Delivery::Message(c) => assert_eq!(c.message(), "hello"),
            _ => panic!("no message"),
        }
    }
    assert!(r.leave(s1));
    assert!(!r.leave(s1));
    assert_eq!(r.submit(r#"{"name":"s2","message":"again"}"#, 2), Ok(1));
    match r.recv(s2) {
        Delivery::Message(c) => assert_eq!(c.message(), "again"),
        _ => panic!("no message"),
    }
    assert!(matches!(r.recv(s1), Delivery::Unknown));
}

#[test]
fn join_replays_history_snapshot() {
    let mut r = AppState::new(5, 4);
    r.add_message(chat("a", "one", 1));
    r.add_message(chat("b", "two", 2));
    let (id, replay) = r.join().unwrap();
    assert_eq!(bodies(&replay), vec!["one", "two"]);
    assert!(matches!(r.recv(id), Delivery::Empty));
    r.add_message(chat("c", "three", 3));
    match r.recv(id) {
        Delivery::Message(c) => assert_eq!(c.message(), "three"),
        _ => panic!("missing live message"),
    }
}

#[test]
fn load_history_does_not_broadcast() {
    let mut r = AppState::new(2, 4);
    let (id, _) = r.join().unwrap();
    r.load_history(vec![chat("a", "x", 1), chat("a", "y", 2), chat("a", "z", 3)]);
    assert_eq!(bodies(&r.get_history()), vec!["y", "z"]);
    assert!(matches!(r.recv(id), Delivery::Empty));
}

#[test]
fn hub_delivers_in_order_to_every_subscriber() {
    let mut h = Hub::new(4);
    let a = h.subscribe().unwrap();
    let b = h.subscribe().unwrap();
    assert_ne!(a, b);
    assert_eq!(h.publish(chat("x", "1", 1)), 2);
    assert_eq!(h.publish(chat("x", "2", 2)), 2);
    for s in [a, b] {
        for want in ["1", "2"] {
            match h.recv(s) {
                Delivery::Message(c) => assert_eq!(c.message(), want),
                _ => panic!("missing"),
            }
        }
        assert!(matches!(h.recv(s), Delivery::Empty));
    }
}

#[test]
fn lagging_subscriber_drops_oldest_and_reports_it() {
    let mut h = Hub::new(2);
    let slow = h.subscribe().unwrap();
    let fast = h.subscribe().unwrap();
    h.publish(chat("x", "1", 1));
    match h.recv(fast) {
        Delivery::Message(c) => assert_eq!(c.message(), "1"),
        _ => panic!(),
    }
    h.publish(chat("x", "2", 2));
    h.publish(chat("x", "3", 3));
    assert!(matches!(h.recv(slow), Delivery::Lagged(1)));
    for want in ["2", "3"] {
        match h.recv(slow) {
            Delivery::Message(c) => assert_eq!(c.message(), want),
            _ => panic!(),
        }
    }
    for want in ["2", "3"] {
        match h.recv(fast) {
            Delivery::Message(c) => assert_eq!(c.message(), want),
            _ => panic!(),
        }
    }
}

#[test]
fn publish_without_subscribers() {
    let mut h = Hub::new(1);
    assert_eq!(h.publish(chat("x", "1", 1)), 0);
    assert_eq!(h.subscriber_count(), 0);
    assert!(matches!(h.recv(0), Delivery::Unknown));
    assert!(!h.unsubscribe(3));
}
