use chat_relay::auth::{role_for, token_of, Claims, Role};
use chat_relay::message::{Field, ValidationError};
use chat_relay::registry::Registry;
use chat_relay::session::{Action, Event, Session, SessionState};

#[test]
fn session_life_cycle() {
    let mut s = Session::new(7);
    assert!(matches!(s.handle(Event::Authenticated(true), 0), Action::Join));
    assert_eq!(s.state, SessionState::Connecting);
    assert!(matches!(s.handle(Event::Joined, 0), Action::Nothing));
    assert_eq!(s.state, SessionState::Active);
    match s.handle(Event::Text(r#"{"name":" a ","message":"hi"}"#.to_string()), 11) {
        Action::Publish(c) => {
            assert_eq!(c.name(), "a");
            assert_eq!(c.time(), 11);
        }
        _ => panic!("not published"),
    }
    assert!(matches!(
        s.handle(Event::Text(r#"{"name":"","message":"hi"}"#.to_string()), 0),
        Action::Discard(ValidationError::EmptyField(Field::Name))
    ));
    match s.handle(Event::Ping(vec![1, 2]), 0) {
        Action::Pong(p) => assert_eq!(p, vec![1, 2]),
        _ => panic!("no pong"),
    }
    assert!(matches!(s.handle(Event::ReadFailed, 0), Action::Shutdown));
    assert_eq!(s.state, SessionState::Closing);
    assert!(matches!(s.handle(Event::WriteFailed, 0), Action::Nothing));
    assert!(matches!(s.handle(Event::Released, 0), Action::Nothing));
    assert_eq!(s.state, SessionState::Closed);
    assert!(matches!(s.handle(Event::Joined, 0), Action::Nothing));
    assert_eq!(s.state, SessionState::Closed);
    assert_eq!(s.id, 7);
}

#[test]
fn failed_token_closes_before_active() {
    let mut s = Session::new(1);
    assert!(matches!(s.handle(Event::Authenticated(false), 0), Action::Disconnect));
    assert_eq!(s.state, SessionState::Closed);
}

#[test]
fn close_while_connecting_disconnects() {
    let mut s = Session::new(1);
    assert!(matches!(s.handle(Event::Close, 0), Action::Disconnect));
    assert_eq!(s.state, SessionState::Closed);
}

#[test]
fn text_before_join_is_ignored() {
    let mut s = Session::new(1);
    assert!(matches!(s.handle(Event::Text("{}".to_string()), 0), Action::Nothing));
    assert_eq!(s.state, SessionState::Connecting);
}

#[test]
fn registry_register_lookup_unregister() {
    let mut r: Registry<&str> = Registry::new();
    assert!(r.register(5, "five"));
    assert!(!r.register(5, "again"));
    assert_eq!(r.lookup(5), Some(&"five"));
    let id = r.register_new("other").unwrap();
    assert_ne!(id, 5);
    assert_eq!(r.len(), 2);
    assert_eq!(r.unregister(5), Some("five"));
    assert_eq!(r.unregister(5), None);
    assert_eq!(r.lookup(5), None);
    assert_eq!(r.lookup(id), Some(&"other"));
}

#[test]
fn roles_from_guild_roles() {
    assert_eq!(role_for(&vec!["1206224912360939520".to_string()]), Role::Admin);
    assert_eq!(role_for(&vec!["42".to_string()]), Role::Member);
    assert_eq!(role_for(&vec![]), Role::Member);
    assert_eq!(Role::Moderator.as_str(), "Moderator");
}

#[test]
fn claims_carry_role_name() {
    let c = Claims::new("1".to_string(), "bob".to_string(), Role::Admin, 99);
    assert_eq!(c.role, "Admin");
    assert_eq!(c.sub, "1");
    assert_eq!(c.exp, 99);
}

#[test]
fn token_from_first_frame() {
    assert_eq!(token_of(r#"{"token":"abc"}"#), Some("abc".to_string()));
    assert_eq!(token_of(r#"{"token":5}"#), None);
    assert_eq!(token_of("garbage"), None);
}
