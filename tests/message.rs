use chat_relay::message::{trim, Chat, Field, ValidationError, MAX_MESSAGE_LENGTH, MAX_NAME_LENGTH};

#[test]
fn accept_trims_name_and_message() {
    let chat = Chat::accept(r#"{"name":" Alice ","message":" hi "}"#, 1_700_000_000_000).unwrap();
    assert_eq!(chat.name(), "Alice");
    assert_eq!(chat.message(), "hi");
    assert_eq!(chat.time(), 1_700_000_000_000);
}

#[test]
fn accept_rejects_empty_name() {
    let r = Chat::accept(r#"{"name":"","message":"hi"}"#, 5);
    assert!(matches!(r, Err(ValidationError::EmptyField(Field::Name))));
}

#[test]
fn accept_rejects_blank_message() {
    let r = Chat::accept(r#"{"name":"bob","message":"   \t "}"#, 5);
    assert!(matches!(r, Err(ValidationError::EmptyField(Field::Message))));
}

#[test]
fn accept_rejects_malformed_payloads() {
    for raw in ["not json", "[1,2]", r#"{"name":"a"}"#, r#"{"name":3,"message":"x"}"#, r#"{"message":"x"}"#] {
        assert!(matches!(Chat::accept(raw, 0), Err(ValidationError::MalformedPayload)), "{raw}");
    }
}

#[test]
fn accept_takes_content_in_place_of_message() {
    let chat = Chat::accept(r#"{"name":"a","content":"  body"}"#, 9).unwrap();
    assert_eq!(chat.message(), "body");
}

#[test]
fn accept_ignores_client_time() {
    let chat = Chat::accept(r#"{"name":"a","message":"b","time":"1999-01-01T00:00:00Z"}"#, 42).unwrap();
    assert_eq!(chat.time(), 42);
}

#[test]
fn name_length_bound() {
    let ok = "n".repeat(MAX_NAME_LENGTH);
    assert!(Chat::sanitize(&ok, "m", 0).is_ok());
    let long = "n".repeat(MAX_NAME_LENGTH + 1);
    assert!(matches!(
        Chat::sanitize(&long, "m", 0),
        Err(ValidationError::FieldTooLong(Field::Name, 32))
    ));
    // counted in characters, not bytes
    let wide = "é".repeat(MAX_NAME_LENGTH);
    assert!(Chat::sanitize(&wide, "m", 0).is_ok());
}

#[test]
fn message_length_bound() {
    let ok = "m".repeat(MAX_MESSAGE_LENGTH);
    assert!(Chat::sanitize("a", &ok, 0).is_ok());
    let long = format!("  {}  ", "m".repeat(MAX_MESSAGE_LENGTH + 1));
    assert!(matches!(
        Chat::sanitize("a", &long, 0),
        Err(ValidationError::FieldTooLong(Field::Message, 2000))
    ));
}

#[test]
fn empty_checks_come_before_length_checks() {
    let long = "n".repeat(40);
    assert!(matches!(Chat::sanitize(&long, "", 0), Err(ValidationError::EmptyField(Field::Message))));
}

#[test]
fn trim_matches_std() {
    for s in ["", "   ", " a ", "\u{3000}x\t", "\u{85}a b\u{2029}", "no-trim", "\u{200b}z"] {
        assert_eq!(trim(s), s.trim(), "{s:?}");
    }
}

#[test]
fn sanitizing_a_clean_message_is_a_no_op() {
    let first = Chat::sanitize("  Alice\n", " hello there ", 7).unwrap();
    let again = Chat::sanitize(first.name(), first.message(), 7).unwrap();
    assert_eq!(again.name(), first.name());
    assert_eq!(again.message(), first.message());
    assert_eq!(again.time(), first.time());
}

#[test]
fn from_fields_missing_field_is_malformed() {
    assert!(matches!(Chat::from_fields(None, Some("x".to_string()), 0), Err(ValidationError::MalformedPayload)));
    assert!(Chat::from_fields(Some("a".to_string()), Some(" x ".to_string()), 0).is_ok());
}

#[test]
fn accept_now_stamps_server_time() {
    let chat = Chat::accept_now(r#"{"name":"a","message":"b"}"#).unwrap();
    assert!(chat.time() > 1_600_000_000_000);
}
