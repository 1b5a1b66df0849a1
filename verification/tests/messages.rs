use abcb::message::{millis_of, new_session_id, now_millis, Message, Role, Session};
use abcb::provider::{one_turn, MockProvider, Provider, ProviderError};

#[test]
fn role_round_trips_as_snake_case_json() {
    let json = Role::Assistant.to_json();

    assert_eq!(json, r#""assistant""#);

    let role = Role::from_json(&json).expect("role should deserialize");

    assert_eq!(role, Role::Assistant);
}

#[test]
fn every_role_round_trips_and_others_are_refused() {
    for role in [Role::User, Role::Assistant, Role::System, Role::Tool] {
        assert_eq!(Role::from_json(&role.to_json()), Ok(role));
    }
    assert_eq!(Role::from_json(r#"{"tool":null}"#), Ok(Role::Tool));
    assert_eq!(
        Role::from_json(r#""nobody""#),
        Err(
            "unknown variant `nobody`, expected one of `user`, `assistant`, `system`, `tool`"
                .to_string()
        )
    );
    assert!(Role::from_json("5").is_err());
    assert!(Role::from_json(r#"{"tool":1}"#).is_err());
}

#[test]
fn message_round_trips_through_json() {
    let message = Message::new(Role::User, "hello");
    let json = message.to_json();
    let restored = Message::from_json(&json).expect("message should deserialize");

    assert_eq!(restored, message);
}

#[test]
fn message_is_read_by_name_or_by_position() {
    let message = Message::new(Role::Tool, "a \"quoted\" line\n\u{1}");
    assert_eq!(
        message.to_json(),
        "{\"role\":\"tool\",\"content\":\"a \\\"quoted\\\" line\\n\\u0001\"}"
    );
    assert_eq!(Message::from_json(&message.to_json()), Ok(message));
    assert_eq!(
        Message::from_json(r#"["user","hi"]"#),
        Ok(Message::new(Role::User, "hi"))
    );
    assert_eq!(
        Message::from_json(r#"{"content":"hi","role":"user","more":[1,2.5,null]}"#),
        Ok(Message::new(Role::User, "hi"))
    );
    assert_eq!(
        Message::from_json(r#"{"role":"user"}"#),
        Err("missing field `content`".to_string())
    );
    assert!(Message::from_json(r#"["user","hi","more"]"#).is_err());
    assert!(Message::from_json(r#"{"role":"user","content":3}"#).is_err());
}

#[test]
fn session_round_trips_through_json() {
    let mut session = Session::new("session-1", 1_748_613_022_123);
    session.push_message(Message::new(Role::System, "You are abcb."));
    session.push_message(Message::new(Role::User, "Create a scene."));

    let json = session.to_json();
    let restored = Session::from_json(&json).expect("session should deserialize");

    assert_eq!(restored, session);
}

#[test]
fn session_with_a_bad_message_is_refused() {
    let bad = r#"{"id":"s","created_at":0,"messages":[{"role":"user","content":"x"},{"role":"user"}]}"#;
    assert_eq!(
        Session::from_json(bad),
        Err("missing field `content`".to_string())
    );
    assert!(Session::from_json(r#"{"id":"s","created_at":-1,"messages":[]}"#).is_err());
    assert!(Session::from_json(r#"{"id":"s","created_at":1,"messages":{}}"#).is_err());
    assert!(Session::from_json("").is_err());
}

#[test]
fn session_new_records_the_given_timestamp() {
    let session = Session::new("session-1", 1_748_613_022_123);

    assert_eq!(session.id, "session-1");
    assert_eq!(session.created_at, 1_748_613_022_123);
    assert!(session.messages.is_empty());
}

#[test]
fn new_session_id_is_derived_from_the_timestamp() {
    assert_eq!(new_session_id(1_748_613_022_123), "sess-1748613022123");
}

#[test]
fn session_ids_of_different_times_differ() {
    assert_ne!(new_session_id(1), new_session_id(10));
    assert_eq!(new_session_id(0), "sess-0");
    assert_eq!(new_session_id(u64::MAX), "sess-18446744073709551615");
}

#[test]
fn start_stamps_a_real_time_and_derives_the_id_from_it() {
    let session = Session::start();

    assert!(session.created_at > 0);
    assert_eq!(session.id, format!("sess-{}", session.created_at));
}

#[test]
fn clock_readings_become_milliseconds() {
    assert_eq!(millis_of(None), 0);
    assert_eq!(millis_of(Some(1_748_613_022_123)), 1_748_613_022_123);
    assert_eq!(millis_of(Some(u64::MAX as u128 + 6)), 5);
    assert!(now_millis() > 1_600_000_000_000);
}

#[test]
fn mock_provider_returns_scripted_responses_in_order() {
    let mut provider = MockProvider::new(["first", "second"]);
    let session = Session::new("s", 0);

    let first = provider.complete(&session).expect("first response");
    assert_eq!(first, Message::new(Role::Assistant, "first"));

    let second = provider.complete(&session).expect("second response");
    assert_eq!(second, Message::new(Role::Assistant, "second"));
}

#[test]
fn mock_provider_errors_when_exhausted() {
    let mut provider = MockProvider::new(["only"]);
    let session = Session::new("s", 0);

    provider.complete(&session).expect("first response");
    let err = provider
        .complete(&session)
        .expect_err("provider should be exhausted");
    assert!(matches!(err, ProviderError::NoMoreResponses));
}

#[test]
fn one_turn_returns_assistant_reply_from_provider() {
    let mut provider = MockProvider::new(["bot reply"]);

    let reply = one_turn(&mut provider, "hi").expect("one_turn should produce a reply");

    assert_eq!(reply, Message::new(Role::Assistant, "bot reply"));
}

#[test]
fn provider_errors_say_what_happened() {
    assert_eq!(
        ProviderError::NoMoreResponses.to_string(),
        "no more scripted responses"
    );
    assert_eq!(ProviderError::NoMoreResponses.source(), None);
    let backend = ProviderError::Backend("boom".to_string());
    assert_eq!(backend.to_string(), "provider backend error: boom");
    assert_eq!(backend.source(), Some("boom".to_string()));
}

#[test]
fn lib_mock_provider_returns_scripted_responses_in_order() {
    let mut provider = MockProvider::new(["first", "second"]);
    let session = Session::new("s", 0);

    let first = provider.complete(&session).expect("first response");
    assert_eq!(first, Message::new(Role::Assistant, "first"));

    let second = provider.complete(&session).expect("second response");
    assert_eq!(second, Message::new(Role::Assistant, "second"));
}

#[test]
fn lib_mock_provider_errors_when_exhausted() {
    let mut provider = MockProvider::new(["only"]);
    let session = Session::new("s", 0);

    provider.complete(&session).expect("first response");
    let err = provider
        .complete(&session)
        .expect_err("provider should be exhausted");
    assert!(matches!(err, ProviderError::NoMoreResponses));
}

#[test]
fn lib_one_turn_returns_assistant_reply_from_provider() {
    let mut provider = MockProvider::new(["bot reply"]);

    let reply = one_turn(&mut provider, "hi").expect("one_turn should produce a reply");

    assert_eq!(reply, Message::new(Role::Assistant, "bot reply"));
}

#[test]
fn messages_that_do_not_fit_are_told_why() {
    let told = |text: &str| Message::from_json(text).err().unwrap_or_default();
    assert_eq!(told("null"), "invalid type: null, expected struct Message");
    assert_eq!(told(r#"{"content":"x"}"#), "missing field `role`");
    assert_eq!(
        told(r#"{"role":"king","content":"x"}"#),
        "unknown variant `king`, expected one of `user`, `assistant`, `system`, `tool`"
    );
    assert_eq!(told(r#"{"role":7,"content":"x"}"#), "expected value");
    assert_eq!(
        told(r#"{"role":{"user":1},"content":"x"}"#),
        "invalid type: integer `1`, expected unit"
    );
    assert_eq!(
        told(r#"{"role":"user","content":false}"#),
        "invalid type: boolean `false`, expected a string"
    );
    assert_eq!(told(r#"{"content":false}"#), "invalid type: boolean `false`, expected a string");
    assert_eq!(
        told(r#"{"content":[],"role":"king"}"#),
        "invalid type: sequence, expected a string"
    );
    assert_eq!(told(r#"["user"]"#), "invalid length 1, expected struct Message with 2 elements");
    assert_eq!(told(r#"["user","x","y"]"#), "trailing characters");
    let told = |text: &str| Session::from_json(text).err().unwrap_or_default();
    assert_eq!(
        told(r#"{"id":"s","created_at":-2,"messages":[]}"#),
        "invalid value: integer `-2`, expected u64"
    );
    assert_eq!(
        told(r#"{"id":"s","created_at":2,"messages":"a\"b"}"#),
        "invalid type: string \"a\\\"b\", expected a sequence"
    );
}
