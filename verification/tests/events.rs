use abcb::event::{
    read_events, write_event, write_event_at, Event, EventBuffer, EventLogError, EventSink, LoggedEvent,
};

#[test]
fn event_user_message_serializes_with_snake_case_kind_tag() {
    let event = Event::UserMessage {
        content: "hi".into(),
    };

    let json = event.to_json();

    assert_eq!(json, r#"{"kind":"user_message","content":"hi"}"#);
}

#[test]
fn event_round_trips_through_json() {
    let original = Event::FinalAnswer {
        content: "done".into(),
    };

    let json = original.to_json();
    let restored = Event::from_json(&json).expect("event should deserialize");

    assert_eq!(restored, original);
}

#[test]
fn every_kind_of_event_round_trips() {
    let events = vec![
        Event::UserMessage { content: "a\u{7f}\"".into() },
        Event::ModelResponse { content: "{\"kind\":1}\n".into() },
        Event::ToolResult { tool_name: "t".into(), output: "ünïcode \\ 🦀".into() },
        Event::ToolDenied { tool_name: "t".into() },
        Event::FinalAnswer { content: "".into() },
    ];
    for event in events {
        assert_eq!(Event::from_json(&event.to_json()), Ok(event));
    }
    assert_eq!(
        Event::from_json(r#"["tool_result","t","o"]"#),
        Ok(Event::ToolResult { tool_name: "t".into(), output: "o".into() })
    );
    assert!(Event::from_json(r#"["tool_denied","t","o"]"#).is_err());
    assert_eq!(
        Event::from_json(r#"{"kind":"party"}"#),
        Err(
            "unknown variant `party`, expected one of `user_message`, `model_response`, `tool_result`, `tool_denied`, `final_answer`"
                .to_string()
        )
    );
}

#[test]
fn write_event_writes_one_timestamped_newline_terminated_line() {
    let mut buf = EventBuffer::new();
    let event = Event::ModelResponse {
        content: "ok".into(),
    };

    write_event(&mut buf, &event).expect("write_event should succeed");

    let text = buf.text.as_str();
    assert!(text.ends_with('\n'));
    assert_eq!(text.lines().count(), 1);

    let restored = read_events(text).expect("read back");
    assert_eq!(restored.len(), 1);
    assert_eq!(restored[0].event, event);
    assert!(restored[0].at > 0, "write_event should stamp a real time");
}

#[test]
fn write_event_supports_appending_multiple_events_as_jsonl() {
    let mut buf = EventBuffer::new();

    write_event(
        &mut buf,
        &Event::UserMessage {
            content: "hi".into(),
        },
    )
    .expect("first write");
    write_event(
        &mut buf,
        &Event::FinalAnswer {
            content: "bye".into(),
        },
    )
    .expect("second write");

    let text = buf.text.as_str();
    let lines: Vec<&str> = text.lines().collect();

    assert_eq!(lines.len(), 2);
    assert!(lines[0].contains("user_message"));
    assert!(lines[1].contains("final_answer"));
}

#[test]
fn read_events_parses_jsonl_bytes_into_events() {
    let input = "{\"kind\":\"user_message\",\"content\":\"hi\"}\n\
                 {\"kind\":\"final_answer\",\"content\":\"done\"}\n";

    let events = read_events(input).expect("read_events should parse");

    assert_eq!(events.len(), 2);
    assert_eq!(events[0].at, 0);
    assert_eq!(
        events[0].event,
        Event::UserMessage {
            content: "hi".into()
        }
    );
    assert_eq!(
        events[1].event,
        Event::FinalAnswer {
            content: "done".into()
        }
    );
}

#[test]
fn read_events_skips_blank_lines() {
    let input = "\n{\"kind\":\"user_message\",\"content\":\"hi\"}\n\n";

    let events = read_events(input).expect("read_events should parse");

    assert_eq!(events.len(), 1);
}

#[test]
fn read_events_errors_on_malformed_line() {
    let input = "not json at all\n";

    let result = read_events(input);

    assert!(matches!(result, Err(EventLogError::Serde(_))));
}

#[test]
fn read_events_takes_lines_as_they_come() {
    let input = "  {\"at\":7,\"kind\":\"tool_denied\",\"tool_name\":\"t\"}\t\r\n \r\n{\"tool_name\":\"t\",\"kind\":\"tool_denied\",\"at\":8}";
    let events = read_events(input).expect("read");
    assert_eq!(
        events,
        vec![
            LoggedEvent { at: 7, event: Event::ToolDenied { tool_name: "t".into() } },
            LoggedEvent { at: 8, event: Event::ToolDenied { tool_name: "t".into() } },
        ]
    );
    assert_eq!(read_events(""), Ok(vec![]));
    assert!(read_events(r#"["tool_denied","t"]"#).is_err());
    assert!(read_events(r#"{"at":-3,"kind":"tool_denied","tool_name":"t"}"#).is_err());
    assert!(read_events(r#"{"at":1.0,"kind":"tool_denied","tool_name":"t"}"#).is_err());
}

#[test]
fn write_then_read_round_trips_events() {
    let original = vec![
        Event::UserMessage {
            content: "hi".into(),
        },
        Event::ModelResponse {
            content: "ok".into(),
        },
        Event::FinalAnswer {
            content: "done".into(),
        },
    ];

    let mut buf = EventBuffer::new();
    for event in &original {
        write_event(&mut buf, event).expect("write");
    }

    let restored = read_events(buf.text.as_str()).expect("read");

    let restored_events: Vec<Event> = restored.iter().map(|le| le.event.clone()).collect();
    assert_eq!(restored_events, original);
    assert!(restored.iter().all(|le| le.at > 0));
}

#[test]
fn write_then_read_keeps_texts_that_need_escapes() {
    let original = Event::ToolResult {
        tool_name: "t\r\n\u{2028}".into(),
        output: "\u{0}\u{8}\u{c}\u{1f}\"\\/ \u{85} 🦀".into(),
    };
    let mut buf = EventBuffer::new();
    write_event(&mut buf, &original).expect("write");
    write_event(&mut buf, &original).expect("write");
    assert_eq!(buf.text.lines().count(), 2);
    let restored = read_events(&buf.text).expect("read");
    assert_eq!(restored.len(), 2);
    assert_eq!(restored[1].event, original);
}

/// A sink that takes so many writes and fails at the next one.
struct Disk {
    left: usize,
    text: String,
}

impl EventSink for Disk {
    fn write_text(&mut self, text: &str) -> Result<(), String> {
        if self.left == 0 {
            return Err("disk full".to_string());
        }
        self.left -= 1;
        self.text.push_str(text);
        Ok(())
    }
}

#[test]
fn a_failed_write_is_told_by_where_it_failed() {
    let event = Event::UserMessage { content: "hi".into() };
    let mut full = Disk { left: 0, text: String::new() };
    let err = write_event(&mut full, &event).expect_err("nothing can be written");
    assert_eq!(err, EventLogError::Serde("disk full".to_string()));
    assert_eq!(err.to_string(), "event log serialization error: disk full");
    assert_eq!(err.source(), Some("disk full".to_string()));
    assert_eq!(full.text, "");
    let mut almost = Disk { left: 1, text: String::new() };
    let err = write_event_at(&mut almost, &event, 7).expect_err("no end of the line");
    assert_eq!(err, EventLogError::Io("disk full".to_string()));
    assert_eq!(err.to_string(), "event log io error: disk full");
    assert_eq!(err.source(), Some("disk full".to_string()));
    assert_eq!(almost.text, r#"{"at":7,"kind":"user_message","content":"hi"}"#);
}

#[test]
fn a_record_bears_the_time_that_it_is_given() {
    let mut log = EventBuffer::new();
    let event = Event::ToolDenied { tool_name: "x".into() };
    write_event_at(&mut log, &event, 1780).expect("write");
    write_event_at(&mut log, &event, 0).expect("write");
    assert_eq!(
        log.text,
        "{\"at\":1780,\"kind\":\"tool_denied\",\"tool_name\":\"x\"}\n{\"at\":0,\"kind\":\"tool_denied\",\"tool_name\":\"x\"}\n"
    );
    let records = read_events(&log.text).expect("read");
    assert_eq!(records[0], LoggedEvent { at: 1780, event: Event::ToolDenied { tool_name: "x".into() } });
    assert_eq!(records[1].at, 0);
}

#[test]
fn a_record_may_say_its_kind_by_number() {
    let record = |text: &str| read_events(text).map(|records| records[0].event.clone());
    let said = Event::UserMessage { content: "hi".into() };
    assert_eq!(record(r#"{"kind":0,"content":"hi"}"#), Ok(said));
    let said = Event::ModelResponse { content: "hi".into() };
    assert_eq!(record(r#"{"at":3,"kind":1,"content":"hi"}"#), Ok(said));
    let result = Event::ToolResult { tool_name: "t".into(), output: "o".into() };
    assert_eq!(record(r#"{"kind":2,"tool_name":"t","output":"o"}"#), Ok(result));
    let denied = Event::ToolDenied { tool_name: "t".into() };
    assert_eq!(record(r#"{"kind":3,"tool_name":"t"}"#), Ok(denied));
    let answer = Event::FinalAnswer { content: "hi".into() };
    assert_eq!(record(r#"{"kind":4,"content":"hi"}"#), Ok(answer));
    assert_eq!(
        record(r#"{"kind":5,"content":"hi"}"#),
        Err(EventLogError::Serde(
            "invalid value: integer `5`, expected variant index 0 <= i < 5".to_string()
        ))
    );
    assert_eq!(
        record(r#"{"kind":-1,"content":"hi"}"#),
        Err(EventLogError::Serde(
            "invalid type: integer `-1`, expected variant identifier".to_string()
        ))
    );
    // An event of its own says its kind by name alone.
    assert_eq!(
        Event::from_json(r#"{"kind":0,"content":"hi"}"#),
        Err("invalid type: integer `0`, expected variant identifier".to_string())
    );
}

#[test]
fn records_that_do_not_fit_are_told_why() {
    let record = |text: &str| match read_events(text) {
        Ok(_) => String::new(),
        Err(e) => e.source().unwrap_or_default(),
    };
    assert_eq!(record(r#"{"at":-1,"kind":"user_message","content":"x"}"#), "invalid value: integer `-1`, expected u64");
    assert_eq!(record(r#"{"at":"x","kind":"user_message","content":"x"}"#), "invalid type: string \"x\", expected u64");
    assert_eq!(record(r#"{"at":1.5,"kind":"user_message","content":"x"}"#), "invalid type: floating point `1.5`, expected u64");
    assert_eq!(record("[1]"), "invalid type: sequence, expected struct LoggedEvent");
    assert_eq!(record(r#"{"at":1}"#), "missing field `kind`");
    assert_eq!(
        record(r#"{"kind":"banana"}"#),
        "unknown variant `banana`, expected one of `user_message`, `model_response`, `tool_result`, `tool_denied`, `final_answer`"
    );
    assert_eq!(record(r#"{"kind":"tool_result","tool_name":"t"}"#), "missing field `output`");
    assert_eq!(
        record(r#"{"kind":"tool_result","output":1}"#),
        "invalid type: integer `1`, expected a string"
    );
    let event = |text: &str| Event::from_json(text).err().unwrap_or_default();
    assert_eq!(event("5"), "invalid type: integer `5`, expected internally tagged enum Event");
    assert_eq!(event("[]"), "missing field `kind`");
    assert_eq!(
        event(r#"["tool_result","t"]"#),
        "invalid length 1, expected struct variant Event::ToolResult with 2 elements"
    );
    assert_eq!(
        event(r#"["user_message"]"#),
        "invalid length 0, expected struct variant Event::UserMessage with 1 element"
    );
    assert_eq!(
        event(r#"["user_message","a","b"]"#),
        "invalid length 2, expected 1 element in sequence"
    );
    assert_eq!(
        Event::from_json(r#"["tool_result","t","o"]"#),
        Ok(Event::ToolResult { tool_name: "t".into(), output: "o".into() })
    );
}
