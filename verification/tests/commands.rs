use abcb::agent::LoopError;
use abcb::cli::{
    choose_provider, examine, log_chat, mock_chat_reply, mock_run_reply, open_examination,
    plan_run, replay_lines, report_health, session_dir, summarize,
};
use abcb::config::parse_config;
use abcb::event::{read_events, Event, EventBuffer, EventLogError, EventSink, LoggedEvent};
use abcb::models::HealthReport;
use abcb::output::ModelOutput;
use abcb::provider::{one_turn, MockProvider, ProviderError};
use abcb::summary::RunStatus;

#[test]
fn session_dir_joins_root_and_id() {
    let dir = session_dir(".abcb/sessions", "sess-1748613022123");
    assert_eq!(dir, ".abcb/sessions/sess-1748613022123");
}

/// A chat with the mock: what is said, and what is logged of it.
fn mock_chat(message: &str, log: &mut EventBuffer) -> String {
    let reply = mock_chat_reply(message);
    let said = one_turn(&mut MockProvider::new([reply.as_str()]), message).expect("a reply");
    log_chat(log, message, &said.content).expect("a log in memory");
    said.content
}

#[test]
fn run_chat_with_log_writes_three_jsonl_events() {
    let mut log = EventBuffer::new();

    mock_chat("hi", &mut log);

    let contents = log.text.as_str();
    let lines: Vec<&str> = contents.lines().collect();

    assert_eq!(lines.len(), 3, "expected 3 events, got: {contents:?}");
    assert!(lines[0].contains(r#""kind":"user_message""#));
    assert!(lines[0].contains(r#""content":"hi""#));
    assert!(lines[1].contains(r#""kind":"model_response""#));
    assert!(lines[1].contains("mock: you said hi"));
    assert!(lines[2].contains(r#""kind":"final_answer""#));
    assert!(lines[2].contains("mock: you said hi"));
}

#[test]
fn run_chat_appends_to_existing_log_file() {
    let mut log = EventBuffer::new();
    log.text.push_str("{\"kind\":\"prior\"}\n");

    mock_chat("hi", &mut log);

    let contents = log.text.as_str();
    let lines: Vec<&str> = contents.lines().collect();

    assert_eq!(
        lines.len(),
        4,
        "expected prior + 3 events, got: {contents:?}"
    );
    assert!(lines[0].contains("prior"));
}

#[test]
fn chat_log_is_readable_by_read_events() {
    let mut log = EventBuffer::new();

    mock_chat("hi", &mut log);

    let events = read_events(&log.text).expect("read_events should parse log");

    assert_eq!(events.len(), 3);
    assert!(matches!(
        &events[0].event,
        Event::UserMessage { content } if content == "hi"
    ));
    assert!(matches!(
        &events[1].event,
        Event::ModelResponse { content } if content == "mock: you said hi"
    ));
    assert!(matches!(
        &events[2].event,
        Event::FinalAnswer { content } if content == "mock: you said hi"
    ));
}

#[test]
fn the_mock_of_a_run_gives_a_final_envelope() {
    let reply = mock_run_reply("hi");
    assert_eq!(reply, r#"{"kind":"final","content":"mock run: you said hi"}"#);
    assert_eq!(
        ModelOutput::parse(&reply),
        Ok(ModelOutput::Final { content: "mock run: you said hi".to_string() })
    );
}

#[test]
fn summaries_are_read_off_the_log() {
    let mut log = EventBuffer::new();
    mock_chat("hi", &mut log);
    let summary = summarize(&log.text, &Ok("x".to_string()), "mock".to_string()).expect("a log");
    assert_eq!(summary.steps, 1);
    assert_eq!(summary.status, RunStatus::Completed);
    assert_eq!(summary.endpoint, "mock");
    let failed: Result<String, LoopError> = Err(LoopError::UnknownTool("t".to_string()));
    assert!(matches!(
        summarize("no log", &failed, "e".to_string()),
        Err(EventLogError::Serde(_))
    ));
}

#[test]
fn replays_number_the_events() {
    let at = 0;
    let events = vec![
        LoggedEvent { at, event: Event::UserMessage { content: "hi".into() } },
        LoggedEvent { at, event: Event::ModelResponse { content: "{}".into() } },
        LoggedEvent {
            at,
            event: Event::ToolResult { tool_name: "echo".into(), output: "x".into() },
        },
        LoggedEvent { at, event: Event::ToolDenied { tool_name: "rm".into() } },
        LoggedEvent { at, event: Event::FinalAnswer { content: "done".into() } },
    ];
    assert_eq!(
        replay_lines(&events),
        vec![
            "[1] user_message: hi",
            "[2] model_response: {}",
            "[3] tool_result: echo: x",
            "[4] tool_denied: rm",
            "[5] final_answer: done",
        ]
    );
}

#[test]
fn the_doctor_reports_what_is_configured() {
    assert_eq!(open_examination(), vec!["abcb doctor", "workspace: ok"]);
    let plan = examine(None);
    assert_eq!(plan.lines, vec!["config: abcb.toml not found (ok for now)"]);
    assert_eq!(plan.probe, None);

    let bare = parse_config("").expect("parses");
    let plan = examine(Some(&bare));
    assert_eq!(
        plan.lines,
        vec![
            "config: found abcb.toml",
            "model: no [model] section configured",
        ]
    );
    assert_eq!(plan.probe, None);

    let silent = parse_config("[project]\nname=\"p\"\n[model]\nbase_url=\"u\"\nmodel=\"m\"")
        .expect("parses");
    let plan = examine(Some(&silent));
    assert_eq!(
        plan.lines,
        vec![
            "config: found abcb.toml",
            "project: p",
            "model: m @ u",
            "mlx: no health_url configured (skipping health check)",
        ]
    );
    assert_eq!(plan.probe, None);

    let probed = parse_config("[model]\nbase_url=\"u\"\nmodel=\"m\"\nhealth_url=\"h\"")
        .expect("parses");
    let plan = examine(Some(&probed));
    assert_eq!(plan.lines, vec!["config: found abcb.toml", "model: m @ u"]);
    assert_eq!(plan.probe, Some("h".to_string()));
}

#[test]
fn the_doctor_reports_the_health_that_was_found() {
    let healthy = HealthReport {
        status: "healthy".to_string(),
        loaded_model: Some("m".to_string()),
        loaded_adapter: None,
    };
    assert_eq!(
        report_health("h", &Ok(healthy)),
        vec!["mlx: healthy (h)", "mlx model: m"]
    );
    let bare = HealthReport {
        status: "starting".to_string(),
        loaded_model: None,
        loaded_adapter: None,
    };
    assert_eq!(
        report_health("h", &Ok(bare)),
        vec!["mlx: starting (h)", "mlx model: (none reported)"]
    );
    assert_eq!(
        report_health("h", &Err(ProviderError::Backend("refused".to_string()))),
        vec!["mlx: unreachable (provider backend error: refused)"]
    );
}

#[test]
fn run_chat_without_mock_and_without_config_errors() {
    let err = choose_provider(false, None).expect_err("should require config or --mock");

    assert!(err.to_string().contains("--mock"));
}

#[test]
fn run_run_without_mock_and_without_config_errors() {
    let err = plan_run(false, None)
        .err()
        .expect("should require config or --mock");

    assert!(err.to_string().contains("--mock"));
}

#[test]
fn commands_ask_the_mock_or_the_configured_endpoint() {
    let bare = parse_config("").expect("parses");
    let full = parse_config(
        "[model]\nbase_url=\"u\"\nmodel=\"m\"\n[agent]\nmax_steps=7\n[memory]\ndir=\"d\"",
    )
    .expect("parses");
    assert_eq!(choose_provider(true, None), Ok(None));
    assert_eq!(choose_provider(true, Some(&full)), Ok(None));
    assert_eq!(
        choose_provider(false, Some(&bare)),
        Err("abcb.toml has no [model] section; add one or pass --mock".to_string())
    );
    let provider = choose_provider(false, Some(&full)).expect("configured").expect("asked");
    assert_eq!(provider.url(), "u/chat/completions");

    let mock = plan_run(true, Some(&full)).unwrap_or_else(|e| panic!("{e}"));
    assert_eq!(mock.memory_dir, ".abcb/sessions");
    assert_eq!(mock.max_steps, 5);
    assert_eq!(mock.endpoint, "mock");
    let plan = plan_run(false, Some(&full)).unwrap_or_else(|e| panic!("{e}"));
    assert_eq!(plan.memory_dir, "d");
    assert_eq!(plan.max_steps, 7);
    assert_eq!(plan.endpoint, "u (m)");
}

#[test]
fn run_chat_without_mock_flag_errors() {
    let err = choose_provider(false, None).expect_err("should require --mock");

    assert!(err.to_string().contains("--mock"));
}

#[test]
fn run_run_without_mock_flag_errors() {
    let err = plan_run(false, None).err().expect("should require --mock");

    assert!(err.to_string().contains("--mock"));
}

/// A sink that takes so many writes and fails at the next one.
struct Narrow {
    left: usize,
    text: String,
}

impl EventSink for Narrow {
    fn write_text(&mut self, text: &str) -> Result<(), String> {
        if self.left == 0 {
            return Err("full".to_string());
        }
        self.left -= 1;
        self.text.push_str(text);
        Ok(())
    }
}

#[test]
fn a_chat_whose_log_cannot_be_written_stops_at_the_record_that_failed() {
    for left in 0..6 {
        let mut sink = Narrow { left, text: String::new() };
        let error = log_chat(&mut sink, "hi", "yo").expect_err("no room");
        let told = if left % 2 == 0 {
            EventLogError::Serde("full".to_string())
        } else {
            EventLogError::Io("full".to_string())
        };
        assert_eq!(error, told);
        let kept = read_events(&sink.text).expect("whole records");
        assert_eq!(kept.len(), (left + 1) / 2);
    }
    let mut sink = Narrow { left: 6, text: String::new() };
    assert_eq!(log_chat(&mut sink, "hi", "yo"), Ok(()));
    assert_eq!(read_events(&sink.text).expect("a log").len(), 3);
}
