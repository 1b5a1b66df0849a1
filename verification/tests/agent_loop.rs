use std::cell::RefCell;
use std::collections::VecDeque;
use std::rc::Rc;

use abcb::agent::{
    finish_step, run_loop, run_step, AllowAll, ApprovalDecision, ApprovalPolicy, DenyAll,
    LoopError, StepOutcome,
};
use abcb::consent::{ask, Toolbox};
use abcb::data::{read_json, Data};
use abcb::event::{read_events, Event, EventBuffer, EventLogError, EventSink};
use abcb::message::{Message, Role, Session};
use abcb::output::ModelOutputError;
use abcb::provider::{MockProvider, Provider, ProviderError};
use abcb::tool::{Tool, ToolError, ToolRegistry};
use abcb::tools::read_text_argument;

struct StubEcho;

impl Tool for StubEcho {
    fn name(&self) -> &str {
        "stub_echo"
    }

    fn description(&self) -> &str {
        "Echoes the `text` field of its arguments."
    }

    fn invoke(&self, args: &Data) -> Result<String, ToolError> {
        read_text_argument("struct StubEchoArgs", args, "text")
    }
}

fn registry_with_stub_echo() -> ToolRegistry<StubEcho> {
    let mut registry = ToolRegistry::new();
    registry.register(StubEcho).expect("register stub_echo");
    registry
}

fn session_with_user(message: &str) -> Session {
    let mut session = Session::new("test", 0);
    session.push_message(Message::new(Role::User, message));
    session
}

fn logged(buffer: &EventBuffer) -> Vec<Event> {
    read_events(&buffer.text)
        .expect("log should parse")
        .into_iter()
        .map(|logged| logged.event)
        .collect()
}

#[test]
fn run_step_returns_final_for_final_envelope() {
    let mut provider = MockProvider::new([r#"{"kind":"final","content":"all done"}"#]);
    let registry = registry_with_stub_echo();
    let mut session = session_with_user("hi");

    let outcome = run_step(
        &mut provider,
        &registry,
        &mut session,
        &mut EventBuffer::new(),
        &mut AllowAll,
    )
    .expect("step should succeed");

    assert_eq!(outcome, StepOutcome::Final("all done".into()));
}

#[test]
fn run_step_executes_tool_for_tool_call_envelope() {
    let mut provider = MockProvider::new([
        r#"{"kind":"tool_call","tool_name":"stub_echo","arguments":{"text":"pong"}}"#,
    ]);
    let registry = registry_with_stub_echo();
    let mut session = session_with_user("hi");

    let outcome = run_step(
        &mut provider,
        &registry,
        &mut session,
        &mut EventBuffer::new(),
        &mut AllowAll,
    )
    .expect("step should succeed");

    assert_eq!(
        outcome,
        StepOutcome::ToolExecuted {
            tool_name: "stub_echo".into(),
            output: "pong".into(),
        }
    );
}

#[test]
fn run_step_appends_assistant_and_tool_messages_to_session() {
    let mut provider = MockProvider::new([
        r#"{"kind":"tool_call","tool_name":"stub_echo","arguments":{"text":"pong"}}"#,
    ]);
    let registry = registry_with_stub_echo();
    let mut session = session_with_user("hi");

    run_step(
        &mut provider,
        &registry,
        &mut session,
        &mut EventBuffer::new(),
        &mut AllowAll,
    )
    .expect("step should succeed");

    assert_eq!(session.messages.len(), 3);
    assert_eq!(session.messages[1].role, Role::Assistant);
    assert_eq!(session.messages[2].role, Role::Tool);
    assert_eq!(session.messages[2].content, "pong");
}

#[test]
fn run_step_errors_on_unknown_tool() {
    let mut provider =
        MockProvider::new([r#"{"kind":"tool_call","tool_name":"nonexistent","arguments":{}}"#]);
    let registry = registry_with_stub_echo();
    let mut session = session_with_user("hi");

    let err = run_step(
        &mut provider,
        &registry,
        &mut session,
        &mut EventBuffer::new(),
        &mut AllowAll,
    )
    .expect_err("step should fail");

    assert!(matches!(err, LoopError::UnknownTool(name) if name == "nonexistent"));
}

#[test]
fn run_step_errors_on_invalid_json() {
    let mut provider = MockProvider::new(["not valid json"]);
    let registry = registry_with_stub_echo();
    let mut session = session_with_user("hi");
    let mut events = EventBuffer::new();

    let err = run_step(
        &mut provider,
        &registry,
        &mut session,
        &mut events,
        &mut AllowAll,
    )
    .expect_err("step should fail");

    assert!(matches!(err, LoopError::Parse(_)));
    // The reply is on record all the same.
    assert_eq!(
        logged(&events),
        vec![Event::ModelResponse { content: "not valid json".into() }]
    );
    assert_eq!(session.messages.len(), 2);
}

#[test]
fn run_step_errors_on_bad_tool_arguments() {
    let mut provider = MockProvider::new([
        r#"{"kind":"tool_call","tool_name":"stub_echo","arguments":{"wrong":1}}"#,
    ]);
    let registry = registry_with_stub_echo();
    let mut session = session_with_user("hi");

    let err = run_step(
        &mut provider,
        &registry,
        &mut session,
        &mut EventBuffer::new(),
        &mut AllowAll,
    )
    .expect_err("step should fail");

    assert!(matches!(err, LoopError::Tool(_)));
}

#[test]
fn finish_step_hands_on_the_error_of_the_provider() {
    let registry = registry_with_stub_echo();
    let mut session = session_with_user("hi");
    let mut events = EventBuffer::new();
    let err = finish_step(
        Err(ProviderError::Backend("down".to_string())),
        &registry,
        &mut session,
        &mut events,
        &mut AllowAll,
    )
    .expect_err("no reply");
    assert_eq!(
        err,
        LoopError::Provider(ProviderError::Backend("down".to_string()))
    );
    assert_eq!(session.messages.len(), 1);
    assert_eq!(events.text, "");
}

#[test]
fn run_loop_returns_final_immediately() {
    let mut provider = MockProvider::new([r#"{"kind":"final","content":"done"}"#]);
    let registry = registry_with_stub_echo();

    let answer = run_loop(
        &mut provider,
        &registry,
        &mut session_with_user("hi"),
        5,
        &mut EventBuffer::new(),
        &mut AllowAll,
    )
    .expect("loop should succeed");

    assert_eq!(answer, "done");
}

#[test]
fn run_loop_executes_tool_then_returns_final() {
    let mut provider = MockProvider::new([
        r#"{"kind":"tool_call","tool_name":"stub_echo","arguments":{"text":"pong"}}"#,
        r#"{"kind":"final","content":"finished"}"#,
    ]);
    let registry = registry_with_stub_echo();

    let answer = run_loop(
        &mut provider,
        &registry,
        &mut session_with_user("hi"),
        5,
        &mut EventBuffer::new(),
        &mut AllowAll,
    )
    .expect("loop should succeed");

    assert_eq!(answer, "finished");
}

#[test]
fn run_loop_runs_multiple_tools_then_final() {
    let mut provider = MockProvider::new([
        r#"{"kind":"tool_call","tool_name":"stub_echo","arguments":{"text":"one"}}"#,
        r#"{"kind":"tool_call","tool_name":"stub_echo","arguments":{"text":"two"}}"#,
        r#"{"kind":"final","content":"both done"}"#,
    ]);
    let registry = registry_with_stub_echo();

    let answer = run_loop(
        &mut provider,
        &registry,
        &mut session_with_user("hi"),
        5,
        &mut EventBuffer::new(),
        &mut AllowAll,
    )
    .expect("loop should succeed");

    assert_eq!(answer, "both done");
}

#[test]
fn run_loop_errors_when_max_steps_exceeded() {
    let mut provider = MockProvider::new([
        r#"{"kind":"tool_call","tool_name":"stub_echo","arguments":{"text":"a"}}"#,
        r#"{"kind":"tool_call","tool_name":"stub_echo","arguments":{"text":"b"}}"#,
    ]);
    let registry = registry_with_stub_echo();

    let err = run_loop(
        &mut provider,
        &registry,
        &mut session_with_user("hi"),
        2,
        &mut EventBuffer::new(),
        &mut AllowAll,
    )
    .expect_err("loop should fail");

    assert!(matches!(err, LoopError::MaxStepsExceeded { max_steps: 2 }));
}

#[test]
fn run_loop_recovers_from_parse_error() {
    let mut provider = MockProvider::new([
        "this is not json",
        r#"{"kind":"final","content":"recovered"}"#,
    ]);
    let registry = registry_with_stub_echo();

    let answer = run_loop(
        &mut provider,
        &registry,
        &mut session_with_user("hi"),
        5,
        &mut EventBuffer::new(),
        &mut AllowAll,
    )
    .expect("loop should recover");

    assert_eq!(answer, "recovered");
}

#[test]
fn run_loop_recovers_from_unknown_tool() {
    let mut provider = MockProvider::new([
        r#"{"kind":"tool_call","tool_name":"nonexistent","arguments":{}}"#,
        r#"{"kind":"final","content":"recovered"}"#,
    ]);
    let registry = registry_with_stub_echo();

    let answer = run_loop(
        &mut provider,
        &registry,
        &mut session_with_user("hi"),
        5,
        &mut EventBuffer::new(),
        &mut AllowAll,
    )
    .expect("loop should recover");

    assert_eq!(answer, "recovered");
}

#[test]
fn run_loop_recovers_from_bad_arguments() {
    let mut provider = MockProvider::new([
        r#"{"kind":"tool_call","tool_name":"stub_echo","arguments":{"wrong":1}}"#,
        r#"{"kind":"final","content":"recovered"}"#,
    ]);
    let registry = registry_with_stub_echo();
    let mut session = session_with_user("hi");

    let answer = run_loop(
        &mut provider,
        &registry,
        &mut session,
        5,
        &mut EventBuffer::new(),
        &mut AllowAll,
    )
    .expect("loop should recover");

    assert_eq!(answer, "recovered");
    assert_eq!(
        session.messages[2],
        Message::new(
            Role::Tool,
            "invalid tool arguments: missing field `text`; correct them and try again"
        )
    );
}

#[test]
fn run_loop_aborts_on_provider_error() {
    let mut provider = MockProvider::new([
        r#"{"kind":"tool_call","tool_name":"stub_echo","arguments":{"text":"x"}}"#,
    ]);
    let registry = registry_with_stub_echo();

    let err = run_loop(
        &mut provider,
        &registry,
        &mut session_with_user("hi"),
        5,
        &mut EventBuffer::new(),
        &mut AllowAll,
    )
    .expect_err("loop should abort");

    assert!(matches!(err, LoopError::Provider(_)));
}

#[test]
fn run_loop_recovery_is_bounded_by_max_steps() {
    let mut provider = MockProvider::new(["garbage one", "garbage two"]);
    let registry = registry_with_stub_echo();

    let err = run_loop(
        &mut provider,
        &registry,
        &mut session_with_user("hi"),
        2,
        &mut EventBuffer::new(),
        &mut AllowAll,
    )
    .expect_err("loop should fail");

    assert!(matches!(err, LoopError::MaxStepsExceeded { max_steps: 2 }));
}

#[test]
fn run_loop_writes_the_full_event_stream_as_jsonl() {
    let mut provider = MockProvider::new([
        r#"{"kind":"tool_call","tool_name":"stub_echo","arguments":{"text":"pong"}}"#,
        r#"{"kind":"final","content":"done"}"#,
    ]);
    let registry = registry_with_stub_echo();
    let mut log = EventBuffer::new();

    run_loop(
        &mut provider,
        &registry,
        &mut session_with_user("hi"),
        5,
        &mut log,
        &mut AllowAll,
    )
    .expect("loop should succeed");

    assert_eq!(
        logged(&log),
        vec![
            Event::UserMessage {
                content: "hi".into()
            },
            Event::ModelResponse {
                content:
                    r#"{"kind":"tool_call","tool_name":"stub_echo","arguments":{"text":"pong"}}"#
                        .into()
            },
            Event::ToolResult {
                tool_name: "stub_echo".into(),
                output: "pong".into()
            },
            Event::ModelResponse {
                content: r#"{"kind":"final","content":"done"}"#.into()
            },
            Event::FinalAnswer {
                content: "done".into()
            },
        ]
    );
}

#[test]
fn run_step_denied_by_policy_skips_the_tool_and_feeds_back() {
    let mut provider = MockProvider::new([
        r#"{"kind":"tool_call","tool_name":"stub_echo","arguments":{"text":"pong"}}"#,
    ]);
    let registry = registry_with_stub_echo();
    let mut session = session_with_user("hi");

    let outcome = run_step(
        &mut provider,
        &registry,
        &mut session,
        &mut EventBuffer::new(),
        &mut DenyAll,
    )
    .expect("denial is policy, not error; the step still succeeds");

    assert_eq!(
        outcome,
        StepOutcome::ToolDenied {
            tool_name: "stub_echo".into()
        }
    );
    assert!(!session.messages.iter().any(|m| m.content == "pong"));
    let last = session.messages.last().expect("a message");
    assert_eq!(last.role, Role::Tool);
    assert!(last.content.contains("denied"));
}

#[test]
fn run_loop_logs_denial_and_keeps_going() {
    let mut provider = MockProvider::new([
        r#"{"kind":"tool_call","tool_name":"stub_echo","arguments":{"text":"pong"}}"#,
        r#"{"kind":"final","content":"ok then"}"#,
    ]);
    let registry = registry_with_stub_echo();
    let mut log = EventBuffer::new();

    let answer = run_loop(
        &mut provider,
        &registry,
        &mut session_with_user("hi"),
        5,
        &mut log,
        &mut DenyAll,
    )
    .expect("loop reaches a final answer despite the denial");

    assert_eq!(answer, "ok then");

    assert_eq!(
        logged(&log),
        vec![
            Event::UserMessage {
                content: "hi".into()
            },
            Event::ModelResponse {
                content:
                    r#"{"kind":"tool_call","tool_name":"stub_echo","arguments":{"text":"pong"}}"#
                        .into()
            },
            Event::ToolDenied {
                tool_name: "stub_echo".into()
            },
            Event::ModelResponse {
                content: r#"{"kind":"final","content":"ok then"}"#.into()
            },
            Event::FinalAnswer {
                content: "ok then".into()
            },
        ]
    );
}

#[test]
fn recovery_feedback_classifies_errors() {
    assert!(
        LoopError::UnknownTool("x".into())
            .recovery_feedback()
            .is_some()
    );
    assert!(
        LoopError::Tool(ToolError::Execution("boom".into()))
            .recovery_feedback()
            .is_some()
    );

    let io = ToolError::Io("denied".to_string());
    assert!(LoopError::Tool(io).recovery_feedback().is_none());
    assert!(
        LoopError::Provider(ProviderError::NoMoreResponses)
            .recovery_feedback()
            .is_none()
    );
    assert!(
        LoopError::MaxStepsExceeded { max_steps: 3 }
            .recovery_feedback()
            .is_none()
    );
}

#[test]
fn recovery_feedback_says_what_to_do() {
    let parse = LoopError::from(ModelOutputError::Parse("eof".to_string()));
    assert_eq!(
        parse.recovery_feedback(),
        Some("your previous output was not valid JSON (failed to parse model output: eof); reply with a single valid envelope".to_string())
    );
    assert_eq!(
        LoopError::UnknownTool("x".into()).recovery_feedback(),
        Some("unknown tool `x`; call one of the registered tools instead".to_string())
    );
    assert_eq!(
        LoopError::from(ToolError::Execution("boom".into())).recovery_feedback(),
        Some("tool execution failed: boom; try a different approach".to_string())
    );
    assert_eq!(
        LoopError::from(EventLogError::Io("full".into())).recovery_feedback(),
        None
    );
}

#[test]
fn loop_errors_say_what_happened() {
    let cases = vec![
        (
            LoopError::from(ProviderError::NoMoreResponses),
            "provider error: no more scripted responses",
            Some("no more scripted responses"),
        ),
        (
            LoopError::from(ModelOutputError::Parse("eof".to_string())),
            "failed to parse model output: eof",
            Some("failed to parse model output: eof"),
        ),
        (LoopError::UnknownTool("x".to_string()), "unknown tool: x", None),
        (
            LoopError::from(ToolError::Execution("boom".to_string())),
            "tool execution failed: boom",
            Some("tool execution failed: boom"),
        ),
        (
            LoopError::from(EventLogError::Io("full".to_string())),
            "event log error: event log io error: full",
            Some("event log io error: full"),
        ),
        (
            LoopError::MaxStepsExceeded { max_steps: 12 },
            "exceeded max steps (12) without a final answer",
            None,
        ),
    ];
    for (error, text, source) in cases {
        assert_eq!(error.to_string(), text);
        assert_eq!(error.source(), source.map(|s| s.to_string()));
    }
}

/// A provider that records every session it is asked to complete.
struct RecordingProvider {
    scripted: VecDeque<String>,
    seen: Vec<Session>,
}

impl Provider for RecordingProvider {
    fn complete(&mut self, session: &Session) -> Result<Message, ProviderError> {
        self.seen.push(session.clone());
        let content = self
            .scripted
            .pop_front()
            .ok_or(ProviderError::NoMoreResponses)?;
        Ok(Message::new(Role::Assistant, &content))
    }
}

#[test]
fn run_loop_feeds_tool_result_back_to_model() {
    let mut provider = RecordingProvider {
        scripted: VecDeque::from(vec![
            r#"{"kind":"tool_call","tool_name":"stub_echo","arguments":{"text":"pong"}}"#
                .to_string(),
            r#"{"kind":"final","content":"done"}"#.to_string(),
        ]),
        seen: Vec::new(),
    };
    let registry = registry_with_stub_echo();

    let answer = run_loop(
        &mut provider,
        &registry,
        &mut session_with_user("hi"),
        5,
        &mut EventBuffer::new(),
        &mut AllowAll,
    )
    .expect("loop should succeed");
    assert_eq!(answer, "done");

    assert_eq!(provider.seen.len(), 2);
    let second_turn = &provider.seen[1];
    assert!(
        second_turn
            .messages
            .iter()
            .any(|m| m.role == Role::Tool && m.content == "pong"),
        "second turn should see the tool result; saw: {:?}",
        second_turn.messages
    );
}

/// Allows the first call only, and remembers what it was asked.
struct Once {
    asked: Vec<String>,
}

impl ApprovalPolicy for Once {
    fn approve(&mut self, tool_name: &str, arguments: &Data) -> ApprovalDecision {
        self.asked.push(format!("{tool_name} {}", arguments.to_json()));
        if self.asked.len() == 1 {
            ApprovalDecision::Allow
        } else {
            ApprovalDecision::Deny
        }
    }
}

#[test]
fn the_policy_is_asked_before_every_call() {
    let call = r#"{"kind":"tool_call","tool_name":"stub_echo","arguments":{"text":"pong"}}"#;
    let unknown = r#"{"kind":"tool_call","tool_name":"other","arguments":{}}"#;
    let done = r#"{"kind":"final","content":"done"}"#;
    let mut provider = MockProvider::new([call, unknown, call, done]);
    let mut policy = Once { asked: Vec::new() };
    let mut session = session_with_user("hi");
    let mut log = EventBuffer::new();

    let answer = run_loop(
        &mut provider,
        &registry_with_stub_echo(),
        &mut session,
        4,
        &mut log,
        &mut policy,
    );

    assert_eq!(answer, Ok("done".to_string()));
    assert_eq!(
        policy.asked,
        vec![
            r#"stub_echo {"text":"pong"}"#.to_string(),
            r#"stub_echo {"text":"pong"}"#.to_string(),
        ]
    );
    let roles: Vec<Role> = session.messages.iter().map(|m| m.role.clone()).collect();
    assert_eq!(
        roles,
        vec![
            Role::User,
            Role::Assistant,
            Role::Tool,
            Role::Assistant,
            Role::Tool,
            Role::Assistant,
            Role::Tool,
            Role::Assistant,
        ]
    );
    assert_eq!(
        session.messages[6].content,
        "the tool `stub_echo` was denied by the approval policy"
    );
    assert_eq!(session.id, "test");
    assert_eq!(logged(&log).len(), 1 + 4 + 2 + 1);
}

/// A log that takes a number of lines and no more.
struct Short {
    left: usize,
    text: String,
}

impl EventSink for Short {
    fn write_text(&mut self, text: &str) -> Result<(), String> {
        if self.left == 0 {
            return Err("full".to_string());
        }
        self.left -= 1;
        self.text.push_str(text);
        Ok(())
    }
}

#[test]
fn a_log_that_cannot_be_written_ends_the_run() {
    let call = r#"{"kind":"tool_call","tool_name":"stub_echo","arguments":{"text":"pong"}}"#;
    let done = r#"{"kind":"final","content":"done"}"#;
    // How many messages the session has when the write of a record fails.
    let lengths = [1, 1, 2, 3, 4];
    // Each record takes two writes: its line, and the end of the line.
    for left in 0..10 {
        let mut sink = Short { left, text: String::new() };
        let mut session = session_with_user("hi");
        let result = run_loop(
            &mut MockProvider::new([call, done]),
            &registry_with_stub_echo(),
            &mut session,
            5,
            &mut sink,
            &mut AllowAll,
        );
        let error = if left % 2 == 0 {
            EventLogError::Serde("full".to_string())
        } else {
            EventLogError::Io("full".to_string())
        };
        assert_eq!(result, Err(LoopError::EventLog(error)));
        assert_eq!(session.messages.len(), lengths[left / 2]);
        assert_eq!(read_events(&sink.text).expect("whole records").len(), (left + 1) / 2);
    }
}

#[test]
fn run_loop_without_steps_logs_the_user_and_gives_up() {
    let mut log = EventBuffer::new();
    let mut session = Session::new("s", 1);
    session.push_message(Message::new(Role::System, "be nice"));
    session.push_message(Message::new(Role::User, "one"));
    session.push_message(Message::new(Role::User, "two"));
    let result = run_loop(
        &mut MockProvider::new([r#"{"kind":"final","content":"x"}"#]),
        &registry_with_stub_echo(),
        &mut session,
        0,
        &mut log,
        &mut AllowAll,
    );
    assert_eq!(result, Err(LoopError::MaxStepsExceeded { max_steps: 0 }));
    assert_eq!(
        logged(&log),
        vec![
            Event::UserMessage { content: "one".into() },
            Event::UserMessage { content: "two".into() },
        ]
    );
    assert_eq!(session.messages.len(), 3);
}

#[test]
fn lib_tool_exposes_name_and_description() {
    let tool = StubEcho;

    assert_eq!(tool.name(), "stub_echo");
    assert!(tool.description().to_lowercase().contains("echoes"));
}

/// Counts its calls.
struct Counting {
    name: &'static str,
    calls: Rc<RefCell<Vec<String>>>,
}

impl Tool for Counting {
    fn name(&self) -> &str {
        self.name
    }

    fn description(&self) -> &str {
        "Counts its calls."
    }

    fn invoke(&self, args: &Data) -> Result<String, ToolError> {
        self.calls.borrow_mut().push(format!("{} {}", self.name, args.to_json()));
        Ok("counted".to_string())
    }
}

#[test]
fn a_tool_is_called_once_for_each_call_that_was_allowed() {
    let calls = Rc::new(RefCell::new(vec![]));
    let mut registry = ToolRegistry::new();
    for name in ["one", "two"] {
        registry.register(Counting { name, calls: calls.clone() }).expect("register");
    }
    let mut policy = Once { asked: vec![] };
    let mut session = session_with_user("hi");
    let result = run_loop(
        &mut MockProvider::new([
            r#"{"kind":"tool_call","tool_name":"three","arguments":{}}"#,
            r#"{"kind":"tool_call","tool_name":"two","arguments":{"n":1}}"#,
            r#"{"kind":"tool_call","tool_name":"one","arguments":{"n":2}}"#,
            r#"{"kind":"final","content":"done"}"#,
        ]),
        &registry,
        &mut session,
        5,
        &mut EventBuffer::new(),
        &mut policy,
    );
    assert_eq!(result, Ok("done".to_string()));
    assert_eq!(policy.asked, vec![r#"two {"n":1}"#, r#"one {"n":2}"#]);
    assert_eq!(*calls.borrow(), vec![r#"two {"n":1}"#]);
}

#[test]
fn tools_are_called_with_the_consent_of_the_policy() {
    let registry = registry_with_stub_echo();
    let call = |text: &str| {
        let json = format!("{{\"text\":\"{text}\"}}");
        ("stub_echo".to_string(), read_json(&json).expect("json"))
    };
    assert!(Toolbox::<Once>::holds(&registry, "stub_echo"));
    assert!(!Toolbox::<Once>::holds(&registry, "echo"));
    let mut policy = Once { asked: vec![] };
    let (name, arguments) = call("pong");
    let consent = ask(&mut policy, name, arguments).expect("the first call is allowed");
    assert_eq!(registry.call(consent), Ok("pong".to_string()));
    let (name, arguments) = call("again");
    assert!(ask(&mut policy, name, arguments).is_none());
    assert_eq!(
        policy.asked,
        vec![r#"stub_echo {"text":"pong"}"#, r#"stub_echo {"text":"again"}"#]
    );
    let (name, arguments) = call("x");
    assert!(ask(&mut DenyAll, name, arguments).is_none());
    let (name, arguments) = call("x");
    let consent = ask(&mut AllowAll, name, arguments).expect("every call is allowed");
    let (name, arguments) = consent.into_call();
    assert_eq!(name, "stub_echo");
    assert_eq!(arguments.to_json(), r#"{"text":"x"}"#);
}
