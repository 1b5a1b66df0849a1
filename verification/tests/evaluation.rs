use abcb::agent::LoopError;
use abcb::data::Data;
use abcb::eval::{
    default_fixtures, eval_trial, judge, run_eval, scorecard, seed_session, EvalCase, Expectation,
    FixtureResult,
};
use abcb::event::{Event, LoggedEvent};
use abcb::message::{Message, Role, Session};
use abcb::provider::{MockProvider, Provider, ProviderError};
use abcb::summary::{RunStatus, RunSummary};
use abcb::tool::{system_prompt, ToolError, ToolRegistry};
use abcb::tools::echo::Echo;

#[test]
fn run_summary_folds_events_and_reports_outcome() {
    let events = vec![
        LoggedEvent {
            at: 1,
            event: Event::UserMessage {
                content: "hi".into(),
            },
        },
        LoggedEvent {
            at: 2,
            event: Event::ModelResponse {
                content: "{...}".into(),
            },
        },
        LoggedEvent {
            at: 3,
            event: Event::ToolResult {
                tool_name: "session_note_append".into(),
                output: "ok".into(),
            },
        },
        LoggedEvent {
            at: 4,
            event: Event::ModelResponse {
                content: "{...}".into(),
            },
        },
        LoggedEvent {
            at: 5,
            event: Event::ToolDenied {
                tool_name: "danger".into(),
            },
        },
        LoggedEvent {
            at: 6,
            event: Event::ModelResponse {
                content: "{...}".into(),
            },
        },
        LoggedEvent {
            at: 7,
            event: Event::FinalAnswer {
                content: "done".into(),
            },
        },
    ];

    let summary = RunSummary::from_run(&events, &Ok("done".into()), "mock".into());

    assert_eq!(summary.status, RunStatus::Completed);
    assert_eq!(summary.steps, 3);
    assert_eq!(
        summary.tools_called,
        vec!["session_note_append".to_string()]
    );
    assert_eq!(summary.tools_denied, vec!["danger".to_string()]);
    assert_eq!(summary.endpoint, "mock");
}

#[test]
fn run_status_reflects_the_loop_outcome() {
    assert_eq!(
        RunStatus::from_outcome(&Ok("x".into())),
        RunStatus::Completed
    );
    assert_eq!(
        RunStatus::from_outcome(&Err(LoopError::MaxStepsExceeded { max_steps: 5 })),
        RunStatus::MaxStepsExceeded
    );
    assert_eq!(
        RunStatus::from_outcome(&Err(LoopError::UnknownTool("x".into()))),
        RunStatus::Failed
    );
}

#[test]
fn run_summary_display_lists_each_field() {
    let summary = RunSummary {
        status: RunStatus::Completed,
        steps: 2,
        tools_called: vec!["echo".into()],
        tools_denied: vec![],
        endpoint: "mock".into(),
    };

    let line = summary.to_string();
    assert!(line.contains("status: completed"));
    assert!(line.contains("steps: 2"));
    assert!(line.contains("tools: [echo]"));
    assert!(line.contains("denied: []"));
    assert!(line.contains("endpoint: mock"));
}

#[test]
fn run_summary_is_one_line_of_fields() {
    let summary = RunSummary {
        status: RunStatus::MaxStepsExceeded,
        steps: 10,
        tools_called: vec!["a".into(), "b".into()],
        tools_denied: vec!["c".into()],
        endpoint: "e".into(),
    };
    assert_eq!(
        summary.to_string(),
        "run summary: status: max steps exceeded, steps: 10, tools: [a, b], denied: [c], endpoint: e"
    );
    assert_eq!(RunStatus::Failed.label(), "failed");
}

fn summary_with(tools_called: Vec<String>) -> RunSummary {
    RunSummary {
        status: RunStatus::Completed,
        steps: 1,
        tools_called,
        tools_denied: vec![],
        endpoint: "test".into(),
    }
}

#[test]
fn judge_completes_reads_the_outcome() {
    let s = summary_with(vec![]);
    assert!(judge(&Expectation::Completes, &Ok("hi".into()), &s));
    assert!(!judge(
        &Expectation::Completes,
        &Err(LoopError::MaxStepsExceeded { max_steps: 5 }),
        &s
    ));
}

#[test]
fn judge_calls_tool_reads_the_summary() {
    let expect = Expectation::CallsTool {
        name: "session_note_append".into(),
    };
    assert!(judge(
        &expect,
        &Ok("ok".into()),
        &summary_with(vec!["session_note_append".into()])
    ));
    assert!(!judge(&expect, &Ok("ok".into()), &summary_with(vec![])));
}

#[test]
fn judge_final_contains_reads_the_answer() {
    let expect = Expectation::FinalContains { text: "7".into() };
    let s = summary_with(vec![]);
    assert!(judge(&expect, &Ok("the answer is 7".into()), &s));
    assert!(!judge(&expect, &Ok("the answer is six".into()), &s));
    assert!(!judge(
        &expect,
        &Err(LoopError::MaxStepsExceeded { max_steps: 5 }),
        &s
    ));
}

#[test]
fn run_eval_tallies_the_pass_rate() {
    let fixtures = vec![EvalCase {
        name: "f".into(),
        prompt: "p".into(),
        expectation: Expectation::Completes,
    }];
    let mut provider = MockProvider::new([
        r#"{"kind":"final","content":"a"}"#,
        r#"{"kind":"final","content":"b"}"#,
    ]);
    let registry = ToolRegistry::<Echo>::new();

    let results = run_eval(&mut provider, &registry, &fixtures, 2);

    assert_eq!(results.len(), 1);
    assert_eq!(results[0].passed, 2);
    assert_eq!(results[0].runs, 2);
}

#[test]
fn run_eval_counts_failures_in_the_rate() {
    let fixtures = vec![EvalCase {
        name: "f".into(),
        prompt: "p".into(),
        expectation: Expectation::Completes,
    }];
    let mut provider = MockProvider::new([r#"{"kind":"final","content":"a"}"#]);
    let registry = ToolRegistry::<Echo>::new();

    let results = run_eval(&mut provider, &registry, &fixtures, 2);

    assert_eq!(results[0].passed, 1);
    assert_eq!(results[0].runs, 2);
}

#[test]
fn run_eval_gives_one_result_per_case_in_order() {
    let mut provider = MockProvider::new([
        r#"{"kind":"final","content":"hello"}"#,
        r#"{"kind":"tool_call","tool_name":"echo","arguments":{"text":"x"}}"#,
        r#"{"kind":"final","content":"noted"}"#,
        r#"{"kind":"final","content":"it is 7"}"#,
    ]);
    let mut registry = ToolRegistry::new();
    registry.register(Echo).expect("register");
    let results = run_eval(&mut provider, &registry, &default_fixtures(), 1);
    assert_eq!(
        results,
        vec![
            FixtureResult {
                name: "say-hi".into(),
                label: "completes".into(),
                passed: 1,
                runs: 1,
            },
            FixtureResult {
                name: "append-note".into(),
                label: "calls session_note_append".into(),
                passed: 0,
                runs: 1,
            },
            FixtureResult {
                name: "add-numbers".into(),
                label: "final contains \"7\"".into(),
                passed: 1,
                runs: 1,
            },
        ]
    );
    assert_eq!(
        scorecard(&results, 1),
        vec![
            "abcb eval: 1 runs each".to_string(),
            "  say-hi         1/1  completes".to_string(),
            "  append-note    0/1  calls session_note_append".to_string(),
            "  add-numbers    1/1  final contains \"7\"".to_string(),
            "overall: 2/3".to_string(),
        ]
    );
    assert_eq!(
        scorecard(&vec![], 5),
        vec!["abcb eval: 5 runs each".to_string(), "overall: 0/0".to_string()]
    );
}

#[test]
fn eval_trial_summarizes_what_the_run_did() {
    let mut registry = ToolRegistry::new();
    registry.register(Echo).expect("register");
    let mut provider = MockProvider::new([
        "nonsense",
        r#"{"kind":"tool_call","tool_name":"echo","arguments":{"text":"x"}}"#,
        r#"{"kind":"final","content":"done"}"#,
        "left over",
    ]);
    let (outcome, summary) = eval_trial(&mut provider, &registry, "go");
    assert_eq!(outcome, Ok("done".to_string()));
    assert_eq!(
        summary,
        RunSummary {
            status: RunStatus::Completed,
            steps: 3,
            tools_called: vec!["echo".into()],
            tools_denied: vec![],
            endpoint: "eval".into(),
        }
    );
    let (outcome, summary) = eval_trial(&mut MockProvider::new(["?"; 9]), &registry, "go");
    assert_eq!(outcome, Err(LoopError::MaxStepsExceeded { max_steps: 5 }));
    assert_eq!(summary.steps, 5);
    assert_eq!(summary.status, RunStatus::MaxStepsExceeded);
}

#[test]
fn seed_session_puts_the_prompt_before_the_user() {
    let registry = ToolRegistry::<Echo>::new();
    let session = seed_session(&registry, "hi");
    assert_eq!(session.messages.len(), 2);
    assert_eq!(session.messages[0].role, Role::System);
    assert_eq!(session.messages[0].content, system_prompt(&registry));
    assert_eq!(session.messages[1].role, Role::User);
    assert_eq!(session.messages[1].content, "hi");
    assert_eq!(session.id, format!("sess-{}", session.created_at));
}

#[test]
fn labels_show_the_expected_text_in_quotes() {
    let quoted = Expectation::FinalContains { text: "a\"b\n".into() };
    assert_eq!(quoted.label(), "final contains \"a\\\"b\\n\"");
}

#[test]
fn errors_of_tools_end_a_run_only_where_the_model_cannot_mend_them() {
    struct Broken;
    impl abcb::tool::Tool for Broken {
        fn name(&self) -> &str {
            "broken"
        }
        fn description(&self) -> &str {
            "Fails."
        }
        fn invoke(&self, args: &Data) -> Result<String, ToolError> {
            if args.field(0, "io").is_some() {
                Err(ToolError::Io("gone".to_string()))
            } else {
                Err(ToolError::Execution("boom".to_string()))
            }
        }
    }
    let mut registry = ToolRegistry::new();
    registry.register(Broken).expect("register");
    let mut provider = MockProvider::new([
        r#"{"kind":"tool_call","tool_name":"broken","arguments":{}}"#,
        r#"{"kind":"tool_call","tool_name":"broken","arguments":{"io":1}}"#,
        r#"{"kind":"final","content":"never"}"#,
    ]);
    let (outcome, summary) = eval_trial(&mut provider, &registry, "go");
    assert_eq!(outcome, Err(LoopError::Tool(ToolError::Io("gone".to_string()))));
    assert_eq!(summary.status, RunStatus::Failed);
    assert_eq!(summary.steps, 2);
    assert_eq!(summary.tools_called, Vec::<String>::new());
}

#[test]
fn the_summary_of_a_log_adds_up_from_its_parts() {
    let record = |event: Event| LoggedEvent { at: 0, event };
    let first = vec![
        record(Event::ModelResponse { content: "a".into() }),
        record(Event::ToolResult { tool_name: "x".into(), output: "o".into() }),
    ];
    let second = vec![
        record(Event::ModelResponse { content: "b".into() }),
        record(Event::ToolDenied { tool_name: "y".into() }),
        record(Event::ToolResult { tool_name: "z".into(), output: "o".into() }),
    ];
    let whole: Vec<LoggedEvent> = first.iter().chain(second.iter()).cloned().collect();
    let summary = |events: &[LoggedEvent]| {
        RunSummary::from_run(events, &Ok("done".into()), "e".into())
    };
    let (a, b, all) = (summary(&first), summary(&second), summary(&whole));
    assert_eq!(all.steps, a.steps + b.steps);
    assert_eq!(all.tools_called, [a.tools_called, b.tools_called].concat());
    assert_eq!(all.tools_denied, [a.tools_denied, b.tools_denied].concat());
}

#[test]
fn a_trial_with_a_script_at_its_end_fails_without_a_step() {
    let registry = ToolRegistry::<Echo>::new();
    let mut provider = MockProvider::new([r#"{"kind":"final","content":"a"}"#]);
    let (outcome, summary) = eval_trial(&mut provider, &registry, "go");
    assert_eq!(outcome, Ok("a".to_string()));
    assert_eq!(summary.steps, 1);
    assert_eq!(summary.tools_called, Vec::<String>::new());
    let (outcome, summary) = eval_trial(&mut provider, &registry, "go");
    assert_eq!(outcome, Err(LoopError::Provider(ProviderError::NoMoreResponses)));
    assert_eq!(summary.steps, 0);
    assert_eq!(summary.status, RunStatus::Failed);
}

#[test]
fn cases_take_a_response_for_each_run_in_turn() {
    let case = |name: &str, expectation: Expectation| EvalCase {
        name: name.into(),
        prompt: "p".into(),
        expectation,
    };
    let fixtures = vec![
        case("one", Expectation::FinalContains { text: "7".into() }),
        case("two", Expectation::Completes),
        case("three", Expectation::CallsTool { name: "echo".into() }),
    ];
    let mut provider = MockProvider::new([
        r#"{"kind":"final","content":"7"}"#,
        r#"{"kind":"final","content":"8"}"#,
        r#"{"kind":"final","content":"17"}"#,
    ]);
    let registry = ToolRegistry::<Echo>::new();
    let results = run_eval(&mut provider, &registry, &fixtures, 2);
    let passed: Vec<usize> = results.iter().map(|result| result.passed).collect();
    assert_eq!(passed, vec![1, 1, 0]);
}

/// A provider that notes each session that it is asked about.
struct Noting {
    asked: Vec<Vec<(Role, String)>>,
    replies: Vec<Result<String, String>>,
}

impl Provider for Noting {
    fn complete(&mut self, session: &Session) -> Result<Message, ProviderError> {
        let seen = session.messages.iter().map(|m| (m.role.clone(), m.content.clone())).collect();
        self.asked.push(seen);
        match self.replies.remove(0) {
            Ok(content) => Ok(Message::new(Role::Assistant, &content)),
            Err(e) => Err(ProviderError::Backend(e)),
        }
    }
}

#[test]
fn a_trial_asks_the_provider_about_a_session_that_grows() {
    let mut registry = ToolRegistry::new();
    registry.register(Echo).expect("register");
    let call = r#"{"kind":"tool_call","tool_name":"echo","arguments":{"text":"x"}}"#;
    let mut provider = Noting {
        asked: vec![],
        replies: vec![Ok(call.to_string()), Ok("??".to_string()), Err("gone".to_string())],
    };
    let (outcome, summary) = eval_trial(&mut provider, &registry, "go");
    assert_eq!(
        outcome,
        Err(LoopError::Provider(ProviderError::Backend("gone".to_string())))
    );
    assert_eq!(summary.steps, 2);
    assert_eq!(provider.asked.len(), 3);
    assert_eq!(
        provider.asked[0],
        vec![
            (Role::System, system_prompt(&registry)),
            (Role::User, "go".to_string()),
        ]
    );
    assert_eq!(
        provider.asked[1][2..],
        [(Role::Assistant, call.to_string()), (Role::Tool, "x".to_string())]
    );
    assert!(provider.asked[2].starts_with(&provider.asked[1]));
    assert!(provider.asked[2][4..]
        .iter()
        .all(|(role, _)| *role == Role::Assistant || *role == Role::Tool));
}
