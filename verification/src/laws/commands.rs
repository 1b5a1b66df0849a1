//! What the commands say and go by, spelled out.
use vstd::prelude::*;

use crate::agent::LoopErrorView;
use crate::cli::{
    chat_endpoint, chat_events, doctor_lines, doctor_probe, health_lines, mock_chat, mock_run, opening_lines, replay,
    run_plan, stops, then_summary, EndpointView, RunPlanView,
};
use crate::config::{
    ConfigView, DEFAULT_EVAL_RUNS, DEFAULT_MAX_STEPS, DEFAULT_MEMORY_DIR, NOTES_PATH,
};
use crate::eval::{
    contains_label, evaluates, expectation_label, fixtures, meets, result_line, scorecard_lines, seeded,
    tallies, total_passed, total_runs, tries, EvalCaseView, ExpectationView, FixtureResult,
};
use crate::event::{lost, recorded, EventLogErrorView, EventSink, EventView, LoggedView};
use crate::message::{MessageView, Role, SessionView};
use crate::models::HealthView;
use crate::provider::{Provider, ProviderErrorView};
use crate::summary::{
    called_tools, denied_tools, events_of, summary_line, summary_of, RunStatus, RunSummaryView,
};
use crate::text::{decimal, joined, padded};
use crate::tool::{prompt, Tool};

verus! {

/// What the settings are where nothing is configured.
pub proof fn lemma_defaults()
    ensures
        NOTES_PATH@ == ".abcb/notes.jsonl"@,
        DEFAULT_MEMORY_DIR@ == ".abcb/sessions"@,
        DEFAULT_MAX_STEPS == 5,
        DEFAULT_EVAL_RUNS == 5,
{
}

/// A setting that is made counts, and nothing else does; one that is not made is
/// the default, whatever else is configured.
pub proof fn lemma_settings(config: ConfigView)
    ensures
        config.max_steps() == if config.agent is Some && config.agent->Some_0.max_steps is Some {
            config.agent->Some_0.max_steps->Some_0
        } else {
            5
        },
        config.memory_dir() == if config.memory is Some && config.memory->Some_0.dir is Some {
            config.memory->Some_0.dir->Some_0
        } else {
            ".abcb/sessions"@
        },
        config.project_name() == if config.project is Some {
            config.project->Some_0.name
        } else {
            None
        },
        config.endpoint() == if config.model is Some {
            config.model->Some_0.base_url + " ("@ + config.model->Some_0.model + ")"@
        } else {
            "unknown"@
        },
{
}

/// With the mock no endpoint is asked, and no configuration is needed. Without
/// it the configured endpoint is asked, and a command that finds none is told
/// what is missing.
pub proof fn lemma_endpoint(mock: bool, config: Option<ConfigView>)
    ensures
        mock ==> chat_endpoint(mock, config) == Ok::<Option<EndpointView>, Seq<char>>(None),
        !mock ==> match config {
            None => chat_endpoint(mock, config) == Err::<Option<EndpointView>, Seq<char>>(
                "no abcb.toml found; add a [model] section or pass --mock"@,
            ),
            Some(ConfigView { model: None, .. }) => chat_endpoint(mock, config) == Err::<
                Option<EndpointView>,
                Seq<char>,
            >("abcb.toml has no [model] section; add one or pass --mock"@),
            Some(ConfigView { model: Some(section), .. }) => chat_endpoint(mock, config) == Ok::<
                Option<EndpointView>,
                Seq<char>,
            >(Some(EndpointView { base_url: section.base_url, model: section.model })),
        },
{
}

/// A run with the mock goes by the defaults; a run without it goes by the
/// configuration, and there has to be one.
pub proof fn lemma_run_plan(mock: bool, config: Option<ConfigView>)
    ensures
        mock ==> run_plan(mock, config) == Ok::<RunPlanView, Seq<char>>(
            RunPlanView { memory_dir: ".abcb/sessions"@, max_steps: 5, endpoint: "mock"@ },
        ),
        !mock && config is None ==> run_plan(mock, config) == Err::<RunPlanView, Seq<char>>(
            "no abcb.toml found; add a [model] section or pass --mock"@,
        ),
        !mock && config is Some ==> run_plan(mock, config) is Ok && run_plan(mock, config)->Ok_0
            == (RunPlanView {
            memory_dir: config->Some_0.memory_dir(),
            max_steps: config->Some_0.max_steps(),
            endpoint: config->Some_0.endpoint(),
        }),
{
}

/// A chat logs what the user said, what the model replied, and the reply again
/// as the final answer, in this order.
pub proof fn lemma_chat_events(message: Seq<char>, reply: Seq<char>)
    ensures
        chat_events(message, reply).len() == 3,
        chat_events(message, reply)[0] == (EventView::UserMessage { content: message }),
        chat_events(message, reply)[1] == (EventView::ModelResponse { content: reply }),
        chat_events(message, reply)[2] == (EventView::FinalAnswer { content: reply }),
{
}

/// A log that stops at an event holds the events before it.
pub proof fn lemma_stops<W: EventSink>(
    before: W,
    events: Seq<EventView>,
    error: EventLogErrorView,
    after: W,
) -> (at: (int, W))
    requires
        stops(before, events, error, after),
    ensures
        0 <= at.0 < events.len(),
        recorded(before, events.take(at.0), at.1),
        lost(at.1, events[at.0], error, after),
{
    choose|k: int, between: W|
        0 <= k < events.len() && recorded(before, events.take(k), between) && #[trigger] lost(
            between,
            events[k],
            error,
            after,
        )
}

/// A replay shows one line for each event, in order, numbered from one: the kind
/// of the event and what it holds.
pub proof fn lemma_replay(events: Seq<EventView>, i: int)
    requires
        0 <= i < events.len(),
    ensures
        replay(events).len() == events.len(),
        replay(events)[i] == "["@ + decimal((i + 1) as nat) + "] "@ + (match events[i] {
            EventView::UserMessage { .. } => "user_message"@,
            EventView::ModelResponse { .. } => "model_response"@,
            EventView::ToolResult { .. } => "tool_result"@,
            EventView::ToolDenied { .. } => "tool_denied"@,
            EventView::FinalAnswer { .. } => "final_answer"@,
        }) + ": "@ + (match events[i] {
            EventView::UserMessage { content } => content,
            EventView::ModelResponse { content } => content,
            EventView::ToolResult { tool_name, output } => tool_name + ": "@ + output,
            EventView::ToolDenied { tool_name } => tool_name,
            EventView::FinalAnswer { content } => content,
        }),
{
}

/// The doctor says that the workspace is fine, whether there is a configuration,
/// which project and which model it names, and asks for the health of the
/// endpoint exactly where the configuration says where.
pub proof fn lemma_doctor(config: Option<ConfigView>)
    ensures
        opening_lines() == seq!["abcb doctor"@, "workspace: ok"@],
        config is None ==> doctor_lines(config) == seq![
            "config: abcb.toml not found (ok for now)"@,
        ] && doctor_probe(config) is None,
        config is Some ==> {
            let found = config->Some_0;
            let lines = doctor_lines(config);
            let named = if found.project is Some && found.project->Some_0.name is Some {
                1int
            } else {
                0int
            };
            &&& lines[0] == "config: found abcb.toml"@
            &&& named == 1 ==> lines[1] == "project: "@ + found.project->Some_0.name->Some_0
            &&& found.model is None ==> lines.len() == named + 2 && lines[named + 1]
                == "model: no [model] section configured"@ && doctor_probe(config) is None
            &&& found.model is Some ==> lines[named + 1] == "model: "@
                + found.model->Some_0.model + " @ "@ + found.model->Some_0.base_url
                && doctor_probe(config) == found.model->Some_0.health_url
            &&& found.model is Some && found.model->Some_0.health_url is Some ==> lines.len()
                == named + 2
            &&& found.model is Some && found.model->Some_0.health_url is None ==> lines.len()
                == named + 3 && lines[named + 2]
                == "mlx: no health_url configured (skipping health check)"@
        },
{
}

/// The doctor says what an endpoint reported of its health, or that it could not
/// be reached and why.
pub proof fn lemma_health_report(url: Seq<char>, probed: Result<HealthView, ProviderErrorView>)
    ensures
        match probed {
            Ok(report) => health_lines(url, probed) == seq![
                "mlx: "@ + report.status + " ("@ + url + ")"@,
                if report.loaded_model is Some {
                    "mlx model: "@ + report.loaded_model->Some_0
                } else {
                    "mlx model: (none reported)"@
                },
            ],
            Err(ProviderErrorView::Backend(message)) => health_lines(url, probed) == seq![
                "mlx: unreachable ("@ + ("provider backend error: "@ + message) + ")"@,
            ],
            Err(ProviderErrorView::NoMoreResponses) => health_lines(url, probed) == seq![
                "mlx: unreachable ("@ + "no more scripted responses"@ + ")"@,
            ],
        },
{
    if let Ok(report) = probed {
        assert(health_lines(url, probed) =~= seq![
            "mlx: "@ + report.status + " ("@ + url + ")"@,
            if report.loaded_model is Some {
                "mlx model: "@ + report.loaded_model->Some_0
            } else {
                "mlx model: (none reported)"@
            },
        ]);
    }
}

// ---------------------------------------------------------------------------
// Summaries
// ---------------------------------------------------------------------------
/// What one event adds to the summary of a log: a reply of the model is a step,
/// the result of a tool names a tool that was called, and a denial one that was
/// denied. No event adds anything else.
pub proof fn lemma_summary_of_event(
    event: EventView,
    outcome: Result<Seq<char>, LoopErrorView>,
    endpoint: Seq<char>,
)
    ensures
        ({
            let summary = summary_of(seq![event], outcome, endpoint);
            &&& summary.steps == if event is ModelResponse {
                1nat
            } else {
                0nat
            }
            &&& summary.tools_called == match event {
                EventView::ToolResult { tool_name, .. } => seq![tool_name],
                _ => Seq::empty(),
            }
            &&& summary.tools_denied == match event {
                EventView::ToolDenied { tool_name } => seq![tool_name],
                _ => Seq::empty(),
            }
            &&& summary.endpoint == endpoint
            &&& summary.status == match outcome {
                Ok(_) => RunStatus::Completed,
                Err(LoopErrorView::MaxStepsExceeded { .. }) => RunStatus::MaxStepsExceeded,
                Err(_) => RunStatus::Failed,
            }
        }),
        ({
            let nothing = summary_of(Seq::empty(), outcome, endpoint);
            nothing.steps == 0 && nothing.tools_called.len() == 0 && nothing.tools_denied.len()
                == 0
        }),
{
    let one = seq![event];
    assert(one.drop_last() =~= Seq::empty());
    reveal_with_fuel(crate::laws::tally, 2);
    reveal_with_fuel(called_tools, 2);
    reveal_with_fuel(denied_tools, 2);
    assert(called_tools(one) =~= match event {
        EventView::ToolResult { tool_name, .. } => seq![tool_name],
        _ => Seq::empty(),
    });
    assert(denied_tools(one) =~= match event {
        EventView::ToolDenied { tool_name } => seq![tool_name],
        _ => Seq::empty(),
    });
}

/// How a run ended does not depend on what it logged, and where it was asked
/// stands in its summary as it is.
pub proof fn lemma_summary_ends(
    events: Seq<EventView>,
    outcome: Result<Seq<char>, LoopErrorView>,
    endpoint: Seq<char>,
)
    ensures
        summary_of(events, outcome, endpoint).endpoint == endpoint,
        summary_of(events, outcome, endpoint).status == match outcome {
            Ok(_) => RunStatus::Completed,
            Err(LoopErrorView::MaxStepsExceeded { .. }) => RunStatus::MaxStepsExceeded,
            Err(_) => RunStatus::Failed,
        },
{
}

/// A summary on one line: how the run ended, its steps, the tools, the tools that
/// were denied, and the endpoint.
pub proof fn lemma_summary_line(s: RunSummaryView)
    ensures
        summary_line(s) == "run summary: status: "@ + (match s.status {
            RunStatus::Completed => "completed"@,
            RunStatus::MaxStepsExceeded => "max steps exceeded"@,
            RunStatus::Failed => "failed"@,
        }) + ", steps: "@ + decimal(s.steps) + ", tools: "@ + ("["@ + joined(
            s.tools_called,
            ", "@,
        ) + "]"@) + ", denied: "@ + ("["@ + joined(s.tools_denied, ", "@) + "]"@)
            + ", endpoint: "@ + s.endpoint,
{
}

/// The summary of a log that was read is the summary of its events, in order; a
/// log that could not be read has none.
pub proof fn lemma_summary_of_log(
    records: Seq<LoggedView>,
    outcome: Result<Seq<char>, LoopErrorView>,
    endpoint: Seq<char>,
    error: EventLogErrorView,
)
    ensures
        then_summary(Ok(records), outcome, endpoint) == Ok::<RunSummaryView, EventLogErrorView>(
            summary_of(Seq::new(records.len(), |i: int| records[i].event), outcome, endpoint),
        ),
        then_summary(Err(error), outcome, endpoint) == Err::<RunSummaryView, EventLogErrorView>(
            error,
        ),
{
    assert(events_of(records) =~= Seq::new(records.len(), |i: int| records[i].event));
}

// ---------------------------------------------------------------------------
// Evaluations
// ---------------------------------------------------------------------------
/// What is said of an expectation.
pub proof fn lemma_labels(e: ExpectationView)
    ensures
        expectation_label(e) == match e {
            ExpectationView::Completes => "completes"@,
            ExpectationView::CallsTool { name } => "calls "@ + name,
            ExpectationView::FinalContains { text } => "final contains "@
                + crate::external::debug_form(text),
        },
        forall|shown: Seq<char>| #[trigger] contains_label(shown) == "final contains "@ + shown,
{
}

/// A run starts from a fresh session: the prompt of the tools as said by the
/// system, and behind it the message of the user.
pub proof fn lemma_seeded<T: Tool>(created_at: u64, tools: Seq<T>, user_message: Seq<char>)
    ensures
        seeded(created_at, tools, user_message) == (SessionView {
            id: crate::message::session_id(created_at),
            created_at,
            messages: seq![
                MessageView { role: Role::System, content: prompt(tools) },
                MessageView { role: Role::User, content: user_message },
            ],
        }),
{
    assert(seeded(created_at, tools, user_message).messages =~= seq![
        MessageView { role: Role::System, content: prompt(tools) },
        MessageView { role: Role::User, content: user_message },
    ]);
}

/// One more run of a case is one more trial with its prompt, where the runs
/// before it left the provider. It adds one to those that came out well exactly
/// where it is as expected, and no case comes out well without a run.
pub proof fn lemma_one_more_run<V: Provider, T: Tool>(
    tools: Seq<T>,
    provider: V,
    case: EvalCaseView,
    runs: nat,
    passed: nat,
    next: V,
) -> (last: (V, Result<Seq<char>, LoopErrorView>, RunSummaryView, nat))
    requires
        tallies(tools, provider, case, runs, passed, next),
    ensures
        runs == 0 ==> passed == 0 && next == provider,
        runs > 0 ==> {
            &&& tallies(tools, provider, case, (runs - 1) as nat, last.3, last.0)
            &&& tries(tools, last.0, case.prompt, last.1, last.2, next)
            &&& passed == last.3 + if meets(case.expectation, last.1, last.2) {
                1nat
            } else {
                0nat
            }
        },
{
    if runs == 0 {
        arbitrary()
    } else {
        let (between, outcome, summary) = choose|
            between: V,
            outcome: Result<Seq<char>, LoopErrorView>,
            summary: RunSummaryView,
        |
            {
                &&& #[trigger] tries(tools, between, case.prompt, outcome, summary, next)
                &&& if meets(case.expectation, outcome, summary) {
                    passed > 0 && tallies(
                        tools,
                        provider,
                        case,
                        (runs - 1) as nat,
                        (passed - 1) as nat,
                        between,
                    )
                } else {
                    tallies(tools, provider, case, (runs - 1) as nat, passed, between)
                }
            };
        let before = if meets(case.expectation, outcome, summary) {
            (passed - 1) as nat
        } else {
            passed
        };
        (between, outcome, summary, before)
    }
}

/// One more case of an evaluation is run behind the others, where they left the
/// provider, and its result stands behind theirs.
pub proof fn lemma_one_more_case<V: Provider, T: Tool>(
    tools: Seq<T>,
    provider: V,
    cases: Seq<EvalCaseView>,
    runs: nat,
    results: Seq<FixtureResult>,
    next: V,
) -> (between: V)
    requires
        evaluates(tools, provider, cases, runs, results, next),
    ensures
        results.len() == cases.len(),
        cases.len() == 0 ==> next == provider,
        cases.len() > 0 ==> {
            let last = results[results.len() - 1];
            let case = cases[cases.len() - 1];
            &&& evaluates(
                tools,
                provider,
                cases.drop_last(),
                runs,
                results.drop_last(),
                between,
            )
            &&& tallies(tools, between, case, runs, last.passed as nat, next)
            &&& last.name@ == case.name
            &&& last.label@ == expectation_label(case.expectation)
            &&& last.runs == runs
        },
{
    if cases.len() == 0 {
        provider
    } else {
        choose|between: V|
            {
                &&& evaluates(
                    tools,
                    provider,
                    cases.drop_last(),
                    runs,
                    results.drop_last(),
                    between,
                )
                &&& #[trigger] tallies(
                    tools,
                    between,
                    cases.last(),
                    runs,
                    results.last().passed as nat,
                    next,
                )
            }
    }
}

/// The totals of results are those of two parts of them together, and those of
/// one result are its own.
pub proof fn lemma_totals(first: Seq<FixtureResult>, second: Seq<FixtureResult>, one: FixtureResult)
    ensures
        total_passed(first + second) == total_passed(first) + total_passed(second),
        total_runs(first + second) == total_runs(first) + total_runs(second),
        total_passed(seq![one]) == one.passed,
        total_runs(seq![one]) == one.runs,
        total_passed(Seq::empty()) == 0,
        total_runs(Seq::empty()) == 0,
    decreases second.len(),
{
    let single = seq![one];
    assert(single.drop_last() =~= Seq::empty());
    reveal_with_fuel(total_passed, 2);
    reveal_with_fuel(total_runs, 2);
    if second.len() == 0 {
        assert(first + second =~= first);
    } else {
        assert((first + second).drop_last() =~= first + second.drop_last());
        lemma_totals(first, second.drop_last(), one);
    }
}

/// A scorecard has a line that says how often each case was run, one line for
/// each result, in order, and a line with the totals. The line of a result has
/// the name in a column of its own, how often the case came out well and was
/// run, and what was expected.
pub proof fn lemma_scorecard(results: Seq<FixtureResult>, runs: usize)
    ensures
        scorecard_lines(results, runs).len() == results.len() + 2,
        scorecard_lines(results, runs)[0] == "abcb eval: "@ + decimal(runs as nat) + " runs each"@,
        forall|i: int|
            0 <= i < results.len() ==> scorecard_lines(results, runs)[i + 1] == "  "@ + padded(
                (#[trigger] results[i]).name@,
                14,
            ) + " "@ + decimal(results[i].passed as nat) + "/"@ + decimal(results[i].runs as nat)
                + "  "@ + results[i].label@,
        scorecard_lines(results, runs)[results.len() as int + 1] == "overall: "@ + decimal(
            total_passed(results),
        ) + "/"@ + decimal(total_runs(results)),
{
    let shown = results.map_values(|result: FixtureResult| result_line(result));
    assert forall|i: int| 0 <= i < results.len() implies scorecard_lines(results, runs)[i + 1]
        == "  "@ + padded((#[trigger] results[i]).name@, 14) + " "@ + decimal(
        results[i].passed as nat,
    ) + "/"@ + decimal(results[i].runs as nat) + "  "@ + results[i].label@ by {
        assert(scorecard_lines(results, runs)[i + 1] == shown[i]);
    }
}

/// The built-in cases ask for a greeting, for a note, and for a sum: each with
/// what a good run of it does.
pub proof fn lemma_fixtures()
    ensures
        fixtures().len() == 3,
        fixtures()[0].name == "say-hi"@,
        fixtures()[0].prompt == "Say hi in one short sentence."@,
        fixtures()[0].expectation is Completes,
        fixtures()[1].name == "append-note"@,
        fixtures()[1].prompt == "Use a tool to remember this note: buy milk."@,
        fixtures()[1].expectation == (ExpectationView::CallsTool { name: "session_note_append"@ }),
        fixtures()[2].name == "add-numbers"@,
        fixtures()[2].prompt == "What is 3 plus 4? Use a tool, then give the number."@,
        fixtures()[2].expectation == (ExpectationView::FinalContains { text: "7"@ }),
{
}

/// The mock says back what it was told, in a chat as it is, and in a run as a
/// final answer.
pub proof fn lemma_mock_says_back(message: Seq<char>)
    ensures
        mock_chat(message) == "mock: you said "@ + message,
        mock_run(message) == "{\"kind\":\"final\",\"content\":\"mock run: you said "@ + message
            + "\"}"@,
{
}

} // verus!
