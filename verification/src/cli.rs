//! What the commands say, and what they do with what they are given.
use vstd::prelude::*;

use crate::agent::{answer_view, LoopError, LoopErrorView};
use crate::config::{
    build_provider, endpoint_label, no_config, no_model, required_config, Config, ConfigView, ModelConfigView,
    DEFAULT_MAX_STEPS, DEFAULT_MEMORY_DIR,
};
use crate::event::{
    event_kind, lemma_recorded_both, log_of, log_text, logged_view, lost, read_events, recorded,
    write_event, Event, EventLogError, EventLogErrorView, EventSink, EventView, LoggedEvent,
    LoggedView,
};
use crate::models::{health_result, HealthReport, HealthView, OpenAiCompatProvider};
use crate::provider::{optional, ProviderError, ProviderErrorView};
use crate::summary::{events_of, summary_of, RunSummary, RunSummaryView};
use crate::text::{decimal, decimal_text, lines, texts};
use crate::tools::filesystem::{join_path, path_under};

verus! {

/// Where what a session leaves is kept: `<root>/<session-id>`.
pub fn session_dir(root: &str, session_id: &str) -> (r: String)
    ensures
        r@ == path_under(root@, session_id@),
{
    join_path(root, session_id)
}

// ---------------------------------------------------------------------------
// What a command runs against
// ---------------------------------------------------------------------------
/// What a provider is asked with.
pub struct EndpointView {
    pub base_url: Seq<char>,
    pub model: Seq<char>,
}

/// The endpoint of a provider.
pub open spec fn endpoint_of(provider: OpenAiCompatProvider) -> EndpointView {
    EndpointView { base_url: provider.base_url@, model: provider.model@ }
}

/// The configured endpoint, or what a command is told that needs one.
pub open spec fn configured(config: ConfigView) -> Result<EndpointView, Seq<char>> {
    match config.model {
        Some(section) => Ok(EndpointView { base_url: section.base_url, model: section.model }),
        None => Err(no_model()),
    }
}

/// What the command `chat` asks for its reply: nothing but itself with the
/// mock, and else the configured endpoint.
pub open spec fn chat_endpoint(mock: bool, config: Option<ConfigView>) -> Result<
    Option<EndpointView>,
    Seq<char>,
> {
    if mock {
        Ok(None)
    } else {
        match config {
            None => Err(no_config()),
            Some(config) => match configured(config) {
                Ok(endpoint) => Ok(Some(endpoint)),
                Err(message) => Err(message),
            },
        }
    }
}

/// An endpoint, none, or a message that was found.
pub open spec fn endpoint_result(r: Result<Option<OpenAiCompatProvider>, String>) -> Result<
    Option<EndpointView>,
    Seq<char>,
> {
    match r {
        Ok(Some(provider)) => Ok(Some(endpoint_of(provider))),
        Ok(None) => Ok(None),
        Err(message) => Err(message@),
    }
}

/// The provider that a command asks: none with the mock, and else the one that
/// is configured.
pub fn choose_provider(mock: bool, config: Option<&Config>) -> (r: Result<
    Option<OpenAiCompatProvider>,
    String,
>)
    ensures
        endpoint_result(r) == chat_endpoint(mock, loaded_view(config)),
{
    if mock {
        return Ok(None);
    }
    match required_config(config) {
        Err(message) => Err(message),
        Ok(config) => match build_provider(config) {
            Ok(provider) => Ok(Some(provider)),
            Err(message) => Err(message),
        },
    }
}

/// How the command `run` goes about a run.
pub struct RunPlan {
    /// Where sessions are kept.
    pub memory_dir: String,
    /// How many steps the run may take.
    pub max_steps: usize,
    /// How the summary names the endpoint.
    pub endpoint: String,
}

/// What a [`RunPlan`] says.
pub struct RunPlanView {
    pub memory_dir: Seq<char>,
    pub max_steps: usize,
    pub endpoint: Seq<char>,
}

impl View for RunPlan {
    type V = RunPlanView;

    open spec fn view(&self) -> RunPlanView {
        RunPlanView {
            memory_dir: self.memory_dir@,
            max_steps: self.max_steps,
            endpoint: self.endpoint@,
        }
    }
}

/// How a run goes: with the mock by the defaults, and else as configured.
pub open spec fn run_plan(mock: bool, config: Option<ConfigView>) -> Result<
    RunPlanView,
    Seq<char>,
> {
    if mock {
        Ok(
            RunPlanView {
                memory_dir: DEFAULT_MEMORY_DIR@,
                max_steps: DEFAULT_MAX_STEPS,
                endpoint: "mock"@,
            },
        )
    } else {
        match config {
            None => Err(no_config()),
            Some(config) => Ok(
                RunPlanView {
                    memory_dir: config.memory_dir(),
                    max_steps: config.max_steps(),
                    endpoint: config.endpoint(),
                },
            ),
        }
    }
}

/// How a run goes: with the mock by the defaults, and else as configured.
pub fn plan_run(mock: bool, config: Option<&Config>) -> (r: Result<RunPlan, String>)
    ensures
        match r {
            Ok(plan) => run_plan(mock, loaded_view(config)) == Ok::<RunPlanView, Seq<char>>(plan@),
            Err(message) => run_plan(mock, loaded_view(config)) == Err::<RunPlanView, Seq<char>>(
                message@,
            ),
        },
{
    if mock {
        return Ok(
            RunPlan {
                memory_dir: DEFAULT_MEMORY_DIR.to_owned(),
                max_steps: DEFAULT_MAX_STEPS,
                endpoint: "mock".to_owned(),
            },
        );
    }
    match required_config(config) {
        Err(message) => Err(message),
        Ok(config) => Ok(
            RunPlan {
                memory_dir: config.memory_dir().to_owned(),
                max_steps: config.max_steps(),
                endpoint: endpoint_label(config),
            },
        ),
    }
}

// ---------------------------------------------------------------------------
// chat
// ---------------------------------------------------------------------------
/// What the mock answers to a message of a chat.
pub open spec fn mock_chat(message: Seq<char>) -> Seq<char> {
    "mock: you said "@ + message
}

/// What the mock answers to the message of a run.
pub open spec fn mock_run(message: Seq<char>) -> Seq<char> {
    "{\"kind\":\"final\",\"content\":\"mock run: you said "@ + message + "\"}"@
}

/// What the mock answers to a message of a chat.
pub fn mock_chat_reply(message: &str) -> (r: String)
    ensures
        r@ == "mock: you said "@ + message@,
        r@ == mock_chat(message@),
{
    let mut reply = "mock: you said ".to_owned();
    reply.append(message);
    reply
}

/// The events of a chat of one turn.
pub open spec fn chat_events(message: Seq<char>, reply: Seq<char>) -> Seq<EventView> {
    seq![
        EventView::UserMessage { content: message },
        EventView::ModelResponse { content: reply },
        EventView::FinalAnswer { content: reply },
    ]
}

/// A sink in the state `before` took a record of the events up to one, failed to
/// take that one, and is in the state `after`.
pub open spec fn stops<W: EventSink>(
    before: W,
    events: Seq<EventView>,
    error: EventLogErrorView,
    after: W,
) -> bool {
    exists|k: int, between: W|
        0 <= k < events.len() && recorded(before, events.take(k), between) && #[trigger] lost(
            between,
            events[k],
            error,
            after,
        )
}

/// Append the events of a chat of one turn to a log. A log that cannot be
/// written ends that at the event that failed.
pub fn log_chat<W: EventSink>(writer: &mut W, message: &str, reply: &str) -> (r: Result<
    (),
    EventLogError,
>)
    ensures
        match r {
            Ok(()) => recorded(*old(writer), chat_events(message@, reply@), *final(writer)),
            Err(e) => stops(*old(writer), chat_events(message@, reply@), e@, *final(writer)),
        },
        old(writer).reliable() ==> r is Ok && final(writer).reliable(),
{
    let ghost start = *writer;
    let ghost all = chat_events(message@, reply@);
    let ghost asked = all[0];
    let ghost answered = all[1];
    let ghost ended = all[2];
    match write_event(writer, &Event::UserMessage { content: message.to_owned() }) {
        Ok(()) => {},
        Err(e) => {
            proof {
                assert(all.take(0) =~= Seq::empty());
                assert(recorded(start, all.take(0), start));
                assert(lost(start, all[0], e@, *writer));
            }
            return Err(e);
        },
    }
    let ghost first = *writer;
    match write_event(writer, &Event::ModelResponse { content: reply.to_owned() }) {
        Ok(()) => {},
        Err(e) => {
            proof {
                assert(all.take(1) =~= seq![asked]);
                assert(lost(first, all[1], e@, *writer));
            }
            return Err(e);
        },
    }
    let ghost second = *writer;
    proof {
        lemma_recorded_both(start, seq![asked], first, seq![answered], second);
        assert(all.take(2) =~= seq![asked] + seq![answered]);
    }
    match write_event(writer, &Event::FinalAnswer { content: reply.to_owned() }) {
        Ok(()) => {},
        Err(e) => {
            proof {
                assert(lost(second, all[2], e@, *writer));
            }
            return Err(e);
        },
    }
    proof {
        lemma_recorded_both(start, all.take(2), second, seq![ended], *writer);
        assert(all.take(2) + seq![ended] =~= all);
    }
    Ok(())
}

// ---------------------------------------------------------------------------
// run
// ---------------------------------------------------------------------------
/// What the mock answers to the message of a run.
pub fn mock_run_reply(message: &str) -> (r: String)
    ensures
        r@ == "{\"kind\":\"final\",\"content\":\"mock run: you said "@ + message@ + "\"}"@,
        r@ == mock_run(message@),
{
    let mut reply = "{\"kind\":\"final\",\"content\":\"mock run: you said ".to_owned();
    reply.append(message);
    reply.append("\"}");
    reply
}

/// A summary, or the error, of a log that was read.
pub open spec fn summary_result(r: Result<RunSummary, EventLogError>) -> Result<
    RunSummaryView,
    EventLogErrorView,
> {
    match r {
        Ok(summary) => Ok(summary@),
        Err(e) => Err(e@),
    }
}

/// The summary of records that were read, or the error of the reading.
pub open spec fn then_summary(
    r: Result<Seq<LoggedView>, EventLogErrorView>,
    outcome: Result<Seq<char>, LoopErrorView>,
    endpoint: Seq<char>,
) -> Result<RunSummaryView, EventLogErrorView> {
    match r {
        Ok(records) => Ok(summary_of(events_of(records), outcome, endpoint)),
        Err(e) => Err(e),
    }
}

/// The summary of a run, read off the text of its log. A log that the run wrote
/// gives the summary of what the run did.
pub fn summarize(log: &str, outcome: &Result<String, LoopError>, endpoint: String) -> (r: Result<
    RunSummary,
    EventLogError,
>)
    ensures
        summary_result(r) == then_summary(
            log_of(lines(log@)),
            answer_view(*outcome),
            endpoint@,
        ),
        forall|records: Seq<LoggedView>| #[trigger]
            log_text(records) == log@ ==> summary_result(r) == Ok::<
                RunSummaryView,
                EventLogErrorView,
            >(summary_of(events_of(records), answer_view(*outcome), endpoint@)),
{
    match read_events(log) {
        Ok(logged) => Ok(RunSummary::from_run(logged.as_slice(), outcome, endpoint)),
        Err(e) => Err(e),
    }
}

// ---------------------------------------------------------------------------
// replay
// ---------------------------------------------------------------------------
/// What the replay of an event shows of it.
pub open spec fn event_content(e: EventView) -> Seq<char> {
    match e {
        EventView::UserMessage { content } => content,
        EventView::ModelResponse { content } => content,
        EventView::ToolResult { tool_name, output } => tool_name + ": "@ + output,
        EventView::ToolDenied { tool_name } => tool_name,
        EventView::FinalAnswer { content } => content,
    }
}

/// The line of the event at a position, counted from one.
pub open spec fn replay_line(i: int, e: EventView) -> Seq<char> {
    "["@ + decimal((i + 1) as nat) + "] "@ + event_kind(e) + ": "@ + event_content(e)
}

/// The lines of the replay of events.
pub open spec fn replay(events: Seq<EventView>) -> Seq<Seq<char>> {
    events.map(|i: int, e: EventView| replay_line(i, e))
}

fn replay_text(index: usize, event: &Event) -> (r: String)
    requires
        index < usize::MAX,
    ensures
        r@ == replay_line(index as int, event@),
{
    let (kind, content) = match event {
        Event::UserMessage { content } => ("user_message", content.clone()),
        Event::ModelResponse { content } => ("model_response", content.clone()),
        Event::ToolResult { tool_name, output } => {
            let mut text = tool_name.clone();
            text.append(": ");
            text.append(output.as_str());
            ("tool_result", text)
        },
        Event::ToolDenied { tool_name } => ("tool_denied", tool_name.clone()),
        Event::FinalAnswer { content } => ("final_answer", content.clone()),
    };
    let number: usize = index + 1;
    let mut line = "[".to_owned();
    line.append(decimal_text(number as u64).as_str());
    line.append("] ");
    line.append(kind);
    line.append(": ");
    line.append(content.as_str());
    line
}

/// The lines of the replay of a log, one for each event.
pub fn replay_lines(events: &[LoggedEvent]) -> (r: Vec<String>)
    ensures
        texts(r@) == replay(events_of(logged_view(events@))),
{
    let ghost all = events_of(logged_view(events@));
    let mut lines: Vec<String> = Vec::new();
    let total: usize = events.len();
    let mut i: usize = 0;
    while i < total
        invariant
            i <= total == events@.len(),
            events@.len() == all.len(),
            all == events_of(logged_view(events@)),
            lines@.len() == i,
            forall|k: int| 0 <= k < i ==> (#[trigger] lines@[k])@ == replay_line(k, all[k]),
        decreases total - i,
    {
        assert(all[i as int] == events@[i as int].event@);
        lines.push(replay_text(i, &events[i].event));
        i = i + 1;
    }
    assert(texts(lines@) =~= replay(all));
    lines
}

// ---------------------------------------------------------------------------
// doctor
// ---------------------------------------------------------------------------
/// What the doctor says before it asks an endpoint for its health, and where
/// it asks, if anywhere.
pub struct DoctorPlan {
    pub lines: Vec<String>,
    pub probe: Option<String>,
}

/// What the doctor says of the model.
pub open spec fn model_lines(model: Option<ModelConfigView>) -> Seq<Seq<char>> {
    match model {
        None => seq!["model: no [model] section configured"@],
        Some(section) => {
            let configured = "model: "@ + section.model + " @ "@ + section.base_url;
            match section.health_url {
                Some(_) => seq![configured],
                None => seq![
                    configured,
                    "mlx: no health_url configured (skipping health check)"@,
                ],
            }
        },
    }
}

/// What the doctor says of the project.
pub open spec fn project_lines(name: Option<Seq<char>>) -> Seq<Seq<char>> {
    match name {
        Some(name) => seq!["project: "@ + name],
        None => Seq::empty(),
    }
}

/// What the doctor says before it looks for a configuration.
pub open spec fn opening_lines() -> Seq<Seq<char>> {
    seq!["abcb doctor"@, "workspace: ok"@]
}

/// What the doctor says before it looks for a configuration.
pub fn open_examination() -> (r: Vec<String>)
    ensures
        texts(r@) == opening_lines(),
{
    let mut lines: Vec<String> = Vec::new();
    lines.push("abcb doctor".to_owned());
    lines.push("workspace: ok".to_owned());
    assert(texts(lines@) =~= opening_lines());
    lines
}

/// What the doctor says of a configuration, or of there being none.
pub open spec fn doctor_lines(config: Option<ConfigView>) -> Seq<Seq<char>> {
    match config {
        None => seq!["config: abcb.toml not found (ok for now)"@],
        Some(config) => seq!["config: found abcb.toml"@] + project_lines(config.project_name())
            + model_lines(config.model),
    }
}

/// Where the doctor asks for the health of an endpoint.
pub open spec fn doctor_probe(config: Option<ConfigView>) -> Option<Seq<char>> {
    match config {
        Some(ConfigView { model: Some(section), .. }) => section.health_url,
        _ => None,
    }
}

/// What a configuration says, where there is one.
pub open spec fn loaded_view(config: Option<&Config>) -> Option<ConfigView> {
    match config {
        Some(config) => Some(config@),
        None => None,
    }
}

/// What the doctor says of a configuration, or of there being none, and where
/// it goes on to ask for the health of the endpoint.
pub fn examine(config: Option<&Config>) -> (r: DoctorPlan)
    ensures
        texts(r.lines@) == doctor_lines(loaded_view(config)),
        optional(r.probe) == doctor_probe(loaded_view(config)),
{
    let mut lines: Vec<String> = Vec::new();
    let config = match config {
        Some(config) => config,
        None => {
            lines.push("config: abcb.toml not found (ok for now)".to_owned());
            assert(texts(lines@) =~= doctor_lines(None));
            return DoctorPlan { lines, probe: None };
        },
    };
    lines.push("config: found abcb.toml".to_owned());
    if let Some(name) = config.project_name() {
        let mut line = "project: ".to_owned();
        line.append(name);
        lines.push(line);
    }
    let mut probe: Option<String> = None;
    match &config.model {
        Some(section) => {
            let mut line = "model: ".to_owned();
            line.append(section.model.as_str());
            line.append(" @ ");
            line.append(section.base_url.as_str());
            lines.push(line);
            match &section.health_url {
                Some(url) => {
                    probe = Some(url.clone());
                },
                None => {
                    lines.push("mlx: no health_url configured (skipping health check)".to_owned());
                },
            }
        },
        None => {
            lines.push("model: no [model] section configured".to_owned());
        },
    }
    assert(texts(lines@) =~= doctor_lines(Some(config@)));
    DoctorPlan { lines, probe }
}

/// What the doctor says of the health at an address. An endpoint that cannot
/// be reached is reported, and no error.
pub open spec fn health_lines(
    url: Seq<char>,
    probed: Result<HealthView, ProviderErrorView>,
) -> Seq<Seq<char>> {
    match probed {
        Ok(report) => seq![
            "mlx: "@ + report.status + " ("@ + url + ")"@,
            match report.loaded_model {
                Some(loaded) => "mlx model: "@ + loaded,
                None => "mlx model: (none reported)"@,
            },
        ],
        Err(e) => seq!["mlx: unreachable ("@ + e.text() + ")"@],
    }
}

/// What the doctor says of the health at an address.
pub fn report_health(url: &str, probed: &Result<HealthReport, ProviderError>) -> (r: Vec<String>)
    ensures
        texts(r@) == health_lines(url@, health_result(*probed)),
{
    let mut lines: Vec<String> = Vec::new();
    match probed {
        Ok(report) => {
            let mut line = "mlx: ".to_owned();
            line.append(report.status.as_str());
            line.append(" (");
            line.append(url);
            line.append(")");
            lines.push(line);
            match &report.loaded_model {
                Some(loaded) => {
                    let mut line = "mlx model: ".to_owned();
                    line.append(loaded.as_str());
                    lines.push(line);
                },
                None => lines.push("mlx model: (none reported)".to_owned()),
            }
        },
        Err(e) => {
            let mut line = "mlx: unreachable (".to_owned();
            line.append(e.to_string().as_str());
            line.append(")");
            lines.push(line);
        },
    }
    assert(texts(lines@) =~= health_lines(url@, health_result(*probed)));
    lines
}

} // verus!
