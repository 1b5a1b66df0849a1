//! What the values of the library stand for, field by field.
use vstd::prelude::*;

use crate::agent::{answer_view, outcome_view, LoopError, LoopErrorView, StepOutcome, StepOutcomeView};
use crate::config::{AgentConfig, Config, MemoryConfig, ModelConfig, ProjectConfig};
use crate::data::{depth_limit, distinct_names, integer, reading, Data, DataView};
use crate::eval::{cases_view, EvalCase, Expectation, ExpectationView};
use crate::event::{logged_view, Event, EventLogError, EventLogErrorView, EventView, LoggedEvent};
use crate::message::{says, Message, MessageView, Role, Session, SessionView};
use crate::models::HealthReport;
use crate::output::{ModelOutput, ModelOutputError, ModelOutputErrorView, ModelOutputView};
use crate::provider::{optional, reply_view, ProviderError, ProviderErrorView};
use crate::summary::RunSummary;
use crate::text::texts;
use crate::tool::{tool_result, Tool, ToolError, ToolErrorView};

verus! {

/// A message stands for its role and its content, and a session for its id, its
/// time of creation and its messages, each in its place.
pub proof fn lemma_session_view(session: Session, i: int)
    requires
        0 <= i < session.messages@.len(),
    ensures
        session@.id == session.id@,
        session@.created_at == session.created_at,
        session@.messages.len() == session.messages@.len(),
        session@.messages[i].role == session.messages@[i].role,
        session@.messages[i].content == session.messages@[i].content@,
{
}

/// An event stands for what it holds, and a record for its event and its time.
pub proof fn lemma_event_view(records: Seq<LoggedEvent>, i: int)
    requires
        0 <= i < records.len(),
    ensures
        logged_view(records).len() == records.len(),
        logged_view(records)[i].at == records[i].at,
        logged_view(records)[i].event == match records[i].event {
            Event::UserMessage { content } => EventView::UserMessage { content: content@ },
            Event::ModelResponse { content } => EventView::ModelResponse { content: content@ },
            Event::ToolResult { tool_name, output } => EventView::ToolResult {
                tool_name: tool_name@,
                output: output@,
            },
            Event::ToolDenied { tool_name } => EventView::ToolDenied { tool_name: tool_name@ },
            Event::FinalAnswer { content } => EventView::FinalAnswer { content: content@ },
        },
{
}

/// A reply of the model stands for what it says.
pub proof fn lemma_output_view(output: ModelOutput)
    ensures
        output@ == match output {
            ModelOutput::ToolCall { tool_name, arguments, note } => ModelOutputView::ToolCall {
                tool_name: tool_name@,
                arguments: arguments@,
                note: if note is Some {
                    Some(note->Some_0@)
                } else {
                    None
                },
            },
            ModelOutput::Final { content } => ModelOutputView::Final { content: content@ },
        },
{
}

/// A value stands for what it holds, item by item and member by member, in order.
pub proof fn lemma_data_view(items: Vec<Data>, members: Vec<(String, Data)>, text: String, n: u64, i: i64)
    ensures
        Data::Null@ == DataView::Null,
        Data::Bool(true)@ == DataView::Bool(true),
        Data::Bool(false)@ == DataView::Bool(false),
        Data::Unsigned(n)@ == DataView::Unsigned(n),
        Data::Negative(i)@ == DataView::Negative(i),
        Data::Other(text)@ == DataView::Other(text@),
        Data::Text(text)@ == DataView::Text(text@),
        Data::Array(items)@ == DataView::Array(Seq::new(items@.len(), |k: int| items@[k]@)),
        Data::Object(members)@ == DataView::Object(
            Seq::new(members@.len(), |k: int| (members@[k].0@, members@[k].1@)),
        ),
{
    assert(Data::Array(items)@->Array_0 =~= Seq::new(items@.len(), |k: int| items@[k]@));
    assert(Data::Object(members)@->Object_0 =~= Seq::new(
        members@.len(),
        |k: int| (members@[k].0@, members@[k].1@),
    ));
}

/// An error stands for what failed and for the words of what lies beneath it.
pub proof fn lemma_error_views(
    provider: ProviderError,
    tool: ToolError,
    log: EventLogError,
    output: ModelOutputError,
    e: LoopError,
)
    ensures
        provider@ == match provider {
            ProviderError::NoMoreResponses => ProviderErrorView::NoMoreResponses,
            ProviderError::Backend(message) => ProviderErrorView::Backend(message@),
        },
        tool@ == match tool {
            ToolError::InvalidArguments(message) => ToolErrorView::InvalidArguments(message@),
            ToolError::Execution(message) => ToolErrorView::Execution(message@),
            ToolError::Io(message) => ToolErrorView::Io(message@),
        },
        log@ == match log {
            EventLogError::Io(message) => EventLogErrorView::Io(message@),
            EventLogError::Serde(message) => EventLogErrorView::Serde(message@),
        },
        output@ == match output {
            ModelOutputError::Parse(message) => ModelOutputErrorView::Parse(message@),
        },
        e@ == match e {
            LoopError::Provider(cause) => LoopErrorView::Provider(cause@),
            LoopError::Parse(cause) => LoopErrorView::Parse(cause@),
            LoopError::UnknownTool(name) => LoopErrorView::UnknownTool(name@),
            LoopError::Tool(cause) => LoopErrorView::Tool(cause@),
            LoopError::EventLog(cause) => LoopErrorView::EventLog(cause@),
            LoopError::MaxStepsExceeded { max_steps } => LoopErrorView::MaxStepsExceeded {
                max_steps,
            },
        },
{
}

/// A result stands for what it holds.
pub proof fn lemma_result_views(
    outcome: Result<StepOutcome, LoopError>,
    answer: Result<String, LoopError>,
    reply: Result<Message, ProviderError>,
    given: Result<String, ToolError>,
    text: Option<String>,
    listed: Seq<String>,
)
    ensures
        outcome_view(outcome) == match outcome {
            Ok(StepOutcome::Final(content)) => Ok::<StepOutcomeView, LoopErrorView>(
                StepOutcomeView::Final(content@),
            ),
            Ok(StepOutcome::ToolExecuted { tool_name, output }) => Ok(
                StepOutcomeView::ToolExecuted { tool_name: tool_name@, output: output@ },
            ),
            Ok(StepOutcome::ToolDenied { tool_name }) => Ok(
                StepOutcomeView::ToolDenied { tool_name: tool_name@ },
            ),
            Err(e) => Err(e@),
        },
        answer is Ok ==> answer_view(answer) == Ok::<Seq<char>, LoopErrorView>(answer->Ok_0@),
        answer is Err ==> answer_view(answer) == Err::<Seq<char>, LoopErrorView>(answer->Err_0@),
        reply is Ok ==> reply_view(reply) is Ok && reply_view(reply)->Ok_0 == reply->Ok_0@,
        reply is Err ==> reply_view(reply) is Err && reply_view(reply)->Err_0 == reply->Err_0@,
        given is Ok ==> tool_result(given) == Ok::<Seq<char>, ToolErrorView>(given->Ok_0@),
        given is Err ==> tool_result(given) == Err::<Seq<char>, ToolErrorView>(given->Err_0@),
        text is Some ==> optional(text) == Some(text->Some_0@),
        text is None ==> optional(text) is None,
        texts(listed).len() == listed.len(),
        forall|i: int| 0 <= i < listed.len() ==> #[trigger] texts(listed)[i] == listed[i]@,
{
}

/// A configuration stands for its sections, and a section for its settings.
pub proof fn lemma_config_view(
    config: Config,
    project: ProjectConfig,
    model: ModelConfig,
    agent: AgentConfig,
    memory: MemoryConfig,
)
    ensures
        config@.project is Some == config.project is Some,
        config@.model is Some == config.model is Some,
        config@.agent is Some == config.agent is Some,
        config@.memory is Some == config.memory is Some,
        config.project is Some ==> config@.project->Some_0 == config.project->Some_0@,
        config.model is Some ==> config@.model->Some_0 == config.model->Some_0@,
        config.agent is Some ==> config@.agent->Some_0 == config.agent->Some_0@,
        config.memory is Some ==> config@.memory->Some_0 == config.memory->Some_0@,
        project@.name == optional(project.name),
        model@.base_url == model.base_url@,
        model@.model == model.model@,
        model@.health_url == optional(model.health_url),
        agent@.max_steps == agent.max_steps,
        memory@.dir == optional(memory.dir),
{
}

/// A summary, a report of health and a case stand for what their fields say.
pub proof fn lemma_summary_view(
    summary: RunSummary,
    report: HealthReport,
    cases: Seq<EvalCase>,
    i: int,
)
    requires
        0 <= i < cases.len(),
    ensures
        summary@.status == summary.status,
        summary@.steps == summary.steps,
        summary@.tools_called == texts(summary.tools_called@),
        summary@.tools_denied == texts(summary.tools_denied@),
        summary@.endpoint == summary.endpoint@,
        report@.status == report.status@,
        report@.loaded_model == optional(report.loaded_model),
        report@.loaded_adapter == optional(report.loaded_adapter),
        cases_view(cases).len() == cases.len(),
        cases_view(cases)[i].name == cases[i].name@,
        cases_view(cases)[i].prompt == cases[i].prompt@,
        cases_view(cases)[i].expectation == match cases[i].expectation {
            Expectation::Completes => ExpectationView::Completes,
            Expectation::CallsTool { name } => ExpectationView::CallsTool { name: name@ },
            Expectation::FinalContains { text } => ExpectationView::FinalContains { text: text@ },
        },
{
}

/// What was read stands for what it says, a whole number for itself with its
/// sign; names are distinct where no two members share one; and values may be
/// nested as deep as they are read.
pub proof fn lemma_reading_view(
    read: Result<Data, String>,
    i: i64,
    members: Seq<(Seq<char>, DataView)>,
    a: int,
    b: int,
)
    ensures
        read is Ok ==> reading(read) == Ok::<DataView, Seq<char>>(read->Ok_0@),
        read is Err ==> reading(read) == Err::<DataView, Seq<char>>(read->Err_0@),
        i >= 0 ==> integer(i) == DataView::Unsigned(i as u64),
        i < 0 ==> integer(i) == DataView::Negative(i),
        distinct_names(members) && 0 <= a < members.len() && 0 <= b < members.len() && a != b
            ==> members[a].0 != members[b].0,
        depth_limit() == 127,
{
    if distinct_names(members) && 0 <= a < members.len() && 0 <= b < members.len() {
        if a < b {
            assert(members[a].0 != members[b].0);
        } else if b < a {
            assert(members[b].0 != members[a].0);
        }
    }
}

/// A message says its content as its role, and goes behind the messages of a
/// session, of which nothing else changes.
pub proof fn lemma_message_goes_last(session: SessionView, role: Role, content: Seq<char>)
    ensures
        says(role, content) == (MessageView { role, content }),
        session.with(says(role, content)).messages == session.messages.push(
            MessageView { role, content },
        ),
        session.with(says(role, content)).id == session.id,
        session.with(says(role, content)).created_at == session.created_at,
{
}

} // verus!
