//! The agent: one step against a provider, and the loop of steps that ends in
//! an answer or an error.
use vstd::prelude::*;

use crate::consent::{ask, Toolbox};
use crate::data::{Data, DataView};
use crate::event::{
    lemma_recorded_both, lost, recorded, write_event, Event, EventLogError, EventLogErrorView,
    EventSink, EventView,
};
use crate::message::{says, Message, MessageView, Role, Session, SessionView};
use crate::output::{
    parsed, ModelOutput, ModelOutputError, ModelOutputErrorView, ModelOutputView,
};
use crate::provider::{optional, reply_view, Provider, ProviderError, ProviderErrorView};
use crate::text::{decimal, decimal_text};
use crate::tool::{found, Tool, ToolError, ToolErrorView};

verus! {

// ---------------------------------------------------------------------------
// Outcomes and errors
// ---------------------------------------------------------------------------
/// What a step came to.
#[derive(Debug, PartialEq, Eq)]
pub enum StepOutcome {
    Final(String),
    ToolExecuted { tool_name: String, output: String },
    ToolDenied { tool_name: String },
}

/// What a [`StepOutcome`] says.
pub enum StepOutcomeView {
    Final(Seq<char>),
    ToolExecuted { tool_name: Seq<char>, output: Seq<char> },
    ToolDenied { tool_name: Seq<char> },
}

impl View for StepOutcome {
    type V = StepOutcomeView;

    open spec fn view(&self) -> StepOutcomeView {
        match self {
            StepOutcome::Final(answer) => StepOutcomeView::Final(answer@),
            StepOutcome::ToolExecuted { tool_name, output } => StepOutcomeView::ToolExecuted {
                tool_name: tool_name@,
                output: output@,
            },
            StepOutcome::ToolDenied { tool_name } => StepOutcomeView::ToolDenied {
                tool_name: tool_name@,
            },
        }
    }
}

impl Clone for StepOutcome {
    fn clone(&self) -> (r: Self)
        ensures
            r@ == self@,
    {
        match self {
            StepOutcome::Final(answer) => StepOutcome::Final(answer.clone()),
            StepOutcome::ToolExecuted { tool_name, output } => StepOutcome::ToolExecuted {
                tool_name: tool_name.clone(),
                output: output.clone(),
            },
            StepOutcome::ToolDenied { tool_name } => StepOutcome::ToolDenied {
                tool_name: tool_name.clone(),
            },
        }
    }
}

/// Why a step or the loop gave no outcome.
#[derive(Debug, PartialEq, Eq)]
pub enum LoopError {
    Provider(ProviderError),
    Parse(ModelOutputError),
    UnknownTool(String),
    Tool(ToolError),
    EventLog(EventLogError),
    MaxStepsExceeded { max_steps: usize },
}

/// What a [`LoopError`] says.
pub enum LoopErrorView {
    Provider(ProviderErrorView),
    Parse(ModelOutputErrorView),
    UnknownTool(Seq<char>),
    Tool(ToolErrorView),
    EventLog(EventLogErrorView),
    MaxStepsExceeded { max_steps: usize },
}

impl View for LoopError {
    type V = LoopErrorView;

    open spec fn view(&self) -> LoopErrorView {
        match self {
            LoopError::Provider(e) => LoopErrorView::Provider(e@),
            LoopError::Parse(e) => LoopErrorView::Parse(e@),
            LoopError::UnknownTool(name) => LoopErrorView::UnknownTool(name@),
            LoopError::Tool(e) => LoopErrorView::Tool(e@),
            LoopError::EventLog(e) => LoopErrorView::EventLog(e@),
            LoopError::MaxStepsExceeded { max_steps } => LoopErrorView::MaxStepsExceeded {
                max_steps: *max_steps,
            },
        }
    }
}

impl LoopErrorView {
    /// The error in words.
    pub open spec fn text(self) -> Seq<char> {
        match self {
            LoopErrorView::Provider(e) => "provider error: "@ + e.text(),
            LoopErrorView::Parse(e) => e.text(),
            LoopErrorView::UnknownTool(name) => "unknown tool: "@ + name,
            LoopErrorView::Tool(e) => e.text(),
            LoopErrorView::EventLog(e) => "event log error: "@ + e.text(),
            LoopErrorView::MaxStepsExceeded { max_steps } => "exceeded max steps ("@ + decimal(
                max_steps as nat,
            ) + ") without a final answer"@,
        }
    }

    /// The message of the error beneath this one.
    pub open spec fn cause(self) -> Option<Seq<char>> {
        match self {
            LoopErrorView::Provider(e) => Some(e.text()),
            LoopErrorView::Parse(e) => Some(e.text()),
            LoopErrorView::UnknownTool(_) => None,
            LoopErrorView::Tool(e) => Some(e.text()),
            LoopErrorView::EventLog(e) => Some(e.text()),
            LoopErrorView::MaxStepsExceeded { .. } => None,
        }
    }

    /// What the model is told of an error that it can mend by trying again. An
    /// error of the environment or the provider, or the end of the steps, is
    /// not the model's to mend.
    pub open spec fn feedback(self) -> Option<Seq<char>> {
        match self {
            LoopErrorView::Parse(e) => Some(
                "your previous output was not valid JSON ("@ + e.text()
                    + "); reply with a single valid envelope"@,
            ),
            LoopErrorView::UnknownTool(name) => Some(
                "unknown tool `"@ + name + "`; call one of the registered tools instead"@,
            ),
            LoopErrorView::Tool(ToolErrorView::InvalidArguments(e)) => Some(
                "invalid tool arguments: "@ + e + "; correct them and try again"@,
            ),
            LoopErrorView::Tool(ToolErrorView::Execution(msg)) => Some(
                "tool execution failed: "@ + msg + "; try a different approach"@,
            ),
            LoopErrorView::Tool(ToolErrorView::Io(_)) => None,
            LoopErrorView::Provider(_) => None,
            LoopErrorView::EventLog(_) => None,
            LoopErrorView::MaxStepsExceeded { .. } => None,
        }
    }
}

impl LoopError {
    /// The error in words.
    pub fn to_string(&self) -> (r: String)
        ensures
            r@ == self@.text(),
    {
        match self {
            LoopError::Provider(e) => {
                let mut text = "provider error: ".to_owned();
                text.append(e.to_string().as_str());
                text
            },
            LoopError::Parse(e) => e.to_string(),
            LoopError::UnknownTool(name) => {
                let mut text = "unknown tool: ".to_owned();
                text.append(name.as_str());
                text
            },
            LoopError::Tool(e) => e.to_string(),
            LoopError::EventLog(e) => {
                let mut text = "event log error: ".to_owned();
                text.append(e.to_string().as_str());
                text
            },
            LoopError::MaxStepsExceeded { max_steps } => {
                let mut text = "exceeded max steps (".to_owned();
                text.append(decimal_text(*max_steps as u64).as_str());
                text.append(") without a final answer");
                text
            },
        }
    }

    /// The message of the error beneath this one.
    pub fn source(&self) -> (r: Option<String>)
        ensures
            optional(r) == self@.cause(),
    {
        match self {
            LoopError::Provider(e) => Some(e.to_string()),
            LoopError::Parse(e) => Some(e.to_string()),
            LoopError::UnknownTool(_) => None,
            LoopError::Tool(e) => Some(e.to_string()),
            LoopError::EventLog(e) => Some(e.to_string()),
            LoopError::MaxStepsExceeded { .. } => None,
        }
    }

    /// What the model is told of an error that it can mend by trying again.
    pub fn recovery_feedback(&self) -> (r: Option<String>)
        ensures
            optional(r) == self@.feedback(),
    {
        match self {
            LoopError::Parse(e) => {
                let mut text = "your previous output was not valid JSON (".to_owned();
                text.append(e.to_string().as_str());
                text.append("); reply with a single valid envelope");
                Some(text)
            },
            LoopError::UnknownTool(name) => {
                let mut text = "unknown tool `".to_owned();
                text.append(name.as_str());
                text.append("`; call one of the registered tools instead");
                Some(text)
            },
            LoopError::Tool(ToolError::InvalidArguments(e)) => {
                let mut text = "invalid tool arguments: ".to_owned();
                text.append(e.as_str());
                text.append("; correct them and try again");
                Some(text)
            },
            LoopError::Tool(ToolError::Execution(msg)) => {
                let mut text = "tool execution failed: ".to_owned();
                text.append(msg.as_str());
                text.append("; try a different approach");
                Some(text)
            },
            LoopError::Tool(ToolError::Io(_)) => None,
            LoopError::Provider(_) => None,
            LoopError::EventLog(_) => None,
            LoopError::MaxStepsExceeded { .. } => None,
        }
    }
}

impl From<ProviderError> for LoopError {
    fn from(e: ProviderError) -> (r: Self) {
        LoopError::Provider(e)
    }
}

impl vstd::std_specs::convert::FromSpecImpl<ProviderError> for LoopError {
    open spec fn obeys_from_spec() -> bool {
        true
    }

    open spec fn from_spec(e: ProviderError) -> Self {
        LoopError::Provider(e)
    }
}

impl From<ModelOutputError> for LoopError {
    fn from(e: ModelOutputError) -> (r: Self) {
        LoopError::Parse(e)
    }
}

impl vstd::std_specs::convert::FromSpecImpl<ModelOutputError> for LoopError {
    open spec fn obeys_from_spec() -> bool {
        true
    }

    open spec fn from_spec(e: ModelOutputError) -> Self {
        LoopError::Parse(e)
    }
}

impl From<ToolError> for LoopError {
    fn from(e: ToolError) -> (r: Self) {
        LoopError::Tool(e)
    }
}

impl vstd::std_specs::convert::FromSpecImpl<ToolError> for LoopError {
    open spec fn obeys_from_spec() -> bool {
        true
    }

    open spec fn from_spec(e: ToolError) -> Self {
        LoopError::Tool(e)
    }
}

impl From<EventLogError> for LoopError {
    fn from(e: EventLogError) -> (r: Self) {
        LoopError::EventLog(e)
    }
}

impl vstd::std_specs::convert::FromSpecImpl<EventLogError> for LoopError {
    open spec fn obeys_from_spec() -> bool {
        true
    }

    open spec fn from_spec(e: EventLogError) -> Self {
        LoopError::EventLog(e)
    }
}

// ---------------------------------------------------------------------------
// Approval
// ---------------------------------------------------------------------------
/// What an [`ApprovalPolicy`] says to a proposed tool call.
#[derive(Clone, Copy, Debug, PartialEq, Eq, Structural)]
pub enum ApprovalDecision {
    Allow,
    Deny,
}

/// Decides whether a proposed tool call may be executed. The loop asks before
/// every tool call.
pub trait ApprovalPolicy: Sized {
    /// Whether a policy in this state may give `decision` to the call, and be
    /// in the state `next` after that. One that says nothing of it may decide
    /// either way.
    open spec fn decides(
        self,
        tool_name: Seq<char>,
        arguments: DataView,
        decision: ApprovalDecision,
        next: Self,
    ) -> bool {
        true
    }

    /// The decision on a call.
    fn approve(&mut self, tool_name: &str, arguments: &Data) -> (r: ApprovalDecision)
        ensures
            old(self).decides(tool_name@, arguments@, r, *final(self)),
    ;
}

/// Approves every tool call.
pub struct AllowAll;

impl ApprovalPolicy for AllowAll {
    open spec fn decides(
        self,
        tool_name: Seq<char>,
        arguments: DataView,
        decision: ApprovalDecision,
        next: Self,
    ) -> bool {
        decision == ApprovalDecision::Allow
    }

    fn approve(&mut self, _tool_name: &str, _arguments: &Data) -> (r: ApprovalDecision) {
        ApprovalDecision::Allow
    }
}

/// Denies every tool call.
pub struct DenyAll;

impl ApprovalPolicy for DenyAll {
    open spec fn decides(
        self,
        tool_name: Seq<char>,
        arguments: DataView,
        decision: ApprovalDecision,
        next: Self,
    ) -> bool {
        decision == ApprovalDecision::Deny
    }

    fn approve(&mut self, _tool_name: &str, _arguments: &Data) -> (r: ApprovalDecision) {
        ApprovalDecision::Deny
    }
}

// ---------------------------------------------------------------------------
// A turn
// ---------------------------------------------------------------------------
/// What a reply of the model leads to.
pub enum Turn {
    /// The reply is no envelope.
    Unparsed(Seq<char>),
    /// The reply is the final answer.
    Answered(Seq<char>),
    /// The reply calls a tool that is not registered.
    Unknown(Seq<char>),
    /// The policy denied the call.
    Denied(Seq<char>),
    /// The tool ran and gave an output.
    Ran(Seq<char>, Seq<char>),
    /// The tool ran and failed.
    Failed(ToolErrorView),
}

/// Whether a reply may lead to a turn. What a tool gave is heard of only where
/// the policy allowed the call.
pub open spec fn leads_to<T: Tool, P: ApprovalPolicy>(
    tools: Seq<T>,
    before: P,
    reply: Seq<char>,
    turn: Turn,
    after: P,
) -> bool {
    match parsed(reply) {
        Err(message) => turn == Turn::Unparsed(message) && after == before,
        Ok(ModelOutputView::Final { content }) => turn == Turn::Answered(content) && after
            == before,
        Ok(ModelOutputView::ToolCall { tool_name, arguments, .. }) => match found(
            tools,
            tool_name,
        ) {
            None => turn == Turn::Unknown(tool_name) && after == before,
            Some(tool) => match turn {
                Turn::Denied(name) => name == tool_name && before.decides(
                    tool_name,
                    arguments,
                    ApprovalDecision::Deny,
                    after,
                ),
                Turn::Ran(name, output) => name == tool_name && before.decides(
                    tool_name,
                    arguments,
                    ApprovalDecision::Allow,
                    after,
                ) && tool.gives(arguments, Ok(output)),
                Turn::Failed(e) => before.decides(
                    tool_name,
                    arguments,
                    ApprovalDecision::Allow,
                    after,
                ) && tool.gives(arguments, Err(e)),
                _ => false,
            },
        },
    }
}

/// What the model is told where the policy denied its call.
pub open spec fn denial(tool_name: Seq<char>) -> Seq<char> {
    "the tool `"@ + tool_name + "` was denied by the approval policy"@
}

/// The messages that a turn adds to the session.
pub open spec fn turn_messages(reply: Seq<char>, turn: Turn) -> Seq<MessageView> {
    match turn {
        Turn::Denied(name) => seq![says(Role::Assistant, reply), says(Role::Tool, denial(name))],
        Turn::Ran(_, output) => seq![says(Role::Assistant, reply), says(Role::Tool, output)],
        _ => seq![says(Role::Assistant, reply)],
    }
}

/// The events that a turn adds to the log. The reply is logged whether or not
/// it can be parsed.
pub open spec fn turn_events(reply: Seq<char>, turn: Turn) -> Seq<EventView> {
    match turn {
        Turn::Denied(tool_name) => seq![
            EventView::ModelResponse { content: reply },
            EventView::ToolDenied { tool_name },
        ],
        Turn::Ran(tool_name, output) => seq![
            EventView::ModelResponse { content: reply },
            EventView::ToolResult { tool_name, output },
        ],
        _ => seq![EventView::ModelResponse { content: reply }],
    }
}

/// What a turn comes to.
pub open spec fn turn_outcome(turn: Turn) -> Result<StepOutcomeView, LoopErrorView> {
    match turn {
        Turn::Unparsed(message) => Err(LoopErrorView::Parse(ModelOutputErrorView::Parse(message))),
        Turn::Answered(content) => Ok(StepOutcomeView::Final(content)),
        Turn::Unknown(name) => Err(LoopErrorView::UnknownTool(name)),
        Turn::Denied(tool_name) => Ok(StepOutcomeView::ToolDenied { tool_name }),
        Turn::Ran(tool_name, output) => Ok(StepOutcomeView::ToolExecuted { tool_name, output }),
        Turn::Failed(e) => Err(LoopErrorView::Tool(e)),
    }
}

/// What a run has come to so far: the state of its policy, its session, the
/// events that it logged, and, where the log could not be written, the event
/// that it failed to log and why.
pub struct Run<P> {
    pub policy: P,
    pub session: SessionView,
    pub events: Seq<EventView>,
    pub lost: Option<(EventView, EventLogErrorView)>,
}

impl<P> Run<P> {
    /// The run with messages behind those of its session.
    pub open spec fn with_messages(self, messages: Seq<MessageView>) -> Run<P> {
        Run {
            session: SessionView { messages: self.session.messages + messages, ..self.session },
            ..self
        }
    }

    /// The run with events behind those that it logged.
    pub open spec fn with_events(self, events: Seq<EventView>) -> Run<P> {
        Run { events: self.events + events, ..self }
    }

    /// The run that failed to log an event.
    pub open spec fn losing(self, event: EventView, error: EventLogErrorView) -> Run<P> {
        Run { lost: Some((event, error)), ..self }
    }
}

/// The outcome of a step.
pub open spec fn outcome_view(r: Result<StepOutcome, LoopError>) -> Result<
    StepOutcomeView,
    LoopErrorView,
> {
    match r {
        Ok(outcome) => Ok(outcome@),
        Err(e) => Err(e@),
    }
}

/// Whether an error says that the log could not be written.
pub open spec fn log_failed(e: LoopErrorView) -> bool {
    e is EventLog
}

/// What the step of a reply makes of a run. A step whose log could not be
/// written ends where the write failed.
pub open spec fn handles<T: Tool, P: ApprovalPolicy>(
    tools: Seq<T>,
    reply: Result<MessageView, ProviderErrorView>,
    before: Run<P>,
    outcome: Result<StepOutcomeView, LoopErrorView>,
    after: Run<P>,
) -> bool {
    match reply {
        Err(e) => outcome == Err::<StepOutcomeView, LoopErrorView>(LoopErrorView::Provider(e))
            && after == before,
        Ok(message) => {
            ||| exists|turn: Turn| #[trigger]
                turns(tools, message.content, turn, before, outcome, after)
            ||| outcome matches Err(LoopErrorView::EventLog(error)) && after == before.losing(
                EventView::ModelResponse { content: message.content },
                error,
            )
        },
    }
}

/// What a reply that leads to a turn makes of a run.
pub open spec fn turns<T: Tool, P: ApprovalPolicy>(
    tools: Seq<T>,
    reply: Seq<char>,
    turn: Turn,
    before: Run<P>,
    outcome: Result<StepOutcomeView, LoopErrorView>,
    after: Run<P>,
) -> bool {
    &&& leads_to(tools, before.policy, reply, turn, after.policy)
    &&& {
        ||| {
            &&& outcome == turn_outcome(turn)
            &&& after == (Run { policy: after.policy, ..before }).with_messages(
                turn_messages(reply, turn),
            ).with_events(turn_events(reply, turn))
        }
        ||| {
            &&& turn is Denied || turn is Ran
            &&& outcome matches Err(LoopErrorView::EventLog(error))
            &&& after == (Run { policy: after.policy, ..before }).with_messages(
                seq![says(Role::Assistant, reply)],
            ).with_events(seq![EventView::ModelResponse { content: reply }]).losing(
                turn_events(reply, turn)[1],
                error,
            )
        }
    }
}

/// What a run does to a sink: the sink took a record of each event of the run
/// in turn, and failed to take the one that the run failed to log.
pub open spec fn logs<W: EventSink, P>(before: W, run: Run<P>, after: W) -> bool {
    match run.lost {
        None => recorded(before, run.events, after),
        Some((event, error)) => exists|between: W|
            recorded(before, run.events, between) && #[trigger] lost(between, event, error, after),
    }
}

/// What the model is told where the policy denied its call.
fn denial_text(tool_name: &str) -> (r: String)
    ensures
        r@ == denial(tool_name@),
{
    let mut text = "the tool `".to_owned();
    text.append(tool_name);
    text.append("` was denied by the approval policy");
    text
}

// ---------------------------------------------------------------------------
// A step
// ---------------------------------------------------------------------------
/// The run of a step: what it starts from.
pub open spec fn starts<P>(policy: P, session: SessionView) -> Run<P> {
    Run { policy, session, events: Seq::empty(), lost: None }
}

/// Handle what a provider replied: record the reply, parse it, and give its
/// final answer, or execute the tool that it calls if the policy allows that.
/// The tools are a [`Toolbox`] of this policy: none is called without a consent
/// of the policy to that very call, and a consent is good for one call.
pub fn finish_step<B: Toolbox<P>, W: EventSink, P: ApprovalPolicy>(
    reply: Result<Message, ProviderError>,
    registry: &B,
    session: &mut Session,
    events: &mut W,
    policy: &mut P,
) -> (r: Result<StepOutcome, LoopError>)
    ensures
        exists|after: Run<P>|
            {
                &&& #[trigger] handles(
                    registry.tools(),
                    reply_view(reply),
                    starts(*old(policy), old(session)@),
                    outcome_view(r),
                    after,
                )
                &&& after.policy == *final(policy)
                &&& after.session == final(session)@
                &&& logs(*old(events), after, *final(events))
            },
        old(events).reliable() ==> final(events).reliable() && !(r is Err && log_failed(
            r->Err_0@,
        )),
{
    let ghost tools = registry.tools();
    let ghost before = starts(*policy, session@);
    let ghost sink = *events;
    let content = match reply {
        Ok(message) => message.content,
        Err(e) => {
            proof {
                assert(handles(
                    tools,
                    reply_view(reply),
                    before,
                    Err(LoopErrorView::Provider(e@)),
                    before,
                ));
                assert(logs(sink, before, *events));
            }
            return Err(LoopError::from(e));
        },
    };
    let ghost said = content@;
    assert(reply_view(reply)->Ok_0.content == said);
    // The reply is logged before it is parsed, so that one that cannot be
    // parsed is on record too.
    match write_event(events, &Event::ModelResponse { content: content.clone() }) {
        Ok(()) => {},
        Err(e) => {
            proof {
                let after = before.losing(EventView::ModelResponse { content: said }, e@);
                assert(handles(
                    tools,
                    reply_view(reply),
                    before,
                    Err(LoopErrorView::EventLog(e@)),
                    after,
                ));
                assert(recorded(sink, after.events, sink));
                assert(logs(sink, after, *events));
            }
            return Err(LoopError::from(e));
        },
    }
    let ghost response = EventView::ModelResponse { content: said };
    let ghost noted = *events;
    assert(recorded(sink, seq![response], noted));
    session.push_message(Message { role: Role::Assistant, content: content.clone() });
    let ghost heard = before.with_messages(seq![says(Role::Assistant, said)]).with_events(
        seq![response],
    );
    proof {
        assert(heard.session.messages =~= before.session.messages.push(
            says(Role::Assistant, said),
        ));
        assert(heard.session == session@);
        assert(heard.events =~= seq![response]);
    }
    let output = match ModelOutput::parse(content.as_str()) {
        Ok(output) => output,
        Err(e) => {
            proof {
                let turn = Turn::Unparsed(e->Parse_0@);
                assert(leads_to(tools, before.policy, said, turn, *policy));
                assert(turns(tools, said, turn, before, Err(LoopErrorView::Parse(e@)), heard));
                assert(handles(
                    tools,
                    reply_view(reply),
                    before,
                    Err(LoopErrorView::Parse(e@)),
                    heard,
                ));
            }
            return Err(LoopError::from(e));
        },
    };
    let (tool_name, arguments) = match output {
        ModelOutput::Final { content: answer } => {
            proof {
                let turn = Turn::Answered(answer@);
                let outcome = Ok::<StepOutcomeView, LoopErrorView>(StepOutcomeView::Final(answer@));
                assert(turns(tools, said, turn, before, outcome, heard));
                assert(handles(tools, reply_view(reply), before, outcome, heard));
            }
            return Ok(StepOutcome::Final(answer));
        },
        ModelOutput::ToolCall { tool_name, arguments, .. } => (tool_name, arguments),
    };
    if !registry.holds(tool_name.as_str()) {
        proof {
            let turn = Turn::Unknown(tool_name@);
            let outcome = Err::<StepOutcomeView, LoopErrorView>(
                LoopErrorView::UnknownTool(tool_name@),
            );
            assert(turns(tools, said, turn, before, outcome, heard));
            assert(handles(tools, reply_view(reply), before, outcome, heard));
        }
        return Err(LoopError::UnknownTool(tool_name));
    }
    let asked = ask(policy, tool_name.clone(), arguments);
    let ghost decided = Run { policy: *policy, ..heard };
    let consent = match asked {
        Some(consent) => consent,
        None => {
            let ghost turn = Turn::Denied(tool_name@);
            assert(leads_to(tools, before.policy, said, turn, *policy));
            let ghost denied = EventView::ToolDenied { tool_name: tool_name@ };
            match write_event(events, &Event::ToolDenied { tool_name: tool_name.clone() }) {
                Ok(()) => {},
                Err(e) => {
                    proof {
                        let outcome = Err::<StepOutcomeView, LoopErrorView>(
                            LoopErrorView::EventLog(e@),
                        );
                        let after = decided.losing(denied, e@);
                        assert(turns(tools, said, turn, before, outcome, after));
                        assert(handles(tools, reply_view(reply), before, outcome, after));
                        assert(logs(sink, after, *events));
                    }
                    return Err(LoopError::from(e));
                },
            }
            let told = denial_text(tool_name.as_str());
            session.push_message(Message { role: Role::Tool, content: told });
            proof {
                let after = (Run { policy: *policy, ..before }).with_messages(
                    turn_messages(said, turn),
                ).with_events(turn_events(said, turn));
                lemma_recorded_both(sink, seq![response], noted, seq![denied], *events);
                assert(after.events =~= seq![response] + seq![denied]);
                assert(after.session.messages =~= session@.messages);
                let outcome = Ok::<StepOutcomeView, LoopErrorView>(
                    StepOutcomeView::ToolDenied { tool_name: tool_name@ },
                );
                assert(turns(tools, said, turn, before, outcome, after));
                assert(handles(tools, reply_view(reply), before, outcome, after));
            }
            return Ok(StepOutcome::ToolDenied { tool_name });
        },
    };
    let output = match registry.call(consent) {
        Ok(output) => output,
        Err(e) => {
            proof {
                let turn = Turn::Failed(e@);
                let outcome = Err::<StepOutcomeView, LoopErrorView>(LoopErrorView::Tool(e@));
                assert(turns(tools, said, turn, before, outcome, decided));
                assert(handles(tools, reply_view(reply), before, outcome, decided));
            }
            return Err(LoopError::from(e));
        },
    };
    let ghost turn = Turn::Ran(tool_name@, output@);
    assert(leads_to(tools, before.policy, said, turn, *policy));
    let ghost result = EventView::ToolResult { tool_name: tool_name@, output: output@ };
    match write_event(
        events,
        &Event::ToolResult { tool_name: tool_name.clone(), output: output.clone() },
    ) {
        Ok(()) => {},
        Err(e) => {
            proof {
                let outcome = Err::<StepOutcomeView, LoopErrorView>(LoopErrorView::EventLog(e@));
                let after = decided.losing(result, e@);
                assert(turns(tools, said, turn, before, outcome, after));
                assert(handles(tools, reply_view(reply), before, outcome, after));
                assert(logs(sink, after, *events));
            }
            return Err(LoopError::from(e));
        },
    }
    session.push_message(Message { role: Role::Tool, content: output.clone() });
    proof {
        let after = (Run { policy: *policy, ..before }).with_messages(
            turn_messages(said, turn),
        ).with_events(turn_events(said, turn));
        lemma_recorded_both(sink, seq![response], noted, seq![result], *events);
        assert(after.events =~= seq![response] + seq![result]);
        assert(after.session.messages =~= session@.messages);
        let outcome = Ok::<StepOutcomeView, LoopErrorView>(
            StepOutcomeView::ToolExecuted { tool_name: tool_name@, output: output@ },
        );
        assert(turns(tools, said, turn, before, outcome, after));
        assert(handles(tools, reply_view(reply), before, outcome, after));
    }
    Ok(StepOutcome::ToolExecuted { tool_name, output })
}

/// What a step against a provider makes of a run.
pub open spec fn steps<V: Provider, T: Tool, P: ApprovalPolicy>(
    tools: Seq<T>,
    provider: V,
    before: Run<P>,
    outcome: Result<StepOutcomeView, LoopErrorView>,
    next: V,
    after: Run<P>,
) -> bool {
    exists|reply: Result<MessageView, ProviderErrorView>| #[trigger]
        provider.completes(before.session, reply, next) && handles(
            tools,
            reply,
            before,
            outcome,
            after,
        )
}

/// Run one turn against a session: ask the provider for its reply and handle
/// it as [`finish_step`] does.
pub fn run_step<V: Provider, B: Toolbox<P>, W: EventSink, P: ApprovalPolicy>(
    provider: &mut V,
    registry: &B,
    session: &mut Session,
    events: &mut W,
    policy: &mut P,
) -> (r: Result<StepOutcome, LoopError>)
    ensures
        exists|after: Run<P>|
            {
                &&& #[trigger] steps(
                    registry.tools(),
                    *old(provider),
                    starts(*old(policy), old(session)@),
                    outcome_view(r),
                    *final(provider),
                    after,
                )
                &&& after.policy == *final(policy)
                &&& after.session == final(session)@
                &&& logs(*old(events), after, *final(events))
            },
        old(events).reliable() ==> final(events).reliable() && !(r is Err && log_failed(
            r->Err_0@,
        )),
{
    let reply = provider.complete(session);
    let ghost before = starts(*policy, session@);
    let r = finish_step(reply, registry, session, events, policy);
    proof {
        let after = choose|after: Run<P>|
            {
                &&& #[trigger] handles(
                    registry.tools(),
                    reply_view(reply),
                    before,
                    outcome_view(r),
                    after,
                )
                &&& after.policy == *policy
                &&& after.session == session@
                &&& logs(*old(events), after, *events)
            };
        assert(steps(registry.tools(), *old(provider), before, outcome_view(r), *provider, after));
    }
    r
}

// ---------------------------------------------------------------------------
// The loop
// ---------------------------------------------------------------------------
/// The events of the messages of the user.
pub open spec fn user_events(messages: Seq<MessageView>) -> Seq<EventView>
    decreases messages.len(),
{
    if messages.len() == 0 {
        Seq::empty()
    } else if messages.last().role == Role::User {
        user_events(messages.drop_last()).push(
            EventView::UserMessage { content: messages.last().content },
        )
    } else {
        user_events(messages.drop_last())
    }
}

/// What the loop comes to.
pub open spec fn answer_view(r: Result<String, LoopError>) -> Result<Seq<char>, LoopErrorView> {
    match r {
        Ok(answer) => Ok(answer@),
        Err(e) => Err(e@),
    }
}

/// Whether the loop ended because the log could not be written.
pub open spec fn log_lost(r: Result<String, LoopError>) -> bool {
    r is Err && log_failed(r->Err_0@)
}

/// How a run ends with a final answer: the answer is logged and given.
pub open spec fn closes<P>(
    before: Run<P>,
    content: Seq<char>,
    answer: Result<Seq<char>, LoopErrorView>,
    after: Run<P>,
) -> bool {
    ||| {
        &&& answer == Ok::<Seq<char>, LoopErrorView>(content)
        &&& after == before.with_events(seq![EventView::FinalAnswer { content }])
    }
    ||| answer matches Err(LoopErrorView::EventLog(error)) && after == before.losing(
        EventView::FinalAnswer { content },
        error,
    )
}

/// What up to `left` steps make of a run. A final answer ends them. A tool's
/// result and a denial go on with the next step, and so does an error that the
/// model can mend, of which it is told; any other error ends them. Without an
/// answer at the end of the steps, the error is that there were too few.
#[verifier::opaque]
pub open spec fn loops<V: Provider, T: Tool, P: ApprovalPolicy>(
    tools: Seq<T>,
    provider: V,
    before: Run<P>,
    left: nat,
    max_steps: usize,
    answer: Result<Seq<char>, LoopErrorView>,
    next: V,
    after: Run<P>,
) -> bool
    decreases left,
{
    if left == 0 {
        &&& answer == Err::<Seq<char>, LoopErrorView>(LoopErrorView::MaxStepsExceeded { max_steps })
        &&& next == provider
        &&& after == before
    } else {
        exists|outcome: Result<StepOutcomeView, LoopErrorView>, between: V, run: Run<P>|
            #[trigger] steps(tools, provider, before, outcome, between, run) && (match outcome {
                Ok(StepOutcomeView::Final(content)) => next == between && closes(
                    run,
                    content,
                    answer,
                    after,
                ),
                Ok(_) => loops(
                    tools,
                    between,
                    run,
                    (left - 1) as nat,
                    max_steps,
                    answer,
                    next,
                    after,
                ),
                Err(e) => match e.feedback() {
                    Some(feedback) => loops(
                        tools,
                        between,
                        run.with_messages(seq![says(Role::Tool, feedback)]),
                        (left - 1) as nat,
                        max_steps,
                        answer,
                        next,
                        after,
                    ),
                    None => answer == Err::<Seq<char>, LoopErrorView>(e) && next == between
                        && after == run,
                },
            })
    }
}

/// What the loop makes of a run: it logs the messages of the user, and steps.
pub open spec fn ran<V: Provider, T: Tool, P: ApprovalPolicy>(
    tools: Seq<T>,
    provider: V,
    before: Run<P>,
    max_steps: usize,
    answer: Result<Seq<char>, LoopErrorView>,
    next: V,
    after: Run<P>,
) -> bool {
    ||| loops(
        tools,
        provider,
        before.with_events(user_events(before.session.messages)),
        max_steps as nat,
        max_steps,
        answer,
        next,
        after,
    )
    ||| {
        &&& answer matches Err(LoopErrorView::EventLog(error))
        &&& next == provider
        &&& exists|k: int|
            {
                &&& 0 <= k < before.session.messages.len()
                &&& before.session.messages[k].role == Role::User
                &&& after == before.with_events(
                    user_events(#[trigger] before.session.messages.take(k)),
                ).losing(
                    EventView::UserMessage { content: before.session.messages[k].content },
                    error,
                )
            }
    }
}

/// A step behind which the run goes on makes a loop with one more step.
proof fn lemma_goes_on<V: Provider, T: Tool, P: ApprovalPolicy>(
    tools: Seq<T>,
    provider: V,
    before: Run<P>,
    outcome: Result<StepOutcomeView, LoopErrorView>,
    between: V,
    run: Run<P>,
    told: Run<P>,
    left: nat,
    max_steps: usize,
)
    requires
        left > 0,
        steps(tools, provider, before, outcome, between, run),
        match outcome {
            Ok(o) => !(o is Final) && told == run,
            Err(e) => e.feedback() matches Some(feedback) && told == run.with_messages(
                seq![says(Role::Tool, feedback)],
            ),
        },
    ensures
        forall|answer: Result<Seq<char>, LoopErrorView>, next: V, after: Run<P>| #[trigger]
            loops(tools, between, told, (left - 1) as nat, max_steps, answer, next, after)
                ==> loops(tools, provider, before, left, max_steps, answer, next, after),
{
    assert forall|answer: Result<Seq<char>, LoopErrorView>, next: V, after: Run<P>| #[trigger]
        loops(
            tools,
            between,
            told,
            (left - 1) as nat,
            max_steps,
            answer,
            next,
            after,
        ) implies loops(tools, provider, before, left, max_steps, answer, next, after) by {
        reveal_with_fuel(loops, 2);
    }
}

/// A step that ends the run makes a loop.
proof fn lemma_ends<V: Provider, T: Tool, P: ApprovalPolicy>(
    tools: Seq<T>,
    provider: V,
    before: Run<P>,
    outcome: Result<StepOutcomeView, LoopErrorView>,
    next: V,
    run: Run<P>,
    left: nat,
    max_steps: usize,
    answer: Result<Seq<char>, LoopErrorView>,
    after: Run<P>,
)
    requires
        left > 0,
        steps(tools, provider, before, outcome, next, run),
        match outcome {
            Ok(StepOutcomeView::Final(content)) => closes(run, content, answer, after),
            Ok(_) => false,
            Err(e) => e.feedback() is None && answer == Err::<Seq<char>, LoopErrorView>(e) && after
                == run,
        },
    ensures
        loops(tools, provider, before, left, max_steps, answer, next, after),
{
    reveal_with_fuel(loops, 2);
}

/// The first step of a loop, and what follows it.
pub proof fn lemma_first_step<V: Provider, T: Tool, P: ApprovalPolicy>(
    tools: Seq<T>,
    provider: V,
    before: Run<P>,
    left: nat,
    max_steps: usize,
    answer: Result<Seq<char>, LoopErrorView>,
    next: V,
    after: Run<P>,
) -> (first: (Result<StepOutcomeView, LoopErrorView>, V, Run<P>))
    requires
        left > 0,
        loops(tools, provider, before, left, max_steps, answer, next, after),
    ensures
        steps(tools, provider, before, first.0, first.1, first.2),
        match first.0 {
            Ok(StepOutcomeView::Final(content)) => next == first.1 && closes(
                first.2,
                content,
                answer,
                after,
            ),
            Ok(_) => loops(
                tools,
                first.1,
                first.2,
                (left - 1) as nat,
                max_steps,
                answer,
                next,
                after,
            ),
            Err(e) => match e.feedback() {
                Some(feedback) => loops(
                    tools,
                    first.1,
                    first.2.with_messages(seq![says(Role::Tool, feedback)]),
                    (left - 1) as nat,
                    max_steps,
                    answer,
                    next,
                    after,
                ),
                None => answer == Err::<Seq<char>, LoopErrorView>(e) && next == first.1 && after
                    == first.2,
            },
        },
{
    reveal_with_fuel(loops, 2);
    choose|outcome: Result<StepOutcomeView, LoopErrorView>, between: V, run: Run<P>|
        #[trigger] steps(tools, provider, before, outcome, between, run) && (match outcome {
            Ok(StepOutcomeView::Final(content)) => next == between && closes(
                run,
                content,
                answer,
                after,
            ),
            Ok(_) => loops(
                tools,
                between,
                run,
                (left - 1) as nat,
                max_steps,
                answer,
                next,
                after,
            ),
            Err(e) => match e.feedback() {
                Some(feedback) => loops(
                    tools,
                    between,
                    run.with_messages(seq![says(Role::Tool, feedback)]),
                    (left - 1) as nat,
                    max_steps,
                    answer,
                    next,
                    after,
                ),
                None => answer == Err::<Seq<char>, LoopErrorView>(e) && next == between && after
                    == run,
            },
        })
}

proof fn lemma_steps_shift<V: Provider, T: Tool, P: ApprovalPolicy>(
    tools: Seq<T>,
    provider: V,
    before: Run<P>,
    outcome: Result<StepOutcomeView, LoopErrorView>,
    next: V,
    after: Run<P>,
    logged: Seq<EventView>,
)
    requires
        steps(tools, provider, before, outcome, next, after),
        before.events == Seq::<EventView>::empty(),
        before.lost is None,
    ensures
        after.lost is Some <==> outcome is Err && log_failed(outcome->Err_0),
        steps(
            tools,
            provider,
            Run { events: logged, ..before },
            outcome,
            next,
            Run { events: logged + after.events, ..after },
        ),
{
    let earlier = Run { events: logged, ..before };
    let later = Run { events: logged + after.events, ..after };
    let reply = choose|reply: Result<MessageView, ProviderErrorView>| #[trigger]
        provider.completes(before.session, reply, next) && handles(
            tools,
            reply,
            before,
            outcome,
            after,
        );
    if reply is Err || after == before {
        assert(logged + after.events =~= logged);
    }
    if let Ok(message) = reply {
        if exists|turn: Turn| turns(tools, message.content, turn, before, outcome, after) {
            let turn = choose|turn: Turn|
                turns(tools, message.content, turn, before, outcome, after);
            let all = turn_events(message.content, turn);
            let one = seq![EventView::ModelResponse { content: message.content }];
            assert(before.events + all =~= all);
            assert(before.events + one =~= one);
            assert(turns(tools, message.content, turn, earlier, outcome, later));
        }
    }
    assert(handles(tools, reply, earlier, outcome, later));
    assert(provider.completes(earlier.session, reply, next));
}

/// What a run does to a sink behind events that the sink took before.
proof fn lemma_logs_on<W: EventSink, P>(
    before: W,
    logged: Seq<EventView>,
    between: W,
    run: Run<P>,
    after: W,
)
    requires
        recorded(before, logged, between),
        logs(between, run, after),
    ensures
        logs(before, Run { events: logged + run.events, ..run }, after),
{
    match run.lost {
        None => {
            lemma_recorded_both(before, logged, between, run.events, after);
        },
        Some((event, error)) => {
            let last = choose|last: W|
                recorded(between, run.events, last) && #[trigger] lost(last, event, error, after);
            lemma_recorded_both(before, logged, between, run.events, last);
        },
    }
}

/// Drive the agent over a session: log the messages of the user in it, and
/// step until the model gives its final answer, an error ends the run, or
/// `max_steps` steps are done.
#[verifier::rlimit(30)]
pub fn run_loop<V: Provider, B: Toolbox<P>, W: EventSink, P: ApprovalPolicy>(
    provider: &mut V,
    registry: &B,
    session: &mut Session,
    max_steps: usize,
    events: &mut W,
    policy: &mut P,
) -> (r: Result<String, LoopError>)
    ensures
        exists|after: Run<P>|
            {
                &&& #[trigger] ran(
                    registry.tools(),
                    *old(provider),
                    starts(*old(policy), old(session)@),
                    max_steps,
                    answer_view(r),
                    *final(provider),
                    after,
                )
                &&& after.policy == *final(policy)
                &&& after.session == final(session)@
                &&& logs(*old(events), after, *final(events))
            },
        old(events).reliable() ==> final(events).reliable() && !log_lost(r),
{
    let ghost tools = registry.tools();
    let ghost first = *provider;
    let ghost before = starts(*policy, session@);
    let ghost sink = *events;
    let ghost seeded = session@.messages;
    proof {
        assert(seeded.take(0) =~= Seq::empty());
        assert(recorded(sink, user_events(seeded.take(0)), *events));
    }
    let mut i: usize = 0;
    while i < session.messages.len()
        invariant
            i <= session.messages@.len() == seeded.len(),
            *session == *old(session),
            *provider == *old(provider),
            *policy == *old(policy),
            first == *old(provider),
            tools == registry.tools(),
            sink == *old(events),
            seeded == session@.messages,
            before == starts(*policy, session@),
            recorded(sink, user_events(seeded.take(i as int)), *events),
            old(events).reliable() ==> events.reliable(),
        decreases session.messages@.len() - i,
    {
        let ghost done = user_events(seeded.take(i as int));
        let ghost state = *events;
        assert(seeded.take(i + 1).drop_last() =~= seeded.take(i as int));
        assert(seeded[i as int] == session.messages@[i as int]@);
        if session.messages[i].role == Role::User {
            let content = session.messages[i].content.clone();
            let ghost event = EventView::UserMessage { content: content@ };
            match write_event(events, &Event::UserMessage { content }) {
                Ok(()) => {
                    proof {
                        lemma_recorded_both(sink, done, state, seq![event], *events);
                        assert(done + seq![event] =~= done.push(event));
                    }
                },
                Err(e) => {
                    proof {
                        let after = before.with_events(done).losing(event, e@);
                        assert(after.events =~= done);
                        assert(after == before.with_events(
                            user_events(seeded.take(i as int)),
                        ).losing(event, e@));
                        assert(logs(sink, after, *events));
                        assert(ran(
                            tools,
                            first,
                            before,
                            max_steps,
                            Err(LoopErrorView::EventLog(e@)),
                            *provider,
                            after,
                        ));
                    }
                    return Err(LoopError::from(e));
                },
            }
        }
        i = i + 1;
    }
    assert(seeded.take(i as int) =~= seeded);
    let ghost opened = before.with_events(user_events(seeded));
    let ghost mut run = opened;
    assert(run.events =~= user_events(seeded));
    let ghost mut left = max_steps as nat;
    let mut done: usize = 0;
    while done < max_steps
        invariant
            done <= max_steps,
            left == max_steps - done,
            first == *old(provider),
            tools == registry.tools(),
            sink == *old(events),
            before == starts(*old(policy), old(session)@),
            opened == before.with_events(user_events(before.session.messages)),
            run.policy == *policy,
            run.session == session@,
            run.lost is None,
            recorded(sink, run.events, *events),
            old(events).reliable() ==> events.reliable(),
            forall|answer: Result<Seq<char>, LoopErrorView>, next: V, after: Run<P>| #[trigger]
                loops(
                    tools,
                    *provider,
                    run,
                    left,
                    max_steps,
                    answer,
                    next,
                    after,
                ) ==> loops(
                    tools,
                    first,
                    opened,
                    max_steps as nat,
                    max_steps,
                    answer,
                    next,
                    after,
                ),
        decreases max_steps - done,
    {
        let ghost asked = *provider;
        let ghost base = starts(*policy, session@);
        let ghost prior = run;
        let ghost state = *events;
        let stepped = run_step(provider, registry, session, events, policy);
        let ghost outcome = outcome_view(stepped);
        proof {
            let after = choose|after: Run<P>|
                {
                    &&& #[trigger] steps(tools, asked, base, outcome, *provider, after)
                    &&& after.policy == *policy
                    &&& after.session == session@
                    &&& logs(state, after, *events)
                };
            assert(Run { events: prior.events, ..base } == prior);
            lemma_steps_shift(tools, asked, base, outcome, *provider, after, prior.events);
            lemma_logs_on(sink, prior.events, state, after, *events);
            run = Run { events: prior.events + after.events, ..after };
        }
        match stepped {
            Ok(StepOutcome::Final(answer)) => {
                let ghost event = EventView::FinalAnswer { content: answer@ };
                let ghost noted = *events;
                match write_event(events, &Event::FinalAnswer { content: answer.clone() }) {
                    Ok(()) => {},
                    Err(e) => {
                        proof {
                            let ended = Err::<Seq<char>, LoopErrorView>(
                                LoopErrorView::EventLog(e@),
                            );
                            let after = run.losing(event, e@);
                            lemma_ends(
                                tools,
                                asked,
                                prior,
                                outcome,
                                *provider,
                                run,
                                left,
                                max_steps,
                                ended,
                                after,
                            );
                            assert(logs(sink, after, *events));
                            assert(ran(tools, first, before, max_steps, ended, *provider, after));
                        }
                        return Err(LoopError::from(e));
                    },
                }
                proof {
                    let after = run.with_events(seq![event]);
                    lemma_recorded_both(sink, run.events, noted, seq![event], *events);
                    lemma_ends(
                        tools,
                        asked,
                        prior,
                        outcome,
                        *provider,
                        run,
                        left,
                        max_steps,
                        Ok(answer@),
                        after,
                    );
                    assert(ran(tools, first, before, max_steps, Ok(answer@), *provider, after));
                }
                return Ok(answer);
            },
            Ok(_) => {
                proof {
                    lemma_goes_on(
                        tools,
                        asked,
                        prior,
                        outcome,
                        *provider,
                        run,
                        run,
                        left,
                        max_steps,
                    );
                }
            },
            Err(e) => match e.recovery_feedback() {
                Some(feedback) => {
                    let ghost told = run.with_messages(seq![says(Role::Tool, feedback@)]);
                    session.push_message(Message { role: Role::Tool, content: feedback });
                    proof {
                        assert(told.session.messages =~= session@.messages);
                        lemma_goes_on(
                            tools,
                            asked,
                            prior,
                            outcome,
                            *provider,
                            run,
                            told,
                            left,
                            max_steps,
                        );
                        run = told;
                    }
                },
                None => {
                    proof {
                        lemma_ends(
                            tools,
                            asked,
                            prior,
                            outcome,
                            *provider,
                            run,
                            left,
                            max_steps,
                            Err(e@),
                            run,
                        );
                        assert(ran(tools, first, before, max_steps, Err(e@), *provider, run));
                    }
                    return Err(e);
                },
            },
        }
        proof {
            left = (left - 1) as nat;
        }
        done = done + 1;
    }
    proof {
        let answer = Err::<Seq<char>, LoopErrorView>(LoopErrorView::MaxStepsExceeded { max_steps });
        assert(loops(tools, *provider, run, left, max_steps, answer, *provider, run)) by {
            reveal_with_fuel(loops, 1);
        }
        assert(ran(tools, first, before, max_steps, answer, *provider, run));
    }
    Err(LoopError::MaxStepsExceeded { max_steps })
}

} // verus!
