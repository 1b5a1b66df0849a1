//! What one step does to the session and the log, message by message and event
//! by event.
use vstd::prelude::*;

use crate::agent::{
    closes, handles, leads_to, lemma_first_step, log_failed, loops, steps, turns, user_events,
    AllowAll, ApprovalDecision, ApprovalPolicy, DenyAll, LoopErrorView, Run, StepOutcomeView, Turn,
};
use crate::data::DataView;
use crate::event::{EventLogErrorView, EventView};
use crate::message::{MessageView, Role};
use crate::output::{parsed, ModelOutputErrorView, ModelOutputView};
use crate::provider::{Provider, ProviderErrorView};
use crate::tool::{found, Tool, ToolErrorView};

verus! {

/// Whether a run is another one with these messages and events behind its own,
/// under a policy that may have decided since. Nothing else of it changed.
pub open spec fn goes_on<P>(
    before: Run<P>,
    messages: Seq<MessageView>,
    events: Seq<EventView>,
    after: Run<P>,
) -> bool {
    &&& after.session.id == before.session.id
    &&& after.session.created_at == before.session.created_at
    &&& after.session.messages == before.session.messages + messages
    &&& after.events == before.events + events
    &&& after.lost == before.lost
}

/// A call that a registered tool answered, with the policy's consent: behind
/// the session stand the reply as it came, and what the tool gave, whole; the
/// log holds the two as well, and the outcome says the same.
pub proof fn lemma_executed_call<T: Tool, P: ApprovalPolicy>(
    tools: Seq<T>,
    reply: MessageView,
    before: Run<P>,
    outcome: Result<StepOutcomeView, LoopErrorView>,
    after: Run<P>,
    name: Seq<char>,
    arguments: DataView,
    note: Option<Seq<char>>,
)
    requires
        handles(tools, Ok(reply), before, outcome, after),
        parsed(reply.content) == Ok::<ModelOutputView, Seq<char>>(
            ModelOutputView::ToolCall { tool_name: name, arguments, note },
        ),
        found(tools, name) is Some,
        forall|next: P| !#[trigger] before.policy.decides(
            name,
            arguments,
            ApprovalDecision::Deny,
            next,
        ),
        forall|e: ToolErrorView| !#[trigger] found(tools, name)->Some_0.gives(arguments, Err(e)),
        !(outcome is Err && log_failed(outcome->Err_0)),
    ensures
        outcome matches Ok(StepOutcomeView::ToolExecuted { tool_name, output }) && {
            &&& tool_name == name
            &&& found(tools, name)->Some_0.gives(arguments, Ok(output))
            &&& goes_on(
                before,
                seq![
                    MessageView { role: Role::Assistant, content: reply.content },
                    MessageView { role: Role::Tool, content: output },
                ],
                seq![
                    EventView::ModelResponse { content: reply.content },
                    EventView::ToolResult { tool_name: name, output },
                ],
                after,
            )
        },
{
    let turn = choose|turn: Turn| turns(tools, reply.content, turn, before, outcome, after);
    assert(leads_to(tools, before.policy, reply.content, turn, after.policy));
}

/// What becomes of a reply, where the log can be written. Each reply enters the
/// session as said by the model, and the log, whatever it says. A final answer
/// is the outcome; what cannot be read, and a tool that is not there, are
/// errors. A call that the policy denies is told so to the model; what a tool
/// gave is told to the model whole; that a tool failed is an error. The policy
/// decides on calls of registered tools only.
pub proof fn lemma_reply_becomes<T: Tool, P: ApprovalPolicy>(
    tools: Seq<T>,
    reply: MessageView,
    before: Run<P>,
    outcome: Result<StepOutcomeView, LoopErrorView>,
    after: Run<P>,
)
    requires
        handles(tools, Ok(reply), before, outcome, after),
        !(outcome is Err && log_failed(outcome->Err_0)),
    ensures
        match parsed(reply.content) {
            Err(message) => {
                &&& outcome == Err::<StepOutcomeView, LoopErrorView>(
                    LoopErrorView::Parse(ModelOutputErrorView::Parse(message)),
                )
                &&& goes_on(
                    before,
                    seq![MessageView { role: Role::Assistant, content: reply.content }],
                    seq![EventView::ModelResponse { content: reply.content }],
                    after,
                )
                &&& after.policy == before.policy
            },
            Ok(ModelOutputView::Final { content }) => {
                &&& outcome == Ok::<StepOutcomeView, LoopErrorView>(StepOutcomeView::Final(content))
                &&& goes_on(
                    before,
                    seq![MessageView { role: Role::Assistant, content: reply.content }],
                    seq![EventView::ModelResponse { content: reply.content }],
                    after,
                )
                &&& after.policy == before.policy
            },
            Ok(ModelOutputView::ToolCall { tool_name, arguments, .. }) => match found(
                tools,
                tool_name,
            ) {
                None => {
                    &&& outcome == Err::<StepOutcomeView, LoopErrorView>(
                        LoopErrorView::UnknownTool(tool_name),
                    )
                    &&& goes_on(
                        before,
                        seq![MessageView { role: Role::Assistant, content: reply.content }],
                        seq![EventView::ModelResponse { content: reply.content }],
                        after,
                    )
                    &&& after.policy == before.policy
                },
                Some(tool) => match outcome {
                    Ok(StepOutcomeView::ToolDenied { tool_name: name }) => {
                        &&& name == tool_name
                        &&& before.policy.decides(
                            tool_name,
                            arguments,
                            ApprovalDecision::Deny,
                            after.policy,
                        )
                        &&& goes_on(
                            before,
                            seq![
                                MessageView { role: Role::Assistant, content: reply.content },
                                MessageView {
                                    role: Role::Tool,
                                    content: "the tool `"@ + tool_name
                                        + "` was denied by the approval policy"@,
                                },
                            ],
                            seq![
                                EventView::ModelResponse { content: reply.content },
                                EventView::ToolDenied { tool_name },
                            ],
                            after,
                        )
                    },
                    Ok(StepOutcomeView::ToolExecuted { tool_name: name, output }) => {
                        &&& name == tool_name
                        &&& before.policy.decides(
                            tool_name,
                            arguments,
                            ApprovalDecision::Allow,
                            after.policy,
                        )
                        &&& tool.gives(arguments, Ok(output))
                        &&& goes_on(
                            before,
                            seq![
                                MessageView { role: Role::Assistant, content: reply.content },
                                MessageView { role: Role::Tool, content: output },
                            ],
                            seq![
                                EventView::ModelResponse { content: reply.content },
                                EventView::ToolResult { tool_name, output },
                            ],
                            after,
                        )
                    },
                    Err(LoopErrorView::Tool(e)) => {
                        &&& before.policy.decides(
                            tool_name,
                            arguments,
                            ApprovalDecision::Allow,
                            after.policy,
                        )
                        &&& tool.gives(arguments, Err(e))
                        &&& goes_on(
                            before,
                            seq![MessageView { role: Role::Assistant, content: reply.content }],
                            seq![EventView::ModelResponse { content: reply.content }],
                            after,
                        )
                    },
                    _ => false,
                },
            },
        },
{
    let turn = choose|turn: Turn| turns(tools, reply.content, turn, before, outcome, after);
    assert(leads_to(tools, before.policy, reply.content, turn, after.policy));
}

/// A provider that gives no reply leaves everything as it was, and its error is
/// handed on.
pub proof fn lemma_no_reply<T: Tool, P: ApprovalPolicy>(
    tools: Seq<T>,
    error: ProviderErrorView,
    before: Run<P>,
    outcome: Result<StepOutcomeView, LoopErrorView>,
    after: Run<P>,
)
    requires
        handles(tools, Err(error), before, outcome, after),
    ensures
        outcome == Err::<StepOutcomeView, LoopErrorView>(LoopErrorView::Provider(error)),
        after == before,
{
}

/// A step that fails to write the log ends where it failed: before the reply
/// entered the session, where the reply could not be logged; else behind the
/// reply, with what could not be logged of the call: that it was denied, or what
/// the tool gave. The error is the log's.
pub proof fn lemma_step_without_log<T: Tool, P: ApprovalPolicy>(
    tools: Seq<T>,
    reply: MessageView,
    before: Run<P>,
    outcome: Result<StepOutcomeView, LoopErrorView>,
    after: Run<P>,
    error: EventLogErrorView,
)
    requires
        handles(tools, Ok(reply), before, outcome, after),
        before.lost is None,
        outcome == Err::<StepOutcomeView, LoopErrorView>(LoopErrorView::EventLog(error)),
    ensures
        after.lost matches Some((event, told)) && told == error && match event {
            EventView::ModelResponse { content } => {
                &&& content == reply.content
                &&& after.session == before.session
                &&& after.events == before.events
                &&& after.policy == before.policy
            },
            EventView::ToolDenied { tool_name } => {
                &&& after.session.id == before.session.id
                &&& after.session.created_at == before.session.created_at
                &&& after.session.messages == before.session.messages.push(
                    MessageView { role: Role::Assistant, content: reply.content },
                )
                &&& after.events == before.events.push(
                    EventView::ModelResponse { content: reply.content },
                )
                &&& parsed(reply.content) matches Ok(
                    ModelOutputView::ToolCall { tool_name: name, arguments, .. },
                ) && name == tool_name && before.policy.decides(
                    name,
                    arguments,
                    ApprovalDecision::Deny,
                    after.policy,
                )
            },
            EventView::ToolResult { tool_name, output } => {
                &&& after.session.id == before.session.id
                &&& after.session.created_at == before.session.created_at
                &&& after.session.messages == before.session.messages.push(
                    MessageView { role: Role::Assistant, content: reply.content },
                )
                &&& after.events == before.events.push(
                    EventView::ModelResponse { content: reply.content },
                )
                &&& parsed(reply.content) matches Ok(
                    ModelOutputView::ToolCall { tool_name: name, arguments, .. },
                ) && name == tool_name && before.policy.decides(
                    name,
                    arguments,
                    ApprovalDecision::Allow,
                    after.policy,
                ) && found(tools, name) is Some && found(tools, name)->Some_0.gives(
                    arguments,
                    Ok(output),
                )
            },
            _ => false,
        },
{
    if exists|turn: Turn| turns(tools, reply.content, turn, before, outcome, after) {
        let turn = choose|turn: Turn| turns(tools, reply.content, turn, before, outcome, after);
        assert(leads_to(tools, before.policy, reply.content, turn, after.policy));
        let one = seq![EventView::ModelResponse { content: reply.content }];
        assert(before.events + one =~= before.events.push(one[0]));
        let said = seq![MessageView { role: Role::Assistant, content: reply.content }];
        assert(before.session.messages + said =~= before.session.messages.push(said[0]));
    }
}

/// A step hands the provider the session as it is, and does with its reply what
/// becomes of a reply.
pub proof fn lemma_step_asks_about_session<V: Provider, T: Tool, P: ApprovalPolicy>(
    tools: Seq<T>,
    provider: V,
    before: Run<P>,
    outcome: Result<StepOutcomeView, LoopErrorView>,
    next: V,
    after: Run<P>,
) -> (reply: Result<MessageView, ProviderErrorView>)
    requires
        steps(tools, provider, before, outcome, next, after),
    ensures
        provider.completes(before.session, reply, next),
        handles(tools, reply, before, outcome, after),
{
    choose|reply: Result<MessageView, ProviderErrorView>| #[trigger]
        provider.completes(before.session, reply, next) && handles(
            tools,
            reply,
            before,
            outcome,
            after,
        )
}

/// A final answer that can be logged is the answer of the run, and the last
/// event of its log; the session is done. One that cannot be logged is lost to
/// the error of the log.
pub proof fn lemma_final_answer<P>(
    before: Run<P>,
    content: Seq<char>,
    answer: Result<Seq<char>, LoopErrorView>,
    after: Run<P>,
)
    requires
        closes(before, content, answer, after),
    ensures
        after.session == before.session,
        after.policy == before.policy,
        match answer {
            Ok(given) => {
                &&& given == content
                &&& after.events == before.events.push(EventView::FinalAnswer { content })
                &&& after.lost == before.lost
            },
            Err(LoopErrorView::EventLog(error)) => {
                &&& after.events == before.events
                &&& after.lost == Some((EventView::FinalAnswer { content }, error))
            },
            Err(_) => false,
        },
{
    let last = seq![EventView::FinalAnswer { content }];
    assert(before.events + last =~= before.events.push(last[0]));
}

/// The events of the messages of the user are those of one part of a session
/// and behind them those of the other: each message of the user gives one with
/// its content, and no other message gives any.
pub proof fn lemma_user_events_of(
    first: Seq<MessageView>,
    second: Seq<MessageView>,
    message: MessageView,
)
    ensures
        user_events(first + second) == user_events(first) + user_events(second),
        user_events(seq![message]) == if message.role == Role::User {
            seq![EventView::UserMessage { content: message.content }]
        } else {
            Seq::empty()
        },
        user_events(Seq::empty()) == Seq::<EventView>::empty(),
    decreases second.len(),
{
    let one = seq![message];
    assert(one.drop_last() =~= Seq::empty());
    assert(user_events(one.drop_last()) =~= Seq::<EventView>::empty());
    assert(user_events(one) =~= if message.role == Role::User {
        seq![EventView::UserMessage { content: message.content }]
    } else {
        Seq::empty()
    });
    if second.len() == 0 {
        assert(first + second =~= first);
        assert(user_events(first) + user_events(second) =~= user_events(first));
    } else {
        lemma_user_events_of(first, second.drop_last(), message);
        assert((first + second).drop_last() =~= first + second.drop_last());
        assert(user_events(first + second) =~= user_events(first) + user_events(second));
    }
}

/// What the model is told of an error, and of which errors it is told. It is
/// told what it got wrong: the words of the parser, the name of the tool that
/// is not there, what the arguments lack, what the tool said. Of what it cannot
/// mend it is told nothing, and such an error ends the run.
pub proof fn lemma_told_of_errors(e: LoopErrorView)
    ensures
        e.feedback() == match e {
            LoopErrorView::Parse(ModelOutputErrorView::Parse(message)) => Some(
                "your previous output was not valid JSON (failed to parse model output: "@ + message
                    + "); reply with a single valid envelope"@,
            ),
            LoopErrorView::UnknownTool(name) => Some(
                "unknown tool `"@ + name + "`; call one of the registered tools instead"@,
            ),
            LoopErrorView::Tool(ToolErrorView::InvalidArguments(message)) => Some(
                "invalid tool arguments: "@ + message + "; correct them and try again"@,
            ),
            LoopErrorView::Tool(ToolErrorView::Execution(message)) => Some(
                "tool execution failed: "@ + message + "; try a different approach"@,
            ),
            LoopErrorView::Tool(ToolErrorView::Io(_)) => None,
            LoopErrorView::Provider(_) => None,
            LoopErrorView::EventLog(_) => None,
            LoopErrorView::MaxStepsExceeded { .. } => None,
        },
{
    if let LoopErrorView::Parse(ModelOutputErrorView::Parse(message)) = e {
        reveal_strlit("your previous output was not valid JSON (");
        reveal_strlit("failed to parse model output: ");
        reveal_strlit("your previous output was not valid JSON (failed to parse model output: ");
        assert("your previous output was not valid JSON (failed to parse model output: "@
            =~= "your previous output was not valid JSON ("@
            + "failed to parse model output: "@);
        let tail = "); reply with a single valid envelope"@;
        assert("your previous output was not valid JSON ("@ + ("failed to parse model output: "@
            + message) + tail
            =~= "your previous output was not valid JSON (failed to parse model output: "@ + message
            + tail);
    }
}

/// What an error says: what failed, and the words of the error beneath it, which
/// is its cause.
pub proof fn lemma_errors_say(e: LoopErrorView)
    ensures
        match e {
            LoopErrorView::Provider(ProviderErrorView::NoMoreResponses) => {
                &&& e.text() == "provider error: "@ + "no more scripted responses"@
                &&& e.cause() == Some("no more scripted responses"@)
            },
            LoopErrorView::Provider(ProviderErrorView::Backend(message)) => {
                &&& e.text() == "provider error: "@ + ("provider backend error: "@ + message)
                &&& e.cause() == Some("provider backend error: "@ + message)
            },
            LoopErrorView::Parse(ModelOutputErrorView::Parse(message)) => {
                &&& e.text() == "failed to parse model output: "@ + message
                &&& e.cause() == Some("failed to parse model output: "@ + message)
            },
            LoopErrorView::UnknownTool(name) => e.text() == "unknown tool: "@ + name && e.cause()
                is None,
            LoopErrorView::Tool(cause) => e.text() == cause.text() && e.cause() == Some(
                cause.text(),
            ),
            LoopErrorView::EventLog(EventLogErrorView::Io(message)) => {
                &&& e.text() == "event log error: "@ + ("event log io error: "@ + message)
                &&& e.cause() == Some("event log io error: "@ + message)
            },
            LoopErrorView::EventLog(EventLogErrorView::Serde(message)) => {
                &&& e.text() == "event log error: "@ + ("event log serialization error: "@
                    + message)
                &&& e.cause() == Some("event log serialization error: "@ + message)
            },
            LoopErrorView::MaxStepsExceeded { max_steps } => {
                &&& e.text() == "exceeded max steps ("@ + crate::text::decimal(max_steps as nat)
                    + ") without a final answer"@
                &&& e.cause() is None
            },
        },
{
}

/// One policy allows each call, the other denies each; neither says anything else.
pub proof fn lemma_policies_decide(
    name: Seq<char>,
    arguments: DataView,
    decision: ApprovalDecision,
    allows: AllowAll,
    denies: DenyAll,
)
    ensures
        allows.decides(name, arguments, decision, allows) <==> decision == ApprovalDecision::Allow,
        denies.decides(name, arguments, decision, denies) <==> decision == ApprovalDecision::Deny,
{
}

/// A run that may take a step takes one, and is done where that gives a final
/// answer or an error of which the model is not told. Else it goes on, with one
/// step less: as the step left it, or, after an error of which the model is told,
/// with that told behind the session, as said by a tool.
pub proof fn lemma_run_goes_on<V: Provider, T: Tool, P: ApprovalPolicy>(
    tools: Seq<T>,
    provider: V,
    before: Run<P>,
    left: nat,
    max_steps: usize,
    answer: Result<Seq<char>, LoopErrorView>,
    next: V,
    after: Run<P>,
) -> (first: (Result<StepOutcomeView, LoopErrorView>, V, Run<P>, Run<P>))
    requires
        left > 0,
        loops(tools, provider, before, left, max_steps, answer, next, after),
    ensures
        steps(tools, provider, before, first.0, first.1, first.2),
        match first.0 {
            Ok(StepOutcomeView::Final(content)) => next == first.1 && closes(
                first.2,
                content,
                answer,
                after,
            ),
            Ok(_) => first.3 == first.2 && loops(
                tools,
                first.1,
                first.3,
                (left - 1) as nat,
                max_steps,
                answer,
                next,
                after,
            ),
            Err(e) => match e.feedback() {
                None => {
                    &&& answer == Err::<Seq<char>, LoopErrorView>(e)
                    &&& next == first.1
                    &&& after == first.2
                },
                Some(feedback) => {
                    &&& first.3.session.id == first.2.session.id
                    &&& first.3.session.created_at == first.2.session.created_at
                    &&& first.3.session.messages == first.2.session.messages.push(
                        MessageView { role: Role::Tool, content: feedback },
                    )
                    &&& first.3.events == first.2.events
                    &&& first.3.policy == first.2.policy
                    &&& first.3.lost == first.2.lost
                    &&& loops(
                        tools,
                        first.1,
                        first.3,
                        (left - 1) as nat,
                        max_steps,
                        answer,
                        next,
                        after,
                    )
                },
            },
        },
{
    let (outcome, between, run) = lemma_first_step(
        tools,
        provider,
        before,
        left,
        max_steps,
        answer,
        next,
        after,
    );
    let told = match outcome {
        Err(e) => match e.feedback() {
            Some(feedback) => {
                let message = MessageView { role: Role::Tool, content: feedback };
                let told = run.with_messages(seq![message]);
                assert(told.session.messages =~= run.session.messages.push(message));
                told
            },
            None => run,
        },
        Ok(_) => run,
    };
    (outcome, between, run, told)
}

} // verus!
