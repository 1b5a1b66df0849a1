//! What holds of every run of the agent loop.
use vstd::prelude::*;

use crate::agent::{
    denial, handles, leads_to, lemma_first_step, log_failed, loops, ran, starts, steps,
    turn_events, turn_messages, turn_outcome, turns, user_events, AllowAll, ApprovalDecision,
    ApprovalPolicy, DenyAll, LoopErrorView, Run, StepOutcomeView, Turn,
};
use crate::data::DataView;
use crate::event::EventView;
use crate::message::{says, MessageView, Role, SessionView};
use crate::output::{parsed, ModelOutputView};
use crate::provider::{MockProvider, Provider, ProviderErrorView};
use crate::tool::{found, lemma_found, tool_names, Tool};

pub mod commands;
pub mod endpoint;
pub mod envelope;
pub mod log;
pub mod readers;
pub mod records;
pub mod refusals;
pub mod steps;
pub mod texts;
pub mod toolbox;
pub mod trials;
pub mod views;

verus! {

/// How many of the events are of a sort.
pub open spec fn tally(events: Seq<EventView>, sort: spec_fn(EventView) -> bool) -> nat
    decreases events.len(),
{
    if events.len() == 0 {
        0
    } else {
        tally(events.drop_last(), sort) + if sort(events.last()) {
            1nat
        } else {
            0nat
        }
    }
}

/// A reply of the model.
pub open spec fn is_response() -> spec_fn(EventView) -> bool {
    |e: EventView| e is ModelResponse
}

/// A final answer.
pub open spec fn is_answer() -> spec_fn(EventView) -> bool {
    |e: EventView| e is FinalAnswer
}

/// A result of a tool.
pub open spec fn is_result() -> spec_fn(EventView) -> bool {
    |e: EventView| e is ToolResult
}

/// A denial of a tool.
pub open spec fn is_denial() -> spec_fn(EventView) -> bool {
    |e: EventView| e is ToolDenied
}

/// A message of the user.
pub open spec fn is_user() -> spec_fn(EventView) -> bool {
    |e: EventView| e is UserMessage
}

/// What is counted in two runs of events is counted in each.
pub proof fn lemma_tally_concat(
    a: Seq<EventView>,
    b: Seq<EventView>,
    sort: spec_fn(EventView) -> bool,
)
    ensures
        tally(a + b, sort) == tally(a, sort) + tally(b, sort),
    decreases b.len(),
{
    if b.len() == 0 {
        assert(a + b =~= a);
    } else {
        assert((a + b).drop_last() =~= a + b.drop_last());
        lemma_tally_concat(a, b.drop_last(), sort);
    }
}

/// Whether a session may be a later state of another in a run: with the same id
/// and time of creation, and with messages of the model and of tools behind the
/// messages that it had.
pub open spec fn grows(before: SessionView, after: SessionView) -> bool {
    &&& after.id == before.id
    &&& after.created_at == before.created_at
    &&& before.messages.is_prefix_of(after.messages)
    &&& forall|i: int|
        before.messages.len() <= i < after.messages.len() ==> {
            ||| (#[trigger] after.messages[i]).role == Role::Assistant
            ||| after.messages[i].role == Role::Tool
        }
}

proof fn lemma_grows(before: SessionView, added: Seq<MessageView>)
    requires
        forall|i: int|
            0 <= i < added.len() ==> {
                ||| (#[trigger] added[i]).role == Role::Assistant
                ||| added[i].role == Role::Tool
            },
    ensures
        grows(before, SessionView { messages: before.messages + added, ..before }),
{
    let all = before.messages + added;
    assert(before.messages =~= all.take(before.messages.len() as int));
    assert forall|i: int| before.messages.len() <= i < all.len() implies {
        ||| (#[trigger] all[i]).role == Role::Assistant
        ||| all[i].role == Role::Tool
    } by {
        assert(all[i] == added[i - before.messages.len()]);
    }
}

proof fn lemma_grows_on(a: SessionView, b: SessionView, c: SessionView)
    requires
        grows(a, b),
        grows(b, c),
    ensures
        grows(a, c),
{
    lemma_prefix_of_prefix(a.messages, b.messages, c.messages);
    assert forall|i: int| a.messages.len() <= i < c.messages.len() implies {
        ||| (#[trigger] c.messages[i]).role == Role::Assistant
        ||| c.messages[i].role == Role::Tool
    } by {
        if i < b.messages.len() {
            assert(c.messages[i] == c.messages.take(b.messages.len() as int)[i]);
            assert(c.messages[i] == b.messages[i]);
        }
    }
}

/// What a step does to a run: it adds one reply to the log, or none where the
/// provider or the log failed, and no final answer, and the session grows.
proof fn lemma_step<V: Provider, T: Tool, P: ApprovalPolicy>(
    tools: Seq<T>,
    provider: V,
    before: Run<P>,
    outcome: Result<StepOutcomeView, LoopErrorView>,
    next: V,
    after: Run<P>,
) -> (reply: Result<MessageView, ProviderErrorView>)
    requires
        steps(tools, provider, before, outcome, next, after),
    ensures
        provider.completes(before.session, reply, next),
        outcome matches Err(LoopErrorView::Provider(e)) ==> reply == Err::<
            MessageView,
            ProviderErrorView,
        >(e),
        reply is Err ==> outcome is Err && outcome->Err_0 is Provider,
        !(outcome is Err && log_failed(outcome->Err_0)) ==> tally(after.events, is_response())
            == tally(before.events, is_response()) + if reply is Ok {
            1nat
        } else {
            0nat
        },
        grows(before.session, after.session),
        before.events.is_prefix_of(after.events),
        tally(after.events, is_answer()) == tally(before.events, is_answer()),
        tally(after.events, is_response()) <= tally(before.events, is_response()) + 1,
        outcome is Ok ==> tally(after.events, is_response()) == tally(
            before.events,
            is_response(),
        ) + 1,
        outcome matches Err(e) ==> !(e is MaxStepsExceeded) && (e.feedback() is Some ==> tally(
            after.events,
            is_response(),
        ) == tally(before.events, is_response()) + 1),
{
    let reply = choose|reply: Result<MessageView, ProviderErrorView>| #[trigger]
        provider.completes(before.session, reply, next) && handles(
            tools,
            reply,
            before,
            outcome,
            after,
        );
    if let Ok(message) = reply {
        if exists|turn: Turn| turns(tools, message.content, turn, before, outcome, after) {
            let turn = choose|turn: Turn|
                turns(tools, message.content, turn, before, outcome, after);
            let said = message.content;
            let response = EventView::ModelResponse { content: said };
            let added = if outcome is Err && log_failed(outcome->Err_0) && (turn is Denied
                || turn is Ran) {
                seq![response]
            } else {
                turn_events(said, turn)
            };
            assert(after.events =~= before.events + added);
            lemma_tally_concat(before.events, added, is_answer());
            lemma_tally_concat(before.events, added, is_response());
            reveal_with_fuel(tally, 3);
            assert(added.drop_last() =~= added.take(added.len() - 1));
            assert(tally(added, is_answer()) == 0);
            assert(tally(added, is_response()) == 1);
            assert(before.events =~= after.events.take(before.events.len() as int));
            let heard = if outcome is Err && log_failed(outcome->Err_0) && (turn is Denied
                || turn is Ran) {
                seq![says(Role::Assistant, said)]
            } else {
                turn_messages(said, turn)
            };
            lemma_grows(before.session, heard);
        }
    }
    if after.events == before.events && after.session == before.session {
        assert(before.events =~= after.events.take(before.events.len() as int));
        lemma_grows_not(before.session);
    }
    reply
}

proof fn lemma_grows_not(session: SessionView)
    ensures
        grows(session, session),
{
    assert(session.messages =~= session.messages.take(session.messages.len() as int));
}

/// What steps do to a run, as one step does.
proof fn lemma_loop<V: Provider, T: Tool, P: ApprovalPolicy>(
    tools: Seq<T>,
    provider: V,
    before: Run<P>,
    left: nat,
    max_steps: usize,
    answer: Result<Seq<char>, LoopErrorView>,
    next: V,
    after: Run<P>,
)
    requires
        loops(tools, provider, before, left, max_steps, answer, next, after),
    ensures
        grows(before.session, after.session),
        before.events.is_prefix_of(after.events),
        tally(after.events, is_response()) <= tally(before.events, is_response()) + left,
        answer matches Ok(content) ==> after.events.len() > 0 && after.events.last()
            == (EventView::FinalAnswer { content }),
        answer is Ok ==> tally(after.events, is_answer()) == tally(before.events, is_answer()) + 1,
        answer is Err ==> tally(after.events, is_answer()) == tally(before.events, is_answer()),
        answer matches Err(e) ==> e.feedback() is None,
        answer matches Err(LoopErrorView::MaxStepsExceeded { max_steps: most }) ==> most
            == max_steps && tally(after.events, is_response()) == tally(
            before.events,
            is_response(),
        ) + left,
    decreases left,
{
    reveal_with_fuel(loops, 2);
    if left == 0 {
        assert(before.events =~= after.events.take(before.events.len() as int));
        lemma_grows_not(before.session);
    } else {
        let (outcome, between, run) = lemma_first_step(
            tools,
            provider,
            before,
            left,
            max_steps,
            answer,
            next,
            after,
        );
        lemma_step(tools, provider, before, outcome, between, run);
        match outcome {
            Ok(StepOutcomeView::Final(content)) => {
                let last = seq![EventView::FinalAnswer { content }];
                lemma_tally_concat(run.events, last, is_answer());
                lemma_tally_concat(run.events, last, is_response());
                reveal_with_fuel(tally, 2);
                assert(last.drop_last() =~= Seq::empty());
                if answer is Ok {
                    assert(run.events =~= after.events.take(run.events.len() as int));
                    assert(before.events =~= after.events.take(before.events.len() as int));
                }
            },
            Ok(_) => {
                lemma_loop(
                    tools,
                    between,
                    run,
                    (left - 1) as nat,
                    max_steps,
                    answer,
                    next,
                    after,
                );
                lemma_prefix_of_prefix(before.events, run.events, after.events);
                lemma_grows_on(before.session, run.session, after.session);
            },
            Err(e) => if let Some(feedback) = e.feedback() {
                let told = run.with_messages(seq![says(Role::Tool, feedback)]);
                lemma_grows(run.session, seq![says(Role::Tool, feedback)]);
                lemma_loop(
                    tools,
                    between,
                    told,
                    (left - 1) as nat,
                    max_steps,
                    answer,
                    next,
                    after,
                );
                lemma_prefix_of_prefix(before.events, run.events, after.events);
                lemma_grows_on(before.session, run.session, told.session);
                lemma_grows_on(before.session, told.session, after.session);
            },
        }
    }
}

proof fn lemma_prefix_of_prefix<A>(a: Seq<A>, b: Seq<A>, c: Seq<A>)
    requires
        a.is_prefix_of(b),
        b.is_prefix_of(c),
    ensures
        a.is_prefix_of(c),
{
    assert(a =~= c.take(a.len() as int)) by {
        assert(b == c.take(b.len() as int));
        assert(a == b.take(a.len() as int));
    }
}

proof fn lemma_user_events(messages: Seq<MessageView>)
    ensures
        tally(user_events(messages), is_response()) == 0,
        tally(user_events(messages), is_answer()) == 0,
        tally(user_events(messages), is_result()) == 0,
        tally(user_events(messages), is_denial()) == 0,
        tally(user_events(messages), is_user()) == user_events(messages).len(),
    decreases messages.len(),
{
    if messages.len() > 0 {
        lemma_user_events(messages.drop_last());
        if messages.last().role == Role::User {
            let event = EventView::UserMessage { content: messages.last().content };
            let rest = user_events(messages.drop_last());
            assert(user_events(messages).drop_last() =~= rest);
        }
    }
}

/// A run that is no loop could not log a message of the user.
proof fn lemma_cut_short<V: Provider, T: Tool, P: ApprovalPolicy>(
    tools: Seq<T>,
    provider: V,
    policy: P,
    session: SessionView,
    max_steps: usize,
    answer: Result<Seq<char>, LoopErrorView>,
    next: V,
    after: Run<P>,
) -> (k: int)
    requires
        ran(tools, provider, starts(policy, session), max_steps, answer, next, after),
        !loops(
            tools,
            provider,
            starts(policy, session).with_events(user_events(session.messages)),
            max_steps as nat,
            max_steps,
            answer,
            next,
            after,
        ),
    ensures
        0 <= k < session.messages.len(),
        after.events == user_events(session.messages.take(k)),
        after.session == session,
        answer is Err && log_failed(answer->Err_0),
        next == provider,
{
    let before = starts(policy, session);
    let k = choose|k: int|
        {
            &&& 0 <= k < session.messages.len()
            &&& session.messages[k].role == Role::User
            &&& after == before.with_events(
                user_events(#[trigger] session.messages.take(k)),
            ).losing(
                EventView::UserMessage { content: session.messages[k].content },
                answer->Err_0->EventLog_0,
            )
        };
    assert(after.events =~= user_events(session.messages.take(k)));
    k
}

/// The session of a run keeps its id, its time of creation and its messages,
/// and gets further messages behind these, of the model and of tools alone.
pub proof fn lemma_run_grows_session<V: Provider, T: Tool, P: ApprovalPolicy>(
    tools: Seq<T>,
    provider: V,
    policy: P,
    session: SessionView,
    max_steps: usize,
    answer: Result<Seq<char>, LoopErrorView>,
    next: V,
    after: Run<P>,
)
    requires
        ran(tools, provider, starts(policy, session), max_steps, answer, next, after),
    ensures
        grows(session, after.session),
{
    let before = starts(policy, session);
    let opened = before.with_events(user_events(session.messages));
    if loops(tools, provider, opened, max_steps as nat, max_steps, answer, next, after) {
        lemma_loop(tools, provider, opened, max_steps as nat, max_steps, answer, next, after);
    } else {
        lemma_grows_not(session);
    }
}

/// A run logs at most `max_steps` replies of the model, and one that ends for
/// want of steps logged so many.
pub proof fn lemma_run_is_bounded<V: Provider, T: Tool, P: ApprovalPolicy>(
    tools: Seq<T>,
    provider: V,
    policy: P,
    session: SessionView,
    max_steps: usize,
    answer: Result<Seq<char>, LoopErrorView>,
    next: V,
    after: Run<P>,
)
    requires
        ran(tools, provider, starts(policy, session), max_steps, answer, next, after),
    ensures
        tally(after.events, is_response()) <= max_steps,
        answer matches Err(LoopErrorView::MaxStepsExceeded { max_steps: most }) ==> most
            == max_steps && tally(after.events, is_response()) == max_steps,
{
    let before = starts(policy, session);
    let opened = before.with_events(user_events(session.messages));
    assert(opened.events =~= user_events(session.messages));
    lemma_user_events(session.messages);
    if loops(tools, provider, opened, max_steps as nat, max_steps, answer, next, after) {
        lemma_loop(tools, provider, opened, max_steps as nat, max_steps, answer, next, after);
    } else {
        let k = lemma_cut_short(
            tools,
            provider,
            policy,
            session,
            max_steps,
            answer,
            next,
            after,
        );
        lemma_user_events(session.messages.take(k));
    }
}

/// A run that gives an answer logs it, once and last; one that does not, logs
/// none.
pub proof fn lemma_answer_is_logged<V: Provider, T: Tool, P: ApprovalPolicy>(
    tools: Seq<T>,
    provider: V,
    policy: P,
    session: SessionView,
    max_steps: usize,
    answer: Result<Seq<char>, LoopErrorView>,
    next: V,
    after: Run<P>,
)
    requires
        ran(tools, provider, starts(policy, session), max_steps, answer, next, after),
    ensures
        answer matches Ok(content) ==> after.events.len() > 0 && after.events.last()
            == (EventView::FinalAnswer { content }),
        tally(after.events, is_answer()) == if answer is Ok {
            1nat
        } else {
            0nat
        },
{
    let before = starts(policy, session);
    let opened = before.with_events(user_events(session.messages));
    assert(opened.events =~= user_events(session.messages));
    lemma_user_events(session.messages);
    if loops(tools, provider, opened, max_steps as nat, max_steps, answer, next, after) {
        lemma_loop(tools, provider, opened, max_steps as nat, max_steps, answer, next, after);
    } else {
        let k = lemma_cut_short(
            tools,
            provider,
            policy,
            session,
            max_steps,
            answer,
            next,
            after,
        );
        lemma_user_events(session.messages.take(k));
    }
}

/// A run ends with an answer, for want of steps, with the error of the provider,
/// with a failure of a tool's own input or output, or with an error of the log:
/// no error that the model could mend ends it.
pub proof fn lemma_run_recovers<V: Provider, T: Tool, P: ApprovalPolicy>(
    tools: Seq<T>,
    provider: V,
    policy: P,
    session: SessionView,
    max_steps: usize,
    answer: Result<Seq<char>, LoopErrorView>,
    next: V,
    after: Run<P>,
)
    requires
        ran(tools, provider, starts(policy, session), max_steps, answer, next, after),
    ensures
        answer matches Err(e) ==> {
            &&& e.feedback() is None
            &&& match e {
                LoopErrorView::MaxStepsExceeded { max_steps: most } => most == max_steps,
                LoopErrorView::Provider(_) => true,
                LoopErrorView::Tool(cause) => cause is Io,
                LoopErrorView::EventLog(_) => true,
                _ => false,
            }
        },
{
    let opened = starts(policy, session).with_events(user_events(session.messages));
    if loops(tools, provider, opened, max_steps as nat, max_steps, answer, next, after) {
        lemma_loop(tools, provider, opened, max_steps as nat, max_steps, answer, next, after);
    }
}

/// The log of a run starts with the messages of the user, in order, and holds no
/// further one, as long as it could be written.
pub proof fn lemma_run_opens_with_user<V: Provider, T: Tool, P: ApprovalPolicy>(
    tools: Seq<T>,
    provider: V,
    policy: P,
    session: SessionView,
    max_steps: usize,
    answer: Result<Seq<char>, LoopErrorView>,
    next: V,
    after: Run<P>,
)
    requires
        ran(tools, provider, starts(policy, session), max_steps, answer, next, after),
        !(answer is Err && log_failed(answer->Err_0)),
    ensures
        user_events(session.messages).is_prefix_of(after.events),
        forall|i: int|
            user_events(session.messages).len() <= i < after.events.len() ==> !((
            #[trigger] after.events[i]) is UserMessage),
{
    let opened = starts(policy, session).with_events(user_events(session.messages));
    let asked = user_events(session.messages);
    assert(opened.events =~= asked);
    lemma_loop(tools, provider, opened, max_steps as nat, max_steps, answer, next, after);
    assert forall|
        p: V,
        b: Run<P>,
        o: Result<StepOutcomeView, LoopErrorView>,
        n: V,
        a: Run<P>,
    | #[trigger] steps(tools, p, b, o, n, a) implies tally(a.events, is_user()) == tally(
        b.events,
        is_user(),
    ) by {
        lemma_step_without(tools, p, b, o, n, a);
    }
    lemma_loop_without(
        tools,
        provider,
        opened,
        max_steps as nat,
        max_steps,
        answer,
        next,
        after,
        is_user(),
    );
    lemma_user_events(session.messages);
    let later = after.events.skip(asked.len() as int);
    assert(after.events =~= asked + later);
    lemma_tally_concat(asked, later, is_user());
    assert forall|i: int| asked.len() <= i < after.events.len() implies !((
    #[trigger] after.events[i]) is UserMessage) by {
        let j = i - asked.len();
        assert(later[j] == after.events[i]);
        lemma_tally_of_none(later, is_user(), j);
    }
}

proof fn lemma_tally_of_none(events: Seq<EventView>, sort: spec_fn(EventView) -> bool, i: int)
    requires
        tally(events, sort) == 0,
        0 <= i < events.len(),
    ensures
        !sort(events[i]),
    decreases events.len(),
{
    if i < events.len() - 1 {
        lemma_tally_of_none(events.drop_last(), sort, i);
    }
}

/// What no step logs, and what is no final answer, a loop does not log.
proof fn lemma_loop_without<V: Provider, T: Tool, P: ApprovalPolicy>(
    tools: Seq<T>,
    provider: V,
    before: Run<P>,
    left: nat,
    max_steps: usize,
    answer: Result<Seq<char>, LoopErrorView>,
    next: V,
    after: Run<P>,
    sort: spec_fn(EventView) -> bool,
)
    requires
        loops(tools, provider, before, left, max_steps, answer, next, after),
        forall|content: Seq<char>| !sort(EventView::FinalAnswer { content }),
        forall|
            p: V,
            b: Run<P>,
            o: Result<StepOutcomeView, LoopErrorView>,
            n: V,
            a: Run<P>,
        | #[trigger]
            steps(tools, p, b, o, n, a) ==> tally(a.events, sort) == tally(b.events, sort),
    ensures
        tally(after.events, sort) == tally(before.events, sort),
    decreases left,
{
    reveal_with_fuel(loops, 2);
    if left > 0 {
        let (outcome, between, run) = lemma_first_step(
            tools,
            provider,
            before,
            left,
            max_steps,
            answer,
            next,
            after,
        );
        match outcome {
            Ok(StepOutcomeView::Final(content)) => {
                let last = seq![EventView::FinalAnswer { content }];
                lemma_tally_concat(run.events, last, sort);
                reveal_with_fuel(tally, 2);
                assert(last.drop_last() =~= Seq::empty());
            },
            Ok(_) => {
                lemma_loop_without(
                    tools,
                    between,
                    run,
                    (left - 1) as nat,
                    max_steps,
                    answer,
                    next,
                    after,
                    sort,
                );
            },
            Err(e) => if let Some(feedback) = e.feedback() {
                lemma_loop_without(
                    tools,
                    between,
                    run.with_messages(seq![says(Role::Tool, feedback)]),
                    (left - 1) as nat,
                    max_steps,
                    answer,
                    next,
                    after,
                    sort,
                );
            },
        }
    }
}

/// What a tool gave is heard of only where the reply calls the tool by its name
/// and the policy was asked of that very call and allowed it.
pub proof fn lemma_tool_runs_only_if_allowed<T: Tool, P: ApprovalPolicy>(
    tools: Seq<T>,
    before: P,
    reply: Seq<char>,
    turn: Turn,
    after: P,
)
    requires
        leads_to(tools, before, reply, turn, after),
        turn is Ran || turn is Failed,
    ensures
        parsed(reply) matches Ok(ModelOutputView::ToolCall { tool_name, arguments, .. })
            && tool_names(tools).contains(tool_name) && before.decides(
            tool_name,
            arguments,
            ApprovalDecision::Allow,
            after,
        ) && (turn matches Turn::Ran(name, _) ==> name == tool_name),
{
    match parsed(reply) {
        Ok(ModelOutputView::ToolCall { tool_name, .. }) => {
            lemma_found(tools, tool_name);
        },
        _ => {},
    }
}

/// Whether a turn is what a call of a tool comes to under a decision: on consent
/// what that tool gives for these arguments, and else that it was denied.
pub open spec fn decided<T: Tool>(
    tool: T,
    tool_name: Seq<char>,
    arguments: DataView,
    decision: ApprovalDecision,
    turn: Turn,
) -> bool {
    match decision {
        ApprovalDecision::Allow => match turn {
            Turn::Ran(name, output) => name == tool_name && tool.gives(arguments, Ok(output)),
            Turn::Failed(e) => tool.gives(arguments, Err(e)),
            _ => false,
        },
        ApprovalDecision::Deny => turn == Turn::Denied(tool_name),
    }
}

/// The policy decides once on each call of a registered tool, on that very call:
/// its state behind the step is the one behind that decision, and the tool's
/// result is heard of exactly where the decision was to allow the call. On no
/// other reply does the policy decide: its state stays as it was.
pub proof fn lemma_policy_decides_once<T: Tool, P: ApprovalPolicy>(
    tools: Seq<T>,
    before: P,
    reply: Seq<char>,
    turn: Turn,
    after: P,
)
    requires
        leads_to(tools, before, reply, turn, after),
    ensures
        match parsed(reply) {
            Ok(ModelOutputView::ToolCall { tool_name, arguments, .. }) => match found(
                tools,
                tool_name,
            ) {
                Some(tool) => exists|decision: ApprovalDecision|
                    #[trigger] before.decides(tool_name, arguments, decision, after) && decided(
                        tool,
                        tool_name,
                        arguments,
                        decision,
                        turn,
                    ),
                None => after == before && turn == Turn::Unknown(tool_name),
            },
            _ => after == before && !(turn is Ran || turn is Failed || turn is Denied),
        },
{
    if let Ok(ModelOutputView::ToolCall { tool_name, arguments, .. }) = parsed(reply) {
        if found(tools, tool_name) is Some {
            let decision = if turn is Denied {
                ApprovalDecision::Deny
            } else {
                ApprovalDecision::Allow
            };
            assert(before.decides(tool_name, arguments, decision, after));
        }
    }
}

/// A call that the policy denies adds nothing of the tool to the session or the
/// log: only the reply, and that it was denied.
pub proof fn lemma_denied_call<T: Tool, P: ApprovalPolicy>(
    tools: Seq<T>,
    before: P,
    reply: Seq<char>,
    turn: Turn,
    after: P,
    tool_name: Seq<char>,
    arguments: DataView,
    note: Option<Seq<char>>,
)
    requires
        leads_to(tools, before, reply, turn, after),
        parsed(reply) == Ok::<ModelOutputView, Seq<char>>(
            ModelOutputView::ToolCall { tool_name, arguments, note },
        ),
        tool_names(tools).contains(tool_name),
        !before.decides(tool_name, arguments, ApprovalDecision::Allow, after),
    ensures
        turn_messages(reply, turn) == seq![
            says(Role::Assistant, reply),
            says(Role::Tool, denial(tool_name)),
        ],
        turn_events(reply, turn) == seq![
            EventView::ModelResponse { content: reply },
            EventView::ToolDenied { tool_name },
        ],
        turn_outcome(turn) == Ok::<StepOutcomeView, LoopErrorView>(
            StepOutcomeView::ToolDenied { tool_name },
        ),
{
    lemma_found(tools, tool_name);
}

/// A policy that allows no call, in whatever state it is.
pub open spec fn never_allows<P: ApprovalPolicy>() -> bool {
    forall|p: P, name: Seq<char>, arguments: DataView, next: P|
        !#[trigger] p.decides(name, arguments, ApprovalDecision::Allow, next)
}

/// A policy that denies no call, in whatever state it is.
pub open spec fn never_denies<P: ApprovalPolicy>() -> bool {
    forall|p: P, name: Seq<char>, arguments: DataView, next: P|
        !#[trigger] p.decides(name, arguments, ApprovalDecision::Deny, next)
}

/// Under [`DenyAll`] no call is allowed, and under [`AllowAll`] none is denied.
pub proof fn lemma_policies()
    ensures
        never_allows::<DenyAll>(),
        never_denies::<AllowAll>(),
{
}

proof fn lemma_step_without<V: Provider, T: Tool, P: ApprovalPolicy>(
    tools: Seq<T>,
    provider: V,
    before: Run<P>,
    outcome: Result<StepOutcomeView, LoopErrorView>,
    next: V,
    after: Run<P>,
)
    requires
        steps(tools, provider, before, outcome, next, after),
    ensures
        never_allows::<P>() ==> tally(after.events, is_result()) == tally(
            before.events,
            is_result(),
        ),
        never_denies::<P>() ==> tally(after.events, is_denial()) == tally(
            before.events,
            is_denial(),
        ),
        tally(after.events, is_user()) == tally(before.events, is_user()),
{
    let reply = choose|reply: Result<MessageView, ProviderErrorView>| #[trigger]
        provider.completes(before.session, reply, next) && handles(
            tools,
            reply,
            before,
            outcome,
            after,
        );
    if let Ok(message) = reply {
        if exists|turn: Turn| turns(tools, message.content, turn, before, outcome, after) {
            let turn = choose|turn: Turn|
                turns(tools, message.content, turn, before, outcome, after);
            let said = message.content;
            let added = if outcome is Err && log_failed(outcome->Err_0) && (turn is Denied
                || turn is Ran) {
                seq![EventView::ModelResponse { content: said }]
            } else {
                turn_events(said, turn)
            };
            assert(after.events =~= before.events + added);
            lemma_tally_concat(before.events, added, is_result());
            lemma_tally_concat(before.events, added, is_denial());
            lemma_tally_concat(before.events, added, is_user());
            reveal_with_fuel(tally, 3);
            assert(added.drop_last() =~= added.take(added.len() - 1));
        }
    }
}

/// Where the policy allows no call, no tool's result is logged.
pub proof fn lemma_denied_run_has_no_result<V: Provider, T: Tool, P: ApprovalPolicy>(
    tools: Seq<T>,
    provider: V,
    policy: P,
    session: SessionView,
    max_steps: usize,
    answer: Result<Seq<char>, LoopErrorView>,
    next: V,
    after: Run<P>,
)
    requires
        ran(tools, provider, starts(policy, session), max_steps, answer, next, after),
        never_allows::<P>(),
    ensures
        tally(after.events, is_result()) == 0,
{
    let before = starts(policy, session);
    let opened = before.with_events(user_events(session.messages));
    assert(opened.events =~= user_events(session.messages));
    lemma_user_events(session.messages);
    if loops(tools, provider, opened, max_steps as nat, max_steps, answer, next, after) {
        assert forall|
            p: V,
            b: Run<P>,
            o: Result<StepOutcomeView, LoopErrorView>,
            n: V,
            a: Run<P>,
        | #[trigger] steps(tools, p, b, o, n, a) implies tally(a.events, is_result()) == tally(
            b.events,
            is_result(),
        ) by {
            lemma_step_without(tools, p, b, o, n, a);
        }
        lemma_loop_without(
            tools,
            provider,
            opened,
            max_steps as nat,
            max_steps,
            answer,
            next,
            after,
            is_result(),
        );
    } else {
        let k = lemma_cut_short(
            tools,
            provider,
            policy,
            session,
            max_steps,
            answer,
            next,
            after,
        );
        lemma_user_events(session.messages.take(k));
    }
}

/// Where the policy denies no call, no denial is logged.
pub proof fn lemma_allowed_run_has_no_denial<V: Provider, T: Tool, P: ApprovalPolicy>(
    tools: Seq<T>,
    provider: V,
    policy: P,
    session: SessionView,
    max_steps: usize,
    answer: Result<Seq<char>, LoopErrorView>,
    next: V,
    after: Run<P>,
)
    requires
        ran(tools, provider, starts(policy, session), max_steps, answer, next, after),
        never_denies::<P>(),
    ensures
        tally(after.events, is_denial()) == 0,
{
    let before = starts(policy, session);
    let opened = before.with_events(user_events(session.messages));
    assert(opened.events =~= user_events(session.messages));
    lemma_user_events(session.messages);
    if loops(tools, provider, opened, max_steps as nat, max_steps, answer, next, after) {
        assert forall|
            p: V,
            b: Run<P>,
            o: Result<StepOutcomeView, LoopErrorView>,
            n: V,
            a: Run<P>,
        | #[trigger] steps(tools, p, b, o, n, a) implies tally(a.events, is_denial()) == tally(
            b.events,
            is_denial(),
        ) by {
            lemma_step_without(tools, p, b, o, n, a);
        }
        lemma_loop_without(
            tools,
            provider,
            opened,
            max_steps as nat,
            max_steps,
            answer,
            next,
            after,
            is_denial(),
        );
    } else {
        let k = lemma_cut_short(
            tools,
            provider,
            policy,
            session,
            max_steps,
            answer,
            next,
            after,
        );
        lemma_user_events(session.messages.take(k));
    }
}

/// A scripted provider whose next response is a final answer gives the run that
/// answer, as long as there is a step left and the log can be written: one
/// response of the script is used, which enters the session, and the log.
pub proof fn lemma_scripted_answer<T: Tool, P: ApprovalPolicy>(
    tools: Seq<T>,
    provider: MockProvider,
    policy: P,
    session: SessionView,
    max_steps: usize,
    answer: Result<Seq<char>, LoopErrorView>,
    next: MockProvider,
    after: Run<P>,
    content: Seq<char>,
)
    requires
        ran(tools, provider, starts(policy, session), max_steps, answer, next, after),
        max_steps > 0,
        provider@.len() > 0,
        parsed(provider@[0]) == Ok::<ModelOutputView, Seq<char>>(
            ModelOutputView::Final { content },
        ),
        !(answer is Err && log_failed(answer->Err_0)),
    ensures
        answer == Ok::<Seq<char>, LoopErrorView>(content),
        next@ == provider@.drop_first(),
        after.session.messages == session.messages.push(says(Role::Assistant, provider@[0])),
        after.events == user_events(session.messages) + seq![
            EventView::ModelResponse { content: provider@[0] },
            EventView::FinalAnswer { content },
        ],
{
    reveal_with_fuel(loops, 2);
    let before = starts(policy, session).with_events(user_events(session.messages));
    let left = max_steps as nat;
    assert(loops(tools, provider, before, left, max_steps, answer, next, after));
    let (outcome, between, run) = lemma_first_step(
            tools,
            provider,
            before,
            left,
            max_steps,
            answer,
            next,
            after,
        );
    let reply = choose|reply: Result<MessageView, ProviderErrorView>| #[trigger]
        provider.completes(before.session, reply, between) && handles(
            tools,
            reply,
            before,
            outcome,
            run,
        );
    assert(reply == Ok::<MessageView, ProviderErrorView>(says(Role::Assistant, provider@[0])));
    let said = provider@[0];
    assert(exists|turn: Turn| turns(tools, said, turn, before, outcome, run));
    let turn = choose|turn: Turn| turns(tools, said, turn, before, outcome, run);
    assert(turn == Turn::Answered(content));
    assert(run.session.messages =~= session.messages.push(says(Role::Assistant, said)));
    assert(after.events =~= user_events(session.messages) + seq![
        EventView::ModelResponse { content: said },
        EventView::FinalAnswer { content },
    ]);
}

/// A scripted provider without a response left ends the run with its error, as
/// long as there is a step left and the log can be written: the session stays as
/// it was, and nothing is logged but the messages of the user.
pub proof fn lemma_script_runs_out<T: Tool, P: ApprovalPolicy>(
    tools: Seq<T>,
    provider: MockProvider,
    policy: P,
    session: SessionView,
    max_steps: usize,
    answer: Result<Seq<char>, LoopErrorView>,
    next: MockProvider,
    after: Run<P>,
)
    requires
        ran(tools, provider, starts(policy, session), max_steps, answer, next, after),
        max_steps > 0,
        provider@.len() == 0,
        !(answer is Err && log_failed(answer->Err_0)),
    ensures
        answer == Err::<Seq<char>, LoopErrorView>(
            LoopErrorView::Provider(ProviderErrorView::NoMoreResponses),
        ),
        next@.len() == 0,
        after.session == session,
        after.events == user_events(session.messages),
{
    let before = starts(policy, session).with_events(user_events(session.messages));
    assert(before.events =~= user_events(session.messages));
    let (outcome, between, run) = lemma_first_step(
        tools,
        provider,
        before,
        max_steps as nat,
        max_steps,
        answer,
        next,
        after,
    );
    let reply = choose|reply: Result<MessageView, ProviderErrorView>| #[trigger]
        provider.completes(before.session, reply, between) && handles(
            tools,
            reply,
            before,
            outcome,
            run,
        );
    assert(reply == Err::<MessageView, ProviderErrorView>(ProviderErrorView::NoMoreResponses));
}

/// A run failed to log an event exactly where it ends with an error of the log;
/// no other run loses an event.
pub proof fn lemma_log_survives<V: Provider, T: Tool, P: ApprovalPolicy>(
    tools: Seq<T>,
    provider: V,
    policy: P,
    session: SessionView,
    max_steps: usize,
    answer: Result<Seq<char>, LoopErrorView>,
    next: V,
    after: Run<P>,
)
    requires
        ran(tools, provider, starts(policy, session), max_steps, answer, next, after),
    ensures
        after.lost is Some <==> answer is Err && log_failed(answer->Err_0),
        after.lost matches Some((_, error)) ==> answer == Err::<Seq<char>, LoopErrorView>(
            LoopErrorView::EventLog(error),
        ),
{
    let opened = starts(policy, session).with_events(user_events(session.messages));
    if loops(tools, provider, opened, max_steps as nat, max_steps, answer, next, after) {
        lemma_loop_log(tools, provider, opened, max_steps as nat, max_steps, answer, next, after);
    }
}

proof fn lemma_step_log<V: Provider, T: Tool, P: ApprovalPolicy>(
    tools: Seq<T>,
    provider: V,
    before: Run<P>,
    outcome: Result<StepOutcomeView, LoopErrorView>,
    next: V,
    after: Run<P>,
)
    requires
        steps(tools, provider, before, outcome, next, after),
        before.lost is None,
    ensures
        after.lost is Some <==> outcome is Err && log_failed(outcome->Err_0),
        after.lost matches Some((_, error)) ==> outcome == Err::<StepOutcomeView, LoopErrorView>(
            LoopErrorView::EventLog(error),
        ),
{
    let reply = choose|reply: Result<MessageView, ProviderErrorView>| #[trigger]
        provider.completes(before.session, reply, next) && handles(
            tools,
            reply,
            before,
            outcome,
            after,
        );
    if let Ok(message) = reply {
        if exists|turn: Turn| turns(tools, message.content, turn, before, outcome, after) {
            let turn = choose|turn: Turn|
                turns(tools, message.content, turn, before, outcome, after);
            assert(!(turn_outcome(turn) is Err && log_failed(turn_outcome(turn)->Err_0)));
        }
    }
}

proof fn lemma_loop_log<V: Provider, T: Tool, P: ApprovalPolicy>(
    tools: Seq<T>,
    provider: V,
    before: Run<P>,
    left: nat,
    max_steps: usize,
    answer: Result<Seq<char>, LoopErrorView>,
    next: V,
    after: Run<P>,
)
    requires
        loops(tools, provider, before, left, max_steps, answer, next, after),
        before.lost is None,
    ensures
        after.lost is Some <==> answer is Err && log_failed(answer->Err_0),
        after.lost matches Some((_, error)) ==> answer == Err::<Seq<char>, LoopErrorView>(
            LoopErrorView::EventLog(error),
        ),
    decreases left,
{
    reveal_with_fuel(loops, 2);
    if left > 0 {
        let (outcome, between, run) = lemma_first_step(
            tools,
            provider,
            before,
            left,
            max_steps,
            answer,
            next,
            after,
        );
        lemma_step_log(tools, provider, before, outcome, between, run);
        let fewer = (left - 1) as nat;
        match outcome {
            Ok(StepOutcomeView::Final(_)) => {},
            Ok(_) => {
                lemma_loop_log(tools, between, run, fewer, max_steps, answer, next, after);
            },
            Err(e) => if let Some(feedback) = e.feedback() {
                let told = run.with_messages(seq![says(Role::Tool, feedback)]);
                lemma_loop_log(tools, between, told, fewer, max_steps, answer, next, after);
            },
        }
    }
}

/// Whether a provider may give these replies, one after another: the first one
/// to this session, and each further one to a later state of it.
pub open spec fn asks<V: Provider>(
    provider: V,
    session: SessionView,
    replies: Seq<Result<MessageView, ProviderErrorView>>,
    next: V,
) -> bool
    decreases replies.len(),
{
    if replies.len() == 0 {
        next == provider
    } else {
        exists|between: V, later: SessionView|
            {
                &&& #[trigger] provider.completes(session, replies[0], between)
                &&& #[trigger] grows(session, later)
                &&& asks(between, later, replies.drop_first(), next)
            }
    }
}

/// Replies before which none is an error: only the last one may be.
pub open spec fn ends_in_error_at_most(
    replies: Seq<Result<MessageView, ProviderErrorView>>,
) -> bool {
    forall|i: int| 0 <= i < replies.len() - 1 ==> (#[trigger] replies[i]) is Ok
}

/// How many of the replies are messages.
pub open spec fn answered(replies: Seq<Result<MessageView, ProviderErrorView>>) -> nat
    decreases replies.len(),
{
    if replies.len() == 0 {
        0
    } else {
        answered(replies.drop_first()) + if replies[0] is Ok {
            1nat
        } else {
            0nat
        }
    }
}

/// A run asks its provider about its session and later states of it, at most
/// `max_steps` times. Each reply is a message, of which each is logged; only the
/// last one may be an error, which ends the run. A run that may take a step asks
/// at least once, as long as its log could be written.
pub proof fn lemma_run_asks<V: Provider, T: Tool, P: ApprovalPolicy>(
    tools: Seq<T>,
    provider: V,
    policy: P,
    session: SessionView,
    max_steps: usize,
    answer: Result<Seq<char>, LoopErrorView>,
    next: V,
    after: Run<P>,
) -> (replies: Seq<Result<MessageView, ProviderErrorView>>)
    requires
        ran(tools, provider, starts(policy, session), max_steps, answer, next, after),
    ensures
        asks(provider, session, replies, next),
        replies.len() <= max_steps,
        ends_in_error_at_most(replies),
        answer matches Err(LoopErrorView::Provider(e)) ==> replies.len() > 0 && replies.last()
            == Err::<MessageView, ProviderErrorView>(e),
        replies.len() > 0 && replies.last() is Err ==> answer is Err
            && answer->Err_0 is Provider,
        !(answer is Err && log_failed(answer->Err_0)) ==> {
            &&& max_steps > 0 ==> replies.len() > 0
            &&& tally(after.events, is_response()) == answered(replies)
        },
{
    let opened = starts(policy, session).with_events(user_events(session.messages));
    assert(opened.events =~= user_events(session.messages));
    lemma_user_events(session.messages);
    if loops(tools, provider, opened, max_steps as nat, max_steps, answer, next, after) {
        lemma_loop_asks(
            tools,
            provider,
            opened,
            max_steps as nat,
            max_steps,
            answer,
            next,
            after,
        )
    } else {
        let k = lemma_cut_short(
            tools,
            provider,
            policy,
            session,
            max_steps,
            answer,
            next,
            after,
        );
        Seq::empty()
    }
}

proof fn lemma_loop_asks<V: Provider, T: Tool, P: ApprovalPolicy>(
    tools: Seq<T>,
    provider: V,
    before: Run<P>,
    left: nat,
    max_steps: usize,
    answer: Result<Seq<char>, LoopErrorView>,
    next: V,
    after: Run<P>,
) -> (replies: Seq<Result<MessageView, ProviderErrorView>>)
    requires
        loops(tools, provider, before, left, max_steps, answer, next, after),
    ensures
        asks(provider, before.session, replies, next),
        replies.len() <= left,
        ends_in_error_at_most(replies),
        answer matches Err(LoopErrorView::Provider(e)) ==> replies.len() > 0 && replies.last()
            == Err::<MessageView, ProviderErrorView>(e),
        replies.len() > 0 && replies.last() is Err ==> answer is Err
            && answer->Err_0 is Provider,
        left > 0 ==> replies.len() > 0,
        !(answer is Err && log_failed(answer->Err_0)) ==> tally(after.events, is_response())
            == tally(before.events, is_response()) + answered(replies),
    decreases left,
{
    reveal_with_fuel(loops, 2);
    if left == 0 {
        Seq::empty()
    } else {
        let (outcome, between, run) = lemma_first_step(
            tools,
            provider,
            before,
            left,
            max_steps,
            answer,
            next,
            after,
        );
        let reply = lemma_step(tools, provider, before, outcome, between, run);
        let fewer = (left - 1) as nat;
        let none = Seq::<Result<MessageView, ProviderErrorView>>::empty();
        let (later, rest) = match outcome {
            Ok(StepOutcomeView::Final(content)) => {
                let last = seq![EventView::FinalAnswer { content }];
                lemma_tally_concat(run.events, last, is_response());
                reveal_with_fuel(tally, 2);
                assert(last.drop_last() =~= Seq::empty());
                (run.session, none)
            },
            Ok(_) => (
                run.session,
                lemma_loop_asks(tools, between, run, fewer, max_steps, answer, next, after),
            ),
            Err(e) => if let Some(feedback) = e.feedback() {
                let told = run.with_messages(seq![says(Role::Tool, feedback)]);
                lemma_grows(run.session, seq![says(Role::Tool, feedback)]);
                lemma_grows_on(before.session, run.session, told.session);
                (
                    told.session,
                    lemma_loop_asks(tools, between, told, fewer, max_steps, answer, next, after),
                )
            } else {
                (run.session, none)
            },
        };
        let replies = seq![reply] + rest;
        assert(replies.drop_first() =~= rest);
        assert(replies[0] == reply);
        assert(provider.completes(before.session, replies[0], between));
        assert(grows(before.session, later));
        assert(asks(between, later, rest, next));
        assert forall|i: int| 0 <= i < replies.len() - 1 implies (#[trigger] replies[i]) is Ok by {
            if i > 0 {
                assert(replies[i] == rest[i - 1]);
            }
        }
        if rest.len() > 0 {
            assert(replies.last() == rest.last());
        } else {
            assert(replies.last() == reply);
            assert(answered(rest) == 0);
        }
        replies
    }
}

} // verus!
