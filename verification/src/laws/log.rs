//! What stands in the log of a run, and what is read out of it again.
use vstd::prelude::*;

use crate::agent::{
    handles, lemma_first_step, log_failed, logs, loops, ran, starts, user_events, ApprovalPolicy,
    LoopErrorView, Run, StepOutcomeView,
};
use crate::data::compact;
use crate::event::{
    log_of, log_text, loses, lost, record_data, record_line, recorded, records_of, stamped, takes,
    EventBuffer, EventLogErrorView, EventSink, EventView, LoggedView,
};
use crate::external::json_of_text;
use crate::laws::steps::{lemma_final_answer, lemma_reply_becomes};
use crate::message::{MessageView, Role, SessionView};
use crate::provider::{single_turn, Provider};
use crate::text::trimmed;
use crate::tool::Tool;

verus! {

/// A sink that took a record has the record as JSON, and a line feed, behind
/// what it had; one that failed to take it has what it had, and maybe more. The
/// error holds what the sink said: of serialization where it was said of the
/// JSON, of output where it was said of the line feed.
pub proof fn lemma_sink<W: EventSink>(
    before: W,
    r: LoggedView,
    after: W,
    error: EventLogErrorView,
)
    ensures
        takes(before, r, after) ==> after.written() == before.written() + compact(record_data(r))
            + seq!['\n'],
        takes(before, r, after) ==> exists|half: W|
            #[trigger] before.writes(compact(record_data(r)), Ok(()), half) && half.writes(
                "\n"@,
                Ok(()),
                after,
            ),
        loses(before, r, error, after) ==> before.written().is_prefix_of(after.written()),
        loses(before, r, error, after) && error is Serde ==> before.writes(
            compact(record_data(r)),
            Err(error->Serde_0),
            after,
        ),
        loses(before, r, error, after) && error is Io ==> exists|half: W|
            #[trigger] before.writes(compact(record_data(r)), Ok(()), half) && half.writes(
                "\n"@,
                Err(error->Io_0),
                after,
            ),
{
    if takes(before, r, after) {
        assert(before.written() + record_line(r).push('\n') =~= before.written() + compact(
            record_data(r),
        ) + seq!['\n']);
        assert(record_line(r) == compact(record_data(r)));
    }
}

/// Events are recorded one after another, each with some time; none is recorded
/// where there is none.
pub proof fn lemma_one_more_record<W: EventSink>(
    before: W,
    events: Seq<EventView>,
    event: EventView,
    after: W,
) -> (last: (u64, W))
    requires
        recorded(before, events.push(event), after),
    ensures
        recorded(before, events, last.1),
        takes(last.1, LoggedView { at: last.0, event }, after),
        forall|end: W| #[trigger] recorded(before, Seq::empty(), end) ==> end == before,
{
    let all = events.push(event);
    assert(all.drop_last() =~= events);
    choose|at: u64, between: W|
        #[trigger] takes(between, LoggedView { at, event: all.last() }, after) && recorded(
            before,
            all.drop_last(),
            between,
        )
}

/// A run leaves in its sink the events that it logged, in order, and nothing
/// else; a run that lost an event leaves those before it, and its sink failed at
/// that event.
pub proof fn lemma_run_in_sink<W: EventSink, P>(before: W, run: Run<P>, after: W) -> (between: W)
    requires
        logs(before, run, after),
    ensures
        run.lost is None ==> recorded(before, run.events, after),
        run.lost matches Some((event, error)) ==> recorded(before, run.events, between) && lost(
            between,
            event,
            error,
            after,
        ),
{
    match run.lost {
        None => after,
        Some((event, error)) => choose|between: W|
            recorded(before, run.events, between) && #[trigger] lost(between, event, error, after),
    }
}

/// A log is read line by line. A blank line holds nothing; every other line has
/// to hold a record, which stands behind those of the lines before it; the first
/// line that does not is an error.
pub proof fn lemma_read_line(listed: Seq<Seq<char>>, line: Seq<char>)
    ensures
        records_of(Seq::empty()) == Ok::<Seq<LoggedView>, Seq<char>>(Seq::empty()),
        records_of(listed.push(line)) == match records_of(listed) {
            Err(message) => Err::<Seq<LoggedView>, Seq<char>>(message),
            Ok(records) => if trimmed(line).len() == 0 {
                Ok(records)
            } else {
                match json_of_text(trimmed(line)) {
                    Err(message) => Err(message),
                    Ok(v) => match crate::event::record_of(v) {
                        Err(message) => Err(message),
                        Ok(record) => Ok(records.push(record)),
                    },
                }
            },
        },
        records_of(listed) matches Err(message) ==> log_of(listed) == Err::<
            Seq<LoggedView>,
            EventLogErrorView,
        >(EventLogErrorView::Serde(message)),
        records_of(listed) matches Ok(records) ==> log_of(listed) == Ok::<
            Seq<LoggedView>,
            EventLogErrorView,
        >(records),
{
    assert(listed.push(line).drop_last() =~= listed);
}

/// The text of a log is one line of JSON for each record, in order.
pub proof fn lemma_log_text(records: Seq<LoggedView>, r: LoggedView)
    ensures
        log_text(Seq::empty()) == Seq::<char>::empty(),
        log_text(records.push(r)) == log_text(records) + compact(record_data(r)) + seq!['\n'],
{
    let listed = crate::event::record_lines(records);
    let none = Seq::<LoggedView>::empty();
    assert(crate::event::record_lines(none) =~= Seq::empty());
    assert(crate::event::record_lines(records.push(r)) =~= listed.push(compact(record_data(r))));
    crate::laws::texts::lemma_ended(listed, compact(record_data(r)));
}

/// Events are stamped one by one.
pub proof fn lemma_stamped(times: Seq<u64>, events: Seq<EventView>, i: int)
    requires
        0 <= i < events.len(),
    ensures
        stamped(times, events).len() == events.len(),
        stamped(times, events)[i] == (LoggedView { at: times[i], event: events[i] }),
{
}

/// A run first logs the messages of the user, and goes on with its steps, of
/// which it may take as many as it is told; or it ends there, with the error of
/// the log, without having asked the provider.
pub proof fn lemma_run_opens<V: Provider, T: Tool, P: ApprovalPolicy>(
    tools: Seq<T>,
    provider: V,
    policy: P,
    session: SessionView,
    max_steps: usize,
    answer: Result<Seq<char>, LoopErrorView>,
    next: V,
    after: Run<P>,
)
    requires
        ran(tools, provider, starts(policy, session), max_steps, answer, next, after),
    ensures
        loops(
            tools,
            provider,
            Run { policy, session, events: user_events(session.messages), lost: None },
            max_steps as nat,
            max_steps,
            answer,
            next,
            after,
        ) || {
            &&& answer matches Err(LoopErrorView::EventLog(error))
            &&& next == provider
            &&& after.session == session
            &&& after.policy == policy
            &&& exists|k: int|
                {
                    &&& 0 <= k < session.messages.len()
                    &&& session.messages[k].role == Role::User
                    &&& after.events == user_events(#[trigger] session.messages.take(k))
                    &&& after.lost == Some(
                        (EventView::UserMessage { content: session.messages[k].content }, error),
                    )
                }
        },
{
    let before = starts(policy, session);
    let opened = before.with_events(user_events(session.messages));
    assert(opened.events =~= user_events(session.messages));
    assert(opened == Run {
        policy,
        session,
        events: user_events(session.messages),
        lost: None::<(EventView, EventLogErrorView)>,
    });
    if !loops(tools, provider, opened, max_steps as nat, max_steps, answer, next, after) {
        let error = answer->Err_0->EventLog_0;
        let k = choose|k: int|
            {
                &&& 0 <= k < session.messages.len()
                &&& session.messages[k].role == Role::User
                &&& after == before.with_events(
                    user_events(#[trigger] session.messages.take(k)),
                ).losing(EventView::UserMessage { content: session.messages[k].content }, error)
            };
        assert(after.events =~= user_events(session.messages.take(k)));
    }
}

/// A run without a step left ends for want of steps, as it is.
pub proof fn lemma_no_step_left<V: Provider, T: Tool, P: ApprovalPolicy>(
    tools: Seq<T>,
    provider: V,
    before: Run<P>,
    max_steps: usize,
    answer: Result<Seq<char>, LoopErrorView>,
    next: V,
    after: Run<P>,
)
    requires
        loops(tools, provider, before, 0, max_steps, answer, next, after),
    ensures
        answer == Err::<Seq<char>, LoopErrorView>(LoopErrorView::MaxStepsExceeded { max_steps }),
        next == provider,
        after == before,
{
    reveal_with_fuel(loops, 1);
}

/// What the model said, in a session.
pub open spec fn said_by_model(messages: Seq<MessageView>) -> Seq<Seq<char>>
    decreases messages.len(),
{
    if messages.len() == 0 {
        Seq::empty()
    } else if messages.last().role == Role::Assistant {
        said_by_model(messages.drop_last()).push(messages.last().content)
    } else {
        said_by_model(messages.drop_last())
    }
}

/// What the model said, in a log.
pub open spec fn logged_replies(events: Seq<EventView>) -> Seq<Seq<char>>
    decreases events.len(),
{
    if events.len() == 0 {
        Seq::empty()
    } else if let EventView::ModelResponse { content } = events.last() {
        logged_replies(events.drop_last()).push(content)
    } else {
        logged_replies(events.drop_last())
    }
}

proof fn lemma_push_message(messages: Seq<MessageView>, m: MessageView)
    ensures
        said_by_model(messages.push(m)) == if m.role == Role::Assistant {
            said_by_model(messages).push(m.content)
        } else {
            said_by_model(messages)
        },
{
    assert(messages.push(m).drop_last() =~= messages);
}

proof fn lemma_push_event(events: Seq<EventView>, e: EventView)
    ensures
        logged_replies(events.push(e)) == match e {
            EventView::ModelResponse { content } => logged_replies(events).push(content),
            _ => logged_replies(events),
        },
{
    assert(events.push(e).drop_last() =~= events);
}

proof fn lemma_step_says_as_logged<T: Tool, P: ApprovalPolicy>(
    tools: Seq<T>,
    reply: MessageView,
    before: Run<P>,
    outcome: Result<StepOutcomeView, LoopErrorView>,
    after: Run<P>,
)
    requires
        handles(tools, Ok(reply), before, outcome, after),
        !(outcome is Err && log_failed(outcome->Err_0)),
    ensures
        said_by_model(after.session.messages) == said_by_model(before.session.messages).push(
            reply.content,
        ),
        logged_replies(after.events) == logged_replies(before.events).push(reply.content),
{
    lemma_reply_becomes(tools, reply, before, outcome, after);
    let said = MessageView { role: Role::Assistant, content: reply.content };
    let response = EventView::ModelResponse { content: reply.content };
    let messages = before.session.messages.push(said);
    let events = before.events.push(response);
    lemma_push_message(before.session.messages, said);
    lemma_push_event(before.events, response);
    if after.session.messages.len() == messages.len() {
        assert(after.session.messages =~= messages);
    } else {
        let last = after.session.messages.last();
        assert(after.session.messages =~= messages.push(last));
        lemma_push_message(messages, last);
    }
    if after.events.len() == events.len() {
        assert(after.events =~= events);
    } else {
        let last = after.events.last();
        assert(after.events =~= events.push(last));
        lemma_push_event(events, last);
    }
}

/// Where the log can be written, the session of a run holds what the model said
/// exactly as the log does: each reply once, whole, and in order.
pub proof fn lemma_loop_says_as_logged<V: Provider, T: Tool, P: ApprovalPolicy>(
    tools: Seq<T>,
    provider: V,
    before: Run<P>,
    left: nat,
    max_steps: usize,
    answer: Result<Seq<char>, LoopErrorView>,
    next: V,
    after: Run<P>,
) -> (said: Seq<Seq<char>>)
    requires
        loops(tools, provider, before, left, max_steps, answer, next, after),
        !(answer is Err && log_failed(answer->Err_0)),
    ensures
        said_by_model(after.session.messages) == said_by_model(before.session.messages) + said,
        logged_replies(after.events) == logged_replies(before.events) + said,
        said.len() <= left,
    decreases left,
{
    let none = Seq::<Seq<char>>::empty();
    assert(said_by_model(before.session.messages) + none =~= said_by_model(
        before.session.messages,
    ));
    assert(logged_replies(before.events) + none =~= logged_replies(before.events));
    if left == 0 {
        lemma_no_step_left(tools, provider, before, max_steps, answer, next, after);
        none
    } else {
        let (outcome, between, run) = lemma_first_step(
            tools,
            provider,
            before,
            left,
            max_steps,
            answer,
            next,
            after,
        );
        let reply = crate::laws::steps::lemma_step_asks_about_session(
            tools,
            provider,
            before,
            outcome,
            between,
            run,
        );
        if reply is Err {
            none
        } else {
            let content = reply->Ok_0.content;
            assert(!(outcome is Err && log_failed(outcome->Err_0)));
            lemma_step_says_as_logged(tools, reply->Ok_0, before, outcome, run);
            let fewer = (left - 1) as nat;
            let more = match outcome {
                Ok(StepOutcomeView::Final(given)) => {
                    lemma_final_answer(run, given, answer, after);
                    lemma_push_event(run.events, EventView::FinalAnswer { content: given });
                    none
                },
                Ok(_) => lemma_loop_says_as_logged(
                    tools,
                    between,
                    run,
                    fewer,
                    max_steps,
                    answer,
                    next,
                    after,
                ),
                Err(e) => if let Some(feedback) = e.feedback() {
                    let message = MessageView { role: Role::Tool, content: feedback };
                    let told = run.with_messages(seq![message]);
                    assert(told.session.messages =~= run.session.messages.push(message));
                    lemma_push_message(run.session.messages, message);
                    lemma_loop_says_as_logged(
                        tools,
                        between,
                        told,
                        fewer,
                        max_steps,
                        answer,
                        next,
                        after,
                    )
                } else {
                    none
                },
            };
            let said = seq![content] + more;
            assert(said_by_model(before.session.messages).push(content) + more =~= said_by_model(
                before.session.messages,
            ) + said);
            assert(logged_replies(before.events).push(content) + more =~= logged_replies(
                before.events,
            ) + said);
            said
        }
    }
}

/// One turn is asked about a fresh session with the message of the user alone.
pub proof fn lemma_single_turn(created_at: u64, message: Seq<char>)
    ensures
        single_turn(created_at, message) == (SessionView {
            id: crate::message::session_id(created_at),
            created_at,
            messages: seq![MessageView { role: Role::User, content: message }],
        }),
{
    assert(single_turn(created_at, message).messages =~= seq![
        MessageView { role: Role::User, content: message },
    ]);
}

/// A log in memory takes every text, and holds exactly what it took, in order.
pub proof fn lemma_buffer(
    buffer: EventBuffer,
    text: Seq<char>,
    result: Result<(), Seq<char>>,
    next: EventBuffer,
)
    ensures
        buffer.written() == buffer.text@,
        buffer.reliable(),
        buffer.writes(text, result, next) <==> result is Ok && next.text@ == buffer.text@ + text,
{
}

} // verus!
