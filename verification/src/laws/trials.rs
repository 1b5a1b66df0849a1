//! Trials and evaluations with a script that calls tools.
use vstd::prelude::*;

use crate::agent::{
    handles, lemma_first_step, log_failed, loops, ran, starts, user_events, AllowAll,
    LoopErrorView, Run, StepOutcomeView,
};
use crate::config::DEFAULT_MAX_STEPS;
use crate::eval::{
    final_content, is_final, lemma_met, meets, seeded, tallies, tries, EvalCaseView,
    ExpectationView,
};
use crate::event::EventView;
use crate::laws::commands::lemma_one_more_run;
use crate::laws::steps::{lemma_executed_call, lemma_final_answer, lemma_reply_becomes};
use crate::laws::{is_response, lemma_tally_concat, tally};
use crate::message::{MessageView, Role};
use crate::output::{parsed, ModelOutputView};
use crate::provider::{MockProvider, Provider, ProviderErrorView};
use crate::summary::{
    called_tools, denied_tools, lemma_summary_of_parts, summary_of, RunStatus, RunSummaryView,
};
use crate::tool::{found, Tool, ToolErrorView};

verus! {

/// Whether a response calls a tool that is there and does not fail on what it is
/// called with.
pub open spec fn is_answered_call<T: Tool>(tools: Seq<T>, response: Seq<char>) -> bool {
    parsed(response) matches Ok(ModelOutputView::ToolCall { tool_name, arguments, .. }) && found(
        tools,
        tool_name,
    ) is Some && forall|e: ToolErrorView| !#[trigger] found(tools, tool_name)->Some_0.gives(
        arguments,
        Err(e),
    )
}

/// The name of the tool that a response calls.
pub open spec fn called_name(response: Seq<char>) -> Seq<char>
    recommends
        parsed(response) matches Ok(ModelOutputView::ToolCall { .. }),
{
    parsed(response)->Ok_0->tool_name
}

/// A script that starts with this many calls, and with a final answer behind
/// them.
pub open spec fn calls_then_answers<T: Tool>(
    tools: Seq<T>,
    script: Seq<Seq<char>>,
    calls: int,
) -> bool {
    &&& 0 <= calls < script.len()
    &&& forall|i: int| 0 <= i < calls ==> is_answered_call(tools, #[trigger] script[i])
    &&& is_final(script[calls])
}

/// A run under a policy that allows every call, with a script of calls and a
/// final answer, makes each call in turn and gives the answer: one result of a
/// tool is logged for each call, with the name of the tool that was called.
pub proof fn lemma_scripted_calls<T: Tool>(
    tools: Seq<T>,
    provider: MockProvider,
    before: Run<AllowAll>,
    left: nat,
    max_steps: usize,
    answer: Result<Seq<char>, LoopErrorView>,
    next: MockProvider,
    after: Run<AllowAll>,
    calls: int,
)
    requires
        loops(tools, provider, before, left, max_steps, answer, next, after),
        !(answer is Err && log_failed(answer->Err_0)),
        calls < left,
        calls_then_answers(tools, provider@, calls),
    ensures
        answer == Ok::<Seq<char>, LoopErrorView>(final_content(provider@[calls])),
        next@ == provider@.skip(calls + 1),
        called_tools(after.events) == called_tools(before.events) + Seq::new(
            calls as nat,
            |i: int| called_name(provider@[i]),
        ),
        denied_tools(after.events) == denied_tools(before.events),
        tally(after.events, is_response()) == tally(before.events, is_response()) + calls + 1,
    decreases calls,
{
    let script = provider@;
    let said = script[0];
    let (outcome, between, run) = lemma_first_step(
        tools,
        provider,
        before,
        left,
        max_steps,
        answer,
        next,
        after,
    );
    let reply = choose|reply: Result<MessageView, ProviderErrorView>| #[trigger]
        provider.completes(before.session, reply, between) && handles(
            tools,
            reply,
            before,
            outcome,
            run,
        );
    assert(reply == Ok::<MessageView, ProviderErrorView>(
        MessageView { role: Role::Assistant, content: said },
    ));
    assert(!(outcome is Err && log_failed(outcome->Err_0)));
    let heard = reply->Ok_0;
    let response = EventView::ModelResponse { content: said };
    if calls == 0 {
        lemma_reply_becomes(tools, heard, before, outcome, run);
        let content = final_content(said);
        assert(outcome == Ok::<StepOutcomeView, LoopErrorView>(StepOutcomeView::Final(content)));
        lemma_final_answer(run, content, answer, after);
        let added = seq![response, EventView::FinalAnswer { content }];
        assert(after.events =~= before.events + added);
        lemma_added(before.events, added, answer);
        assert(script.skip(1) =~= script.drop_first());
        let names = Seq::new(calls as nat, |i: int| called_name(script[i]));
        assert(called_tools(before.events) + names =~= called_tools(before.events));
    } else {
        assert(is_answered_call(tools, script[0]));
        let call = parsed(said)->Ok_0;
        lemma_executed_call(
            tools,
            heard,
            before,
            outcome,
            run,
            call->tool_name,
            call->arguments,
            call->note,
        );
        let output = outcome->Ok_0->ToolExecuted_output;
        let name = call->tool_name;
        let added = seq![response, EventView::ToolResult { tool_name: name, output }];
        assert(run.events =~= before.events + added);
        lemma_added(before.events, added, answer);
        let rest = script.drop_first();
        assert(between@ == rest);
        assert forall|i: int| 0 <= i < calls - 1 implies is_answered_call(
            tools,
            #[trigger] rest[i],
        ) by {
            assert(rest[i] == script[i + 1]);
        }
        lemma_scripted_calls(
            tools,
            between,
            run,
            (left - 1) as nat,
            max_steps,
            answer,
            next,
            after,
            calls - 1,
        );
        assert(rest.skip(calls) =~= script.skip(calls + 1));
        let later = Seq::new((calls - 1) as nat, |i: int| called_name(rest[i]));
        let names = Seq::new(calls as nat, |i: int| called_name(script[i]));
        assert(names =~= seq![name] + later);
        assert(called_tools(before.events) + seq![name] + later =~= called_tools(before.events)
            + names);
    }
}

proof fn lemma_added(
    events: Seq<EventView>,
    added: Seq<EventView>,
    outcome: Result<Seq<char>, LoopErrorView>,
)
    requires
        added.len() == 2,
        added[0] is ModelResponse,
        added[1] is FinalAnswer || added[1] is ToolResult,
    ensures
        called_tools(events + added) == called_tools(events) + (match added[1] {
            EventView::ToolResult { tool_name, .. } => seq![tool_name],
            _ => Seq::empty(),
        }),
        denied_tools(events + added) == denied_tools(events),
        tally(events + added, is_response()) == tally(events, is_response()) + 1,
{
    lemma_summary_of_parts(events, added, outcome, Seq::empty());
    lemma_tally_concat(events, added, is_response());
    reveal_with_fuel(called_tools, 3);
    reveal_with_fuel(denied_tools, 3);
    reveal_with_fuel(tally, 3);
    assert(added.drop_last() =~= seq![added[0]]);
    assert(added.drop_last().drop_last() =~= Seq::empty());
    assert(called_tools(events) + called_tools(added) =~= called_tools(events) + (match added[1] {
        EventView::ToolResult { tool_name, .. } => seq![tool_name],
        _ => Seq::empty(),
    }));
    assert(denied_tools(events) + denied_tools(added) =~= denied_tools(events));
}

/// A trial with a script of calls and a final answer, as many as a run may take,
/// is completed with that answer. Its summary lists each tool that was called,
/// in order, and none that was denied, and it is as expected of a run that calls
/// any of these tools, at whatever place.
pub proof fn lemma_trial_that_calls<T: Tool>(
    tools: Seq<T>,
    provider: MockProvider,
    prompt: Seq<char>,
    outcome: Result<Seq<char>, LoopErrorView>,
    summary: RunSummaryView,
    next: MockProvider,
    calls: int,
)
    requires
        tries(tools, provider, prompt, outcome, summary, next),
        calls < 5,
        calls_then_answers(tools, provider@, calls),
    ensures
        outcome == Ok::<Seq<char>, LoopErrorView>(final_content(provider@[calls])),
        next@ == provider@.skip(calls + 1),
        summary.status == RunStatus::Completed,
        summary.steps == calls + 1,
        summary.tools_called == Seq::new(calls as nat, |i: int| called_name(provider@[i])),
        summary.tools_denied.len() == 0,
        summary.endpoint == "eval"@,
        forall|i: int|
            0 <= i < calls ==> meets(
                ExpectationView::CallsTool { name: called_name(#[trigger] provider@[i]) },
                outcome,
                summary,
            ),
        meets(ExpectationView::Completes, outcome, summary),
{
    let (created_at, after) = choose|created_at: u64, after: Run<AllowAll>|
        #[trigger] ran(
            tools,
            provider,
            starts(AllowAll, seeded(created_at, tools, prompt)),
            DEFAULT_MAX_STEPS,
            outcome,
            next,
            after,
        ) && summary == summary_of(after.events, outcome, "eval"@) && !(outcome is Err
            && log_failed(outcome->Err_0));
    let session = seeded(created_at, tools, prompt);
    let opened = starts(AllowAll, session).with_events(user_events(session.messages));
    let asked = seq![EventView::UserMessage { content: prompt }];
    assert(user_events(session.messages) =~= asked) by {
        reveal_with_fuel(user_events, 3);
        assert(session.messages.drop_last() =~= seq![session.messages[0]]);
        assert(session.messages.drop_last().drop_last() =~= Seq::empty());
    }
    assert(opened.events =~= asked);
    assert(asked.drop_last() =~= Seq::empty());
    reveal_with_fuel(called_tools, 2);
    reveal_with_fuel(denied_tools, 2);
    reveal_with_fuel(tally, 2);
    lemma_scripted_calls(
        tools,
        provider,
        opened,
        DEFAULT_MAX_STEPS as nat,
        DEFAULT_MAX_STEPS,
        outcome,
        next,
        after,
        calls,
    );
    let names = Seq::new(calls as nat, |i: int| called_name(provider@[i]));
    assert(Seq::<Seq<char>>::empty() + names =~= names);
    assert forall|i: int| 0 <= i < calls implies meets(
        ExpectationView::CallsTool { name: called_name(#[trigger] provider@[i]) },
        outcome,
        summary,
    ) by {
        assert(names[i] == called_name(provider@[i]));
        lemma_met(
            ExpectationView::CallsTool { name: called_name(provider@[i]) },
            outcome,
            summary,
        );
    }
}

/// Whether a part of a script is some calls and a final answer, as many as a run
/// may take, and one of the calls, at whatever place, is of the named tool.
pub open spec fn block_calls<T: Tool>(
    tools: Seq<T>,
    script: Seq<Seq<char>>,
    from: int,
    to: int,
    name: Seq<char>,
) -> bool {
    &&& 0 <= from < to <= script.len()
    &&& to - from <= 5
    &&& calls_then_answers(tools, script.skip(from), to - from - 1)
    &&& exists|i: int| from <= i < to - 1 && called_name(#[trigger] script[i]) == name
}

/// A script that is cut into parts, one for each run, each of which calls the
/// named tool.
pub open spec fn each_run_calls<T: Tool>(
    tools: Seq<T>,
    script: Seq<Seq<char>>,
    cuts: Seq<int>,
    runs: nat,
    name: Seq<char>,
) -> bool {
    &&& cuts.len() == runs + 1
    &&& cuts[0] == 0
    &&& forall|k: int|
        0 <= k < runs ==> #[trigger] block_calls(tools, script, cuts[k], cuts[k + 1], name)
}

/// A case that expects a tool to be called comes out well in each run in which
/// the script calls the tool, whatever else it calls before or behind that.
pub proof fn lemma_case_that_calls<T: Tool>(
    tools: Seq<T>,
    provider: MockProvider,
    case: EvalCaseView,
    runs: nat,
    passed: nat,
    next: MockProvider,
    cuts: Seq<int>,
    name: Seq<char>,
)
    requires
        tallies(tools, provider, case, runs, passed, next),
        case.expectation == (ExpectationView::CallsTool { name }),
        each_run_calls(tools, provider@, cuts, runs, name),
    ensures
        passed == runs,
        next@ == provider@.skip(cuts[runs as int]),
    decreases runs,
{
    let script = provider@;
    if runs == 0 {
        assert(script.skip(0) =~= script);
    } else {
        let (between, outcome, summary, before) = lemma_one_more_run(
            tools,
            provider,
            case,
            runs,
            passed,
            next,
        );
        let fewer = (runs - 1) as nat;
        let earlier = cuts.drop_last();
        assert forall|k: int| 0 <= k < fewer implies #[trigger] block_calls(
            tools,
            script,
            earlier[k],
            earlier[k + 1],
            name,
        ) by {
            assert(block_calls(tools, script, cuts[k], cuts[k + 1], name));
        }
        lemma_case_that_calls(tools, provider, case, fewer, before, between, earlier, name);
        let from = cuts[fewer as int];
        let to = cuts[fewer as int + 1];
        assert(block_calls(tools, script, from, to, name));
        let calls = to - from - 1;
        let block = script.skip(from);
        assert(between@ == block);
        lemma_trial_that_calls(tools, between, case.prompt, outcome, summary, next, calls);
        let i = choose|i: int| from <= i < to - 1 && called_name(#[trigger] script[i]) == name;
        assert(between@[i - from] == script[i]);
        assert(meets(case.expectation, outcome, summary));
        assert(block.skip(calls + 1) =~= script.skip(to));
    }
}

} // verus!
