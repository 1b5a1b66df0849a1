//! Evaluation: cases with what a good run of them looks like, run several
//! times each, and how often they came out well.
use vstd::prelude::*;

use crate::agent::{
    answer_view, log_failed, logs, ran, run_loop, starts, user_events, AllowAll, LoopError,
    LoopErrorView, Run,
};
use crate::config::DEFAULT_MAX_STEPS;
use crate::event::{
    lemma_recorded_text, log_text, logged_view, read_events, stamped, EventBuffer, EventView,
};
use crate::external::{debug_form, debug_text};
use crate::laws::{
    answered, asks, ends_in_error_at_most, is_denial, lemma_allowed_run_has_no_denial,
    lemma_log_survives, lemma_policies, lemma_run_asks, lemma_run_is_bounded,
    lemma_script_runs_out, lemma_scripted_answer, tally,
};
use crate::message::{says, session_id, Message, MessageView, Role, Session, SessionView};
use crate::output::{parsed, ModelOutputView};
use crate::provider::{script_after, MockProvider, Provider, ProviderErrorView};
use crate::summary::{
    called_tools, denied_tools, events_of, lemma_called, summary_of, RunStatus, RunSummary, RunSummaryView,
};
use crate::text::{contains, lemma_contains_between, decimal, decimal_text, has_text, pad_end, padded, same_text, texts};
use crate::tool::{prompt, system_prompt, Tool, ToolRegistry};

verus! {

/// What a case expects of a run.
#[derive(Debug, PartialEq, Eq)]
pub enum Expectation {
    /// The run gives a final answer.
    Completes,
    /// The run calls the named tool.
    CallsTool { name: String },
    /// The final answer contains the text.
    FinalContains { text: String },
}

/// What an [`Expectation`] says.
pub enum ExpectationView {
    Completes,
    CallsTool { name: Seq<char> },
    FinalContains { text: Seq<char> },
}

impl View for Expectation {
    type V = ExpectationView;

    open spec fn view(&self) -> ExpectationView {
        match self {
            Expectation::Completes => ExpectationView::Completes,
            Expectation::CallsTool { name } => ExpectationView::CallsTool { name: name@ },
            Expectation::FinalContains { text } => ExpectationView::FinalContains { text: text@ },
        }
    }
}

/// The label of an expected text that is shown in this way.
pub open spec fn contains_label(shown: Seq<char>) -> Seq<char> {
    "final contains "@ + shown
}

/// A short label of an expectation.
pub open spec fn expectation_label(e: ExpectationView) -> Seq<char> {
    match e {
        ExpectationView::Completes => "completes"@,
        ExpectationView::CallsTool { name } => "calls "@ + name,
        ExpectationView::FinalContains { text } => contains_label(debug_form(text)),
    }
}

/// The label of an expected text that is shown in this way.
pub fn contains_label_of(shown: &str) -> (r: String)
    ensures
        r@ == contains_label(shown@),
{
    let mut label = "final contains ".to_owned();
    label.append(shown);
    label
}

impl Expectation {
    /// A short label for the scorecard.
    pub fn label(&self) -> (r: String)
        ensures
            r@ == expectation_label(self@),
    {
        match self {
            Expectation::Completes => "completes".to_owned(),
            Expectation::CallsTool { name } => {
                let mut label = "calls ".to_owned();
                label.append(name.as_str());
                label
            },
            Expectation::FinalContains { text } => contains_label_of(
                debug_text(text.as_str()).as_str(),
            ),
        }
    }
}

/// One evaluation case: a prompt, and what a good run of it looks like.
#[derive(Debug, PartialEq, Eq)]
pub struct EvalCase {
    pub name: String,
    pub prompt: String,
    pub expectation: Expectation,
}

/// What an [`EvalCase`] says.
pub struct EvalCaseView {
    pub name: Seq<char>,
    pub prompt: Seq<char>,
    pub expectation: ExpectationView,
}

impl View for EvalCase {
    type V = EvalCaseView;

    open spec fn view(&self) -> EvalCaseView {
        EvalCaseView {
            name: self.name@,
            prompt: self.prompt@,
            expectation: self.expectation@,
        }
    }
}

/// The built-in cases.
pub open spec fn fixtures() -> Seq<EvalCaseView> {
    seq![
        EvalCaseView {
            name: "say-hi"@,
            prompt: "Say hi in one short sentence."@,
            expectation: ExpectationView::Completes,
        },
        EvalCaseView {
            name: "append-note"@,
            prompt: "Use a tool to remember this note: buy milk."@,
            expectation: ExpectationView::CallsTool { name: "session_note_append"@ },
        },
        EvalCaseView {
            name: "add-numbers"@,
            prompt: "What is 3 plus 4? Use a tool, then give the number."@,
            expectation: ExpectationView::FinalContains { text: "7"@ },
        },
    ]
}

/// The built-in cases: a plain answer, a tool call, and an answer that takes a
/// tool.
pub fn default_fixtures() -> (r: Vec<EvalCase>)
    ensures
        cases_view(r@) == fixtures(),
        r@.len() == 3,
        r@[0]@ == (EvalCaseView {
            name: "say-hi"@,
            prompt: "Say hi in one short sentence."@,
            expectation: ExpectationView::Completes,
        }),
        r@[1]@ == (EvalCaseView {
            name: "append-note"@,
            prompt: "Use a tool to remember this note: buy milk."@,
            expectation: ExpectationView::CallsTool { name: "session_note_append"@ },
        }),
        r@[2]@ == (EvalCaseView {
            name: "add-numbers"@,
            prompt: "What is 3 plus 4? Use a tool, then give the number."@,
            expectation: ExpectationView::FinalContains { text: "7"@ },
        }),
{
    let mut fixtures: Vec<EvalCase> = Vec::new();
    fixtures.push(
        EvalCase {
            name: "say-hi".to_owned(),
            prompt: "Say hi in one short sentence.".to_owned(),
            expectation: Expectation::Completes,
        },
    );
    fixtures.push(
        EvalCase {
            name: "append-note".to_owned(),
            prompt: "Use a tool to remember this note: buy milk.".to_owned(),
            expectation: Expectation::CallsTool { name: "session_note_append".to_owned() },
        },
    );
    fixtures.push(
        EvalCase {
            name: "add-numbers".to_owned(),
            prompt: "What is 3 plus 4? Use a tool, then give the number.".to_owned(),
            expectation: Expectation::FinalContains { text: "7".to_owned() },
        },
    );
    assert(cases_view(fixtures@) =~= self::fixtures());
    fixtures
}

/// Whether a run with this outcome and this summary is as expected.
pub open spec fn meets(
    expectation: ExpectationView,
    outcome: Result<Seq<char>, LoopErrorView>,
    summary: RunSummaryView,
) -> bool {
    match expectation {
        ExpectationView::Completes => outcome is Ok,
        ExpectationView::CallsTool { name } => summary.tools_called.contains(name),
        ExpectationView::FinalContains { text } => outcome matches Ok(answer) && contains(
            answer,
            text,
        ),
    }
}

/// A run completes where it gave an answer, whatever it was; it calls a tool
/// where the tool is among those that were called, at whatever place; its answer
/// contains a text where the text stands in it, with anything before and behind.
pub proof fn lemma_met(
    expectation: ExpectationView,
    outcome: Result<Seq<char>, LoopErrorView>,
    summary: RunSummaryView,
)
    ensures
        meets(expectation, outcome, summary) <==> match expectation {
            ExpectationView::Completes => outcome is Ok,
            ExpectationView::CallsTool { name } => summary.tools_called.contains(name),
            ExpectationView::FinalContains { text } => outcome is Ok && exists|
                a: Seq<char>,
                b: Seq<char>,
            |
                outcome->Ok_0 == #[trigger] (a + text + b),
        },
{
    if let ExpectationView::FinalContains { text } = expectation {
        if outcome is Ok {
            lemma_contains_between(outcome->Ok_0, text);
        }
    }
}

/// A run is taken to call a tool exactly where its log holds a result of that
/// tool, at whatever place.
pub proof fn lemma_calls_are_logged(
    name: Seq<char>,
    events: Seq<EventView>,
    outcome: Result<Seq<char>, LoopErrorView>,
    endpoint: Seq<char>,
)
    ensures
        meets(
            ExpectationView::CallsTool { name },
            outcome,
            summary_of(events, outcome, endpoint),
        ) <==> exists|i: int|
            0 <= i < events.len() && ((#[trigger] events[i]) matches EventView::ToolResult {
                tool_name,
                ..
            } && tool_name == name),
{
    lemma_called(events, name);
}

/// Judge one run against an expectation.
pub fn judge(
    expectation: &Expectation,
    outcome: &Result<String, LoopError>,
    summary: &RunSummary,
) -> (r: bool)
    ensures
        r == meets(expectation@, answer_view(*outcome), summary@),
        expectation is Completes ==> r == (outcome is Ok),
        expectation matches Expectation::CallsTool { name } ==> (r <==> exists|i: int|
            0 <= i < summary.tools_called@.len() && (#[trigger] summary.tools_called@[i])@
                == name@),
        expectation matches Expectation::FinalContains { text } ==> (r <==> outcome is Ok
            && exists|a: Seq<char>, b: Seq<char>| outcome->Ok_0@ == #[trigger] (a + text@ + b)),
{
    proof {
        lemma_met(expectation@, answer_view(*outcome), summary@);
        if expectation is CallsTool {
            let name = expectation->name@;
            let names = texts(summary.tools_called@);
            if names.contains(name) {
                let i = choose|i: int| 0 <= i < names.len() && names[i] == name;
                assert(summary.tools_called@[i]@ == name);
            }
            if exists|i: int|
                0 <= i < summary.tools_called@.len() && (#[trigger] summary.tools_called@[i])@
                    == name {
                let i = choose|i: int|
                    0 <= i < summary.tools_called@.len() && (
                    #[trigger] summary.tools_called@[i])@ == name;
                assert(names[i] == name);
            }
        }
    }
    match expectation {
        Expectation::Completes => outcome.is_ok(),
        Expectation::CallsTool { name } => {
            let called = &summary.tools_called;
            let ghost names = texts(called@);
            let mut i: usize = 0;
            while i < called.len()
                invariant
                    i <= called@.len() == names.len(),
                    names == summary@.tools_called,
                    names == texts(called@),
                    expectation@ == (ExpectationView::CallsTool { name: name@ }),
                    forall|k: int| 0 <= k < i ==> #[trigger] names[k] != name@,
                decreases called@.len() - i,
            {
                if same_text(called[i].as_str(), name.as_str()) {
                    assert(names[i as int] == name@);
                    assert(names.contains(name@));
                    return true;
                }
                i = i + 1;
            }
            assert(!names.contains(name@));
            false
        },
        Expectation::FinalContains { text } => match outcome {
            Ok(answer) => has_text(answer.as_str(), text.as_str()),
            Err(_) => false,
        },
    }
}

// ---------------------------------------------------------------------------
// Trials
// ---------------------------------------------------------------------------
/// The session that a run starts from: fresh at some time, with the prompt of
/// the tools and the message of the user.
pub open spec fn seeded<T: Tool>(
    created_at: u64,
    tools: Seq<T>,
    user_message: Seq<char>,
) -> SessionView {
    SessionView {
        id: session_id(created_at),
        created_at,
        messages: seq![says(Role::System, prompt(tools)), says(Role::User, user_message)],
    }
}

/// A fresh session for a run: the prompt of the tools, and the message of the
/// user.
pub fn seed_session<T: Tool>(registry: &ToolRegistry<T>, user_message: &str) -> (r: Session)
    ensures
        r@ == seeded(r@.created_at, registry@, user_message@),
{
    let mut session = Session::start();
    session.push_message(Message::new(Role::System, system_prompt(registry).as_str()));
    session.push_message(Message::new(Role::User, user_message));
    assert(session@.messages =~= seeded(
        session@.created_at,
        registry@,
        user_message@,
    ).messages);
    session
}

/// What a trial may come to: the outcome of a run from a fresh session with
/// every call allowed, and the summary of the events that the run logged. The
/// log is in memory, so that no error of the log ends the run.
pub open spec fn tries<V: Provider, T: Tool>(
    tools: Seq<T>,
    provider: V,
    prompt: Seq<char>,
    outcome: Result<Seq<char>, LoopErrorView>,
    summary: RunSummaryView,
    next: V,
) -> bool {
    exists|created_at: u64, after: Run<AllowAll>|
        #[trigger] ran(
            tools,
            provider,
            starts(AllowAll, seeded(created_at, tools, prompt)),
            DEFAULT_MAX_STEPS,
            outcome,
            next,
            after,
        ) && summary == summary_of(after.events, outcome, "eval"@) && !(outcome is Err
            && log_failed(outcome->Err_0))
}

/// Drive the agent once over a fresh session with this prompt, with its log in
/// memory.
pub fn eval_trial<V: Provider, T: Tool>(
    provider: &mut V,
    registry: &ToolRegistry<T>,
    prompt: &str,
) -> (r: (Result<String, LoopError>, RunSummary))
    ensures
        tries(
            registry@,
            *old(provider),
            prompt@,
            answer_view(r.0),
            r.1@,
            *final(provider),
        ),
{
    let mut session = seed_session(registry, prompt);
    let ghost created_at = session@.created_at;
    let ghost start = session@;
    let mut events = EventBuffer::new();
    let ghost sink = events;
    let mut policy = AllowAll;
    let outcome = run_loop(
        provider,
        registry,
        &mut session,
        DEFAULT_MAX_STEPS,
        &mut events,
        &mut policy,
    );
    let logged = match read_events(events.text.as_str()) {
        Ok(logged) => logged,
        Err(_) => Vec::new(),
    };
    let summary = RunSummary::from_run(logged.as_slice(), &outcome, "eval".to_owned());
    proof {
        let after = choose|after: Run<AllowAll>|
            {
                &&& #[trigger] ran(
                    registry@,
                    *old(provider),
                    starts(AllowAll, start),
                    DEFAULT_MAX_STEPS,
                    answer_view(outcome),
                    *provider,
                    after,
                )
                &&& after.policy == policy
                &&& after.session == session@
                &&& logs(sink, after, events)
            };
        lemma_log_survives(
            registry@,
            *old(provider),
            AllowAll,
            start,
            DEFAULT_MAX_STEPS,
            answer_view(outcome),
            *provider,
            after,
        );
        let times = lemma_recorded_text(sink, after.events, events);
        let records = stamped(times, after.events);
        assert(Seq::<char>::empty() + log_text(records) =~= log_text(records));
        assert(log_text(records) == events.text@);
        assert(logged_view(logged@) == records);
        assert(events_of(records) =~= after.events);
    }
    (outcome, summary)
}

proof fn lemma_denials_are_tallied(events: Seq<EventView>)
    ensures
        denied_tools(events).len() == tally(events, is_denial()),
    decreases events.len(),
{
    if events.len() > 0 {
        lemma_denials_are_tallied(events.drop_last());
    }
}

/// A trial takes no more steps than a run may, is denied no tool, is said to be
/// completed exactly where it gave an answer, and never ends with an error of its
/// log, which is in memory.
pub proof fn lemma_trial<V: Provider, T: Tool>(
    tools: Seq<T>,
    provider: V,
    prompt: Seq<char>,
    outcome: Result<Seq<char>, LoopErrorView>,
    summary: RunSummaryView,
    next: V,
)
    requires
        tries(tools, provider, prompt, outcome, summary, next),
    ensures
        summary.steps <= DEFAULT_MAX_STEPS,
        summary.tools_denied.len() == 0,
        summary.status == RunStatus::Completed <==> outcome is Ok,
        !(outcome is Err && log_failed(outcome->Err_0)),
{
    let (created_at, after) = choose|created_at: u64, after: Run<AllowAll>|
        #[trigger] ran(
            tools,
            provider,
            starts(AllowAll, seeded(created_at, tools, prompt)),
            DEFAULT_MAX_STEPS,
            outcome,
            next,
            after,
        ) && summary == summary_of(after.events, outcome, "eval"@);
    let session = seeded(created_at, tools, prompt);
    lemma_policies();
    lemma_run_is_bounded(
        tools,
        provider,
        AllowAll,
        session,
        DEFAULT_MAX_STEPS,
        outcome,
        next,
        after,
    );
    lemma_allowed_run_has_no_denial(
        tools,
        provider,
        AllowAll,
        session,
        DEFAULT_MAX_STEPS,
        outcome,
        next,
        after,
    );
    lemma_denials_are_tallied(after.events);
}

/// A trial asks its provider, at least once and no more often than a run may,
/// about a fresh session with the prompt and about later states of it. Each
/// message that came back is a step of the summary; only the last reply may be an
/// error, and where it is, the trial ends with that error.
pub proof fn lemma_trial_asks<V: Provider, T: Tool>(
    tools: Seq<T>,
    provider: V,
    prompt: Seq<char>,
    outcome: Result<Seq<char>, LoopErrorView>,
    summary: RunSummaryView,
    next: V,
) -> (asked: (u64, Seq<Result<MessageView, ProviderErrorView>>))
    requires
        tries(tools, provider, prompt, outcome, summary, next),
    ensures
        asks(provider, seeded(asked.0, tools, prompt), asked.1, next),
        1 <= asked.1.len() <= DEFAULT_MAX_STEPS,
        ends_in_error_at_most(asked.1),
        summary.steps == answered(asked.1),
        asked.1.last() matches Err(e) ==> outcome == Err::<Seq<char>, LoopErrorView>(
            LoopErrorView::Provider(e),
        ),
{
    let (created_at, after) = choose|created_at: u64, after: Run<AllowAll>|
        #[trigger] ran(
            tools,
            provider,
            starts(AllowAll, seeded(created_at, tools, prompt)),
            DEFAULT_MAX_STEPS,
            outcome,
            next,
            after,
        ) && summary == summary_of(after.events, outcome, "eval"@);
    let replies = lemma_run_asks(
        tools,
        provider,
        AllowAll,
        seeded(created_at, tools, prompt),
        DEFAULT_MAX_STEPS,
        outcome,
        next,
        after,
    );
    (created_at, replies)
}

// ---------------------------------------------------------------------------
// Scripted trials
// ---------------------------------------------------------------------------
/// Whether each response of a script is a final answer.
pub open spec fn all_final(script: Seq<Seq<char>>) -> bool {
    forall|i: int| 0 <= i < script.len() ==> is_final(#[trigger] script[i])
}

/// Whether a response is a final answer.
pub open spec fn is_final(response: Seq<char>) -> bool {
    parsed(response) matches Ok(ModelOutputView::Final { .. })
}

/// The final answer that a response is.
pub open spec fn final_content(response: Seq<char>) -> Seq<char>
    recommends
        is_final(response),
{
    match parsed(response) {
        Ok(ModelOutputView::Final { content }) => content,
        _ => Seq::empty(),
    }
}

/// Whether a final answer without a call of a tool is as expected.
pub open spec fn good_answer(expectation: ExpectationView, answer: Seq<char>) -> bool {
    match expectation {
        ExpectationView::Completes => true,
        ExpectationView::CallsTool { .. } => false,
        ExpectationView::FinalContains { text } => contains(answer, text),
    }
}

/// How many of the responses are final answers as expected.
pub open spec fn good_answers(expectation: ExpectationView, script: Seq<Seq<char>>) -> nat
    decreases script.len(),
{
    if script.len() == 0 {
        0
    } else {
        good_answers(expectation, script.drop_last()) + if good_answer(
            expectation,
            final_content(script.last()),
        ) {
            1nat
        } else {
            0nat
        }
    }
}

/// Where any final answer will do, each of them is as expected.
pub proof fn lemma_any_answer_is_good(script: Seq<Seq<char>>)
    ensures
        good_answers(ExpectationView::Completes, script) == script.len(),
    decreases script.len(),
{
    if script.len() > 0 {
        lemma_any_answer_is_good(script.drop_last());
    }
}

/// A trial with a script whose next response is a final answer gives that answer
/// in one step, without a tool, and uses that response alone. A trial with a
/// script that is at its end fails with the provider's error, without a step.
pub proof fn lemma_scripted_trial<T: Tool>(
    tools: Seq<T>,
    provider: MockProvider,
    prompt: Seq<char>,
    outcome: Result<Seq<char>, LoopErrorView>,
    summary: RunSummaryView,
    next: MockProvider,
)
    requires
        tries(tools, provider, prompt, outcome, summary, next),
        provider@.len() == 0 || is_final(provider@[0]),
    ensures
        next@ == script_after(provider@),
        summary.tools_called.len() == 0,
        provider@.len() > 0 ==> outcome == Ok::<Seq<char>, LoopErrorView>(
            final_content(provider@[0]),
        ) && summary.steps == 1,
        provider@.len() == 0 ==> outcome == Err::<Seq<char>, LoopErrorView>(
            LoopErrorView::Provider(ProviderErrorView::NoMoreResponses),
        ) && summary.steps == 0,
{
    let (created_at, after) = choose|created_at: u64, after: Run<AllowAll>|
        #[trigger] ran(
            tools,
            provider,
            starts(AllowAll, seeded(created_at, tools, prompt)),
            DEFAULT_MAX_STEPS,
            outcome,
            next,
            after,
        ) && summary == summary_of(after.events, outcome, "eval"@) && !(outcome is Err
            && log_failed(outcome->Err_0));
    let session = seeded(created_at, tools, prompt);
    let asked = seq![EventView::UserMessage { content: prompt }];
    assert(user_events(session.messages) =~= asked) by {
        reveal_with_fuel(user_events, 3);
        assert(session.messages.drop_last() =~= seq![session.messages[0]]);
        assert(session.messages.drop_last().drop_last() =~= Seq::empty());
    }
    reveal_with_fuel(tally, 4);
    reveal_with_fuel(called_tools, 4);
    if provider@.len() > 0 {
        let content = final_content(provider@[0]);
        lemma_scripted_answer(
            tools,
            provider,
            AllowAll,
            session,
            DEFAULT_MAX_STEPS,
            outcome,
            next,
            after,
            content,
        );
        let response = EventView::ModelResponse { content: provider@[0] };
        assert(after.events =~= seq![asked[0], response, EventView::FinalAnswer { content }]);
        assert(after.events.drop_last() =~= seq![asked[0], response]);
        assert(after.events.drop_last().drop_last() =~= asked);
    } else {
        lemma_script_runs_out(
            tools,
            provider,
            AllowAll,
            session,
            DEFAULT_MAX_STEPS,
            outcome,
            next,
            after,
        );
    }
    assert(asked.drop_last() =~= Seq::empty());
}

// ---------------------------------------------------------------------------
// Tallies
// ---------------------------------------------------------------------------
/// How often a case came out well.
#[derive(Debug, PartialEq, Eq)]
pub struct FixtureResult {
    pub name: String,
    pub label: String,
    pub passed: usize,
    pub runs: usize,
}

/// Whether `runs` trials of a case, one after the other, may come out well
/// `passed` times.
pub open spec fn tallies<V: Provider, T: Tool>(
    tools: Seq<T>,
    provider: V,
    case: EvalCaseView,
    runs: nat,
    passed: nat,
    next: V,
) -> bool
    decreases runs,
{
    if runs == 0 {
        passed == 0 && next == provider
    } else {
        exists|between: V, outcome: Result<Seq<char>, LoopErrorView>, summary: RunSummaryView|
            {
                &&& #[trigger] tries(tools, between, case.prompt, outcome, summary, next)
                &&& if meets(case.expectation, outcome, summary) {
                    passed > 0 && tallies(
                        tools,
                        provider,
                        case,
                        (runs - 1) as nat,
                        (passed - 1) as nat,
                        between,
                    )
                } else {
                    tallies(tools, provider, case, (runs - 1) as nat, passed, between)
                }
            }
    }
}

/// Whether the cases, one after the other, may give these results.
pub open spec fn evaluates<V: Provider, T: Tool>(
    tools: Seq<T>,
    provider: V,
    cases: Seq<EvalCaseView>,
    runs: nat,
    results: Seq<FixtureResult>,
    next: V,
) -> bool
    decreases cases.len(),
{
    if cases.len() == 0 {
        results.len() == 0 && next == provider
    } else {
        &&& results.len() == cases.len()
        &&& results.last().name@ == cases.last().name
        &&& results.last().label@ == expectation_label(cases.last().expectation)
        &&& results.last().runs == runs
        &&& exists|between: V|
            {
                &&& evaluates(
                    tools,
                    provider,
                    cases.drop_last(),
                    runs,
                    results.drop_last(),
                    between,
                )
                &&& #[trigger] tallies(
                    tools,
                    between,
                    cases.last(),
                    runs,
                    results.last().passed as nat,
                    next,
                )
            }
    }
}

/// What the cases say, one after another.
pub open spec fn cases_view(cases: Seq<EvalCase>) -> Seq<EvalCaseView> {
    cases.map_values(|c: EvalCase| c@)
}

/// Run each case `runs` times, and tally how often it came out as expected.
pub fn run_eval<V: Provider, T: Tool>(
    provider: &mut V,
    registry: &ToolRegistry<T>,
    fixtures: &[EvalCase],
    runs: usize,
) -> (r: Vec<FixtureResult>)
    ensures
        evaluates(
            registry@,
            *old(provider),
            cases_view(fixtures@),
            runs as nat,
            r@,
            *final(provider),
        ),
{
    let ghost tools = registry@;
    let ghost first = *provider;
    let ghost all = cases_view(fixtures@);
    let mut results: Vec<FixtureResult> = Vec::new();
    assert(all.take(0) =~= Seq::empty());
    let mut i: usize = 0;
    while i < fixtures.len()
        invariant
            i <= fixtures@.len() == all.len(),
            all == cases_view(fixtures@),
            tools == registry@,
            first == *old(provider),
            results@.len() == i,
            evaluates(tools, first, all.take(i as int), runs as nat, results@, *provider),
        decreases fixtures@.len() - i,
    {
        let case = &fixtures[i];
        let ghost started = *provider;
        let ghost view = case@;
        assert(all[i as int] == view);
        let mut passed: usize = 0;
        let mut run: usize = 0;
        while run < runs
            invariant
                run <= runs,
                passed <= run,
                tools == registry@,
                view == case@,
                tallies(tools, started, view, run as nat, passed as nat, *provider),
            decreases runs - run,
        {
            let ghost between = *provider;
            let ghost before = passed as nat;
            let trial = eval_trial(provider, registry, case.prompt.as_str());
            let ghost outcome = answer_view(trial.0);
            let ghost summary = trial.1@;
            if judge(&case.expectation, &trial.0, &trial.1) {
                passed = passed + 1;
            }
            proof {
                let next = (run + 1) as nat;
                assert(tries(tools, between, view.prompt, outcome, summary, *provider));
                assert((next - 1) as nat == run as nat);
                assert(meets(view.expectation, outcome, summary) ==> (passed - 1) as nat == before);
                assert(tallies(tools, started, view, next, passed as nat, *provider));
            }
            run = run + 1;
        }
        let ghost earlier = results@;
        results.push(
            FixtureResult {
                name: case.name.clone(),
                label: case.expectation.label(),
                passed,
                runs,
            },
        );
        proof {
            let taken = all.take(i + 1);
            assert(taken.drop_last() =~= all.take(i as int));
            assert(results@.drop_last() =~= earlier);
            assert(evaluates(
                tools,
                first,
                taken.drop_last(),
                runs as nat,
                results@.drop_last(),
                started,
            ));
            assert(taken.last() == view);
            assert(tallies(
                tools,
                started,
                taken.last(),
                runs as nat,
                results@.last().passed as nat,
                *provider,
            ));
            assert(evaluates(tools, first, taken, runs as nat, results@, *provider));
        }
        i = i + 1;
    }
    assert(all.take(i as int) =~= all);
    results
}

proof fn lemma_tally_bounded<V: Provider, T: Tool>(
    tools: Seq<T>,
    provider: V,
    case: EvalCaseView,
    runs: nat,
    passed: nat,
    next: V,
)
    requires
        tallies(tools, provider, case, runs, passed, next),
    ensures
        passed <= runs,
    decreases runs,
{
    if runs > 0 {
        let (between, outcome, summary) = choose|
            between: V,
            outcome: Result<Seq<char>, LoopErrorView>,
            summary: RunSummaryView,
        |
            {
                &&& #[trigger] tries(tools, between, case.prompt, outcome, summary, next)
                &&& if meets(case.expectation, outcome, summary) {
                    passed > 0 && tallies(
                        tools,
                        provider,
                        case,
                        (runs - 1) as nat,
                        (passed - 1) as nat,
                        between,
                    )
                } else {
                    tallies(tools, provider, case, (runs - 1) as nat, passed, between)
                }
            };
        let before = if meets(case.expectation, outcome, summary) {
            (passed - 1) as nat
        } else {
            passed
        };
        lemma_tally_bounded(tools, provider, case, (runs - 1) as nat, before, between);
    }
}

/// An evaluation gives one result for each case, in the order of the cases,
/// and no case comes out well more often than it was run.
pub proof fn lemma_one_result_per_case<V: Provider, T: Tool>(
    tools: Seq<T>,
    provider: V,
    cases: Seq<EvalCaseView>,
    runs: nat,
    results: Seq<FixtureResult>,
    next: V,
)
    requires
        evaluates(tools, provider, cases, runs, results, next),
    ensures
        results.len() == cases.len(),
        forall|i: int|
            0 <= i < results.len() ==> {
                &&& (#[trigger] results[i]).name@ == cases[i].name
                &&& results[i].label@ == expectation_label(cases[i].expectation)
                &&& results[i].runs == runs
                &&& results[i].passed <= runs
            },
    decreases cases.len(),
{
    if cases.len() > 0 {
        let between = choose|between: V|
            {
                &&& evaluates(
                    tools,
                    provider,
                    cases.drop_last(),
                    runs,
                    results.drop_last(),
                    between,
                )
                &&& #[trigger] tallies(
                    tools,
                    between,
                    cases.last(),
                    runs,
                    results.last().passed as nat,
                    next,
                )
            };
        lemma_one_result_per_case(
            tools,
            provider,
            cases.drop_last(),
            runs,
            results.drop_last(),
            between,
        );
        lemma_tally_bounded(
            tools,
            between,
            cases.last(),
            runs,
            results.last().passed as nat,
            next,
        );
        assert forall|i: int| 0 <= i < results.len() implies {
            &&& (#[trigger] results[i]).name@ == cases[i].name
            &&& results[i].label@ == expectation_label(cases[i].expectation)
            &&& results[i].runs == runs
            &&& results[i].passed <= runs
        } by {
            if i < results.len() - 1 {
                assert(results[i] == results.drop_last()[i]);
                assert(cases[i] == cases.drop_last()[i]);
            }
        }
    }
}

/// A case that is run with a script of final answers uses one response for each
/// run, as long as there is one, and comes out well once for each of these that
/// is as expected: the runs for which there is no response fail.
pub proof fn lemma_scripted_tally<T: Tool>(
    tools: Seq<T>,
    provider: MockProvider,
    case: EvalCaseView,
    runs: nat,
    passed: nat,
    next: MockProvider,
)
    requires
        tallies(tools, provider, case, runs, passed, next),
        all_final(provider@),
    ensures
        passed == good_answers(case.expectation, provider@.take(used(provider@, 0, runs))),
        next@ == provider@.skip(used(provider@, 0, runs)),
    decreases runs,
{
    let script = provider@;
    if runs == 0 {
        assert(script.skip(0) =~= script);
    } else {
        let (between, outcome, summary) = choose|
            between: MockProvider,
            outcome: Result<Seq<char>, LoopErrorView>,
            summary: RunSummaryView,
        |
            {
                &&& #[trigger] tries(tools, between, case.prompt, outcome, summary, next)
                &&& if meets(case.expectation, outcome, summary) {
                    passed > 0 && tallies(
                        tools,
                        provider,
                        case,
                        (runs - 1) as nat,
                        (passed - 1) as nat,
                        between,
                    )
                } else {
                    tallies(tools, provider, case, (runs - 1) as nat, passed, between)
                }
            };
        let met = meets(case.expectation, outcome, summary);
        let fewer = (runs - 1) as nat;
        let before = if met {
            (passed - 1) as nat
        } else {
            passed
        };
        lemma_scripted_tally(tools, provider, case, fewer, before, between);
        let done = used(script, 0, fewer);
        let left = script.skip(done);
        assert(between@ == left);
        if left.len() > 0 {
            assert(left[0] == script[done]);
        }
        lemma_scripted_trial(tools, between, case.prompt, outcome, summary, next);
        if left.len() > 0 {
            assert(script.take(done + 1).drop_last() =~= script.take(done));
            assert(left.drop_first() =~= script.skip(done + 1));
            assert(!summary.tools_called.contains(
                case.expectation->CallsTool_name,
            ));
        } else {
            assert(!(case.expectation is CallsTool) || !summary.tools_called.contains(
                case.expectation->CallsTool_name,
            ));
        }
    }
}

/// How far a script is used, from one place in it, by this many runs that take a
/// response each.
pub open spec fn used(script: Seq<Seq<char>>, from: int, runs: nat) -> int {
    if from + runs <= script.len() {
        from + runs
    } else {
        script.len() as int
    }
}

/// How far a script is used by this many cases, one after another.
pub open spec fn used_by_cases(script: Seq<Seq<char>>, cases: nat, runs: nat) -> int
    decreases cases,
{
    if cases == 0 {
        0
    } else {
        used(script, used_by_cases(script, (cases - 1) as nat, runs), runs)
    }
}

/// An evaluation with a script of final answers takes one response for each run
/// of each case in turn, as long as there is one. A case comes out well once for
/// each response of its own that is as expected.
pub proof fn lemma_scripted_evaluation<T: Tool>(
    tools: Seq<T>,
    provider: MockProvider,
    cases: Seq<EvalCaseView>,
    runs: nat,
    results: Seq<FixtureResult>,
    next: MockProvider,
)
    requires
        evaluates(tools, provider, cases, runs, results, next),
        all_final(provider@),
    ensures
        results.len() == cases.len(),
        0 <= used_by_cases(provider@, cases.len(), runs) <= provider@.len(),
        next@ == provider@.skip(used_by_cases(provider@, cases.len(), runs)),
        forall|i: int|
            0 <= i < results.len() ==> (#[trigger] results[i]).passed == good_answers(
                cases[i].expectation,
                provider@.subrange(
                    used_by_cases(provider@, i as nat, runs),
                    used_by_cases(provider@, (i + 1) as nat, runs),
                ),
            ),
    decreases cases.len(),
{
    let script = provider@;
    if cases.len() == 0 {
        assert(script.skip(0) =~= script);
    } else {
        let between = choose|between: MockProvider|
            {
                &&& evaluates(
                    tools,
                    provider,
                    cases.drop_last(),
                    runs,
                    results.drop_last(),
                    between,
                )
                &&& #[trigger] tallies(
                    tools,
                    between,
                    cases.last(),
                    runs,
                    results.last().passed as nat,
                    next,
                )
            };
        lemma_scripted_evaluation(
            tools,
            provider,
            cases.drop_last(),
            runs,
            results.drop_last(),
            between,
        );
        let before = (cases.len() - 1) as nat;
        let from = used_by_cases(script, before, runs);
        let to = used_by_cases(script, cases.len(), runs);
        let left = script.skip(from);
        assert(between@ == left);
        assert forall|i: int| 0 <= i < left.len() implies is_final(#[trigger] left[i]) by {
            assert(left[i] == script[from + i]);
        }
        lemma_scripted_tally(
            tools,
            between,
            cases.last(),
            runs,
            results.last().passed as nat,
            next,
        );
        assert(used(left, 0, runs) == to - from);
        assert(left.take(to - from) =~= script.subrange(from, to));
        assert(left.skip(to - from) =~= script.skip(to));
        assert forall|i: int| 0 <= i < results.len() implies (#[trigger] results[i]).passed
            == good_answers(
            cases[i].expectation,
            script.subrange(
                used_by_cases(script, i as nat, runs),
                used_by_cases(script, (i + 1) as nat, runs),
            ),
        ) by {
            if i < before {
                assert(results[i] == results.drop_last()[i]);
                assert(cases[i] == cases.drop_last()[i]);
            } else {
                assert(results[i] == results.last());
            }
        }
    }
}

// ---------------------------------------------------------------------------
// The scorecard
// ---------------------------------------------------------------------------
/// How often the cases came out well, all together.
pub open spec fn total_passed(results: Seq<FixtureResult>) -> nat
    decreases results.len(),
{
    if results.len() == 0 {
        0
    } else {
        total_passed(results.drop_last()) + results.last().passed as nat
    }
}

/// How often the cases were run, all together.
pub open spec fn total_runs(results: Seq<FixtureResult>) -> nat
    decreases results.len(),
{
    if results.len() == 0 {
        0
    } else {
        total_runs(results.drop_last()) + results.last().runs as nat
    }
}

/// The line of a result: the name in a column of its own, how often the case
/// came out well, and what was expected.
pub open spec fn result_line(result: FixtureResult) -> Seq<char> {
    "  "@ + padded(result.name@, 14) + " "@ + decimal(result.passed as nat) + "/"@ + decimal(
        result.runs as nat,
    ) + "  "@ + result.label@
}

/// The lines of a scorecard.
pub open spec fn scorecard_lines(results: Seq<FixtureResult>, runs: usize) -> Seq<Seq<char>> {
    seq!["abcb eval: "@ + decimal(runs as nat) + " runs each"@] + results.map_values(
        |result: FixtureResult| result_line(result),
    ) + seq![
        "overall: "@ + decimal(total_passed(results)) + "/"@ + decimal(total_runs(results)),
    ]
}

proof fn lemma_totals_grow(results: Seq<FixtureResult>, i: int)
    requires
        0 <= i <= results.len(),
    ensures
        total_passed(results.take(i)) <= total_passed(results),
        total_runs(results.take(i)) <= total_runs(results),
    decreases results.len() - i,
{
    if i == results.len() {
        assert(results.take(i) =~= results);
    } else {
        let more = results.take(i + 1);
        assert(more.drop_last() =~= results.take(i));
        lemma_totals_grow(results, i + 1);
    }
}

fn result_text(result: &FixtureResult) -> (r: String)
    ensures
        r@ == result_line(*result),
{
    let mut line = "  ".to_owned();
    line.append(pad_end(result.name.as_str(), 14).as_str());
    line.append(" ");
    line.append(decimal_text(result.passed as u64).as_str());
    line.append("/");
    line.append(decimal_text(result.runs as u64).as_str());
    line.append("  ");
    line.append(result.label.as_str());
    line
}

/// The lines of the scorecard of an evaluation that ran each case `runs` times.
pub fn scorecard(results: &Vec<FixtureResult>, runs: usize) -> (r: Vec<String>)
    requires
        total_passed(results@) <= usize::MAX,
        total_runs(results@) <= usize::MAX,
    ensures
        texts(r@) == scorecard_lines(results@, runs),
{
    let mut lines: Vec<String> = Vec::new();
    let mut head = "abcb eval: ".to_owned();
    head.append(decimal_text(runs as u64).as_str());
    head.append(" runs each");
    let ghost opening = head@;
    lines.push(head);
    let mut passed: usize = 0;
    let mut total: usize = 0;
    let ghost shown = results@.map_values(|result: FixtureResult| result_line(result));
    assert(results@.take(0) =~= Seq::empty());
    assert(texts(lines@) =~= seq![opening] + shown.take(0));
    let mut i: usize = 0;
    while i < results.len()
        invariant
            i <= results@.len() == shown.len(),
            shown == results@.map_values(|result: FixtureResult| result_line(result)),
            total_passed(results@) <= usize::MAX,
            total_runs(results@) <= usize::MAX,
            passed == total_passed(results@.take(i as int)),
            total == total_runs(results@.take(i as int)),
            texts(lines@) == seq![opening] + shown.take(i as int),
        decreases results@.len() - i,
    {
        proof {
            assert(results@.take(i + 1).drop_last() =~= results@.take(i as int));
            lemma_totals_grow(results@, i + 1);
        }
        let ghost before = texts(lines@);
        let line = result_text(&results[i]);
        lines.push(line);
        assert(texts(lines@) =~= before.push(shown[i as int]));
        assert(seq![opening] + shown.take(i + 1) =~= before.push(shown[i as int]));
        passed = passed + results[i].passed;
        total = total + results[i].runs;
        i = i + 1;
    }
    assert(results@.take(i as int) =~= results@);
    assert(shown.take(i as int) =~= shown);
    let ghost before = texts(lines@);
    let mut tail = "overall: ".to_owned();
    tail.append(decimal_text(passed as u64).as_str());
    tail.append("/");
    tail.append(decimal_text(total as u64).as_str());
    let ghost closing = tail@;
    lines.push(tail);
    assert(texts(lines@) =~= before.push(closing));
    assert(texts(lines@) =~= scorecard_lines(results@, runs));
    lines
}

} // verus!
