//! What a run came to, read off its event log.
use vstd::prelude::*;

use crate::agent::{answer_view, LoopError, LoopErrorView};
use crate::event::{logged_view, Event, EventView, LoggedEvent, LoggedView};
use crate::laws::{is_response, lemma_tally_concat, tally};
use crate::text::{decimal, decimal_text, join, joined, texts};

verus! {

/// How a run ended.
#[derive(Debug, PartialEq, Eq, Structural)]
pub enum RunStatus {
    Completed,
    MaxStepsExceeded,
    Failed,
}

/// How a run with this outcome ended.
pub open spec fn status_of(outcome: Result<Seq<char>, LoopErrorView>) -> RunStatus {
    match outcome {
        Ok(_) => RunStatus::Completed,
        Err(LoopErrorView::MaxStepsExceeded { .. }) => RunStatus::MaxStepsExceeded,
        Err(_) => RunStatus::Failed,
    }
}

/// The name of a status.
pub open spec fn status_label(status: RunStatus) -> Seq<char> {
    match status {
        RunStatus::Completed => "completed"@,
        RunStatus::MaxStepsExceeded => "max steps exceeded"@,
        RunStatus::Failed => "failed"@,
    }
}

impl RunStatus {
    /// How a run with this outcome ended.
    pub fn from_outcome(outcome: &Result<String, LoopError>) -> (r: Self)
        ensures
            r == status_of(answer_view(*outcome)),
    {
        match outcome {
            Ok(_) => RunStatus::Completed,
            Err(LoopError::MaxStepsExceeded { .. }) => RunStatus::MaxStepsExceeded,
            Err(_) => RunStatus::Failed,
        }
    }

    /// The name of the status.
    pub fn label(&self) -> (r: &'static str)
        ensures
            r@ == status_label(*self),
    {
        match self {
            RunStatus::Completed => "completed",
            RunStatus::MaxStepsExceeded => "max steps exceeded",
            RunStatus::Failed => "failed",
        }
    }
}

/// A summary of one run: how it ended, how often the model was asked, which
/// tools ran and which were denied, and against which endpoint.
#[derive(Debug, PartialEq, Eq)]
pub struct RunSummary {
    pub status: RunStatus,
    pub steps: usize,
    pub tools_called: Vec<String>,
    pub tools_denied: Vec<String>,
    pub endpoint: String,
}

/// What a [`RunSummary`] says.
pub struct RunSummaryView {
    pub status: RunStatus,
    pub steps: nat,
    pub tools_called: Seq<Seq<char>>,
    pub tools_denied: Seq<Seq<char>>,
    pub endpoint: Seq<char>,
}

impl View for RunSummary {
    type V = RunSummaryView;

    open spec fn view(&self) -> RunSummaryView {
        RunSummaryView {
            status: self.status,
            steps: self.steps as nat,
            tools_called: texts(self.tools_called@),
            tools_denied: texts(self.tools_denied@),
            endpoint: self.endpoint@,
        }
    }
}

/// The events of records.
pub open spec fn events_of(records: Seq<LoggedView>) -> Seq<EventView> {
    records.map_values(|r: LoggedView| r.event)
}

/// The tools whose results are among the events, in order.
pub open spec fn called_tools(events: Seq<EventView>) -> Seq<Seq<char>>
    decreases events.len(),
{
    if events.len() == 0 {
        Seq::empty()
    } else {
        match events.last() {
            EventView::ToolResult { tool_name, .. } => called_tools(events.drop_last()).push(
                tool_name,
            ),
            _ => called_tools(events.drop_last()),
        }
    }
}

/// The tools whose denials are among the events, in order.
pub open spec fn denied_tools(events: Seq<EventView>) -> Seq<Seq<char>>
    decreases events.len(),
{
    if events.len() == 0 {
        Seq::empty()
    } else {
        match events.last() {
            EventView::ToolDenied { tool_name } => denied_tools(events.drop_last()).push(tool_name),
            _ => denied_tools(events.drop_last()),
        }
    }
}

/// A tool is among those that were called exactly where its result is among the
/// events, and among those that were denied exactly where its denial is.
pub proof fn lemma_called(events: Seq<EventView>, name: Seq<char>)
    ensures
        called_tools(events).contains(name) <==> exists|i: int|
            0 <= i < events.len() && ((#[trigger] events[i]) matches EventView::ToolResult {
                tool_name,
                ..
            } && tool_name == name),
        denied_tools(events).contains(name) <==> exists|i: int|
            0 <= i < events.len() && ((#[trigger] events[i]) matches EventView::ToolDenied {
                tool_name,
            } && tool_name == name),
    decreases events.len(),
{
    if events.len() > 0 {
        let before = events.drop_last();
        lemma_called(before, name);
        let last = events.len() - 1;
        assert(events[last] == events.last());
        let called = called_tools(before);
        let denied = denied_tools(before);
        match events.last() {
            EventView::ToolResult { tool_name, .. } => {
                lemma_push_contains(called, tool_name, name);
            },
            EventView::ToolDenied { tool_name } => {
                lemma_push_contains(denied, tool_name, name);
            },
            _ => {},
        }
        if exists|i: int|
            0 <= i < before.len() && ((#[trigger] before[i]) matches EventView::ToolResult {
                tool_name,
                ..
            } && tool_name == name) {
            let i = choose|i: int|
                0 <= i < before.len() && ((#[trigger] before[i]) matches EventView::ToolResult {
                    tool_name,
                    ..
                } && tool_name == name);
            assert(events[i] == before[i]);
        }
        if exists|i: int|
            0 <= i < events.len() && ((#[trigger] events[i]) matches EventView::ToolResult {
                tool_name,
                ..
            } && tool_name == name) {
            let i = choose|i: int|
                0 <= i < events.len() && ((#[trigger] events[i]) matches EventView::ToolResult {
                    tool_name,
                    ..
                } && tool_name == name);
            if i < last {
                assert(before[i] == events[i]);
            }
        }
        if exists|i: int|
            0 <= i < before.len() && ((#[trigger] before[i]) matches EventView::ToolDenied {
                tool_name,
            } && tool_name == name) {
            let i = choose|i: int|
                0 <= i < before.len() && ((#[trigger] before[i]) matches EventView::ToolDenied {
                    tool_name,
                } && tool_name == name);
            assert(events[i] == before[i]);
        }
        if exists|i: int|
            0 <= i < events.len() && ((#[trigger] events[i]) matches EventView::ToolDenied {
                tool_name,
            } && tool_name == name) {
            let i = choose|i: int|
                0 <= i < events.len() && ((#[trigger] events[i]) matches EventView::ToolDenied {
                    tool_name,
                } && tool_name == name);
            if i < last {
                assert(before[i] == events[i]);
            }
        }
    }
}

proof fn lemma_push_contains(names: Seq<Seq<char>>, last: Seq<char>, name: Seq<char>)
    ensures
        names.push(last).contains(name) <==> names.contains(name) || last == name,
{
    let all = names.push(last);
    if names.contains(name) {
        let i = choose|i: int| 0 <= i < names.len() && names[i] == name;
        assert(all[i] == name);
    }
    if last == name {
        assert(all[names.len() as int] == name);
    }
    if all.contains(name) {
        let i = choose|i: int| 0 <= i < all.len() && all[i] == name;
        if i < names.len() {
            assert(names[i] == name);
        }
    }
}

/// The summary of a run that logged these events and had this outcome. Every
/// reply of the model is a step, whatever became of it.
pub open spec fn summary_of(
    events: Seq<EventView>,
    outcome: Result<Seq<char>, LoopErrorView>,
    endpoint: Seq<char>,
) -> RunSummaryView {
    RunSummaryView {
        status: status_of(outcome),
        steps: tally(events, is_response()),
        tools_called: called_tools(events),
        tools_denied: denied_tools(events),
        endpoint,
    }
}

/// A list of names in brackets.
pub open spec fn bracketed(names: Seq<Seq<char>>) -> Seq<char> {
    "["@ + joined(names, ", "@) + "]"@
}

/// A summary on one line.
pub open spec fn summary_line(s: RunSummaryView) -> Seq<char> {
    "run summary: status: "@ + status_label(s.status) + ", steps: "@ + decimal(s.steps)
        + ", tools: "@ + bracketed(s.tools_called) + ", denied: "@ + bracketed(s.tools_denied)
        + ", endpoint: "@ + s.endpoint
}

fn bracketed_text(names: &Vec<String>) -> (r: String)
    ensures
        r@ == bracketed(texts(names@)),
{
    let mut text = "[".to_owned();
    text.append(join(names, ", ").as_str());
    text.append("]");
    text
}

impl RunSummary {
    /// The summary of a run with this log and this outcome.
    pub fn from_run(
        events: &[LoggedEvent],
        outcome: &Result<String, LoopError>,
        endpoint: String,
    ) -> (r: Self)
        ensures
            r@ == summary_of(
                events_of(logged_view(events@)),
                answer_view(*outcome),
                endpoint@,
            ),
    {
        let ghost all = events_of(logged_view(events@));
        let mut steps: usize = 0;
        let mut tools_called: Vec<String> = Vec::new();
        let mut tools_denied: Vec<String> = Vec::new();
        assert(all.take(0) =~= Seq::empty());
        assert(texts(tools_called@) =~= Seq::empty());
        assert(texts(tools_denied@) =~= Seq::empty());
        let mut i: usize = 0;
        while i < events.len()
            invariant
                i <= events@.len() == all.len(),
                all == events_of(logged_view(events@)),
                steps <= i,
                steps == tally(all.take(i as int), is_response()),
                texts(tools_called@) == called_tools(all.take(i as int)),
                texts(tools_denied@) == denied_tools(all.take(i as int)),
            decreases events@.len() - i,
        {
            assert(all.take(i + 1).drop_last() =~= all.take(i as int));
            assert(all[i as int] == events@[i as int].event@);
            let ghost called = texts(tools_called@);
            let ghost denied = texts(tools_denied@);
            match &events[i].event {
                Event::ModelResponse { .. } => {
                    steps = steps + 1;
                },
                Event::ToolResult { tool_name, .. } => {
                    tools_called.push(tool_name.clone());
                    assert(texts(tools_called@) =~= called.push(tool_name@));
                },
                Event::ToolDenied { tool_name } => {
                    tools_denied.push(tool_name.clone());
                    assert(texts(tools_denied@) =~= denied.push(tool_name@));
                },
                Event::UserMessage { .. } => {},
                Event::FinalAnswer { .. } => {},
            }
            i = i + 1;
        }
        assert(all.take(i as int) =~= all);
        RunSummary {
            status: RunStatus::from_outcome(outcome),
            steps,
            tools_called,
            tools_denied,
            endpoint,
        }
    }

    /// The summary on one line.
    pub fn to_string(&self) -> (r: String)
        ensures
            r@ == summary_line(self@),
    {
        let mut text = "run summary: status: ".to_owned();
        text.append(self.status.label());
        text.append(", steps: ");
        text.append(decimal_text(self.steps as u64).as_str());
        text.append(", tools: ");
        text.append(bracketed_text(&self.tools_called).as_str());
        text.append(", denied: ");
        text.append(bracketed_text(&self.tools_denied).as_str());
        text.append(", endpoint: ");
        text.append(self.endpoint.as_str());
        text
    }
}

/// The summary of a log is the summary of its parts, one behind the other.
pub proof fn lemma_summary_of_parts(
    first: Seq<EventView>,
    second: Seq<EventView>,
    outcome: Result<Seq<char>, LoopErrorView>,
    endpoint: Seq<char>,
)
    ensures
        summary_of(first + second, outcome, endpoint).steps == summary_of(
            first,
            outcome,
            endpoint,
        ).steps + summary_of(second, outcome, endpoint).steps,
        called_tools(first + second) == called_tools(first) + called_tools(second),
        denied_tools(first + second) == denied_tools(first) + denied_tools(second),
    decreases second.len(),
{
    lemma_tally_concat(first, second, is_response());
    if second.len() == 0 {
        assert(first + second =~= first);
    } else {
        assert((first + second).drop_last() =~= first + second.drop_last());
        lemma_summary_of_parts(first, second.drop_last(), outcome, endpoint);
        assert(called_tools(first + second) =~= called_tools(first) + called_tools(second));
        assert(denied_tools(first + second) =~= denied_tools(first) + denied_tools(second));
    }
}

} // verus!
