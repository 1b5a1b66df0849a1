//! The events of a run, and the log that holds them as JSON, one record a line.
use vstd::prelude::*;

use crate::data::{
    compact, depth_limit, lemma_compact_printable, lemma_plain_deeper, number_member, plain,
    read_json, reading, text_member, Data, DataView,
};
use crate::decode::{
    first_misfit, member, misfit_from, number_of, tag_of, text_misfit, text_result,
    unknown_variant, unknown_variant_message, variant_of, wrong_kind, wrong_value, Fields, Form,
    Shape,
};
use crate::external::json_of_text;
use crate::message::now_millis;
use crate::provider::optional;
use crate::text::{
    ended, lemma_lines_of_ended, lines, lines_of, one_line, same_text, texts, trim, trimmed,
};

verus! {

/// Something that happened in a run.
#[derive(Debug, PartialEq, Eq)]
pub enum Event {
    UserMessage { content: String },
    ModelResponse { content: String },
    ToolResult { tool_name: String, output: String },
    ToolDenied { tool_name: String },
    FinalAnswer { content: String },
}

/// What an [`Event`] says.
pub enum EventView {
    UserMessage { content: Seq<char> },
    ModelResponse { content: Seq<char> },
    ToolResult { tool_name: Seq<char>, output: Seq<char> },
    ToolDenied { tool_name: Seq<char> },
    FinalAnswer { content: Seq<char> },
}

impl View for Event {
    type V = EventView;

    open spec fn view(&self) -> EventView {
        match self {
            Event::UserMessage { content } => EventView::UserMessage { content: content@ },
            Event::ModelResponse { content } => EventView::ModelResponse { content: content@ },
            Event::ToolResult { tool_name, output } => EventView::ToolResult {
                tool_name: tool_name@,
                output: output@,
            },
            Event::ToolDenied { tool_name } => EventView::ToolDenied { tool_name: tool_name@ },
            Event::FinalAnswer { content } => EventView::FinalAnswer { content: content@ },
        }
    }
}

/// An event with the time at which it was written.
#[derive(Debug, PartialEq, Eq)]
pub struct LoggedEvent {
    pub at: u64,
    pub event: Event,
}

/// What a [`LoggedEvent`] says.
pub struct LoggedView {
    pub at: u64,
    pub event: EventView,
}

impl View for LoggedEvent {
    type V = LoggedView;

    open spec fn view(&self) -> LoggedView {
        LoggedView { at: self.at, event: self.event@ }
    }
}

impl Clone for Event {
    fn clone(&self) -> (r: Self)
        ensures
            r@ == self@,
    {
        match self {
            Event::UserMessage { content } => Event::UserMessage { content: content.clone() },
            Event::ModelResponse { content } => Event::ModelResponse { content: content.clone() },
            Event::ToolResult { tool_name, output } => Event::ToolResult {
                tool_name: tool_name.clone(),
                output: output.clone(),
            },
            Event::ToolDenied { tool_name } => Event::ToolDenied { tool_name: tool_name.clone() },
            Event::FinalAnswer { content } => Event::FinalAnswer { content: content.clone() },
        }
    }
}

impl Clone for LoggedEvent {
    fn clone(&self) -> (r: Self)
        ensures
            r@ == self@,
    {
        LoggedEvent { at: self.at, event: self.event.clone() }
    }
}

/// What the records say, one after another.
pub open spec fn logged_view(records: Seq<LoggedEvent>) -> Seq<LoggedView> {
    records.map_values(|r: LoggedEvent| r@)
}

/// Why an event log could not be written or read.
#[derive(Debug, PartialEq, Eq)]
pub enum EventLogError {
    Io(String),
    Serde(String),
}

/// What an [`EventLogError`] says.
pub enum EventLogErrorView {
    Io(Seq<char>),
    Serde(Seq<char>),
}

impl View for EventLogError {
    type V = EventLogErrorView;

    open spec fn view(&self) -> EventLogErrorView {
        match self {
            EventLogError::Io(e) => EventLogErrorView::Io(e@),
            EventLogError::Serde(e) => EventLogErrorView::Serde(e@),
        }
    }
}

impl EventLogErrorView {
    /// The error in words.
    pub open spec fn text(self) -> Seq<char> {
        match self {
            EventLogErrorView::Io(e) => "event log io error: "@ + e,
            EventLogErrorView::Serde(e) => "event log serialization error: "@ + e,
        }
    }

    /// The message of the error beneath this one.
    pub open spec fn cause(self) -> Option<Seq<char>> {
        match self {
            EventLogErrorView::Io(e) => Some(e),
            EventLogErrorView::Serde(e) => Some(e),
        }
    }
}

impl EventLogError {
    /// The error in words.
    pub fn to_string(&self) -> (r: String)
        ensures
            r@ == self@.text(),
    {
        match self {
            EventLogError::Io(e) => {
                let mut text = "event log io error: ".to_owned();
                text.append(e.as_str());
                text
            },
            EventLogError::Serde(e) => {
                let mut text = "event log serialization error: ".to_owned();
                text.append(e.as_str());
                text
            },
        }
    }

    /// The message of the error beneath this one.
    pub fn source(&self) -> (r: Option<String>)
        ensures
            optional(r) == self@.cause(),
    {
        match self {
            EventLogError::Io(e) => Some(e.clone()),
            EventLogError::Serde(e) => Some(e.clone()),
        }
    }
}

// ---------------------------------------------------------------------------
// Events as JSON
// ---------------------------------------------------------------------------
/// The name of an event's kind.
pub open spec fn event_kind(e: EventView) -> Seq<char> {
    match e {
        EventView::UserMessage { .. } => "user_message"@,
        EventView::ModelResponse { .. } => "model_response"@,
        EventView::ToolResult { .. } => "tool_result"@,
        EventView::ToolDenied { .. } => "tool_denied"@,
        EventView::FinalAnswer { .. } => "final_answer"@,
    }
}

/// The members of an event as an object: its kind, then its fields.
pub open spec fn event_members(e: EventView) -> Seq<(Seq<char>, DataView)> {
    match e {
        EventView::UserMessage { content } | EventView::ModelResponse { content }
        | EventView::FinalAnswer { content } => seq![
            ("kind"@, DataView::Text(event_kind(e))),
            ("content"@, DataView::Text(content)),
        ],
        EventView::ToolResult { tool_name, output } => seq![
            ("kind"@, DataView::Text(event_kind(e))),
            ("tool_name"@, DataView::Text(tool_name)),
            ("output"@, DataView::Text(output)),
        ],
        EventView::ToolDenied { tool_name } => seq![
            ("kind"@, DataView::Text(event_kind(e))),
            ("tool_name"@, DataView::Text(tool_name)),
        ],
    }
}

/// An event as a value.
pub open spec fn event_data(e: EventView) -> DataView {
    DataView::Object(event_members(e))
}

/// A record of the log as a value.
pub open spec fn record_data(r: LoggedView) -> DataView {
    DataView::Object(seq![("at"@, DataView::Unsigned(r.at))] + event_members(r.event))
}

/// The kinds of events, for a kind that no event has.
pub open spec fn kinds() -> Seq<char> {
    "one of `user_message`, `model_response`, `tool_result`, `tool_denied`, `final_answer`"@
}

/// The events with a content, as records.
pub open spec fn content_shape(kind: Seq<char>) -> Shape {
    Shape {
        name: if kind == "user_message"@ {
            "struct variant Event::UserMessage"
        } else if kind == "model_response"@ {
            "struct variant Event::ModelResponse"
        } else {
            "struct variant Event::FinalAnswer"
        },
        fields: 1,
        form: Form::Tagged,
    }
}

/// A result of a tool as a record.
pub open spec fn result_shape() -> Shape {
    Shape { name: "struct variant Event::ToolResult", fields: 2, form: Form::Tagged }
}

/// What the fields of a result of a tool have to be.
pub struct ResultFields;

impl Fields for ResultFields {
    open spec fn misfit(&self, name: Seq<char>, v: DataView) -> Option<Seq<char>> {
        if name == "tool_name"@ || name == "output"@ {
            text_misfit(v)
        } else {
            None
        }
    }

    fn check(&self, name: &str, v: &Data) -> (r: Option<String>) {
        if same_text(name, "tool_name") || same_text(name, "output") {
            v.text_misfit()
        } else {
            None
        }
    }
}

/// A denial of a tool as a record.
pub open spec fn denied_shape() -> Shape {
    Shape { name: "struct variant Event::ToolDenied", fields: 1, form: Form::Tagged }
}

/// The event of a kind that a value says; in an array the fields stand behind
/// the kind.
pub open spec fn event_of_kind(v: DataView, kind: Seq<char>) -> Result<EventView, Seq<char>> {
    if kind == "user_message"@ || kind == "model_response"@ || kind == "final_answer"@ {
        content_shape(kind).decoded(
            v,
            None,
            match content_shape(kind).text(v, 0, "content"@) {
                Err(message) => Err(message),
                Ok(content) => Ok(
                    if kind == "user_message"@ {
                        EventView::UserMessage { content }
                    } else if kind == "model_response"@ {
                        EventView::ModelResponse { content }
                    } else {
                        EventView::FinalAnswer { content }
                    },
                ),
            },
        )
    } else if kind == "tool_result"@ {
        result_shape().decoded(
            v,
            first_misfit(ResultFields, v),
            match result_shape().text(v, 0, "tool_name"@) {
                Err(message) => Err(message),
                Ok(tool_name) => match result_shape().text(v, 1, "output"@) {
                    Err(message) => Err(message),
                    Ok(output) => Ok(EventView::ToolResult { tool_name, output }),
                },
            },
        )
    } else if kind == "tool_denied"@ {
        denied_shape().decoded(
            v,
            None,
            match denied_shape().text(v, 0, "tool_name"@) {
                Err(message) => Err(message),
                Ok(tool_name) => Ok(EventView::ToolDenied { tool_name }),
            },
        )
    } else {
        Err(unknown_variant(kind, kinds()))
    }
}

/// The event that a value says.
pub open spec fn event_of(v: DataView) -> Result<EventView, Seq<char>> {
    match tag_of(v, "Event"@) {
        Err(message) => Err(message),
        Ok(tag) => match variant_of(tag) {
            Err(message) => Err(message),
            Ok(kind) => event_of_kind(v, kind),
        },
    }
}

/// The kind of an event by its number.
pub open spec fn kind_at(n: u64) -> Option<Seq<char>> {
    if n == 0 {
        Some("user_message"@)
    } else if n == 1 {
        Some("model_response"@)
    } else if n == 2 {
        Some("tool_result"@)
    } else if n == 3 {
        Some("tool_denied"@)
    } else if n == 4 {
        Some("final_answer"@)
    } else {
        None
    }
}

/// The kind of an event that the tag of a record says: its name or its number.
pub open spec fn record_kind(tag: DataView) -> Result<Seq<char>, Seq<char>> {
    match tag {
        DataView::Unsigned(n) => match kind_at(n) {
            Some(kind) => Ok(kind),
            None => Err(wrong_value(tag, "variant index 0 <= i < 5"@)),
        },
        _ => variant_of(tag),
    }
}

/// The event that a record of the log says.
pub open spec fn record_event(v: DataView) -> Result<EventView, Seq<char>> {
    match tag_of(v, "Event"@) {
        Err(message) => Err(message),
        Ok(tag) => match record_kind(tag) {
            Err(message) => Err(message),
            Ok(kind) => event_of_kind(v, kind),
        },
    }
}

/// The time that a record says. One without a time is of time zero.
pub open spec fn record_time(members: Seq<(Seq<char>, DataView)>) -> Result<u64, Seq<char>> {
    match member(members, "at"@) {
        None => Ok(0),
        Some(v) => number_of(v),
    }
}

/// The record of the log that a value says.
pub open spec fn record_of(v: DataView) -> Result<LoggedView, Seq<char>> {
    match v {
        DataView::Object(members) => match record_time(members) {
            Err(message) => Err(message),
            Ok(at) => match record_event(v) {
                Err(message) => Err(message),
                Ok(event) => Ok(LoggedView { at, event }),
            },
        },
        _ => Err(wrong_kind(v, "struct LoggedEvent"@)),
    }
}

/// What a reading gives, where the text holds a value.
pub open spec fn then_event(r: Result<DataView, Seq<char>>) -> Result<EventView, Seq<char>> {
    match r {
        Ok(v) => event_of(v),
        Err(message) => Err(message),
    }
}

/// What a reading gives, where the text holds a value.
pub open spec fn then_record(r: Result<DataView, Seq<char>>) -> Result<LoggedView, Seq<char>> {
    match r {
        Ok(v) => record_of(v),
        Err(message) => Err(message),
    }
}

/// An event, or a message, that was decoded.
pub open spec fn event_result(r: Result<Event, String>) -> Result<EventView, Seq<char>> {
    match r {
        Ok(e) => Ok(e@),
        Err(message) => Err(message@),
    }
}

/// A record, or a message, that was decoded.
pub open spec fn record_result(r: Result<LoggedEvent, String>) -> Result<LoggedView, Seq<char>> {
    match r {
        Ok(e) => Ok(e@),
        Err(message) => Err(message@),
    }
}

proof fn lemma_names_differ()
    ensures
        "at"@ != "kind"@,
        "at"@ != "content"@,
        "at"@ != "tool_name"@,
        "at"@ != "output"@,
        "kind"@ != "content"@,
        "kind"@ != "tool_name"@,
        "kind"@ != "output"@,
        "tool_name"@ != "output"@,
        "user_message"@ != "model_response"@,
        "user_message"@ != "tool_result"@,
        "user_message"@ != "tool_denied"@,
        "user_message"@ != "final_answer"@,
        "model_response"@ != "tool_result"@,
        "model_response"@ != "tool_denied"@,
        "model_response"@ != "final_answer"@,
        "tool_result"@ != "tool_denied"@,
        "tool_result"@ != "final_answer"@,
        "tool_denied"@ != "final_answer"@,
{
    reveal_strlit("at");
    reveal_strlit("kind");
    reveal_strlit("content");
    reveal_strlit("tool_name");
    reveal_strlit("output");
    assert("at"@.len() == 2);
    assert("kind"@.len() == 4);
    assert("content"@.len() == 7);
    assert("tool_name"@.len() == 9);
    assert("output"@.len() == 6);
    reveal_strlit("user_message");
    reveal_strlit("model_response");
    reveal_strlit("tool_result");
    reveal_strlit("tool_denied");
    reveal_strlit("final_answer");
    assert("user_message"@.len() == 12);
    assert("model_response"@.len() == 14);
    assert("tool_result"@.len() == 11);
    assert("tool_denied"@.len() == 11);
    assert("final_answer"@.len() == 12);
    assert("user_message"@[0] == 'u');
    assert("final_answer"@[0] == 'f');
    assert("tool_result"@[5] == 'r');
    assert("tool_denied"@[5] == 'd');
}

/// An event as a value is read as the event, and compact JSON carries it.
pub proof fn lemma_event_round_trip(e: EventView)
    ensures
        event_of(event_data(e)) == Ok::<EventView, Seq<char>>(e),
        plain(event_data(e), 1),
{
    lemma_names_differ();
    reveal_with_fuel(crate::decode::member_from, 4);
    reveal_with_fuel(misfit_from, 4);
    reveal_with_fuel(plain, 2);
}

/// A record as a value is read as the record, and compact JSON carries it.
pub proof fn lemma_record_round_trip(r: LoggedView)
    ensures
        record_of(record_data(r)) == Ok::<LoggedView, Seq<char>>(r),
        plain(record_data(r), 1),
{
    lemma_names_differ();
    reveal_with_fuel(crate::decode::member_from, 5);
    reveal_with_fuel(misfit_from, 5);
    reveal_with_fuel(plain, 2);
}

impl Event {
    /// The members of the event as an object.
    fn members(&self) -> (r: Vec<(String, Data)>)
        ensures
            r@.len() == event_members(self@).len(),
            forall|i: int|
                0 <= i < r@.len() ==> (#[trigger] r@[i]).0@ == event_members(self@)[i].0
                    && r@[i].1@ == event_members(self@)[i].1,
    {
        let mut members: Vec<(String, Data)> = Vec::new();
        match self {
            Event::UserMessage { content } => {
                members.push(text_member("kind", "user_message"));
                members.push(text_member("content", content.as_str()));
            },
            Event::ModelResponse { content } => {
                members.push(text_member("kind", "model_response"));
                members.push(text_member("content", content.as_str()));
            },
            Event::ToolResult { tool_name, output } => {
                members.push(text_member("kind", "tool_result"));
                members.push(text_member("tool_name", tool_name.as_str()));
                members.push(text_member("output", output.as_str()));
            },
            Event::ToolDenied { tool_name } => {
                members.push(text_member("kind", "tool_denied"));
                members.push(text_member("tool_name", tool_name.as_str()));
            },
            Event::FinalAnswer { content } => {
                members.push(text_member("kind", "final_answer"));
                members.push(text_member("content", content.as_str()));
            },
        }
        members
    }

    /// The event as JSON.
    pub fn to_json(&self) -> (r: String)
        ensures
            r@ == compact(event_data(self@)),
    {
        let data = Data::Object(self.members());
        assert(data@->Object_0 =~= event_members(self@));
        data.to_json()
    }

    /// The event that a value says.
    pub fn from_data(v: &Data) -> (r: Result<Event, String>)
        ensures
            event_result(r) == event_of(v@),
    {
        let tag = match v.tag("Event") {
            Err(message) => return Err(message),
            Ok(tag) => tag,
        };
        match tag.variant() {
            Err(message) => Err(message),
            Ok(kind) => Event::of_kind(v, kind.as_str()),
        }
    }

    fn of_kind(v: &Data, kind: &str) -> (r: Result<Event, String>)
        ensures
            event_result(r) == event_of_kind(v@, kind@),
    {
        let user_message = same_text(kind, "user_message");
        let model_response = same_text(kind, "model_response");
        if user_message || model_response || same_text(kind, "final_answer") {
            let name = if user_message {
                "struct variant Event::UserMessage"
            } else if model_response {
                "struct variant Event::ModelResponse"
            } else {
                "struct variant Event::FinalAnswer"
            };
            let shape = Shape { name, fields: 1, form: Form::Tagged };
            assert(shape == content_shape(kind@));
            if let Some(message) = shape.error_of(v) {
                return Err(message);
            }
            let content = match shape.text_of(v, 0, "content") {
                Err(message) => return Err(message),
                Ok(content) => content,
            };
            if let Some(message) = shape.surplus_of(v) {
                return Err(message);
            }
            Ok(
                if user_message {
                    Event::UserMessage { content }
                } else if model_response {
                    Event::ModelResponse { content }
                } else {
                    Event::FinalAnswer { content }
                },
            )
        } else if same_text(kind, "tool_result") {
            let shape = Shape {
                name: "struct variant Event::ToolResult",
                fields: 2,
                form: Form::Tagged,
            };
            if let Some(message) = shape.error_of(v) {
                return Err(message);
            }
            if let Some(message) = v.first_misfit(ResultFields) {
                return Err(message);
            }
            let tool_name = match shape.text_of(v, 0, "tool_name") {
                Err(message) => return Err(message),
                Ok(tool_name) => tool_name,
            };
            let output = match shape.text_of(v, 1, "output") {
                Err(message) => return Err(message),
                Ok(output) => output,
            };
            match shape.surplus_of(v) {
                Some(message) => Err(message),
                None => Ok(Event::ToolResult { tool_name, output }),
            }
        } else if same_text(kind, "tool_denied") {
            let shape = Shape {
                name: "struct variant Event::ToolDenied",
                fields: 1,
                form: Form::Tagged,
            };
            if let Some(message) = shape.error_of(v) {
                return Err(message);
            }
            let tool_name = match shape.text_of(v, 0, "tool_name") {
                Err(message) => return Err(message),
                Ok(tool_name) => tool_name,
            };
            match shape.surplus_of(v) {
                Some(message) => Err(message),
                None => Ok(Event::ToolDenied { tool_name }),
            }
        } else {
            Err(
                unknown_variant_message(
                    kind,
                    "one of `user_message`, `model_response`, `tool_result`, `tool_denied`, `final_answer`",
                ),
            )
        }
    }

    /// Read an event from JSON. What [`Event::to_json`] wrote is read back.
    pub fn from_json(text: &str) -> (r: Result<Event, String>)
        ensures
            event_result(r) == then_event(json_of_text(text@)),
            forall|e: EventView|
                compact(#[trigger] event_data(e)) == text@ ==> event_result(r) == Ok::<
                    EventView,
                    Seq<char>,
                >(e),
    {
        let read = read_json(text);
        proof {
            assert forall|e: EventView| compact(#[trigger] event_data(e)) == text@ implies
                then_event(reading(read)) == Ok::<EventView, Seq<char>>(e) by {
                lemma_event_round_trip(e);
                lemma_plain_deeper(event_data(e), 1, depth_limit());
            }
        }
        match read {
            Ok(v) => Event::from_data(&v),
            Err(message) => Err(message),
        }
    }
}

impl LoggedEvent {
    /// The record as JSON.
    pub fn to_json(&self) -> (r: String)
        ensures
            r@ == compact(record_data(self@)),
    {
        let mut fields = self.event.members();
        let ghost tail = fields@;
        let mut members: Vec<(String, Data)> = Vec::new();
        members.push(number_member("at", self.at));
        members.append(&mut fields);
        let data = Data::Object(members);
        assert(data@->Object_0 =~= record_data(self@)->Object_0) by {
            assert forall|i: int| 0 <= i < members@.len() implies #[trigger] data@->Object_0[i]
                == record_data(self@)->Object_0[i] by {
                if i > 0 {
                    assert(members@[i] == tail[i - 1]);
                }
            }
        }
        data.to_json()
    }

    /// The record that a value says. One without a time is of time zero.
    pub fn from_data(v: &Data) -> (r: Result<LoggedEvent, String>)
        ensures
            record_result(r) == record_of(v@),
    {
        let at: u64 = match v {
            Data::Object(_) => match v.field(0, "at") {
                None => 0,
                Some(time) => match time.number() {
                    Err(message) => return Err(message),
                    Ok(at) => at,
                },
            },
            _ => return Err(v.wrong_kind("struct LoggedEvent")),
        };
        let tag = match v.tag("Event") {
            Err(message) => return Err(message),
            Ok(tag) => tag,
        };
        let kind = match LoggedEvent::kind_of(tag) {
            Err(message) => return Err(message),
            Ok(kind) => kind,
        };
        match Event::of_kind(v, kind.as_str()) {
            Err(message) => Err(message),
            Ok(event) => Ok(LoggedEvent { at, event }),
        }
    }

    /// The kind of an event that the tag of a record says: its name or its
    /// number.
    fn kind_of(tag: &Data) -> (r: Result<String, String>)
        ensures
            text_result(r) == record_kind(tag@),
    {
        match tag {
            Data::Unsigned(n) => if *n == 0 {
                Ok("user_message".to_owned())
            } else if *n == 1 {
                Ok("model_response".to_owned())
            } else if *n == 2 {
                Ok("tool_result".to_owned())
            } else if *n == 3 {
                Ok("tool_denied".to_owned())
            } else if *n == 4 {
                Ok("final_answer".to_owned())
            } else {
                Err(tag.wrong_value("variant index 0 <= i < 5"))
            },
            _ => tag.variant(),
        }
    }
}

// ---------------------------------------------------------------------------
// The log
// ---------------------------------------------------------------------------
/// What a write to a sink gave.
pub open spec fn write_result(r: Result<(), String>) -> Result<(), Seq<char>> {
    match r {
        Ok(()) => Ok(()),
        Err(message) => Err(message@),
    }
}

/// Where the text of an event log goes.
pub trait EventSink: Sized {
    /// The text that was written so far. A sink that is to be proved correct
    /// has to say what that is: what stands here is some function of its state,
    /// of which nothing is known.
    open spec fn written(&self) -> Seq<char> {
        arbitrary::<spec_fn(Self) -> Seq<char>>()(*self)
    }

    /// Whether a sink in this state may give `result` to a write of `text`, and
    /// be in the state `next` after that. One that says nothing of it may give
    /// any result.
    open spec fn writes(self, text: Seq<char>, result: Result<(), Seq<char>>, next: Self) -> bool {
        true
    }

    /// Whether no write to this sink fails. One that says nothing of it may
    /// fail at any write.
    open spec fn reliable(&self) -> bool {
        false
    }

    /// Write a text behind what was written, or say why that failed. A write
    /// that fails may have written something, but takes nothing back.
    fn write_text(&mut self, text: &str) -> (r: Result<(), String>)
        ensures
            old(self).writes(text@, write_result(r), *final(self)),
            r is Ok ==> final(self).written() == old(self).written() + text@,
            old(self).written().is_prefix_of(final(self).written()),
            old(self).reliable() ==> r is Ok && final(self).reliable(),
    ;
}

/// An event log in memory.
#[derive(Debug)]
pub struct EventBuffer {
    pub text: String,
}

impl EventBuffer {
    /// An empty log.
    pub fn new() -> (r: Self)
        ensures
            r.written() == Seq::<char>::empty(),
            r.reliable(),
    {
        Self { text: String::new() }
    }
}

impl EventSink for EventBuffer {
    open spec fn written(&self) -> Seq<char> {
        self.text@
    }

    open spec fn writes(self, text: Seq<char>, result: Result<(), Seq<char>>, next: Self) -> bool {
        result is Ok && next.text@ == self.text@ + text
    }

    open spec fn reliable(&self) -> bool {
        true
    }

    fn write_text(&mut self, text: &str) -> (r: Result<(), String>) {
        self.text.append(text);
        assert(old(self).written() =~= self.written().take(old(self).written().len() as int));
        Ok(())
    }
}

/// The lines of a log with these records.
pub open spec fn record_lines(records: Seq<LoggedView>) -> Seq<Seq<char>> {
    records.map_values(|r: LoggedView| compact(record_data(r)))
}

/// The text of a log with these records.
pub open spec fn log_text(records: Seq<LoggedView>) -> Seq<char> {
    ended(record_lines(records))
}

/// Events with the times at which they were written.
pub open spec fn stamped(times: Seq<u64>, events: Seq<EventView>) -> Seq<LoggedView> {
    Seq::new(events.len(), |i: int| LoggedView { at: times[i], event: events[i] })
}

/// The line of a record, without what ends it.
pub open spec fn record_line(r: LoggedView) -> Seq<char> {
    compact(record_data(r))
}

/// A sink in the state `before` took a record, line and line feed, and is in
/// the state `after`.
pub open spec fn takes<W: EventSink>(before: W, r: LoggedView, after: W) -> bool {
    &&& after.written() == before.written() + record_line(r).push('\n')
    &&& exists|half: W|
        #[trigger] before.writes(record_line(r), Ok(()), half) && half.writes(
            "\n"@,
            Ok(()),
            after,
        )
}

/// A sink in the state `before` failed to take a record, and is in the state
/// `after`. The error holds what the sink said: one of serialization where the
/// line failed, one of output where the line feed behind it did.
pub open spec fn loses<W: EventSink>(
    before: W,
    r: LoggedView,
    error: EventLogErrorView,
    after: W,
) -> bool {
    &&& before.written().is_prefix_of(after.written())
    &&& match error {
        EventLogErrorView::Serde(message) => before.writes(
            record_line(r),
            Err(message),
            after,
        ),
        EventLogErrorView::Io(message) => exists|half: W|
            #[trigger] before.writes(record_line(r), Ok(()), half) && half.writes(
                "\n"@,
                Err(message),
                after,
            ),
    }
}

/// A sink in the state `before` took a record of each event in turn, each with
/// some time, and is in the state `after`.
pub open spec fn recorded<W: EventSink>(before: W, events: Seq<EventView>, after: W) -> bool
    decreases events.len(),
{
    if events.len() == 0 {
        after == before
    } else {
        exists|at: u64, between: W|
            #[trigger] takes(between, LoggedView { at, event: events.last() }, after) && recorded(
                before,
                events.drop_last(),
                between,
            )
    }
}

/// A sink in the state `before` failed to take a record of the event, with some
/// time, and is in the state `after`.
pub open spec fn lost<W: EventSink>(
    before: W,
    event: EventView,
    error: EventLogErrorView,
    after: W,
) -> bool {
    exists|at: u64| #[trigger] loses(before, LoggedView { at, event }, error, after)
}

/// One record that a sink took.
pub proof fn lemma_recorded_one<W: EventSink>(before: W, r: LoggedView, after: W)
    requires
        takes(before, r, after),
    ensures
        recorded(before, seq![r.event], after),
{
    let events = seq![r.event];
    assert(takes(before, LoggedView { at: r.at, event: events.last() }, after));
    reveal_with_fuel(recorded, 2);
}

/// What was recorded and what was recorded after it was recorded in turn.
pub proof fn lemma_recorded_both<W: EventSink>(
    before: W,
    first: Seq<EventView>,
    between: W,
    second: Seq<EventView>,
    after: W,
)
    requires
        recorded(before, first, between),
        recorded(between, second, after),
    ensures
        recorded(before, first + second, after),
    decreases second.len(),
{
    let all = first + second;
    if second.len() == 0 {
        assert(all =~= first);
    } else {
        let (at, last) = choose|at: u64, last: W|
            #[trigger] takes(last, LoggedView { at, event: second.last() }, after) && recorded(
                between,
                second.drop_last(),
                last,
            );
        lemma_recorded_both(before, first, between, second.drop_last(), last);
        assert(all.drop_last() =~= first + second.drop_last());
        assert(takes(last, LoggedView { at, event: all.last() }, after));
    }
}

/// What a sink took stands behind its text: a record of each event in turn.
pub proof fn lemma_recorded_text<W: EventSink>(
    before: W,
    events: Seq<EventView>,
    after: W,
) -> (times: Seq<u64>)
    requires
        recorded(before, events, after),
    ensures
        times.len() == events.len(),
        after.written() == before.written() + log_text(stamped(times, events)),
    decreases events.len(),
{
    if events.len() == 0 {
        let times = Seq::<u64>::empty();
        assert(stamped(times, events) =~= Seq::empty());
        assert(record_lines(stamped(times, events)) =~= Seq::empty());
        assert(before.written() + log_text(stamped(times, events)) =~= before.written());
        times
    } else {
        let (at, between) = choose|at: u64, between: W|
            #[trigger] takes(between, LoggedView { at, event: events.last() }, after) && recorded(
                before,
                events.drop_last(),
                between,
            );
        let earlier = lemma_recorded_text(before, events.drop_last(), between);
        let times = earlier.push(at);
        let record = LoggedView { at, event: events.last() };
        let all = stamped(times, events);
        assert(all =~= stamped(earlier, events.drop_last()).push(record));
        let listed = record_lines(all);
        assert(listed.drop_last() =~= record_lines(stamped(earlier, events.drop_last())));
        assert(listed.last() == record_line(record));
        assert(after.written() =~= before.written() + log_text(all));
        times
    }
}

/// Append one event to the log as a line that carries the time `at`.
pub fn write_event_at<W: EventSink>(writer: &mut W, event: &Event, at: u64) -> (r: Result<
    (),
    EventLogError,
>)
    ensures
        match r {
            Ok(()) => takes(*old(writer), (LoggedView { at, event: event@ }), *final(writer)),
            Err(e) => loses(*old(writer), (LoggedView { at, event: event@ }), e@, *final(writer)),
        },
        old(writer).reliable() ==> r is Ok && final(writer).reliable(),
{
    let record = LoggedEvent { at, event: event.clone() };
    let line = record.to_json();
    let ghost before = *writer;
    match writer.write_text(line.as_str()) {
        Ok(()) => {},
        Err(message) => return Err(EventLogError::Serde(message)),
    }
    let ghost half = *writer;
    assert(before.writes(record_line(record@), Ok(()), half));
    proof {
        reveal_strlit("\n");
        assert("\n"@ =~= seq!['\n']);
        assert(before.written() + line@ + "\n"@ =~= before.written() + line@.push('\n'));
    }
    match writer.write_text("\n") {
        Ok(()) => Ok(()),
        Err(message) => {
            proof {
                let n = before.written().len() as int;
                assert(before.written() =~= half.written().take(n));
                assert(half.written() == writer.written().take(half.written().len() as int));
                assert(before.written() =~= writer.written().take(n));
            }
            Err(EventLogError::Io(message))
        },
    }
}

/// Append one event to the log as a line that carries the current time. Which
/// time that is, is the clock's to say.
pub fn write_event<W: EventSink>(writer: &mut W, event: &Event) -> (r: Result<(), EventLogError>)
    ensures
        match r {
            Ok(()) => recorded(*old(writer), seq![event@], *final(writer)),
            Err(e) => lost(*old(writer), event@, e@, *final(writer)),
        },
        old(writer).reliable() ==> r is Ok && final(writer).reliable(),
{
    let at: u64 = now_millis();
    let r = write_event_at(writer, event, at);
    proof {
        if r is Ok {
            lemma_recorded_one(*old(writer), LoggedView { at, event: event@ }, *writer);
        }
    }
    r
}

/// The records of the lines of a log, or what the first line that holds no
/// record is told. Blank lines hold nothing.
pub open spec fn records_of(lines: Seq<Seq<char>>) -> Result<Seq<LoggedView>, Seq<char>>
    decreases lines.len(),
{
    if lines.len() == 0 {
        Ok(Seq::empty())
    } else {
        match records_of(lines.drop_last()) {
            Err(message) => Err(message),
            Ok(before) => {
                let line = trimmed(lines.last());
                if line.len() == 0 {
                    Ok(before)
                } else {
                    match then_record(json_of_text(line)) {
                        Err(message) => Err(message),
                        Ok(record) => Ok(before.push(record)),
                    }
                }
            },
        }
    }
}

/// The records, or the error, of a reading of a log.
pub open spec fn log_reading(r: Result<Vec<LoggedEvent>, EventLogError>) -> Result<
    Seq<LoggedView>,
    EventLogErrorView,
> {
    match r {
        Ok(records) => Ok(logged_view(records@)),
        Err(e) => Err(e@),
    }
}

/// What the lines of a log are read as.
pub open spec fn log_of(lines: Seq<Seq<char>>) -> Result<Seq<LoggedView>, EventLogErrorView> {
    match records_of(lines) {
        Ok(records) => Ok(records),
        Err(message) => Err(EventLogErrorView::Serde(message)),
    }
}

proof fn lemma_first_bad_line(lines: Seq<Seq<char>>, i: int)
    requires
        0 <= i < lines.len(),
        records_of(lines.take(i + 1)) is Err,
    ensures
        records_of(lines) == records_of(lines.take(i + 1)),
    decreases lines.len() - i,
{
    if i + 1 == lines.len() {
        assert(lines.take(i + 1) =~= lines);
    } else {
        let before = lines.drop_last();
        assert(before.take(i + 1) =~= lines.take(i + 1));
        lemma_first_bad_line(before, i);
    }
}

/// The lines of a log are its records, which no trimming changes.
proof fn lemma_log_lines(records: Seq<LoggedView>)
    ensures
        lines(log_text(records)) == record_lines(records),
        forall|i: int|
            0 <= i < records.len() ==> {
                &&& trimmed(#[trigger] record_lines(records)[i]) == compact(record_data(records[i]))
                &&& compact(record_data(records[i])).len() > 0
                &&& plain(record_data(records[i]), depth_limit())
                &&& record_of(record_data(records[i])) == Ok::<LoggedView, Seq<char>>(records[i])
            },
{
    let listed = record_lines(records);
    assert forall|i: int| 0 <= i < records.len() implies {
        &&& trimmed(#[trigger] listed[i]) == compact(record_data(records[i]))
        &&& compact(record_data(records[i])).len() > 0
        &&& plain(record_data(records[i]), depth_limit())
        &&& record_of(record_data(records[i])) == Ok::<LoggedView, Seq<char>>(records[i])
        &&& one_line(listed[i])
    } by {
        let data = record_data(records[i]);
        lemma_record_round_trip(records[i]);
        lemma_plain_deeper(data, 1, depth_limit());
        lemma_compact_printable(data, 1);
        assert(compact(data)[0] == '{');
        assert(compact(data).last() == '}');
        if listed[i].contains('\n') {
            let k = choose|k: int| 0 <= k < listed[i].len() && listed[i][k] == '\n';
            assert(' ' <= listed[i][k]);
        }
    }
    lemma_lines_of_ended(listed);
}

/// Read the records of an event log. What [`write_event`] wrote is read back,
/// record by record.
pub fn read_events(text: &str) -> (r: Result<Vec<LoggedEvent>, EventLogError>)
    ensures
        log_reading(r) == log_of(lines(text@)),
        forall|records: Seq<LoggedView>|
            #[trigger] log_text(records) == text@ ==> log_reading(r) == Ok::<
                Seq<LoggedView>,
                EventLogErrorView,
            >(records),
{
    let listed = lines_of(text);
    let ghost all = lines(text@);
    let mut found: Vec<LoggedEvent> = Vec::new();
    assert(logged_view(found@) =~= Seq::empty());
    proof {
        assert forall|records: Seq<LoggedView>| #[trigger] log_text(records) == text@ implies
            records.len() == all.len() && records.take(0) == logged_view(found@) by {
            lemma_log_lines(records);
            assert(records.take(0) =~= Seq::empty());
        }
    }
    let mut i: usize = 0;
    while i < listed.len()
        invariant
            i <= listed@.len(),
            all == lines(text@),
            all == texts(listed@),
            records_of(all.take(i as int)) == Ok::<Seq<LoggedView>, Seq<char>>(
                logged_view(found@),
            ),
            forall|records: Seq<LoggedView>| #[trigger]
                log_text(records) == text@ ==> records.len() == all.len() && records.take(
                    i as int,
                ) == logged_view(found@),
        decreases listed@.len() - i,
    {
        assert(all.take(i + 1).drop_last() =~= all.take(i as int));
        assert(all[i as int] == listed@[i as int]@);
        let line = trim(listed[i].as_str());
        if line.unicode_len() == 0 {
            proof {
                assert forall|records: Seq<LoggedView>| #[trigger]
                    log_text(records) == text@ implies records.take(i + 1) == logged_view(found@) by {
                    lemma_log_lines(records);
                    assert(trimmed(record_lines(records)[i as int]).len() > 0);
                }
            }
            i = i + 1;
            continue ;
        }
        let read = read_json(line);
        let ghost gave = reading(read);
        let decoded = match read {
            Ok(v) => LoggedEvent::from_data(&v),
            Err(message) => Err(message),
        };
        proof {
            assert forall|records: Seq<LoggedView>| #[trigger] log_text(records) == text@ implies
                record_result(decoded) == Ok::<LoggedView, Seq<char>>(records[i as int]) by {
                lemma_log_lines(records);
                assert(record_lines(records)[i as int] == all[i as int]);
                assert(gave == Ok::<DataView, Seq<char>>(record_data(records[i as int])));
            }
        }
        match decoded {
            Err(message) => {
                proof {
                    lemma_first_bad_line(all, i as int);
                }
                return Err(EventLogError::Serde(message));
            },
            Ok(record) => {
                let ghost before = logged_view(found@);
                found.push(record);
                assert(logged_view(found@) =~= before.push(record@));
                proof {
                    assert forall|records: Seq<LoggedView>| #[trigger]
                        log_text(records) == text@ implies records.take(i + 1) == logged_view(
                        found@,
                    ) by {
                        assert(records.take(i + 1) =~= records.take(i as int).push(
                            records[i as int],
                        ));
                    }
                }
            },
        }
        i = i + 1;
    }
    assert(all.take(i as int) =~= all);
    proof {
        assert forall|records: Seq<LoggedView>| #[trigger] log_text(records) == text@ implies
            logged_view(found@) == records by {
            assert(records.take(i as int) =~= records);
        }
    }
    Ok(found)
}

} // verus!
