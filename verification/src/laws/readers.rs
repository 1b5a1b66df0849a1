//! What a reading of a text comes to: what its value says, or the message of why
//! there is none.
use vstd::prelude::*;

use crate::cli::{endpoint_result, loaded_view, EndpointView};
use crate::config::{config_of, config_result, optional_str, then_config, Config};
use crate::data::{compact, DataView};
use crate::decode::{message_of as message_in, number_result, text_result};
use crate::event::{
    event_of, event_result, log_reading, record_of, record_result, then_event, then_record,
    write_result, Event, EventLogError, LoggedEvent,
};
use crate::message::{
    message_of, message_result, role_of, role_result, session_of, session_result, then_message,
    then_role, then_session, Message, Role, Session,
};
use crate::models::{
    choice_content, content_result, health_of, health_result, HealthReport, HealthView,
    OpenAiCompatProvider,
};
use crate::output::{
    output_of, output_result, parse_result, then_output, ModelOutput, ModelOutputError,
};
use crate::provider::ProviderError;
use crate::tool::{tool_names, Tool, ToolErrorView};
use crate::tools::add_numbers::written_operands;
use crate::tools::session_notes::{note_of, NoteView};

verus! {

/// A text that holds a value is read as what the value says, and one that holds
/// none is refused with the message of the reading.
pub proof fn lemma_then(v: DataView, message: Seq<char>)
    ensures
        then_role(Ok(v)) == role_of(v) && then_role(Err(message)) == Err::<Role, Seq<char>>(
            message,
        ),
        then_message(Ok(v)) == message_of(v),
        then_message(Err(message)) is Err && then_message(Err(message))->Err_0 == message,
        then_session(Ok(v)) == session_of(v),
        then_session(Err(message)) is Err && then_session(Err(message))->Err_0 == message,
        then_event(Ok(v)) == event_of(v),
        then_event(Err(message)) is Err && then_event(Err(message))->Err_0 == message,
        then_record(Ok(v)) == record_of(v),
        then_record(Err(message)) is Err && then_record(Err(message))->Err_0 == message,
        then_output(Ok(v)) == output_of(v),
        then_output(Err(message)) is Err && then_output(Err(message))->Err_0 == message,
        then_config(Ok(v)) == config_of(v),
        then_config(Err(message)) is Err && then_config(Err(message))->Err_0 == message,
{
}

/// What was read, or the message of why not, stands for itself.
pub proof fn lemma_read_results(
    role: Result<Role, String>,
    message: Result<Message, String>,
    session: Result<Session, String>,
    event: Result<Event, String>,
    record: Result<LoggedEvent, String>,
    output: Result<ModelOutput, String>,
    config: Result<Config, String>,
)
    ensures
        role is Ok ==> role_result(role) == Ok::<Role, Seq<char>>(role->Ok_0),
        role is Err ==> role_result(role) == Err::<Role, Seq<char>>(role->Err_0@),
        message is Ok ==> message_result(message) is Ok && message_result(message)->Ok_0
            == message->Ok_0@,
        message is Err ==> message_result(message) is Err && message_result(message)->Err_0
            == message->Err_0@,
        session is Ok ==> session_result(session) is Ok && session_result(session)->Ok_0
            == session->Ok_0@,
        session is Err ==> session_result(session) is Err && session_result(session)->Err_0
            == session->Err_0@,
        event is Ok ==> event_result(event) is Ok && event_result(event)->Ok_0 == event->Ok_0@,
        event is Err ==> event_result(event) is Err && event_result(event)->Err_0 == event->Err_0@,
        record is Ok ==> record_result(record) is Ok && record_result(record)->Ok_0
            == record->Ok_0@,
        record is Err ==> record_result(record) is Err && record_result(record)->Err_0
            == record->Err_0@,
        output is Ok ==> output_result(output) is Ok && output_result(output)->Ok_0
            == output->Ok_0@,
        output is Err ==> output_result(output) is Err && output_result(output)->Err_0
            == output->Err_0@,
        config is Ok ==> config_result(config) is Ok && config_result(config)->Ok_0
            == config->Ok_0@,
        config is Err ==> config_result(config) is Err && config_result(config)->Err_0
            == config->Err_0@,
{
}

/// What was parsed or answered, or the error of why not, stands for itself.
pub proof fn lemma_answered_results(
    parsed: Result<ModelOutput, ModelOutputError>,
    log: Result<Vec<LoggedEvent>, EventLogError>,
    content: Result<String, ProviderError>,
    health: Result<HealthReport, ProviderError>,
    endpoint: Result<Option<OpenAiCompatProvider>, String>,
    written: Result<(), String>,
    text: Result<String, String>,
    number: Result<u64, String>,
    told: Option<String>,
)
    ensures
        parsed is Ok ==> parse_result(parsed) is Ok && parse_result(parsed)->Ok_0 == parsed->Ok_0@,
        parsed is Err ==> parse_result(parsed) is Err && parse_result(parsed)->Err_0
            == parsed->Err_0->Parse_0@,
        log is Ok ==> log_reading(log) is Ok && log_reading(log)->Ok_0
            == crate::event::logged_view(log->Ok_0@),
        log is Err ==> log_reading(log) is Err && log_reading(log)->Err_0 == log->Err_0@,
        content is Ok ==> content_result(content) is Ok && content_result(content)->Ok_0
            == content->Ok_0@,
        content is Err ==> content_result(content) is Err && content_result(content)->Err_0
            == content->Err_0@,
        health is Ok ==> health_result(health) is Ok && health_result(health)->Ok_0
            == health->Ok_0@,
        health is Err ==> health_result(health) is Err && health_result(health)->Err_0
            == health->Err_0@,
        endpoint_result(endpoint) == match endpoint {
            Ok(Some(provider)) => Ok::<Option<EndpointView>, Seq<char>>(
                Some(
                    EndpointView { base_url: provider.base_url@, model: provider.model@ },
                ),
            ),
            Ok(None) => Ok(None),
            Err(message) => Err(message@),
        },
        written is Ok ==> write_result(written) is Ok,
        written is Err ==> write_result(written) == Err::<(), Seq<char>>(written->Err_0@),
        text is Ok ==> text_result(text) == Ok::<Seq<char>, Seq<char>>(text->Ok_0@),
        text is Err ==> text_result(text) == Err::<Seq<char>, Seq<char>>(text->Err_0@),
        number is Ok ==> number_result(number) == Ok::<u64, Seq<char>>(number->Ok_0),
        number is Err ==> number_result(number) == Err::<u64, Seq<char>>(number->Err_0@),
        told is Some ==> message_in(told) == Some(told->Some_0@),
        told is None ==> message_in(told) is None,
{
}

/// A note in an array has its time and its text; a report of health its status,
/// and what is loaded, where that is said; a choice its message; two numbers are
/// added in their order.
pub proof fn lemma_more_in_arrays(
    items: Seq<DataView>,
    note: NoteView,
    status: Seq<char>,
    a: DataView,
    b: DataView,
)
    ensures
        note_of(DataView::Array(items)) == Ok::<NoteView, Seq<char>>(note) <==> items == seq![
            DataView::Unsigned(note.at),
            DataView::Text(note.text),
        ],
        health_of(DataView::Array(seq![DataView::Text(status)])) == Ok::<HealthView, Seq<char>>(
            HealthView { status, loaded_model: None, loaded_adapter: None },
        ),
        health_of(DataView::Array(items)) is Ok ==> 1 <= items.len() <= 3,
        choice_content(DataView::Array(items)) is Ok ==> items.len() == 1,
        crate::laws::toolbox::is_number(a) && crate::laws::toolbox::is_number(b)
            ==> written_operands(DataView::Array(seq![a, b])) == Ok::<
            (Seq<char>, Seq<char>),
            ToolErrorView,
        >((compact(a), compact(b))),
        written_operands(DataView::Array(items)) is Ok ==> items.len() == 2,
{
    if items.len() == 2 {
        assert(items =~= seq![items[0], items[1]]);
    }
    let one = seq![DataView::Text(status)];
    assert(one[0] == DataView::Text(status));
    let two = seq![a, b];
    assert(two[0] == a && two[1] == b);
}

/// The names of tools are their names, in their order.
pub proof fn lemma_names<T: Tool>(tools: Seq<T>, i: int)
    requires
        0 <= i < tools.len(),
    ensures
        tool_names(tools).len() == tools.len(),
        tool_names(tools)[i] == tools[i].called(),
{
}

/// A configuration that was loaded stands for what it says.
pub proof fn lemma_loaded(config: Option<&Config>, text: Option<&str>)
    ensures
        config is None ==> loaded_view(config) is None,
        config is Some ==> loaded_view(config) == Some(config->Some_0@),
        text is None ==> optional_str(text) is None,
        text is Some ==> optional_str(text) == Some(text->Some_0@),
{
}

} // verus!
