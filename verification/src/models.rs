//! Providers behind an endpoint that speaks the `/chat/completions` protocol:
//! what is sent to it, and what its replies mean.
use vstd::prelude::*;

use crate::data::{compact, read_json, text_member, value_member, Data, DataView};
use crate::decode::{
    first_misfit, optional_text_misfit, text_misfit, text_result, wrong_kind, Fields, Form, Shape,
};
use crate::external::json_of_text;
use crate::message::{says, Message, MessageView, Role, Session, SessionView};
use crate::provider::{optional, reply_view, ProviderError, ProviderErrorView};
use crate::text::{same_text, trim_end_matches, without_trailing};

verus! {

/// A provider behind an endpoint.
#[derive(Debug, PartialEq, Eq)]
pub struct OpenAiCompatProvider {
    /// The base of the endpoint's address, as in `http://localhost:8083/v1`.
    pub base_url: String,
    /// The model that requests name.
    pub model: String,
}

/// The role of a message on the wire. The endpoint knows no tools: what a tool
/// says goes out as said by the user.
pub open spec fn role_on_wire(role: Role) -> Seq<char> {
    match role {
        Role::User => "user"@,
        Role::Assistant => "assistant"@,
        Role::System => "system"@,
        Role::Tool => "user"@,
    }
}

/// The role of a message on the wire.
pub fn wire_role(role: &Role) -> (r: &'static str)
    ensures
        r@ == role_on_wire(*role),
{
    match role {
        Role::User => "user",
        Role::Assistant => "assistant",
        Role::System => "system",
        Role::Tool => "user",
    }
}

/// A message on the wire.
pub open spec fn wire_message(m: MessageView) -> DataView {
    DataView::Object(
        seq![
            ("role"@, DataView::Text(role_on_wire(m.role))),
            ("content"@, DataView::Text(m.content)),
        ],
    )
}

/// The request for the reply to a session: the model, the messages in order,
/// and that the reply is to come whole.
pub open spec fn chat_request(model: Seq<char>, session: SessionView) -> DataView {
    DataView::Object(
        seq![
            ("model"@, DataView::Text(model)),
            ("messages"@, DataView::Array(session.messages.map_values(|m: MessageView| wire_message(m)))),
            ("stream"@, DataView::Bool(false)),
        ],
    )
}

/// A request names the model, asks for the whole reply at once, and holds the
/// messages of the session, as many as there are and each in its place: with
/// its content as it is, and with the role of who said it. What a tool said goes
/// out as said by the user, as nothing else does.
pub proof fn lemma_request(model: Seq<char>, session: SessionView)
    ensures
        chat_request(model, session) matches DataView::Object(members) && {
            &&& members.len() == 3
            &&& members[0] == ("model"@, DataView::Text(model))
            &&& members[2] == ("stream"@, DataView::Bool(false))
            &&& members[1].0 == "messages"@
            &&& members[1].1 is Array
            &&& members[1].1->Array_0.len() == session.messages.len()
            &&& forall|i: int|
                0 <= i < session.messages.len() ==> #[trigger] members[1].1->Array_0[i]
                    == DataView::Object(
                    seq![
                        (
                            "role"@,
                            DataView::Text(
                                match session.messages[i].role {
                                    Role::System => "system"@,
                                    Role::Assistant => "assistant"@,
                                    Role::User => "user"@,
                                    Role::Tool => "user"@,
                                },
                            ),
                        ),
                        ("content"@, DataView::Text(session.messages[i].content)),
                    ],
                )
        },
{
    let members = chat_request(model, session)->Object_0;
    let items = members[1].1->Array_0;
    assert forall|i: int| 0 <= i < session.messages.len() implies #[trigger] items[i]
        == DataView::Object(
        seq![
            (
                "role"@,
                DataView::Text(
                    match session.messages[i].role {
                        Role::System => "system"@,
                        Role::Assistant => "assistant"@,
                        Role::User => "user"@,
                        Role::Tool => "user"@,
                    },
                ),
            ),
            ("content"@, DataView::Text(session.messages[i].content)),
        ],
    ) by {
        assert(items[i] == wire_message(session.messages[i]));
        assert(items[i]->Object_0 =~= seq![
            (
                "role"@,
                DataView::Text(
                    match session.messages[i].role {
                        Role::System => "system"@,
                        Role::Assistant => "assistant"@,
                        Role::User => "user"@,
                        Role::Tool => "user"@,
                    },
                ),
            ),
            ("content"@, DataView::Text(session.messages[i].content)),
        ]);
    }
}

/// The address that a request is sent to.
pub open spec fn completions_url(base_url: Seq<char>) -> Seq<char> {
    without_trailing(base_url, '/') + "/chat/completions"@
}

/// Whether a status says that a request succeeded.
pub open spec fn succeeded(code: u16) -> bool {
    200 <= code < 300
}

/// The error of a request that did not succeed.
pub open spec fn status_error(
    status: Seq<char>,
    url: Seq<char>,
    body: Seq<char>,
) -> ProviderErrorView {
    ProviderErrorView::Backend("HTTP "@ + status + " from "@ + url + ": "@ + body)
}

fn status_error_of(status: &str, url: &str, body: &str) -> (r: ProviderError)
    ensures
        r@ == status_error(status@, url@, body@),
{
    let mut text = "HTTP ".to_owned();
    text.append(status);
    text.append(" from ");
    text.append(url);
    text.append(": ");
    text.append(body);
    ProviderError::Backend(text)
}

/// What a response with this status and this body to a request to this address
/// means.
pub open spec fn replied(code: u16, status: Seq<char>, url: Seq<char>, body: Seq<char>) -> Result<
    MessageView,
    ProviderErrorView,
> {
    if succeeded(code) {
        then_reply(response_content(json_of_text(body)))
    } else {
        Err(status_error(status, url, body))
    }
}

/// What a response with this status and this body to a question for the health
/// at this address means.
pub open spec fn probed(code: u16, status: Seq<char>, url: Seq<char>, body: Seq<char>) -> Result<
    HealthView,
    ProviderErrorView,
> {
    if succeeded(code) {
        health_report(json_of_text(body))
    } else {
        Err(status_error(status, url, body))
    }
}

impl OpenAiCompatProvider {
    /// A provider behind the endpoint at `base_url`, asked for `model`.
    pub fn new(base_url: &str, model: &str) -> (r: Self)
        ensures
            r.base_url@ == base_url@,
            r.model@ == model@,
    {
        Self { base_url: base_url.to_owned(), model: model.to_owned() }
    }

    /// The address that requests are sent to.
    pub fn url(&self) -> (r: String)
        ensures
            r@ == completions_url(self.base_url@),
    {
        let mut url = trim_end_matches(self.base_url.as_str(), '/').to_owned();
        url.append("/chat/completions");
        url
    }

    /// The request for the reply to a session.
    pub fn build_request(&self, session: &Session) -> (r: Data)
        ensures
            r@ == chat_request(self.model@, session@),
            r@ matches DataView::Object(members) && {
                &&& members.len() == 3
                &&& members[0] == ("model"@, DataView::Text(self.model@))
                &&& members[2] == ("stream"@, DataView::Bool(false))
                &&& members[1].0 == "messages"@
                &&& members[1].1 is Array
                &&& members[1].1->Array_0.len() == session@.messages.len()
                &&& forall|i: int|
                    0 <= i < session@.messages.len() ==> #[trigger] members[1].1->Array_0[i]
                        == DataView::Object(
                        seq![
                            (
                                "role"@,
                                DataView::Text(
                                    match session@.messages[i].role {
                                        Role::System => "system"@,
                                        Role::Assistant => "assistant"@,
                                        Role::User => "user"@,
                                        Role::Tool => "user"@,
                                    },
                                ),
                            ),
                            ("content"@, DataView::Text(session@.messages[i].content)),
                        ],
                    )
            },
    {
        proof {
            lemma_request(self.model@, session@);
        }
        let ghost wanted = session@.messages.map_values(|m: MessageView| wire_message(m));
        let mut items: Vec<Data> = Vec::new();
        let mut i: usize = 0;
        while i < session.messages.len()
            invariant
                i <= session.messages@.len() == wanted.len(),
                items@.len() == i,
                wanted == session@.messages.map_values(|m: MessageView| wire_message(m)),
                forall|k: int| 0 <= k < i ==> (#[trigger] items@[k])@ == wanted[k],
            decreases session.messages@.len() - i,
        {
            let message = &session.messages[i];
            let mut members: Vec<(String, Data)> = Vec::new();
            members.push(text_member("role", wire_role(&message.role)));
            members.push(text_member("content", message.content.as_str()));
            let item = Data::Object(members);
            assert(item@->Object_0 =~= wire_message(message@)->Object_0);
            assert(item@ == wanted[i as int]);
            items.push(item);
            i = i + 1;
        }
        let messages = Data::Array(items);
        assert(messages@->Array_0 =~= wanted);
        let mut members: Vec<(String, Data)> = Vec::new();
        members.push(text_member("model", self.model.as_str()));
        members.push(value_member("messages", messages));
        members.push(value_member("stream", Data::Bool(false)));
        let request = Data::Object(members);
        assert(request@->Object_0 =~= chat_request(self.model@, session@)->Object_0);
        request
    }

    /// The text of the request for the reply to a session.
    pub fn request_body(&self, session: &Session) -> (r: String)
        ensures
            r@ == compact(chat_request(self.model@, session@)),
    {
        self.build_request(session).to_json()
    }

    /// What the endpoint's response to a request means: the reply, or an error
    /// where the status says that the request did not succeed, or where the
    /// body holds no reply.
    pub fn finish(&self, code: u16, status: &str, body: &str) -> (r: Result<
        Message,
        ProviderError,
    >)
        ensures
            reply_view(r) == if succeeded(code) {
                then_reply(response_content(json_of_text(body@)))
            } else {
                Err(status_error(status@, completions_url(self.base_url@), body@))
            },
            reply_view(r) == replied(code, status@, completions_url(self.base_url@), body@),
    {
        if !(200 <= code && code < 300) {
            return Err(status_error_of(status, self.url().as_str(), body));
        }
        match parse_response(body) {
            Ok(content) => Ok(Message { role: Role::Assistant, content }),
            Err(e) => Err(e),
        }
    }
}

/// The reply with a content.
pub open spec fn then_reply(r: Result<Seq<char>, ProviderErrorView>) -> Result<
    MessageView,
    ProviderErrorView,
> {
    match r {
        Ok(content) => Ok(says(Role::Assistant, content)),
        Err(e) => Err(e),
    }
}

/// A response as a record.
pub open spec fn response_shape() -> Shape {
    Shape { name: "struct ChatResponse", fields: 1, form: Form::Document }
}

/// A choice of a response as a record.
pub open spec fn choice_shape() -> Shape {
    Shape { name: "struct Choice", fields: 1, form: Form::Document }
}

/// The message of a choice as a record.
pub open spec fn reply_shape() -> Shape {
    Shape { name: "struct ResponseMessage", fields: 1, form: Form::Document }
}

/// What a choice of a response says.
pub open spec fn choice_content(v: DataView) -> Result<Seq<char>, Seq<char>> {
    choice_shape().decoded(
        v,
        None,
        match choice_shape().field(v, 0, "message"@) {
            None => Err(choice_shape().absent(v, 0, "message"@)),
            Some(m) => reply_shape().decoded(m, None, reply_shape().text(m, 0, "content"@)),
        },
    )
}

/// What the choices say, or what the first that says nothing is told.
pub open spec fn choices_of(items: Seq<DataView>) -> Result<Seq<Seq<char>>, Seq<char>>
    decreases items.len(),
{
    if items.len() == 0 {
        Ok(Seq::empty())
    } else {
        match choices_of(items.drop_last()) {
            Err(message) => Err(message),
            Ok(before) => match choice_content(items.last()) {
                Err(message) => Err(message),
                Ok(content) => Ok(before.push(content)),
            },
        }
    }
}

/// What a response says: what its first choice says. All its choices have to
/// say something.
pub open spec fn response_of(v: DataView) -> Result<Seq<char>, Seq<char>> {
    match response_choices(v) {
        Err(message) => Err(message),
        Ok(contents) => if contents.len() > 0 {
            Ok(contents[0])
        } else {
            Err("response contained no choices"@)
        },
    }
}

/// What the choices of a response say.
pub open spec fn response_choices(v: DataView) -> Result<Seq<Seq<char>>, Seq<char>> {
    response_shape().decoded(
        v,
        None,
        match response_shape().field(v, 0, "choices"@) {
            None => Err(response_shape().absent(v, 0, "choices"@)),
            Some(DataView::Array(items)) => choices_of(items),
            Some(other) => Err(wrong_kind(other, "a sequence"@)),
        },
    )
}

/// What the body of a response says, or the error of the backend.
pub open spec fn response_content(r: Result<DataView, Seq<char>>) -> Result<
    Seq<char>,
    ProviderErrorView,
> {
    match r {
        Err(message) => Err(ProviderErrorView::Backend(message)),
        Ok(v) => match response_of(v) {
            Err(message) => Err(ProviderErrorView::Backend(message)),
            Ok(content) => Ok(content),
        },
    }
}

/// A content, or an error, that was parsed.
pub open spec fn content_result(r: Result<String, ProviderError>) -> Result<
    Seq<char>,
    ProviderErrorView,
> {
    match r {
        Ok(content) => Ok(content@),
        Err(e) => Err(e@),
    }
}

fn choice_text(v: &Data) -> (r: Result<String, String>)
    ensures
        text_result(r) == choice_content(v@),
{
    let shape = Shape { name: "struct Choice", fields: 1, form: Form::Document };
    if let Some(message) = shape.error_of(v) {
        return Err(message);
    }
    let content = match shape.field_of(v, 0, "message") {
        None => return Err(shape.absent_message(v, 0, "message")),
        Some(m) => match reply_text(m) {
            Err(message) => return Err(message),
            Ok(content) => content,
        },
    };
    match shape.surplus_of(v) {
        Some(message) => Err(message),
        None => Ok(content),
    }
}

fn reply_text(m: &Data) -> (r: Result<String, String>)
    ensures
        text_result(r) == reply_shape().decoded(m@, None, reply_shape().text(m@, 0, "content"@)),
{
    let shape = Shape { name: "struct ResponseMessage", fields: 1, form: Form::Document };
    if let Some(message) = shape.error_of(m) {
        return Err(message);
    }
    let content = match shape.text_of(m, 0, "content") {
        Err(message) => return Err(message),
        Ok(content) => content,
    };
    match shape.surplus_of(m) {
        Some(message) => Err(message),
        None => Ok(content),
    }
}

proof fn lemma_first_bad_choice(items: Seq<DataView>, i: int)
    requires
        0 <= i < items.len(),
        choices_of(items.take(i + 1)) is Err,
    ensures
        choices_of(items) == choices_of(items.take(i + 1)),
    decreases items.len() - i,
{
    if i + 1 == items.len() {
        assert(items.take(i + 1) =~= items);
    } else {
        let before = items.drop_last();
        assert(before.take(i + 1) =~= items.take(i + 1));
        lemma_first_bad_choice(before, i);
    }
}

/// What a response that was read says.
pub fn response_text(v: &Data) -> (r: Result<String, String>)
    ensures
        text_result(r) == response_of(v@),
{
    let shape = Shape { name: "struct ChatResponse", fields: 1, form: Form::Document };
    if let Some(message) = shape.error_of(v) {
        return Err(message);
    }
    let items = match shape.field_of(v, 0, "choices") {
        None => return Err(shape.absent_message(v, 0, "choices")),
        Some(Data::Array(items)) => items,
        Some(other) => return Err(other.wrong_kind("a sequence")),
    };
    let ghost listed = Data::Array(*items)@->Array_0;
    let mut first: Option<String> = None;
    let mut i: usize = 0;
    while i < items.len()
        invariant
            i <= items@.len() == listed.len(),
            listed == Data::Array(*items)@->Array_0,
            shape == response_shape(),
            shape.error(v@) is None,
            response_shape().field(v@, 0, "choices"@) == Some(DataView::Array(listed)),
            choices_of(listed.take(i as int)) matches Ok(contents) && contents.len() == i && (
            i > 0 ==> optional(first) == Some(contents[0])),
            i == 0 ==> first is None,
        decreases items@.len() - i,
    {
        assert(listed.take(i + 1).drop_last() =~= listed.take(i as int));
        assert(listed[i as int] == items@[i as int]@);
        match choice_text(&items[i]) {
            Err(message) => {
                proof {
                    lemma_first_bad_choice(listed, i as int);
                }
                return Err(message);
            },
            Ok(content) => {
                if i == 0 {
                    first = Some(content);
                }
            },
        }
        i = i + 1;
    }
    assert(listed.take(i as int) =~= listed);
    if let Some(message) = shape.surplus_of(v) {
        return Err(message);
    }
    match first {
        Some(content) => Ok(content),
        None => Err("response contained no choices".to_owned()),
    }
}

/// The reply that the body of a response holds.
pub fn parse_response(body: &str) -> (r: Result<String, ProviderError>)
    ensures
        content_result(r) == response_content(json_of_text(body@)),
{
    let read = match read_json(body) {
        Ok(v) => response_text(&v),
        Err(message) => Err(message),
    };
    match read {
        Ok(content) => Ok(content),
        Err(message) => Err(ProviderError::Backend(message)),
    }
}

// ---------------------------------------------------------------------------
// Health
// ---------------------------------------------------------------------------
/// What an endpoint reports of its health.
#[derive(Debug, PartialEq, Eq)]
pub struct HealthReport {
    pub status: String,
    pub loaded_model: Option<String>,
    pub loaded_adapter: Option<String>,
}

/// What a [`HealthReport`] says.
pub struct HealthView {
    pub status: Seq<char>,
    pub loaded_model: Option<Seq<char>>,
    pub loaded_adapter: Option<Seq<char>>,
}

impl View for HealthReport {
    type V = HealthView;

    open spec fn view(&self) -> HealthView {
        HealthView {
            status: self.status@,
            loaded_model: optional(self.loaded_model),
            loaded_adapter: optional(self.loaded_adapter),
        }
    }
}

/// A report as a record.
pub open spec fn health_shape() -> Shape {
    Shape { name: "struct HealthReport", fields: 3, form: Form::Document }
}

/// The report that a value says. What is loaded may be null or left out.
pub open spec fn health_of(v: DataView) -> Result<HealthView, Seq<char>> {
    health_shape().decoded(
        v,
        first_misfit(HealthFields, v),
        match health_shape().text(v, 0, "status"@) {
            Err(message) => Err(message),
            Ok(status) => match health_shape().optional_text(v, 1, "loaded_model"@) {
                Err(message) => Err(message),
                Ok(loaded_model) => match health_shape().optional_text(v, 2, "loaded_adapter"@) {
                    Err(message) => Err(message),
                    Ok(loaded_adapter) => Ok(HealthView { status, loaded_model, loaded_adapter }),
                },
            },
        },
    )
}

/// What the fields of a report have to be.
pub struct HealthFields;

impl Fields for HealthFields {
    open spec fn misfit(&self, name: Seq<char>, v: DataView) -> Option<Seq<char>> {
        if name == "status"@ {
            text_misfit(v)
        } else if name == "loaded_model"@ || name == "loaded_adapter"@ {
            optional_text_misfit(v)
        } else {
            None
        }
    }

    fn check(&self, name: &str, v: &Data) -> (r: Option<String>) {
        if same_text(name, "status") {
            v.text_misfit()
        } else if same_text(name, "loaded_model") || same_text(name, "loaded_adapter") {
            v.optional_text_misfit()
        } else {
            None
        }
    }
}

/// The report that the body of a response holds, or the error of the backend.
pub open spec fn health_report(r: Result<DataView, Seq<char>>) -> Result<
    HealthView,
    ProviderErrorView,
> {
    match r {
        Err(message) => Err(ProviderErrorView::Backend(message)),
        Ok(v) => match health_of(v) {
            Err(message) => Err(ProviderErrorView::Backend(message)),
            Ok(report) => Ok(report),
        },
    }
}

/// A report, or an error, that was parsed.
pub open spec fn health_result(r: Result<HealthReport, ProviderError>) -> Result<
    HealthView,
    ProviderErrorView,
> {
    match r {
        Ok(report) => Ok(report@),
        Err(e) => Err(e@),
    }
}

impl HealthReport {
    /// The report that a value says.
    pub fn from_data(v: &Data) -> (r: Result<HealthReport, String>)
        ensures
            match r {
                Ok(report) => health_of(v@) == Ok::<HealthView, Seq<char>>(report@),
                Err(message) => health_of(v@) == Err::<HealthView, Seq<char>>(message@),
            },
    {
        let shape = Shape { name: "struct HealthReport", fields: 3, form: Form::Document };
        if let Some(message) = shape.error_of(v) {
            return Err(message);
        }
        if let Some(message) = v.first_misfit(HealthFields) {
            return Err(message);
        }
        let status = match shape.text_of(v, 0, "status") {
            Err(message) => return Err(message),
            Ok(status) => status,
        };
        let loaded_model = match shape.optional_text_of(v, 1, "loaded_model") {
            Err(message) => return Err(message),
            Ok(loaded_model) => loaded_model,
        };
        let loaded_adapter = match shape.optional_text_of(v, 2, "loaded_adapter") {
            Err(message) => return Err(message),
            Ok(loaded_adapter) => loaded_adapter,
        };
        match shape.surplus_of(v) {
            Some(message) => Err(message),
            None => Ok(HealthReport { status, loaded_model, loaded_adapter }),
        }
    }
}

/// The report that the body of a response holds.
pub fn parse_health(body: &str) -> (r: Result<HealthReport, ProviderError>)
    ensures
        health_result(r) == health_report(json_of_text(body@)),
{
    let read = match read_json(body) {
        Ok(v) => HealthReport::from_data(&v),
        Err(message) => Err(message),
    };
    match read {
        Ok(report) => Ok(report),
        Err(message) => Err(ProviderError::Backend(message)),
    }
}

/// What the response to a question for the health at `health_url` means.
pub fn finish_health(health_url: &str, code: u16, status: &str, body: &str) -> (r: Result<
    HealthReport,
    ProviderError,
>)
    ensures
        health_result(r) == if succeeded(code) {
            health_report(json_of_text(body@))
        } else {
            Err(status_error(status@, health_url@, body@))
        },
        health_result(r) == probed(code, status@, health_url@, body@),
{
    if !(200 <= code && code < 300) {
        return Err(status_error_of(status, health_url, body));
    }
    parse_health(body)
}

} // verus!
