//! Messages, the roles that speak them, and the session that holds them.
use vstd::prelude::*;

use crate::data::{
    compact, depth_limit, lemma_plain_deeper, number_member, plain, read_json, reading,
    text_member, value_member, Data, DataView,
};
use crate::decode::{
    failure, first_misfit, misfit_from, number_of, text_misfit, unknown_variant,
    unknown_variant_message, wrong_kind, Fields, Form, Shape,
};
use crate::external::{json_of_text, since_epoch, system_now, whole_millis};
use crate::text::{decimal, decimal_text, lemma_decimal_injective, same_text};

verus! {

/// Who speaks a message.
#[derive(Debug, PartialEq, Eq, Structural)]
pub enum Role {
    User,
    Assistant,
    System,
    Tool,
}

/// One message of a session.
#[derive(Debug, PartialEq, Eq)]
pub struct Message {
    pub role: Role,
    pub content: String,
}

/// What a [`Message`] says.
pub struct MessageView {
    pub role: Role,
    pub content: Seq<char>,
}

/// A conversation: its id, its time of creation and its messages.
#[derive(Debug, PartialEq, Eq)]
pub struct Session {
    pub id: String,
    /// When the session was created, as Unix-epoch milliseconds.
    pub created_at: u64,
    pub messages: Vec<Message>,
}

/// What a [`Session`] holds.
pub struct SessionView {
    pub id: Seq<char>,
    pub created_at: u64,
    pub messages: Seq<MessageView>,
}

impl View for Message {
    type V = MessageView;

    open spec fn view(&self) -> MessageView {
        MessageView { role: self.role, content: self.content@ }
    }
}

/// What the messages say, one after another.
pub open spec fn messages_view(messages: Seq<Message>) -> Seq<MessageView> {
    messages.map_values(|m: Message| m@)
}

impl View for Session {
    type V = SessionView;

    open spec fn view(&self) -> SessionView {
        SessionView {
            id: self.id@,
            created_at: self.created_at,
            messages: messages_view(self.messages@),
        }
    }
}

impl SessionView {
    /// The session with one more message at its end.
    pub open spec fn with(self, message: MessageView) -> SessionView {
        SessionView { messages: self.messages.push(message), ..self }
    }
}

impl Clone for Role {
    fn clone(&self) -> (r: Self)
        ensures
            r == *self,
    {
        match self {
            Role::User => Role::User,
            Role::Assistant => Role::Assistant,
            Role::System => Role::System,
            Role::Tool => Role::Tool,
        }
    }
}

impl Clone for Message {
    fn clone(&self) -> (r: Self)
        ensures
            r@ == self@,
    {
        Message { role: self.role.clone(), content: self.content.clone() }
    }
}

impl Clone for Session {
    fn clone(&self) -> (r: Self)
        ensures
            r@ == self@,
    {
        let mut messages: Vec<Message> = Vec::new();
        let mut i: usize = 0;
        while i < self.messages.len()
            invariant
                i <= self.messages@.len(),
                messages@.len() == i,
                forall|k: int| 0 <= k < i ==> (#[trigger] messages@[k])@ == self.messages@[k]@,
            decreases self.messages@.len() - i,
        {
            messages.push(self.messages[i].clone());
            i = i + 1;
        }
        let session = Session { id: self.id.clone(), created_at: self.created_at, messages };
        assert(session@.messages =~= self@.messages);
        session
    }
}

/// A message of a role.
pub open spec fn says(role: Role, content: Seq<char>) -> MessageView {
    MessageView { role, content }
}

impl Message {
    /// A message of a role.
    pub fn new(role: Role, content: &str) -> (r: Self)
        ensures
            r@ == says(role, content@),
    {
        Self { role, content: content.to_owned() }
    }
}

/// The id of a session that was created at a time.
pub open spec fn session_id(millis: u64) -> Seq<char> {
    "sess-"@ + decimal(millis as nat)
}

impl Session {
    /// A session with an id and a time of creation, without messages.
    pub fn new(id: &str, created_at: u64) -> (r: Self)
        ensures
            r@ == (SessionView { id: id@, created_at, messages: Seq::empty() }),
    {
        let session = Self { id: id.to_owned(), created_at, messages: Vec::new() };
        assert(session@.messages =~= Seq::empty());
        session
    }

    /// A fresh session: its time of creation is read off the clock, and its id
    /// is the one of that time.
    pub fn start() -> (r: Self)
        ensures
            r@.messages == Seq::<MessageView>::empty(),
            r@.id == session_id(r@.created_at),
    {
        let now: u64 = now_millis();
        Session::new(new_session_id(now).as_str(), now)
    }

    /// Put a message at the end.
    pub fn push_message(&mut self, message: Message)
        ensures
            final(self)@ == old(self)@.with(message@),
    {
        self.messages.push(message);
        assert(self@.messages =~= old(self)@.messages.push(message@));
    }
}

/// The time of a clock reading, as Unix-epoch milliseconds: the reading
/// without what does not fit in 64 bits, or zero where the clock stands before
/// the epoch.
pub open spec fn millis(reading: Option<u128>) -> u64 {
    match reading {
        Some(elapsed) => (elapsed % 0x1_0000_0000_0000_0000) as u64,
        None => 0,
    }
}

/// The time of a clock reading, as Unix-epoch milliseconds.
pub fn millis_of(reading: Option<u128>) -> (r: u64)
    ensures
        r == millis(reading),
{
    match reading {
        Some(elapsed) => (elapsed % 0x1_0000_0000_0000_0000) as u64,
        None => 0,
    }
}

/// The current time as Unix-epoch milliseconds, zero if the clock stands before
/// the epoch. Which time that is, is the clock's to say.
pub fn now_millis() -> (r: u64)
    ensures
        exists|reading: Option<u128>| r == #[trigger] millis(reading),
{
    match since_epoch(system_now()) {
        Ok(elapsed) => millis_of(Some(whole_millis(elapsed))),
        Err(_) => millis_of(None),
    }
}

/// The id of a session that was created at a time.
pub fn new_session_id(now_millis: u64) -> (r: String)
    ensures
        r@ == session_id(now_millis),
{
    let mut id = "sess-".to_owned();
    id.append(decimal_text(now_millis).as_str());
    id
}

/// Sessions that were created at different times have different ids.
pub proof fn lemma_session_ids_differ(a: u64, b: u64)
    requires
        a != b,
    ensures
        session_id(a) != session_id(b),
{
    let prefix = "sess-"@;
    if session_id(a) == session_id(b) {
        let n = prefix.len() as int;
        assert(session_id(a).skip(n) =~= decimal(a as nat));
        assert(session_id(b).skip(n) =~= decimal(b as nat));
        lemma_decimal_injective(a as nat, b as nat);
    }
}

// ---------------------------------------------------------------------------
// As JSON
// ---------------------------------------------------------------------------
/// The name of a role.
pub open spec fn role_name(role: Role) -> Seq<char> {
    match role {
        Role::User => "user"@,
        Role::Assistant => "assistant"@,
        Role::System => "system"@,
        Role::Tool => "tool"@,
    }
}

/// The names of the roles, for a name that is none.
pub open spec fn role_names() -> Seq<char> {
    "one of `user`, `assistant`, `system`, `tool`"@
}

/// The role with a name.
pub open spec fn role_named(name: Seq<char>) -> Result<Role, Seq<char>> {
    if name == "user"@ {
        Ok(Role::User)
    } else if name == "assistant"@ {
        Ok(Role::Assistant)
    } else if name == "system"@ {
        Ok(Role::System)
    } else if name == "tool"@ {
        Ok(Role::Tool)
    } else {
        Err(unknown_variant(name, role_names()))
    }
}

/// The role that a value says: its name, or an object with its name and null.
pub open spec fn role_of(v: DataView) -> Result<Role, Seq<char>> {
    match v {
        DataView::Text(name) => role_named(name),
        DataView::Object(members) => if members.len() == 1 {
            match role_named(members[0].0) {
                Err(message) => Err(message),
                Ok(role) => if members[0].1 is Null {
                    Ok(role)
                } else {
                    Err(wrong_kind(members[0].1, "unit"@))
                },
            }
        } else {
            Err("expected value"@)
        },
        _ => Err("expected value"@),
    }
}

/// A message as a record.
pub open spec fn message_shape() -> Shape {
    Shape { name: "struct Message", fields: 2, form: Form::Document }
}

/// A session as a record.
pub open spec fn session_shape() -> Shape {
    Shape { name: "struct Session", fields: 3, form: Form::Document }
}

/// A message as a value.
pub open spec fn message_data(m: MessageView) -> DataView {
    DataView::Object(
        seq![
            ("role"@, DataView::Text(role_name(m.role))),
            ("content"@, DataView::Text(m.content)),
        ],
    )
}

/// The message that a value says.
pub open spec fn message_of(v: DataView) -> Result<MessageView, Seq<char>> {
    message_shape().decoded(v, first_misfit(MessageFields, v), message_fields(v))
}

/// What the fields of a message have to be.
pub struct MessageFields;

impl Fields for MessageFields {
    open spec fn misfit(&self, name: Seq<char>, v: DataView) -> Option<Seq<char>> {
        if name == "role"@ {
            failure(role_of(v))
        } else if name == "content"@ {
            text_misfit(v)
        } else {
            None
        }
    }

    fn check(&self, name: &str, v: &Data) -> (r: Option<String>) {
        if same_text(name, "role") {
            match Role::from_data(v) {
                Ok(_) => None,
                Err(message) => Some(message),
            }
        } else if same_text(name, "content") {
            v.text_misfit()
        } else {
            None
        }
    }
}

/// What the fields of a message say, one by one.
pub open spec fn message_fields(v: DataView) -> Result<MessageView, Seq<char>> {
    match message_shape().field(v, 0, "role"@) {
        None => Err(message_shape().absent(v, 0, "role"@)),
        Some(role) => match role_of(role) {
            Err(message) => Err(message),
            Ok(role) => match message_shape().text(v, 1, "content"@) {
                Err(message) => Err(message),
                Ok(content) => Ok(MessageView { role, content }),
            },
        },
    }
}

/// A session as a value.
pub open spec fn session_data(s: SessionView) -> DataView {
    DataView::Object(
        seq![
            ("id"@, DataView::Text(s.id)),
            ("created_at"@, DataView::Unsigned(s.created_at)),
            ("messages"@, DataView::Array(s.messages.map_values(|m: MessageView| message_data(m)))),
        ],
    )
}

/// The messages that the values say, or what the first that says none is told.
pub open spec fn messages_of(items: Seq<DataView>) -> Result<Seq<MessageView>, Seq<char>>
    decreases items.len(),
{
    if items.len() == 0 {
        Ok(Seq::empty())
    } else {
        match messages_of(items.drop_last()) {
            Err(message) => Err(message),
            Ok(before) => match message_of(items.last()) {
                Err(message) => Err(message),
                Ok(m) => Ok(before.push(m)),
            },
        }
    }
}

/// The session that a value says.
pub open spec fn session_of(v: DataView) -> Result<SessionView, Seq<char>> {
    session_shape().decoded(v, first_misfit(SessionFields, v), session_fields(v))
}

/// The messages that a value says.
pub open spec fn message_list(v: DataView) -> Result<Seq<MessageView>, Seq<char>> {
    match v {
        DataView::Array(items) => messages_of(items),
        _ => Err(wrong_kind(v, "a sequence"@)),
    }
}

/// What the fields of a session have to be.
pub struct SessionFields;

impl Fields for SessionFields {
    open spec fn misfit(&self, name: Seq<char>, v: DataView) -> Option<Seq<char>> {
        if name == "id"@ {
            text_misfit(v)
        } else if name == "created_at"@ {
            failure(number_of(v))
        } else if name == "messages"@ {
            failure(message_list(v))
        } else {
            None
        }
    }

    fn check(&self, name: &str, v: &Data) -> (r: Option<String>) {
        if same_text(name, "id") {
            v.text_misfit()
        } else if same_text(name, "created_at") {
            match v.number() {
                Ok(_) => None,
                Err(message) => Some(message),
            }
        } else if same_text(name, "messages") {
            match read_messages(v) {
                Ok(_) => None,
                Err(message) => Some(message),
            }
        } else {
            None
        }
    }
}

/// What the fields of a session say, one by one.
pub open spec fn session_fields(v: DataView) -> Result<SessionView, Seq<char>> {
    match session_shape().text(v, 0, "id"@) {
        Err(message) => Err(message),
        Ok(id) => match session_shape().number(v, 1, "created_at"@) {
            Err(message) => Err(message),
            Ok(created_at) => match session_shape().field(v, 2, "messages"@) {
                None => Err(session_shape().absent(v, 2, "messages"@)),
                Some(list) => match message_list(list) {
                    Err(message) => Err(message),
                    Ok(messages) => Ok(SessionView { id, created_at, messages }),
                },
            },
        },
    }
}

/// What a reading gives, where the text holds a value.
pub open spec fn then_role(r: Result<DataView, Seq<char>>) -> Result<Role, Seq<char>> {
    match r {
        Ok(v) => role_of(v),
        Err(message) => Err(message),
    }
}

/// What a reading gives, where the text holds a value.
pub open spec fn then_message(r: Result<DataView, Seq<char>>) -> Result<MessageView, Seq<char>> {
    match r {
        Ok(v) => message_of(v),
        Err(message) => Err(message),
    }
}

/// What a reading gives, where the text holds a value.
pub open spec fn then_session(r: Result<DataView, Seq<char>>) -> Result<SessionView, Seq<char>> {
    match r {
        Ok(v) => session_of(v),
        Err(message) => Err(message),
    }
}

/// A role, or a message, that was decoded.
pub open spec fn role_result(r: Result<Role, String>) -> Result<Role, Seq<char>> {
    match r {
        Ok(role) => Ok(role),
        Err(message) => Err(message@),
    }
}

/// A message, or the message of an error, that was decoded.
pub open spec fn message_result(r: Result<Message, String>) -> Result<MessageView, Seq<char>> {
    match r {
        Ok(m) => Ok(m@),
        Err(message) => Err(message@),
    }
}

/// A session, or the message of an error, that was decoded.
pub open spec fn session_result(r: Result<Session, String>) -> Result<SessionView, Seq<char>> {
    match r {
        Ok(s) => Ok(s@),
        Err(message) => Err(message@),
    }
}

/// A role's name is read as the role.
pub proof fn lemma_role_round_trip(role: Role)
    ensures
        role_of(DataView::Text(role_name(role))) == Ok::<Role, Seq<char>>(role),
{
    reveal_strlit("user");
    reveal_strlit("assistant");
    reveal_strlit("system");
    reveal_strlit("tool");
    assert("user"@.len() != "assistant"@.len());
    assert("user"@.len() != "system"@.len());
    assert("user"@[0] != "tool"@[0]);
    assert("assistant"@.len() != "system"@.len());
    assert("assistant"@.len() != "tool"@.len());
    assert("system"@.len() != "tool"@.len());
}

/// A message as a value is read as the message, and compact JSON carries it.
pub proof fn lemma_message_round_trip(m: MessageView)
    ensures
        message_of(message_data(m)) == Ok::<MessageView, Seq<char>>(m),
        plain(message_data(m), 1),
{
    lemma_role_round_trip(m.role);
    reveal_strlit("role");
    reveal_strlit("content");
    assert("role"@.len() != "content"@.len());
    reveal_with_fuel(crate::decode::member_from, 3);
    reveal_with_fuel(misfit_from, 3);
    reveal_with_fuel(plain, 2);
}

proof fn lemma_messages_round_trip(messages: Seq<MessageView>)
    ensures
        messages_of(messages.map_values(|m: MessageView| message_data(m))) == Ok::<
            Seq<MessageView>,
            Seq<char>,
        >(messages),
    decreases messages.len(),
{
    let items = messages.map_values(|m: MessageView| message_data(m));
    if messages.len() > 0 {
        let before = messages.drop_last();
        assert(items.drop_last() =~= before.map_values(|m: MessageView| message_data(m)));
        lemma_messages_round_trip(before);
        lemma_message_round_trip(messages.last());
        assert(before.push(messages.last()) =~= messages);
    } else {
        assert(messages =~= Seq::empty());
    }
}

/// A session as a value is read as the session, and compact JSON carries it.
pub proof fn lemma_session_round_trip(s: SessionView)
    ensures
        session_of(session_data(s)) == Ok::<SessionView, Seq<char>>(s),
        plain(session_data(s), 3),
{
    reveal_strlit("id");
    reveal_strlit("created_at");
    reveal_strlit("messages");
    assert("id"@.len() != "created_at"@.len());
    assert("id"@.len() != "messages"@.len());
    assert("created_at"@.len() != "messages"@.len());
    reveal_with_fuel(crate::decode::member_from, 4);
    reveal_with_fuel(misfit_from, 4);
    reveal_with_fuel(plain, 4);
    lemma_messages_round_trip(s.messages);
    let items = s.messages.map_values(|m: MessageView| message_data(m));
    assert forall|i: int| 0 <= i < items.len() implies plain(#[trigger] items[i], 1) by {
        lemma_message_round_trip(s.messages[i]);
    }
}

impl Role {
    /// The name of the role.
    pub fn name(&self) -> (r: &'static str)
        ensures
            r@ == role_name(*self),
    {
        match self {
            Role::User => "user",
            Role::Assistant => "assistant",
            Role::System => "system",
            Role::Tool => "tool",
        }
    }

    /// The role as JSON.
    pub fn to_json(&self) -> (r: String)
        ensures
            r@ == compact(DataView::Text(role_name(*self))),
    {
        Data::Text(self.name().to_owned()).to_json()
    }

    fn named(name: &str) -> (r: Result<Role, String>)
        ensures
            role_result(r) == role_named(name@),
    {
        if same_text(name, "user") {
            Ok(Role::User)
        } else if same_text(name, "assistant") {
            Ok(Role::Assistant)
        } else if same_text(name, "system") {
            Ok(Role::System)
        } else if same_text(name, "tool") {
            Ok(Role::Tool)
        } else {
            Err(
                unknown_variant_message(name, "one of `user`, `assistant`, `system`, `tool`"),
            )
        }
    }

    /// The role that a value says.
    pub fn from_data(v: &Data) -> (r: Result<Role, String>)
        ensures
            role_result(r) == role_of(v@),
    {
        match v {
            Data::Text(name) => Role::named(name.as_str()),
            Data::Object(members) => {
                if members.len() == 1 {
                    let member = &members[0];
                    assert(v@->Object_0[0] == (member.0@, member.1@));
                    return match Role::named(member.0.as_str()) {
                        Err(message) => Err(message),
                        Ok(role) => match member.1 {
                            Data::Null => Ok(role),
                            _ => Err(member.1.wrong_kind("unit")),
                        },
                    };
                }
                Err("expected value".to_owned())
            },
            _ => Err("expected value".to_owned()),
        }
    }

    /// Read a role from JSON. What [`Role::to_json`] wrote is read back.
    pub fn from_json(text: &str) -> (r: Result<Role, String>)
        ensures
            role_result(r) == then_role(json_of_text(text@)),
            forall|role: Role|
                compact(DataView::Text(#[trigger] role_name(role))) == text@ ==> role_result(r)
                    == Ok::<Role, Seq<char>>(role),
    {
        let read = read_json(text);
        proof {
            assert forall|role: Role|
                compact(DataView::Text(#[trigger] role_name(role))) == text@ implies then_role(
                reading(read),
            ) == Ok::<Role, Seq<char>>(role) by {
                lemma_role_round_trip(role);
            }
        }
        match read {
            Ok(v) => Role::from_data(&v),
            Err(message) => Err(message),
        }
    }
}

impl Message {
    /// The message as a value.
    pub fn to_data(&self) -> (r: Data)
        ensures
            r@ == message_data(self@),
    {
        let mut members: Vec<(String, Data)> = Vec::new();
        members.push(text_member("role", self.role.name()));
        members.push(text_member("content", self.content.as_str()));
        let data = Data::Object(members);
        assert(data@->Object_0 =~= message_data(self@)->Object_0);
        data
    }

    /// The message as JSON.
    pub fn to_json(&self) -> (r: String)
        ensures
            r@ == compact(message_data(self@)),
    {
        self.to_data().to_json()
    }

    /// The message that a value says.
    pub fn from_data(v: &Data) -> (r: Result<Message, String>)
        ensures
            message_result(r) == message_of(v@),
    {
        let shape = Shape { name: "struct Message", fields: 2, form: Form::Document };
        if let Some(message) = shape.error_of(v) {
            return Err(message);
        }
        if let Some(message) = v.first_misfit(MessageFields) {
            return Err(message);
        }
        let role = match shape.field_of(v, 0, "role") {
            None => return Err(shape.absent_message(v, 0, "role")),
            Some(role) => match Role::from_data(role) {
                Err(message) => return Err(message),
                Ok(role) => role,
            },
        };
        let content = match shape.text_of(v, 1, "content") {
            Err(message) => return Err(message),
            Ok(content) => content,
        };
        match shape.surplus_of(v) {
            Some(message) => Err(message),
            None => Ok(Message { role, content }),
        }
    }

    /// Read a message from JSON. What [`Message::to_json`] wrote is read back.
    pub fn from_json(text: &str) -> (r: Result<Message, String>)
        ensures
            message_result(r) == then_message(json_of_text(text@)),
            forall|m: MessageView|
                compact(#[trigger] message_data(m)) == text@ ==> message_result(r) == Ok::<
                    MessageView,
                    Seq<char>,
                >(m),
    {
        let read = read_json(text);
        proof {
            assert forall|m: MessageView| compact(#[trigger] message_data(m)) == text@ implies
                then_message(reading(read)) == Ok::<MessageView, Seq<char>>(m) by {
                lemma_message_round_trip(m);
                lemma_plain_deeper(message_data(m), 1, depth_limit());
            }
        }
        match read {
            Ok(v) => Message::from_data(&v),
            Err(message) => Err(message),
        }
    }
}

impl Session {
    /// The session as a value.
    pub fn to_data(&self) -> (r: Data)
        ensures
            r@ == session_data(self@),
    {
        let ghost wanted = self@.messages.map_values(|m: MessageView| message_data(m));
        let mut items: Vec<Data> = Vec::new();
        let mut i: usize = 0;
        while i < self.messages.len()
            invariant
                i <= self.messages@.len() == wanted.len(),
                items@.len() == i,
                wanted == self@.messages.map_values(|m: MessageView| message_data(m)),
                forall|k: int| 0 <= k < i ==> (#[trigger] items@[k])@ == wanted[k],
            decreases self.messages@.len() - i,
        {
            items.push(self.messages[i].to_data());
            i = i + 1;
        }
        let messages = Data::Array(items);
        assert(messages@->Array_0 =~= wanted);
        let mut members: Vec<(String, Data)> = Vec::new();
        members.push(text_member("id", self.id.as_str()));
        members.push(number_member("created_at", self.created_at));
        members.push(value_member("messages", messages));
        let data = Data::Object(members);
        assert(data@->Object_0 =~= session_data(self@)->Object_0);
        data
    }

    /// The session as JSON.
    pub fn to_json(&self) -> (r: String)
        ensures
            r@ == compact(session_data(self@)),
    {
        self.to_data().to_json()
    }

    /// The session that a value says.
    pub fn from_data(v: &Data) -> (r: Result<Session, String>)
        ensures
            session_result(r) == session_of(v@),
    {
        let shape = Shape { name: "struct Session", fields: 3, form: Form::Document };
        if let Some(message) = shape.error_of(v) {
            return Err(message);
        }
        if let Some(message) = v.first_misfit(SessionFields) {
            return Err(message);
        }
        let id = match shape.text_of(v, 0, "id") {
            Err(message) => return Err(message),
            Ok(id) => id,
        };
        let created_at: u64 = match shape.number_in(v, 1, "created_at") {
            Err(message) => return Err(message),
            Ok(created_at) => created_at,
        };
        let messages = match shape.field_of(v, 2, "messages") {
            None => return Err(shape.absent_message(v, 2, "messages")),
            Some(list) => match read_messages(list) {
                Err(message) => return Err(message),
                Ok(messages) => messages,
            },
        };
        match shape.surplus_of(v) {
            Some(message) => Err(message),
            None => Ok(Session { id, created_at, messages }),
        }
    }

    /// Read a session from JSON. What [`Session::to_json`] wrote is read back.
    pub fn from_json(text: &str) -> (r: Result<Session, String>)
        ensures
            session_result(r) == then_session(json_of_text(text@)),
            forall|s: SessionView|
                compact(#[trigger] session_data(s)) == text@ ==> session_result(r) == Ok::<
                    SessionView,
                    Seq<char>,
                >(s),
    {
        let read = read_json(text);
        proof {
            assert forall|s: SessionView| compact(#[trigger] session_data(s)) == text@ implies
                then_session(reading(read)) == Ok::<SessionView, Seq<char>>(s) by {
                lemma_session_round_trip(s);
                lemma_plain_deeper(session_data(s), 3, depth_limit());
            }
        }
        match read {
            Ok(v) => Session::from_data(&v),
            Err(message) => Err(message),
        }
    }
}

/// The messages that a value says.
pub fn read_messages(v: &Data) -> (r: Result<Vec<Message>, String>)
    ensures
        match r {
            Ok(messages) => message_list(v@) == Ok::<Seq<MessageView>, Seq<char>>(
                messages_view(messages@),
            ),
            Err(message) => message_list(v@) == Err::<Seq<MessageView>, Seq<char>>(message@),
        },
{
    let items = match v {
        Data::Array(items) => items,
        _ => return Err(v.wrong_kind("a sequence")),
    };
    let ghost listed = v@->Array_0;
    let mut messages: Vec<Message> = Vec::new();
    assert(messages_view(messages@) =~= Seq::empty());
    let mut i: usize = 0;
    while i < items.len()
        invariant
            i <= items@.len() == listed.len(),
            v@ == DataView::Array(listed),
            forall|k: int| 0 <= k < listed.len() ==> #[trigger] listed[k] == items@[k]@,
            messages_of(listed.take(i as int)) == Ok::<Seq<MessageView>, Seq<char>>(
                messages_view(messages@),
            ),
        decreases items@.len() - i,
    {
        assert(listed.take(i + 1).drop_last() =~= listed.take(i as int));
        assert(listed[i as int] == items@[i as int]@);
        match Message::from_data(&items[i]) {
            Err(message) => {
                proof {
                    lemma_first_bad_message(listed, i as int);
                }
                return Err(message);
            },
            Ok(m) => {
                let ghost before = messages_view(messages@);
                messages.push(m);
                assert(messages_view(messages@) =~= before.push(m@));
            },
        }
        i = i + 1;
    }
    assert(listed.take(i as int) =~= listed);
    Ok(messages)
}

proof fn lemma_first_bad_message(items: Seq<DataView>, i: int)
    requires
        0 <= i < items.len(),
        messages_of(items.take(i + 1)) is Err,
    ensures
        messages_of(items) == messages_of(items.take(i + 1)),
    decreases items.len() - i,
{
    if i + 1 == items.len() {
        assert(items.take(i + 1) =~= items);
    } else {
        let before = items.drop_last();
        assert(before.take(i + 1) =~= items.take(i + 1));
        lemma_first_bad_message(before, i);
    }
}

} // verus!
