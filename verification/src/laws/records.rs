//! What is read out of an object depends on which members it has, not on their
//! order: each reader finds its fields by their names, wherever they stand, and
//! passes over members that it does not know.
use vstd::prelude::*;

use crate::data::{distinct_names, DataView};
use crate::decode::{first_misfit, member, member_from, misfit_from, Fields};
use crate::event::{event_of, record_of, EventView, LoggedView, ResultFields};
use crate::message::{
    message_list, message_of, messages_of, role_of, session_of, MessageFields, MessageView, Role,
    SessionFields, SessionView,
};
use crate::output::{output_of, CallFields, ModelOutputView};
use crate::tools::session_notes::{note_of, NoteView};

verus! {

/// Members of an object.
pub type Members = Seq<(Seq<char>, DataView)>;

/// No member has this name.
pub open spec fn lacks(members: Members, name: Seq<char>) -> bool {
    forall|i: int| 0 <= i < members.len() ==> (#[trigger] members[i]).0 != name
}

/// Two objects have the same members, in whatever order.
pub open spec fn same_members(a: Members, b: Members) -> bool {
    forall|m: (Seq<char>, DataView)| a.contains(m) <==> b.contains(m)
}

proof fn lemma_member_from(members: Members, name: Seq<char>, i: int)
    requires
        0 <= i,
    ensures
        member_from(members, name, i) matches Some(v) ==> exists|k: int|
            i <= k < members.len() && #[trigger] members[k] == (name, v),
        member_from(members, name, i) is None ==> forall|k: int|
            i <= k < members.len() ==> (#[trigger] members[k]).0 != name,
    decreases members.len() - i,
{
    if i < members.len() {
        if members[i].0 == name {
            assert(members[i] == (name, members[i].1));
        } else {
            lemma_member_from(members, name, i + 1);
        }
    }
}

/// A member is found by its name wherever it stands, and a name that no member
/// has finds none.
pub proof fn lemma_member_is_found(members: Members, name: Seq<char>, v: DataView)
    requires
        distinct_names(members),
    ensures
        members.contains((name, v)) <==> member(members, name) == Some(v),
        lacks(members, name) <==> member(members, name) is None,
{
    lemma_member_from(members, name, 0);
    if members.contains((name, v)) {
        let k = choose|k: int| 0 <= k < members.len() && members[k] == (name, v);
        assert(members[k].0 == name);
        let w = member(members, name)->Some_0;
        let j = choose|j: int| 0 <= j < members.len() && #[trigger] members[j] == (name, w);
        if j < k {
            assert(members[j].0 != members[k].0);
        } else if k < j {
            assert(members[k].0 != members[j].0);
        }
    }
    if member(members, name) is Some {
        let w = member(members, name)->Some_0;
        let j = choose|j: int| 0 <= j < members.len() && #[trigger] members[j] == (name, w);
        assert(members[j].0 == name);
    }
}

proof fn lemma_misfit_from<F: Fields>(fields: F, members: Members, i: int)
    requires
        0 <= i,
    ensures
        misfit_from(fields, members, i) is None <==> forall|k: int|
            i <= k < members.len() ==> fields.misfit(
                (#[trigger] members[k]).0,
                members[k].1,
            ) is None,
    decreases members.len() - i,
{
    if i < members.len() {
        lemma_misfit_from(fields, members, i + 1);
        if fields.misfit(members[i].0, members[i].1) is None {
            assert forall|k: int|
                i <= k < members.len() && misfit_from(fields, members, i) is None implies fields.misfit(
                (#[trigger] members[k]).0,
                members[k].1,
            ) is None by {
                if k > i {
                    assert(i + 1 <= k);
                }
            }
        }
    }
}

/// An object fits where each of its members does, wherever it stands.
pub proof fn lemma_fits<F: Fields>(fields: F, members: Members)
    ensures
        first_misfit(fields, DataView::Object(members)) is None <==> forall|k: int|
            0 <= k < members.len() ==> fields.misfit(
                (#[trigger] members[k]).0,
                members[k].1,
            ) is None,
{
    lemma_misfit_from(fields, members, 0);
}

/// With each name once, what a name stands for is what it stands for anywhere.
proof fn lemma_only(members: Members, name: Seq<char>, v: DataView)
    requires
        distinct_names(members),
        members.contains((name, v)),
    ensures
        forall|i: int|
            0 <= i < members.len() && (#[trigger] members[i]).0 == name ==> members[i].1 == v,
{
    let k = choose|k: int| 0 <= k < members.len() && members[k] == (name, v);
    assert forall|i: int|
        0 <= i < members.len() && (#[trigger] members[i]).0 == name implies members[i].1 == v by {
        if i < k {
            assert(members[i].0 != members[k].0);
        } else if k < i {
            assert(members[k].0 != members[i].0);
        }
    }
}

// ---------------------------------------------------------------------------
// Replies of the model
// ---------------------------------------------------------------------------
proof fn lemma_output_names()
    ensures
        "kind"@ != "tool_name"@,
        "kind"@ != "note"@,
        "kind"@ != "content"@,
        "kind"@ != "arguments"@,
        "tool_name"@ != "note"@,
        "tool_name"@ != "arguments"@,
        "tool_call"@ != "final"@,
{
    reveal_strlit("kind");
    reveal_strlit("tool_name");
    reveal_strlit("note");
    reveal_strlit("content");
    reveal_strlit("arguments");
    reveal_strlit("tool_call");
    reveal_strlit("final");
    assert("kind"@[0] == 'k' && "note"@[0] == 'n');
    assert("tool_name"@[0] == 't' && "arguments"@[0] == 'a');
    assert("kind"@.len() == 4 && "tool_name"@.len() == 9 && "content"@.len() == 7);
    assert("tool_call"@.len() == 9 && "final"@.len() == 5);
}

/// An object that says of itself that it is final, and has a content, is that
/// final answer: wherever the two members stand and whatever else there is. No
/// other object is a final answer.
pub proof fn lemma_final_in_any_order(members: Members, content: Seq<char>)
    requires
        distinct_names(members),
    ensures
        output_of(DataView::Object(members)) == Ok::<ModelOutputView, Seq<char>>(
            ModelOutputView::Final { content },
        ) <==> {
            &&& members.contains(("kind"@, DataView::Text("final"@)))
            &&& members.contains(("content"@, DataView::Text(content)))
        },
{
    lemma_output_names();
    lemma_member_is_found(members, "kind"@, DataView::Text("final"@));
    lemma_member_is_found(members, "content"@, DataView::Text(content));
}

/// Whether an object notes this, or nothing.
pub open spec fn notes(members: Members, note: Option<Seq<char>>) -> bool {
    match note {
        Some(text) => members.contains(("note"@, DataView::Text(text))),
        None => lacks(members, "note"@) || members.contains(("note"@, DataView::Null)),
    }
}

/// An object that says of itself that it is a call, and has the name of a tool
/// and arguments, is that call: wherever the members stand and whatever else
/// there is, with the note that it has, if any. No other object is a call.
pub proof fn lemma_call_in_any_order(
    members: Members,
    tool_name: Seq<char>,
    arguments: DataView,
    note: Option<Seq<char>>,
)
    requires
        distinct_names(members),
    ensures
        output_of(DataView::Object(members)) == Ok::<ModelOutputView, Seq<char>>(
            ModelOutputView::ToolCall { tool_name, arguments, note },
        ) <==> {
            &&& members.contains(("kind"@, DataView::Text("tool_call"@)))
            &&& members.contains(("tool_name"@, DataView::Text(tool_name)))
            &&& members.contains(("arguments"@, arguments))
            &&& notes(members, note)
        },
{
    lemma_output_names();
    lemma_member_is_found(members, "kind"@, DataView::Text("tool_call"@));
    lemma_member_is_found(members, "tool_name"@, DataView::Text(tool_name));
    lemma_member_is_found(members, "arguments"@, arguments);
    lemma_member_is_found(members, "note"@, DataView::Null);
    if let Some(text) = note {
        lemma_member_is_found(members, "note"@, DataView::Text(text));
    }
    lemma_fits(CallFields, members);
    if members.contains(("tool_name"@, DataView::Text(tool_name))) && notes(members, note) {
        lemma_only(members, "tool_name"@, DataView::Text(tool_name));
        match note {
            Some(text) => lemma_only(members, "note"@, DataView::Text(text)),
            None => if members.contains(("note"@, DataView::Null)) {
                lemma_only(members, "note"@, DataView::Null);
            },
        }
        assert forall|k: int| 0 <= k < members.len() implies CallFields.misfit(
            (#[trigger] members[k]).0,
            members[k].1,
        ) is None by {
        }
    }
}

/// Whether an object is a reply, and which one, does not depend on the order of
/// its members.
pub proof fn lemma_output_forgets_order(a: Members, b: Members, output: ModelOutputView)
    requires
        distinct_names(a),
        distinct_names(b),
        same_members(a, b),
    ensures
        output_of(DataView::Object(a)) == Ok::<ModelOutputView, Seq<char>>(output)
            <==> output_of(DataView::Object(b)) == Ok::<ModelOutputView, Seq<char>>(output),
{
    match output {
        ModelOutputView::Final { content } => {
            lemma_final_in_any_order(a, content);
            lemma_final_in_any_order(b, content);
        },
        ModelOutputView::ToolCall { tool_name, arguments, note } => {
            lemma_call_in_any_order(a, tool_name, arguments, note);
            lemma_call_in_any_order(b, tool_name, arguments, note);
            lemma_lacks_alike(a, b, "note"@);
        },
    }
}

proof fn lemma_lacks_alike(a: Members, b: Members, name: Seq<char>)
    requires
        same_members(a, b),
    ensures
        lacks(a, name) == lacks(b, name),
{
    if !lacks(a, name) {
        let i = choose|i: int| 0 <= i < a.len() && (#[trigger] a[i]).0 == name;
        assert(a.contains(a[i]));
        let j = choose|j: int| 0 <= j < b.len() && b[j] == a[i];
        assert(b[j].0 == name);
    }
    if !lacks(b, name) {
        let i = choose|i: int| 0 <= i < b.len() && (#[trigger] b[i]).0 == name;
        assert(b.contains(b[i]));
        let j = choose|j: int| 0 <= j < a.len() && a[j] == b[i];
        assert(a[j].0 == name);
    }
}

/// In an array the kind stands first, and the fields behind it in their order;
/// the note of a call may be left out.
pub proof fn lemma_output_in_array(items: Seq<DataView>, output: ModelOutputView)
    ensures
        output_of(DataView::Array(items)) == Ok::<ModelOutputView, Seq<char>>(output) <==> match output {
            ModelOutputView::Final { content } => items == seq![
                DataView::Text("final"@),
                DataView::Text(content),
            ],
            ModelOutputView::ToolCall { tool_name, arguments, note } => {
                let call = seq![
                    DataView::Text("tool_call"@),
                    DataView::Text(tool_name),
                    arguments,
                ];
                match note {
                    Some(text) => items == call.push(DataView::Text(text)),
                    None => items == call || items == call.push(DataView::Null),
                }
            },
        },
{
    lemma_output_names();
    match output {
        ModelOutputView::Final { content } => {
            if items.len() == 2 {
                let all = seq![DataView::Text("final"@), DataView::Text(content)];
                if items[0] == all[0] && items[1] == all[1] {
                    assert(items =~= all);
                }
            }
        },
        ModelOutputView::ToolCall { tool_name, arguments, note } => {
            let call = seq![DataView::Text("tool_call"@), DataView::Text(tool_name), arguments];
            if items.len() >= 3 && items[0] == call[0] && items[1] == call[1] && items[2]
                == call[2] {
                if items.len() == 3 {
                    assert(items =~= call);
                } else if items.len() == 4 {
                    assert(items =~= call.push(items[3]));
                }
            }
        },
    }
}

// ---------------------------------------------------------------------------
// Events
// ---------------------------------------------------------------------------
pub proof fn lemma_event_names()
    ensures
        "kind"@ != "at"@,
        "kind"@ != "content"@,
        "kind"@ != "tool_name"@,
        "kind"@ != "output"@,
        "tool_name"@ != "output"@,
        "user_message"@ != "model_response"@,
        "user_message"@ != "final_answer"@,
        "user_message"@ != "tool_result"@,
        "user_message"@ != "tool_denied"@,
        "model_response"@ != "final_answer"@,
        "model_response"@ != "tool_result"@,
        "model_response"@ != "tool_denied"@,
        "final_answer"@ != "tool_result"@,
        "final_answer"@ != "tool_denied"@,
        "tool_result"@ != "tool_denied"@,
{
    reveal_strlit("kind");
    reveal_strlit("at");
    reveal_strlit("content");
    reveal_strlit("tool_name");
    reveal_strlit("output");
    reveal_strlit("user_message");
    reveal_strlit("model_response");
    reveal_strlit("final_answer");
    reveal_strlit("tool_result");
    reveal_strlit("tool_denied");
    assert("kind"@.len() == 4 && "at"@.len() == 2 && "content"@.len() == 7);
    assert("tool_name"@.len() == 9 && "output"@.len() == 6);
    assert("user_message"@.len() == 12 && "user_message"@[0] == 'u');
    assert("model_response"@.len() == 14);
    assert("final_answer"@.len() == 12 && "final_answer"@[0] == 'f');
    assert("tool_result"@.len() == 11 && "tool_result"@[5] == 'r');
    assert("tool_denied"@.len() == 11 && "tool_denied"@[5] == 'd');
}

/// Whether an object holds the fields of an event.
pub open spec fn holds_fields(members: Members, e: EventView) -> bool {
    match e {
        EventView::UserMessage { content } | EventView::ModelResponse { content }
        | EventView::FinalAnswer { content } => members.contains(
            ("content"@, DataView::Text(content)),
        ),
        EventView::ToolResult { tool_name, output } => {
            &&& members.contains(("tool_name"@, DataView::Text(tool_name)))
            &&& members.contains(("output"@, DataView::Text(output)))
        },
        EventView::ToolDenied { tool_name } => members.contains(
            ("tool_name"@, DataView::Text(tool_name)),
        ),
    }
}

/// The name of the kind of an event, and its number.
pub open spec fn tagged(e: EventView) -> (Seq<char>, u64) {
    match e {
        EventView::UserMessage { .. } => ("user_message"@, 0),
        EventView::ModelResponse { .. } => ("model_response"@, 1),
        EventView::ToolResult { .. } => ("tool_result"@, 2),
        EventView::ToolDenied { .. } => ("tool_denied"@, 3),
        EventView::FinalAnswer { .. } => ("final_answer"@, 4),
    }
}

proof fn lemma_fields_are_read(members: Members, e: EventView)
    requires
        distinct_names(members),
    ensures
        crate::event::event_of_kind(DataView::Object(members), tagged(e).0) == Ok::<
            EventView,
            Seq<char>,
        >(e) <==> holds_fields(members, e),
        forall|kind: Seq<char>|
            #[trigger] crate::event::event_of_kind(DataView::Object(members), kind) == Ok::<
                EventView,
                Seq<char>,
            >(e) ==> kind == tagged(e).0,
{
    lemma_event_names();
    match e {
        EventView::UserMessage { content } | EventView::ModelResponse { content }
        | EventView::FinalAnswer { content } => {
            lemma_member_is_found(members, "content"@, DataView::Text(content));
        },
        EventView::ToolResult { tool_name, output } => {
            lemma_member_is_found(members, "tool_name"@, DataView::Text(tool_name));
            lemma_member_is_found(members, "output"@, DataView::Text(output));
            lemma_fits(ResultFields, members);
            if holds_fields(members, e) {
                lemma_only(members, "tool_name"@, DataView::Text(tool_name));
                lemma_only(members, "output"@, DataView::Text(output));
                assert forall|k: int| 0 <= k < members.len() implies ResultFields.misfit(
                    (#[trigger] members[k]).0,
                    members[k].1,
                ) is None by {
                }
            }
        },
        EventView::ToolDenied { tool_name } => {
            lemma_member_is_found(members, "tool_name"@, DataView::Text(tool_name));
        },
    }
}

/// An object is an event exactly where it names the event's kind and holds its
/// fields, in whatever order and whatever else it holds.
pub proof fn lemma_event_in_any_order(members: Members, e: EventView)
    requires
        distinct_names(members),
    ensures
        event_of(DataView::Object(members)) == Ok::<EventView, Seq<char>>(e) <==> {
            &&& members.contains(("kind"@, DataView::Text(tagged(e).0)))
            &&& holds_fields(members, e)
        },
{
    lemma_member_is_found(members, "kind"@, DataView::Text(tagged(e).0));
    lemma_fields_are_read(members, e);
}

/// An object is a record of an event exactly where it names the kind, by name or
/// by number, holds the fields, and says the time; a record without a time is of
/// time zero.
pub proof fn lemma_record_in_any_order(members: Members, r: LoggedView)
    requires
        distinct_names(members),
    ensures
        record_of(DataView::Object(members)) == Ok::<LoggedView, Seq<char>>(r) <==> {
            &&& members.contains(("kind"@, DataView::Text(tagged(r.event).0)))
                || members.contains(("kind"@, DataView::Unsigned(tagged(r.event).1)))
            &&& holds_fields(members, r.event)
            &&& members.contains(("at"@, DataView::Unsigned(r.at))) || (r.at == 0 && lacks(
                members,
                "at"@,
            ))
        },
{
    let v = DataView::Object(members);
    lemma_event_names();
    lemma_member_is_found(members, "kind"@, DataView::Text(tagged(r.event).0));
    lemma_member_is_found(members, "kind"@, DataView::Unsigned(tagged(r.event).1));
    lemma_member_is_found(members, "at"@, DataView::Unsigned(r.at));
    lemma_fields_are_read(members, r.event);
}

// ---------------------------------------------------------------------------
// Messages and sessions
// ---------------------------------------------------------------------------
/// A role is known by its name in small letters, by itself or as the one member
/// of an object that says no more.
pub proof fn lemma_role_by_name(v: DataView, role: Role)
    ensures
        role_of(v) == Ok::<Role, Seq<char>>(role) <==> {
            let name = match role {
                Role::User => "user"@,
                Role::Assistant => "assistant"@,
                Role::System => "system"@,
                Role::Tool => "tool"@,
            };
            v == DataView::Text(name) || v == DataView::Object(seq![(name, DataView::Null)])
        },
{
    reveal_strlit("user");
    reveal_strlit("assistant");
    reveal_strlit("system");
    reveal_strlit("tool");
    assert("user"@.len() == 4 && "user"@[0] == 'u');
    assert("tool"@.len() == 4 && "tool"@[0] == 't');
    assert("assistant"@.len() == 9);
    assert("system"@.len() == 6);
    if let DataView::Object(members) = v {
        if members.len() == 1 {
            assert(members =~= seq![(members[0].0, members[0].1)]);
        }
    }
}

/// An object is a message exactly where it has its role and its content, in
/// whatever order and whatever else it holds.
pub proof fn lemma_message_in_any_order(members: Members, m: MessageView)
    requires
        distinct_names(members),
    ensures
        message_of(DataView::Object(members)) == Ok::<MessageView, Seq<char>>(m) <==> {
            &&& exists|role: DataView| #[trigger]
                members.contains(("role"@, role)) && role_of(role) == Ok::<Role, Seq<char>>(m.role)
            &&& members.contains(("content"@, DataView::Text(m.content)))
        },
{
    reveal_strlit("role");
    reveal_strlit("content");
    assert("role"@.len() != "content"@.len());
    lemma_member_is_found(members, "content"@, DataView::Text(m.content));
    lemma_fits(MessageFields, members);
    if member(members, "role"@) is Some {
        lemma_member_is_found(members, "role"@, member(members, "role"@)->Some_0);
    }
    if exists|role: DataView| #[trigger]
        members.contains(("role"@, role)) && role_of(role) == Ok::<Role, Seq<char>>(m.role) {
        let role = choose|role: DataView| #[trigger]
            members.contains(("role"@, role)) && role_of(role) == Ok::<Role, Seq<char>>(m.role);
        lemma_member_is_found(members, "role"@, role);
        if members.contains(("content"@, DataView::Text(m.content))) {
            lemma_only(members, "role"@, role);
            lemma_only(members, "content"@, DataView::Text(m.content));
            assert forall|k: int| 0 <= k < members.len() implies MessageFields.misfit(
                (#[trigger] members[k]).0,
                members[k].1,
            ) is None by {
            }
        }
    }
}

/// A list of messages is read one by one: as many as there are, each from its
/// own place.
pub proof fn lemma_messages_one_by_one(items: Seq<DataView>, messages: Seq<MessageView>)
    ensures
        messages_of(items) == Ok::<Seq<MessageView>, Seq<char>>(messages) <==> {
            &&& messages.len() == items.len()
            &&& forall|i: int|
                0 <= i < items.len() ==> message_of(#[trigger] items[i]) == Ok::<
                    MessageView,
                    Seq<char>,
                >(messages[i])
        },
    decreases items.len(),
{
    if items.len() == 0 {
        if messages.len() == 0 {
            assert(messages =~= Seq::empty());
        }
    } else {
        let before = items.drop_last();
        if messages.len() > 0 {
            lemma_messages_one_by_one(before, messages.drop_last());
        }
        if messages_of(items) == Ok::<Seq<MessageView>, Seq<char>>(messages) {
            let first = messages_of(before)->Ok_0;
            assert(messages =~= first.push(messages.last()));
            assert(messages.drop_last() =~= first);
            assert forall|i: int| 0 <= i < items.len() implies message_of(#[trigger] items[i])
                == Ok::<MessageView, Seq<char>>(messages[i]) by {
                if i < items.len() - 1 {
                    assert(before[i] == items[i]);
                }
            }
        }
        if messages.len() == items.len() && (forall|i: int|
            0 <= i < items.len() ==> message_of(#[trigger] items[i]) == Ok::<
                MessageView,
                Seq<char>,
            >(messages[i])) {
            assert forall|i: int| 0 <= i < before.len() implies message_of(#[trigger] before[i])
                == Ok::<MessageView, Seq<char>>(messages.drop_last()[i]) by {
                assert(before[i] == items[i]);
            }
            assert(items[items.len() - 1] == items.last());
            assert(messages.drop_last().push(messages.last()) =~= messages);
        }
    }
}

/// An object is a session exactly where it has its id, its time of creation and
/// the list of its messages, in whatever order and whatever else it holds.
pub proof fn lemma_session_in_any_order(members: Members, s: SessionView, items: Seq<DataView>)
    requires
        distinct_names(members),
        members.contains(("messages"@, DataView::Array(items))),
    ensures
        session_of(DataView::Object(members)) == Ok::<SessionView, Seq<char>>(s) <==> {
            &&& members.contains(("id"@, DataView::Text(s.id)))
            &&& members.contains(("created_at"@, DataView::Unsigned(s.created_at)))
            &&& messages_of(items) == Ok::<Seq<MessageView>, Seq<char>>(s.messages)
        },
{
    reveal_strlit("id");
    reveal_strlit("created_at");
    reveal_strlit("messages");
    assert("id"@.len() != "created_at"@.len());
    assert("id"@.len() != "messages"@.len());
    assert("created_at"@.len() != "messages"@.len());
    lemma_member_is_found(members, "id"@, DataView::Text(s.id));
    lemma_member_is_found(members, "created_at"@, DataView::Unsigned(s.created_at));
    lemma_member_is_found(members, "messages"@, DataView::Array(items));
    lemma_fits(SessionFields, members);
    assert(message_list(DataView::Array(items)) == messages_of(items));
    if members.contains(("id"@, DataView::Text(s.id))) && members.contains(
        ("created_at"@, DataView::Unsigned(s.created_at)),
    ) && messages_of(items) == Ok::<Seq<MessageView>, Seq<char>>(s.messages) {
        lemma_only(members, "id"@, DataView::Text(s.id));
        lemma_only(members, "created_at"@, DataView::Unsigned(s.created_at));
        lemma_only(members, "messages"@, DataView::Array(items));
        assert forall|k: int| 0 <= k < members.len() implies SessionFields.misfit(
            (#[trigger] members[k]).0,
            members[k].1,
        ) is None by {
        }
    }
}

/// An object is a note exactly where it has its time and its text, in whatever
/// order and whatever else it holds.
pub proof fn lemma_note_in_any_order(members: Members, note: NoteView)
    requires
        distinct_names(members),
    ensures
        note_of(DataView::Object(members)) == Ok::<NoteView, Seq<char>>(note) <==> {
            &&& members.contains(("at"@, DataView::Unsigned(note.at)))
            &&& members.contains(("text"@, DataView::Text(note.text)))
        },
{
    lemma_member_is_found(members, "at"@, DataView::Unsigned(note.at));
    lemma_member_is_found(members, "text"@, DataView::Text(note.text));
}

} // verus!
