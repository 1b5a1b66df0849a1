//! Where the envelope stands in a reply, and how envelopes, messages and events
//! are written.
use vstd::prelude::*;

use crate::data::DataView;
use crate::decode::{
    missing_field, number_of, tag_of, text_misfit, unexpected, unknown_variant, variant_of,
    wrong_kind, wrong_length, wrong_value, Shape,
};
use crate::event::{event_data, record_data, record_kind, EventView, LoggedView};
use crate::external::{debug_form, json_of_text};
use crate::laws::records::tagged;
use crate::message::{message_data, session_data, MessageView, Role, SessionView};
use crate::output::{
    behind_first_line, extracted, fence, fence_free, lemma_first_fence, output_data, output_of,
    parsed, ModelOutputView,
};
use crate::text::{
    contains, decimal, lemma_contains_between, lemma_position_contains, lemma_position_from,
    occurs_at, position, trimmed,
};
use crate::tools::session_notes::{note_data, NoteView};

verus! {

/// A fence is three backticks.
pub proof fn lemma_fence()
    ensures
        fence() == seq!['`', '`', '`'],
{
    reveal_strlit("```");
    assert(fence() =~= seq!['`', '`', '`']);
}

/// A reply without a fence is taken whole, trimmed.
pub proof fn lemma_bare_reply(raw: Seq<char>)
    requires
        forall|a: Seq<char>, b: Seq<char>| raw != #[trigger] (a + fence() + b),
    ensures
        extracted(raw) == trimmed(raw),
{
    lemma_fence();
    lemma_contains_between(raw, fence());
    lemma_position_contains(raw, fence());
}

/// A fence that is not closed opens a block up to the end of the reply: what
/// follows the line of the fence counts.
pub proof fn lemma_open_block(prose: Seq<char>, tag: Seq<char>, inner: Seq<char>)
    requires
        fence_free(prose),
        !tag.contains('\n'),
        !contains(inner, fence()),
    ensures
        extracted(prose + fence() + tag + seq!['\n'] + inner) == trimmed(inner),
{
    reveal_strlit("```");
    reveal_strlit("\n");
    let after = tag + seq!['\n'] + inner;
    let raw = prose + fence() + tag + seq!['\n'] + inner;
    assert(raw =~= prose + fence() + after);
    lemma_first_fence(prose, after);
    assert(raw.skip(prose.len() as int + 3) =~= after);
    lemma_first_line(tag, inner);
    lemma_position_contains(inner, fence());
}

proof fn lemma_first_line(tag: Seq<char>, inner: Seq<char>)
    requires
        !tag.contains('\n'),
    ensures
        behind_first_line(tag + seq!['\n'] + inner) == inner,
{
    reveal_strlit("\n");
    let s = tag + seq!['\n'] + inner;
    let n = tag.len() as int;
    assert("\n"@ =~= seq!['\n']);
    lemma_position_from(s, "\n"@, 0);
    assert(s.subrange(n, n + 1) =~= "\n"@);
    assert(occurs_at(s, "\n"@, n));
    let k = position(s, "\n"@)->Some_0;
    if k < n {
        assert(s.subrange(k, k + 1)[0] == '\n');
        assert(tag[k] == '\n');
    }
    assert(s.skip(n + 1) =~= inner);
}

/// A fenced block on one line holds what stands between its fences.
pub proof fn lemma_block_on_one_line(prose: Seq<char>, inner: Seq<char>, rest: Seq<char>)
    requires
        fence_free(prose),
        fence_free(inner),
        !inner.contains('\n'),
        !rest.contains('\n'),
    ensures
        extracted(prose + fence() + inner + fence() + rest) == trimmed(inner),
{
    reveal_strlit("```");
    reveal_strlit("\n");
    let after = inner + fence() + rest;
    let raw = prose + fence() + inner + fence() + rest;
    assert(raw =~= prose + fence() + after);
    lemma_first_fence(prose, after);
    assert(raw.skip(prose.len() as int + 3) =~= after);
    lemma_position_from(after, "\n"@, 0);
    if position(after, "\n"@) is Some {
        let k = position(after, "\n"@)->Some_0;
        assert(after.subrange(k, k + 1)[0] == '\n');
        assert(after[k] == '\n');
        if k < inner.len() {
            assert(inner[k] == '\n');
        } else if k < inner.len() + 3 {
            assert(fence()[k - inner.len()] == '\n');
        } else {
            assert(rest[k - inner.len() - 3] == '\n');
        }
    }
    lemma_first_fence(inner, rest);
    assert(after.take(inner.len() as int) =~= inner);
}

/// A reply says what the JSON in it says, or, where there is none, why not.
pub proof fn lemma_reply_is_read(raw: Seq<char>, v: DataView, message: Seq<char>)
    ensures
        json_of_text(extracted(raw)) == Ok::<DataView, Seq<char>>(v) ==> parsed(raw) == output_of(v),
        json_of_text(extracted(raw)) == Err::<DataView, Seq<char>>(message) ==> parsed(raw) == Err::<
            ModelOutputView,
            Seq<char>,
        >(message),
{
}

// ---------------------------------------------------------------------------
// How things are written
// ---------------------------------------------------------------------------
/// An envelope is written with its kind first, then its fields by their names.
pub proof fn lemma_written_envelope(o: ModelOutputView)
    ensures
        match o {
            ModelOutputView::Final { content } => output_data(o) == DataView::Object(
                seq![("kind"@, DataView::Text("final"@)), ("content"@, DataView::Text(content))],
            ),
            ModelOutputView::ToolCall { tool_name, arguments, note } => output_data(o)
                == DataView::Object(
                seq![
                    ("kind"@, DataView::Text("tool_call"@)),
                    ("tool_name"@, DataView::Text(tool_name)),
                    ("arguments"@, arguments),
                    (
                        "note"@,
                        if note is Some {
                            DataView::Text(note->Some_0)
                        } else {
                            DataView::Null
                        },
                    ),
                ],
            ),
        },
{
    if let ModelOutputView::ToolCall { tool_name, arguments, note } = o {
        assert(output_data(o)->Object_0 =~= seq![
            ("kind"@, DataView::Text("tool_call"@)),
            ("tool_name"@, DataView::Text(tool_name)),
            ("arguments"@, arguments),
            (
                "note"@,
                if note is Some {
                    DataView::Text(note->Some_0)
                } else {
                    DataView::Null
                },
            ),
        ]);
    }
}

/// The fields of an event, by their names.
pub open spec fn fields_of(e: EventView) -> Seq<(Seq<char>, DataView)> {
    match e {
        EventView::UserMessage { content } => seq![("content"@, DataView::Text(content))],
        EventView::ModelResponse { content } => seq![("content"@, DataView::Text(content))],
        EventView::FinalAnswer { content } => seq![("content"@, DataView::Text(content))],
        EventView::ToolResult { tool_name, output } => seq![
            ("tool_name"@, DataView::Text(tool_name)),
            ("output"@, DataView::Text(output)),
        ],
        EventView::ToolDenied { tool_name } => seq![("tool_name"@, DataView::Text(tool_name))],
    }
}

/// An event is written with its kind first, then its fields by their names; a
/// record has its time before that.
pub proof fn lemma_written_event(e: EventView, at: u64)
    ensures
        event_data(e) == DataView::Object(
            seq![("kind"@, DataView::Text(tagged(e).0))] + fields_of(e),
        ),
        record_data(LoggedView { at, event: e }) == DataView::Object(
            seq![("at"@, DataView::Unsigned(at)), ("kind"@, DataView::Text(tagged(e).0))]
                + fields_of(e),
        ),
{
    assert(event_data(e)->Object_0 =~= seq![("kind"@, DataView::Text(tagged(e).0))] + fields_of(e));
    assert(record_data(LoggedView { at, event: e })->Object_0 =~= seq![
        ("at"@, DataView::Unsigned(at)),
        ("kind"@, DataView::Text(tagged(e).0)),
    ] + fields_of(e));
}

/// A message is written with its role, by name, and its content; a session with
/// its id, its time of creation and its messages in order; a note with its time
/// and its text.
pub proof fn lemma_written_session(m: MessageView, s: SessionView, note: NoteView)
    ensures
        message_data(m) == DataView::Object(
            seq![
                (
                    "role"@,
                    DataView::Text(
                        match m.role {
                            Role::User => "user"@,
                            Role::Assistant => "assistant"@,
                            Role::System => "system"@,
                            Role::Tool => "tool"@,
                        },
                    ),
                ),
                ("content"@, DataView::Text(m.content)),
            ],
        ),
        session_data(s) == DataView::Object(
            seq![
                ("id"@, DataView::Text(s.id)),
                ("created_at"@, DataView::Unsigned(s.created_at)),
                (
                    "messages"@,
                    DataView::Array(
                        Seq::new(s.messages.len(), |i: int| message_data(s.messages[i])),
                    ),
                ),
            ],
        ),
        note_data(note) == DataView::Object(
            seq![("at"@, DataView::Unsigned(note.at)), ("text"@, DataView::Text(note.text))],
        ),
{
    assert(message_data(m)->Object_0 =~= seq![
        (
            "role"@,
            DataView::Text(
                match m.role {
                    Role::User => "user"@,
                    Role::Assistant => "assistant"@,
                    Role::System => "system"@,
                    Role::Tool => "tool"@,
                },
            ),
        ),
        ("content"@, DataView::Text(m.content)),
    ]);
    let listed = Seq::new(s.messages.len(), |i: int| message_data(s.messages[i]));
    assert(s.messages.map_values(|m: MessageView| message_data(m)) =~= listed);
    assert(session_data(s)->Object_0 =~= seq![
        ("id"@, DataView::Text(s.id)),
        ("created_at"@, DataView::Unsigned(s.created_at)),
        ("messages"@, DataView::Array(listed)),
    ]);
}

// ---------------------------------------------------------------------------
// What does not fit
// ---------------------------------------------------------------------------
/// What is said of a value that does not fit shows the value, and says what was
/// expected in its place.
pub proof fn lemma_told_of_misfits(v: DataView, expected: Seq<char>, name: Seq<char>, len: nat)
    ensures
        unexpected(v) == match v {
            DataView::Null => "null"@,
            DataView::Bool(b) => "boolean `"@ + crate::data::compact(v) + "`"@,
            DataView::Unsigned(_) => "integer `"@ + crate::data::compact(v) + "`"@,
            DataView::Negative(_) => "integer `"@ + crate::data::compact(v) + "`"@,
            DataView::Other(_) => "floating point `"@ + crate::data::compact(v) + "`"@,
            DataView::Text(t) => "string "@ + debug_form(t),
            DataView::Array(_) => "sequence"@,
            DataView::Object(_) => "map"@,
        },
        wrong_kind(v, expected) == "invalid type: "@ + unexpected(v) + ", expected "@ + expected,
        wrong_value(v, expected) == "invalid value: "@ + unexpected(v) + ", expected "@ + expected,
        missing_field(name) == "missing field `"@ + name + "`"@,
        wrong_length(len, expected) == "invalid length "@ + decimal(len) + ", expected "@ + expected,
        unknown_variant(name, expected) == "unknown variant `"@ + name + "`, expected "@ + expected,
        text_misfit(v) is None <==> v is Text,
        v is Unsigned ==> number_of(v) == Ok::<u64, Seq<char>>(v->Unsigned_0),
        v is Negative ==> number_of(v) == Err::<u64, Seq<char>>(wrong_value(v, "u64"@)),
        !(v is Unsigned || v is Negative) ==> number_of(v) == Err::<u64, Seq<char>>(
            wrong_kind(v, "u64"@),
        ),
{
}

/// A tag is the member `kind` of an object, or the first item of an array; a
/// value without one says of which kind it is nowhere. A tag is a name; in a
/// record of the log it may be a number below five too.
pub proof fn lemma_tags(v: DataView, name: Seq<char>, tag: DataView)
    ensures
        v is Object ==> tag_of(v, name) == match crate::decode::member(v->Object_0, "kind"@) {
            Some(found) => Ok::<DataView, Seq<char>>(found),
            None => Err(missing_field("kind"@)),
        },
        v is Array ==> tag_of(v, name) == if v->Array_0.len() > 0 {
            Ok::<DataView, Seq<char>>(v->Array_0[0])
        } else {
            Err(missing_field("kind"@))
        },
        !(v is Object || v is Array) ==> tag_of(v, name) == Err::<DataView, Seq<char>>(
            wrong_kind(v, "internally tagged enum "@ + name),
        ),
        tag is Text ==> variant_of(tag) == Ok::<Seq<char>, Seq<char>>(tag->Text_0) && record_kind(
            tag,
        ) == Ok::<Seq<char>, Seq<char>>(tag->Text_0),
        !(tag is Text) ==> variant_of(tag) == Err::<Seq<char>, Seq<char>>(
            wrong_kind(tag, "variant identifier"@),
        ),
        !(tag is Text || tag is Unsigned) ==> record_kind(tag) == Err::<Seq<char>, Seq<char>>(
            wrong_kind(tag, "variant identifier"@),
        ),
        tag is Unsigned ==> record_kind(tag) == match tag->Unsigned_0 {
            0 => Ok::<Seq<char>, Seq<char>>("user_message"@),
            1 => Ok("model_response"@),
            2 => Ok("tool_result"@),
            3 => Ok("tool_denied"@),
            4 => Ok("final_answer"@),
            _ => Err(wrong_value(tag, "variant index 0 <= i < 5"@)),
        },
{
}

/// A field of a record is the member with its name, or the item at its place,
/// behind the tag where there is one. A record in an array has no more items
/// than fields, and what is missing in it is told by its place.
pub proof fn lemma_fields(shape: Shape, items: Seq<DataView>, position: nat, name: Seq<char>)
    ensures
        ({
            let lead = if shape.form is Tagged {
                1nat
            } else {
                0nat
            };
            &&& shape.field(DataView::Array(items), position, name) == if lead + position
                < items.len() {
                Some(items[(lead + position) as int])
            } else {
                None
            }
            &&& shape.surplus(DataView::Array(items)) is None <==> items.len() <= lead
                + shape.fields
        }),
        shape.error(DataView::Array(items)) is None,
        shape.absent(DataView::Array(items), position, name) == wrong_length(
            position,
            shape.name@ + " with "@ + if shape.fields == 1 {
                "1 element"@
            } else {
                decimal(shape.fields as nat) + " elements"@
            },
        ),
        forall|members: Seq<(Seq<char>, DataView)>|
            {
                &&& #[trigger] shape.field(DataView::Object(members), position, name)
                    == crate::decode::member(members, name)
                &&& shape.surplus(DataView::Object(members)) is None
                &&& shape.error(DataView::Object(members)) is None
                &&& shape.absent(DataView::Object(members), position, name) == missing_field(name)
            },
        forall|v: DataView|
            !(v is Object || v is Array) ==> #[trigger] shape.error(v) == Some(
                wrong_kind(v, shape.name@),
            ),
{
}

} // verus!
