//! What is said of what cannot be read, and which of several faults is told.
use vstd::prelude::*;

use crate::data::{distinct_names, DataView};
use crate::decode::{first_misfit, misfit_from, wrong_kind, Fields, Form, Shape};
use crate::event::{event_of, event_of_kind, record_of, EventView, LoggedView};
use crate::laws::records::{lacks, lemma_fits, lemma_member_is_found, Members};
use crate::message::{
    message_of, message_shape, role_of, session_of, session_shape, MessageView, Role, SessionView,
};
use crate::output::{output_of, CallFields, ModelOutputView};
use crate::tool::ToolErrorView;
use crate::tools::text_argument;

verus! {

/// Of the faults of a record the first that holds is told: that the value is no
/// record, that a member does not fit, what its fields lack one by one, and that
/// it has more items than fields.
pub proof fn lemma_which_fault<A>(
    shape: Shape,
    v: DataView,
    misfit: Option<Seq<char>>,
    fields: Result<A, Seq<char>>,
)
    ensures
        shape.decoded(v, misfit, fields) == if !(v is Object || v is Array) {
            Err::<A, Seq<char>>(wrong_kind(v, shape.name@))
        } else if misfit is Some {
            Err(misfit->Some_0)
        } else if fields is Err {
            Err(fields->Err_0)
        } else if shape.surplus(v) is Some {
            Err(shape.surplus(v)->Some_0)
        } else {
            Ok(fields->Ok_0)
        },
{
}

/// What is said of an array with more items than fields depends on where it is
/// read from.
pub proof fn lemma_surplus(shape: Shape, items: Seq<DataView>)
    ensures
        shape.surplus(DataView::Array(items)) matches Some(message) ==> message == match shape.form {
            Form::Document => "trailing characters"@,
            Form::Value => "invalid length "@ + crate::text::decimal(items.len()) + ", expected "@
                + "fewer elements in array"@,
            Form::Tagged => "invalid length "@ + crate::text::decimal((items.len() - 1) as nat)
                + ", expected "@ + ((if shape.fields == 1 {
                "1 element"@
            } else {
                crate::text::decimal(shape.fields as nat) + " elements"@
            }) + " in sequence"@),
        },
{
}

proof fn lemma_first_from<F: Fields>(fields: F, members: Members, i: int, k: int)
    requires
        0 <= i <= k < members.len(),
        forall|j: int|
            i <= j < k ==> fields.misfit((#[trigger] members[j]).0, members[j].1) is None,
        fields.misfit(members[k].0, members[k].1) is Some,
    ensures
        misfit_from(fields, members, i) == fields.misfit(members[k].0, members[k].1),
    decreases k - i,
{
    if i < k {
        assert(fields.misfit(members[i].0, members[i].1) is None);
        lemma_first_from(fields, members, i + 1, k);
    }
}

/// Of members that do not fit the first one in the document is told.
pub proof fn lemma_first_misfit<F: Fields>(fields: F, members: Members, k: int)
    requires
        0 <= k < members.len(),
        forall|j: int|
            0 <= j < k ==> fields.misfit((#[trigger] members[j]).0, members[j].1) is None,
        fields.misfit(members[k].0, members[k].1) is Some,
    ensures
        first_misfit(fields, DataView::Object(members)) == fields.misfit(
            members[k].0,
            members[k].1,
        ),
{
    lemma_first_from(fields, members, 0, k);
}

/// What a model is told of a reply that is no envelope: that the kind is missing
/// or unknown, or which field is missing or of the wrong kind.
pub proof fn lemma_refused_envelopes(members: Members, kind: Seq<char>, v: DataView)
    requires
        distinct_names(members),
    ensures
        lacks(members, "kind"@) ==> output_of(DataView::Object(members)) == Err::<
            ModelOutputView,
            Seq<char>,
        >("missing field `"@ + "kind"@ + "`"@),
        members.contains(("kind"@, DataView::Text(kind))) && kind != "tool_call"@ && kind
            != "final"@ ==> output_of(DataView::Object(members)) == Err::<
            ModelOutputView,
            Seq<char>,
        >("unknown variant `"@ + kind + "`, expected "@ + "`tool_call` or `final`"@),
        members.contains(("kind"@, v)) && !(v is Text) ==> output_of(DataView::Object(members))
            == Err::<ModelOutputView, Seq<char>>(wrong_kind(v, "variant identifier"@)),
        members.contains(("kind"@, DataView::Text("final"@))) && lacks(members, "content"@)
            ==> output_of(DataView::Object(members)) == Err::<ModelOutputView, Seq<char>>(
            "missing field `"@ + "content"@ + "`"@,
        ),
        members.contains(("kind"@, DataView::Text("final"@))) && members.contains(
            ("content"@, v),
        ) && !(v is Text) ==> output_of(DataView::Object(members)) == Err::<
            ModelOutputView,
            Seq<char>,
        >(wrong_kind(v, "a string"@)),
        members.contains(("kind"@, DataView::Text("tool_call"@))) && lacks(members, "note"@)
            && lacks(members, "tool_name"@) ==> output_of(DataView::Object(members)) == Err::<
            ModelOutputView,
            Seq<char>,
        >("missing field `"@ + "tool_name"@ + "`"@),
        members.contains(("kind"@, DataView::Text("tool_call"@))) && lacks(members, "note"@)
            && members.contains(("tool_name"@, v)) && v is Text && lacks(members, "arguments"@)
            ==> output_of(DataView::Object(members)) == Err::<ModelOutputView, Seq<char>>(
            "missing field `"@ + "arguments"@ + "`"@,
        ),
        members.contains(("kind"@, DataView::Text("tool_call"@))) && lacks(members, "note"@)
            && members.contains(("tool_name"@, v)) && !(v is Text) ==> output_of(
            DataView::Object(members),
        ) == Err::<ModelOutputView, Seq<char>>(wrong_kind(v, "a string"@)),
{
    reveal_strlit("tool_call");
    reveal_strlit("final");
    reveal_strlit("tool_name");
    reveal_strlit("note");
    assert("tool_call"@.len() != "final"@.len());
    assert("tool_name"@.len() != "note"@.len());
    let whole = DataView::Object(members);
    lemma_member_is_found(members, "kind"@, DataView::Text(kind));
    lemma_member_is_found(members, "kind"@, DataView::Text("final"@));
    lemma_member_is_found(members, "kind"@, DataView::Text("tool_call"@));
    lemma_member_is_found(members, "kind"@, v);
    lemma_member_is_found(members, "content"@, v);
    lemma_member_is_found(members, "tool_name"@, v);
    lemma_member_is_found(members, "note"@, v);
    lemma_member_is_found(members, "arguments"@, v);
    lemma_fits(CallFields, members);
    if lacks(members, "note"@) {
        if lacks(members, "tool_name"@) || (members.contains(("tool_name"@, v)) && v is Text) {
            assert forall|k: int| 0 <= k < members.len() implies CallFields.misfit(
                (#[trigger] members[k]).0,
                members[k].1,
            ) is None by {
                if members[k].0 == "tool_name"@ {
                    assert(members.contains(members[k]));
                    lemma_member_is_found(members, "tool_name"@, members[k].1);
                }
            }
        } else if members.contains(("tool_name"@, v)) {
            let k = choose|k: int| 0 <= k < members.len() && members[k] == ("tool_name"@, v);
            assert forall|j: int| 0 <= j < k implies CallFields.misfit(
                (#[trigger] members[j]).0,
                members[j].1,
            ) is None by {
                assert(members[j].0 != members[k].0);
            }
            lemma_first_misfit(CallFields, members, k);
        }
    }
}

/// What is said of an event that cannot be read.
pub proof fn lemma_refused_events(members: Members, kind: Seq<char>, v: DataView)
    requires
        distinct_names(members),
    ensures
        lacks(members, "kind"@) ==> event_of(DataView::Object(members)) == Err::<
            EventView,
            Seq<char>,
        >("missing field `"@ + "kind"@ + "`"@),
        members.contains(("kind"@, DataView::Text(kind))) && kind != "user_message"@ && kind
            != "model_response"@ && kind != "tool_result"@ && kind != "tool_denied"@ && kind
            != "final_answer"@ ==> event_of(DataView::Object(members)) == Err::<
            EventView,
            Seq<char>,
        >(
            "unknown variant `"@ + kind + "`, expected "@
                + "one of `user_message`, `model_response`, `tool_result`, `tool_denied`, `final_answer`"@,
        ),
        members.contains(("kind"@, v)) && !(v is Text) ==> event_of(DataView::Object(members))
            == Err::<EventView, Seq<char>>(wrong_kind(v, "variant identifier"@)),
        kind == "user_message"@ || kind == "model_response"@ || kind == "final_answer"@ ==> {
            &&& lacks(members, "content"@) ==> event_of_kind(DataView::Object(members), kind)
                == Err::<EventView, Seq<char>>("missing field `"@ + "content"@ + "`"@)
            &&& members.contains(("content"@, v)) && !(v is Text) ==> event_of_kind(
                DataView::Object(members),
                kind,
            ) == Err::<EventView, Seq<char>>(wrong_kind(v, "a string"@))
        },
        forall|w: DataView|
            !(w is Object) ==> #[trigger] record_of(w) == Err::<LoggedView, Seq<char>>(
                wrong_kind(w, "struct LoggedEvent"@),
            ),
{
    lemma_member_is_found(members, "kind"@, DataView::Text(kind));
    lemma_member_is_found(members, "kind"@, v);
    lemma_member_is_found(members, "content"@, v);
}

/// What is said of a role that is none.
pub proof fn lemma_refused_roles(name: Seq<char>, v: DataView)
    ensures
        name != "user"@ && name != "assistant"@ && name != "system"@ && name != "tool"@
            ==> role_of(DataView::Text(name)) == Err::<Role, Seq<char>>(
            "unknown variant `"@ + name + "`, expected "@
                + "one of `user`, `assistant`, `system`, `tool`"@,
        ),
        !(v is Text || v is Object) ==> role_of(v) == Err::<Role, Seq<char>>("expected value"@),
{
}

/// A message in an array has its role and its content, in this order; a session
/// its id, its time of creation and its messages.
pub proof fn lemma_in_arrays(items: Seq<DataView>, m: MessageView, s: SessionView)
    ensures
        message_of(DataView::Array(items)) == Ok::<MessageView, Seq<char>>(m) <==> {
            &&& items.len() == 2
            &&& role_of(items[0]) == Ok::<Role, Seq<char>>(m.role)
            &&& items[1] == DataView::Text(m.content)
        },
        session_of(DataView::Array(items)) == Ok::<SessionView, Seq<char>>(s) <==> {
            &&& items.len() == 3
            &&& items[0] == DataView::Text(s.id)
            &&& items[1] == DataView::Unsigned(s.created_at)
            &&& items[2] is Array
            &&& crate::message::messages_of(items[2]->Array_0) == Ok::<
                Seq<MessageView>,
                Seq<char>,
            >(s.messages)
        },
        message_shape().name@ == "struct Message"@,
        session_shape().name@ == "struct Session"@,
{
}

/// An event in an array has its kind first and its fields behind it.
pub proof fn lemma_event_in_array(items: Seq<DataView>, e: EventView)
    ensures
        event_of(DataView::Array(items)) == Ok::<EventView, Seq<char>>(e) <==> {
            &&& items.len() == 1 + crate::laws::envelope::fields_of(e).len()
            &&& items[0] == DataView::Text(crate::laws::records::tagged(e).0)
            &&& forall|i: int|
                0 <= i < crate::laws::envelope::fields_of(e).len() ==> items[i + 1] == (
                #[trigger] crate::laws::envelope::fields_of(e)[i]).1
        },
{
    crate::laws::records::lemma_event_names();
    let fields = crate::laws::envelope::fields_of(e);
    if items.len() == 1 + fields.len() && (forall|i: int|
        0 <= i < fields.len() ==> items[i + 1] == (#[trigger] fields[i]).1) {
        assert(items[1] == fields[0].1);
        if e is ToolResult {
            assert(items[2] == fields[1].1);
        }
    }
    if event_of(DataView::Array(items)) == Ok::<EventView, Seq<char>>(e) {
        assert forall|i: int| 0 <= i < fields.len() implies items[i + 1] == (
        #[trigger] fields[i]).1 by {
            assert(i == 0 || i == 1);
        }
    }
}

/// What a tool is told of arguments that lack its text, or have something else
/// in its place.
pub proof fn lemma_refused_arguments(
    record: &'static str,
    members: Members,
    name: Seq<char>,
    v: DataView,
)
    requires
        distinct_names(members),
    ensures
        lacks(members, name) ==> text_argument(record, DataView::Object(members), name) == Err::<
            Seq<char>,
            ToolErrorView,
        >(ToolErrorView::InvalidArguments("missing field `"@ + name + "`"@)),
        members.contains((name, v)) && !(v is Text) ==> text_argument(
            record,
            DataView::Object(members),
            name,
        ) == Err::<Seq<char>, ToolErrorView>(
            ToolErrorView::InvalidArguments(wrong_kind(v, "a string"@)),
        ),
        !(v is Object || v is Array) ==> text_argument(record, v, name) == Err::<
            Seq<char>,
            ToolErrorView,
        >(ToolErrorView::InvalidArguments(wrong_kind(v, record@))),
{
    lemma_member_is_found(members, name, v);
}

} // verus!
