//! What a model says: one envelope of JSON, that calls a tool or gives the
//! final answer.
use vstd::prelude::*;

use crate::data::{
    compact, depth_limit, plain, read_json, reading, text_member, value_member, Data, DataView,
};
use crate::decode::{
    first_misfit, misfit_from, optional_text_misfit, tag_of, text_misfit, unknown_variant,
    unknown_variant_message, variant_of, Fields, Form, Shape,
};
use crate::external::json_of_text;
use crate::provider::optional;
use crate::text::{
    contains, find, lemma_part_contains, lemma_position_contains, lemma_position_from,
    lemma_trimmed, occurs_at, position, same_text, trim, trimmed,
};

verus! {

/// What a model asks for, or answers.
#[derive(Debug, PartialEq, Eq)]
pub enum ModelOutput {
    ToolCall { tool_name: String, arguments: Data, note: Option<String> },
    Final { content: String },
}

/// What a [`ModelOutput`] says.
pub enum ModelOutputView {
    ToolCall { tool_name: Seq<char>, arguments: DataView, note: Option<Seq<char>> },
    Final { content: Seq<char> },
}

impl View for ModelOutput {
    type V = ModelOutputView;

    open spec fn view(&self) -> ModelOutputView {
        match self {
            ModelOutput::ToolCall { tool_name, arguments, note } => ModelOutputView::ToolCall {
                tool_name: tool_name@,
                arguments: arguments@,
                note: optional(*note),
            },
            ModelOutput::Final { content } => ModelOutputView::Final { content: content@ },
        }
    }
}

impl Clone for ModelOutput {
    fn clone(&self) -> (r: Self)
        ensures
            r@ == self@,
    {
        match self {
            ModelOutput::ToolCall { tool_name, arguments, note } => ModelOutput::ToolCall {
                tool_name: tool_name.clone(),
                arguments: arguments.clone(),
                note: match note {
                    Some(text) => Some(text.clone()),
                    None => None,
                },
            },
            ModelOutput::Final { content } => ModelOutput::Final { content: content.clone() },
        }
    }
}

/// Why a reply is no envelope.
#[derive(Debug, PartialEq, Eq)]
pub enum ModelOutputError {
    Parse(String),
}

/// What a [`ModelOutputError`] says.
pub enum ModelOutputErrorView {
    Parse(Seq<char>),
}

impl View for ModelOutputError {
    type V = ModelOutputErrorView;

    open spec fn view(&self) -> ModelOutputErrorView {
        match self {
            ModelOutputError::Parse(e) => ModelOutputErrorView::Parse(e@),
        }
    }
}

impl ModelOutputErrorView {
    /// The error in words.
    pub open spec fn text(self) -> Seq<char> {
        match self {
            ModelOutputErrorView::Parse(e) => "failed to parse model output: "@ + e,
        }
    }

    /// The message of the error beneath this one.
    pub open spec fn cause(self) -> Option<Seq<char>> {
        match self {
            ModelOutputErrorView::Parse(e) => Some(e),
        }
    }
}

impl ModelOutputError {
    /// The error in words.
    pub fn to_string(&self) -> (r: String)
        ensures
            r@ == self@.text(),
    {
        match self {
            ModelOutputError::Parse(e) => {
                let mut text = "failed to parse model output: ".to_owned();
                text.append(e.as_str());
                text
            },
        }
    }

    /// The message of the error beneath this one.
    pub fn source(&self) -> (r: Option<String>)
        ensures
            optional(r) == self@.cause(),
    {
        match self {
            ModelOutputError::Parse(e) => Some(e.clone()),
        }
    }
}

// ---------------------------------------------------------------------------
// Finding the envelope
// ---------------------------------------------------------------------------
/// What opens and closes a block of code in a reply.
pub open spec fn fence() -> Seq<char> {
    "```"@
}

/// A text behind its first line, or the whole text where no line ends.
pub open spec fn behind_first_line(s: Seq<char>) -> Seq<char> {
    match position(s, "\n"@) {
        Some(newline) => s.skip(newline + 1),
        None => s,
    }
}

/// A text up to the first fence in it, or the whole text where there is none.
pub open spec fn before_fence(s: Seq<char>) -> Seq<char> {
    match position(s, fence()) {
        Some(close) => s.take(close),
        None => s,
    }
}

/// Where a reply is expected to hold its JSON: in its first fenced block,
/// without the line that opens it, or in the whole of it; trimmed either way.
pub open spec fn extracted(raw: Seq<char>) -> Seq<char> {
    match position(raw, fence()) {
        None => trimmed(raw),
        Some(open) => trimmed(before_fence(behind_first_line(raw.skip(open + 3)))),
    }
}

/// Pull the JSON out of a reply, in which it may stand in a fenced block with
/// prose around it.
pub fn extract_json(raw: &str) -> (r: &str)
    ensures
        r@ == extracted(raw@),
{
    proof {
        reveal_strlit("```");
        reveal_strlit("\n");
        lemma_position_from(raw@, fence(), 0);
    }
    let open: usize = match find(raw, "```") {
        Some(open) => open,
        None => return trim(raw),
    };
    let end: usize = raw.unicode_len();
    let after_open = raw.substring_char(open + 3, end);
    assert(after_open@ =~= raw@.skip(open + 3));
    proof {
        lemma_position_from(after_open@, "\n"@, 0);
    }
    let body = match find(after_open, "\n") {
        Some(newline) => {
            let rest = after_open.substring_char(newline + 1, after_open.unicode_len());
            assert(rest@ =~= after_open@.skip(newline + 1));
            rest
        },
        None => after_open,
    };
    assert(body@ == behind_first_line(after_open@));
    proof {
        lemma_position_from(body@, fence(), 0);
    }
    let inner = match find(body, "```") {
        Some(close) => {
            let block = body.substring_char(0, close);
            assert(block@ =~= body@.take(close as int));
            block
        },
        None => body,
    };
    trim(inner)
}

/// A text in which no fence stands, and behind which a fence is found where it
/// is put.
pub open spec fn fence_free(s: Seq<char>) -> bool {
    &&& !contains(s, fence())
    &&& s.len() > 0 ==> s.last() != '`'
}

pub proof fn lemma_first_fence(s: Seq<char>, rest: Seq<char>)
    requires
        fence_free(s),
    ensures
        position(s + fence() + rest, fence()) == Some(s.len() as int),
{
    reveal_strlit("```");
    let whole = s + fence() + rest;
    let n = s.len() as int;
    assert(whole.subrange(n, n + 3) =~= fence());
    assert(occurs_at(whole, fence(), n));
    lemma_position_from(whole, fence(), 0);
    let found = position(whole, fence());
    assert(found is Some);
    let k = found->Some_0;
    if k < n {
        assert(occurs_at(whole, fence(), k));
        if k + 3 <= n {
            assert(s.subrange(k, k + 3) =~= whole.subrange(k, k + 3));
            assert(occurs_at(s, fence(), k));
        } else {
            assert(whole.subrange(k, k + 3)[n - 1 - k] == fence()[n - 1 - k]);
            assert(whole[n - 1] == '`');
        }
    }
}

/// Of a reply with a fenced block, what stands in the block counts: the prose
/// before it, the tag on the line that opens it and all that follows it do not.
pub proof fn lemma_fenced_block(
    prose: Seq<char>,
    tag: Seq<char>,
    inner: Seq<char>,
    rest: Seq<char>,
)
    requires
        fence_free(prose),
        !tag.contains('\n'),
        fence_free(inner),
    ensures
        extracted(prose + fence() + tag + "\n"@ + inner + fence() + rest) == trimmed(inner),
{
    reveal_strlit("```");
    reveal_strlit("\n");
    let raw = prose + fence() + tag + "\n"@ + inner + fence() + rest;
    let after = tag + "\n"@ + inner + fence() + rest;
    assert(raw =~= prose + fence() + after);
    lemma_first_fence(prose, after);
    assert(raw.skip(prose.len() as int + 3) =~= after);
    let n = tag.len() as int;
    lemma_position_from(after, "\n"@, 0);
    assert(after.subrange(n, n + 1) =~= "\n"@);
    assert(occurs_at(after, "\n"@, n));
    let k = position(after, "\n"@)->Some_0;
    if k < n {
        assert(after.subrange(k, k + 1)[0] == '\n');
        assert(tag[k] == '\n');
    }
    let body = inner + fence() + rest;
    assert(after.skip(n + 1) =~= body);
    lemma_first_fence(inner, rest);
    assert(body.take(inner.len() as int) =~= inner);
}

proof fn lemma_before_fence(s: Seq<char>)
    ensures
        !contains(before_fence(s), fence()),
{
    lemma_position_from(s, fence(), 0);
    lemma_position_contains(s, fence());
    if let Some(close) = position(s, fence()) {
        let head = s.take(close);
        if contains(head, fence()) {
            let i = choose|i: int| #[trigger] occurs_at(head, fence(), i);
            assert(s.subrange(i, i + fence().len()) =~= head.subrange(i, i + fence().len()));
            assert(occurs_at(s, fence(), i));
            reveal_strlit("```");
            assert(i < close);
        }
    }
}

/// What was extracted from a reply holds no fence, and to extract from it again
/// changes nothing.
pub proof fn lemma_extracted_twice(raw: Seq<char>)
    ensures
        !contains(extracted(raw), fence()),
        extracted(extracted(raw)) == extracted(raw),
{
    lemma_position_contains(raw, fence());
    let kept = match position(raw, fence()) {
        None => raw,
        Some(open) => before_fence(behind_first_line(raw.skip(open + 3))),
    };
    if let Some(open) = position(raw, fence()) {
        lemma_before_fence(behind_first_line(raw.skip(open + 3)));
    }
    let (from, to) = lemma_trimmed(kept);
    if contains(extracted(raw), fence()) {
        lemma_part_contains(kept, fence(), from, to);
    }
    lemma_position_contains(extracted(raw), fence());
}

// ---------------------------------------------------------------------------
// Reading the envelope
// ---------------------------------------------------------------------------
/// A call of a tool as a record.
pub open spec fn call_shape() -> Shape {
    Shape { name: "struct variant ModelOutput::ToolCall", fields: 3, form: Form::Tagged }
}

/// What the fields of a call of a tool have to be.
pub struct CallFields;

impl Fields for CallFields {
    open spec fn misfit(&self, name: Seq<char>, v: DataView) -> Option<Seq<char>> {
        if name == "tool_name"@ {
            text_misfit(v)
        } else if name == "note"@ {
            optional_text_misfit(v)
        } else {
            None
        }
    }

    fn check(&self, name: &str, v: &Data) -> (r: Option<String>) {
        if same_text(name, "tool_name") {
            v.text_misfit()
        } else if same_text(name, "note") {
            v.optional_text_misfit()
        } else {
            None
        }
    }
}

/// A final answer as a record.
pub open spec fn final_shape() -> Shape {
    Shape { name: "struct variant ModelOutput::Final", fields: 1, form: Form::Tagged }
}

/// The output that a value says; in an array the fields stand behind the kind.
pub open spec fn output_of(v: DataView) -> Result<ModelOutputView, Seq<char>> {
    match tag_of(v, "ModelOutput"@) {
        Err(message) => Err(message),
        Ok(tag) => match variant_of(tag) {
            Err(message) => Err(message),
            Ok(kind) => output_of_kind(v, kind),
        },
    }
}

/// The output of a kind that a value says.
pub open spec fn output_of_kind(v: DataView, kind: Seq<char>) -> Result<
    ModelOutputView,
    Seq<char>,
> {
    if kind == "tool_call"@ {
        call_shape().decoded(
            v,
            first_misfit(CallFields, v),
            match call_shape().text(v, 0, "tool_name"@) {
                Err(message) => Err(message),
                Ok(tool_name) => match call_shape().field(v, 1, "arguments"@) {
                    None => Err(call_shape().absent(v, 1, "arguments"@)),
                    Some(arguments) => match call_shape().optional_text(v, 2, "note"@) {
                        Err(message) => Err(message),
                        Ok(note) => Ok(ModelOutputView::ToolCall { tool_name, arguments, note }),
                    },
                },
            },
        )
    } else if kind == "final"@ {
        final_shape().decoded(
            v,
            None,
            match final_shape().text(v, 0, "content"@) {
                Err(message) => Err(message),
                Ok(content) => Ok(ModelOutputView::Final { content }),
            },
        )
    } else {
        Err(unknown_variant(kind, "`tool_call` or `final`"@))
    }
}

/// What a reading gives, where the text holds a value.
pub open spec fn then_output(r: Result<DataView, Seq<char>>) -> Result<
    ModelOutputView,
    Seq<char>,
> {
    match r {
        Ok(v) => output_of(v),
        Err(message) => Err(message),
    }
}

/// What a reply says.
pub open spec fn parsed(raw: Seq<char>) -> Result<ModelOutputView, Seq<char>> {
    then_output(json_of_text(extracted(raw)))
}

/// An output, or a message, that was decoded.
pub open spec fn output_result(r: Result<ModelOutput, String>) -> Result<
    ModelOutputView,
    Seq<char>,
> {
    match r {
        Ok(output) => Ok(output@),
        Err(message) => Err(message@),
    }
}

/// An output, or the message of the error, that was parsed.
pub open spec fn parse_result(r: Result<ModelOutput, ModelOutputError>) -> Result<
    ModelOutputView,
    Seq<char>,
> {
    match r {
        Ok(output) => Ok(output@),
        Err(ModelOutputError::Parse(message)) => Err(message@),
    }
}

/// An output as a value.
pub open spec fn output_data(o: ModelOutputView) -> DataView {
    match o {
        ModelOutputView::ToolCall { tool_name, arguments, note } => DataView::Object(
            seq![
                ("kind"@, DataView::Text("tool_call"@)),
                ("tool_name"@, DataView::Text(tool_name)),
                ("arguments"@, arguments),
                (
                    "note"@,
                    match note {
                        Some(text) => DataView::Text(text),
                        None => DataView::Null,
                    },
                ),
            ],
        ),
        ModelOutputView::Final { content } => DataView::Object(
            seq![("kind"@, DataView::Text("final"@)), ("content"@, DataView::Text(content))],
        ),
    }
}

/// An output whose arguments compact JSON carries without loss.
pub open spec fn plain_output(o: ModelOutputView) -> bool {
    o matches ModelOutputView::ToolCall { arguments, .. } ==> plain(arguments, (depth_limit() - 1) as nat)
}

/// An output as a value is read as the output, and compact JSON carries it.
pub proof fn lemma_output_round_trip(o: ModelOutputView)
    requires
        plain_output(o),
    ensures
        output_of(output_data(o)) == Ok::<ModelOutputView, Seq<char>>(o),
        plain(output_data(o), depth_limit()),
{
    reveal_strlit("kind");
    reveal_strlit("tool_name");
    reveal_strlit("arguments");
    reveal_strlit("note");
    reveal_strlit("content");
    reveal_strlit("tool_call");
    reveal_strlit("final");
    assert("kind"@.len() == 4 && "kind"@[0] == 'k');
    assert("tool_name"@.len() == 9 && "tool_name"@[0] == 't');
    assert("arguments"@.len() == 9 && "arguments"@[0] == 'a');
    assert("note"@.len() == 4 && "note"@[0] == 'n');
    assert("content"@.len() == 7);
    assert("tool_call"@.len() != "final"@.len());
    reveal_with_fuel(crate::decode::member_from, 5);
    reveal_with_fuel(misfit_from, 5);
    reveal_with_fuel(plain, 2);
}

impl ModelOutput {
    /// The output that a value says.
    pub fn from_data(v: &Data) -> (r: Result<ModelOutput, String>)
        ensures
            output_result(r) == output_of(v@),
    {
        let tag = match v.tag("ModelOutput") {
            Err(message) => return Err(message),
            Ok(tag) => tag,
        };
        let kind = match tag.variant() {
            Err(message) => return Err(message),
            Ok(kind) => kind,
        };
        if same_text(kind.as_str(), "tool_call") {
            let shape = Shape {
                name: "struct variant ModelOutput::ToolCall",
                fields: 3,
                form: Form::Tagged,
            };
            if let Some(message) = shape.error_of(v) {
                return Err(message);
            }
            if let Some(message) = v.first_misfit(CallFields) {
                return Err(message);
            }
            let tool_name = match shape.text_of(v, 0, "tool_name") {
                Err(message) => return Err(message),
                Ok(tool_name) => tool_name,
            };
            let arguments = match shape.field_of(v, 1, "arguments") {
                None => return Err(shape.absent_message(v, 1, "arguments")),
                Some(arguments) => arguments.clone(),
            };
            let note = match shape.optional_text_of(v, 2, "note") {
                Err(message) => return Err(message),
                Ok(note) => note,
            };
            match shape.surplus_of(v) {
                Some(message) => Err(message),
                None => Ok(ModelOutput::ToolCall { tool_name, arguments, note }),
            }
        } else if same_text(kind.as_str(), "final") {
            let shape = Shape {
                name: "struct variant ModelOutput::Final",
                fields: 1,
                form: Form::Tagged,
            };
            if let Some(message) = shape.error_of(v) {
                return Err(message);
            }
            let content = match shape.text_of(v, 0, "content") {
                Err(message) => return Err(message),
                Ok(content) => content,
            };
            match shape.surplus_of(v) {
                Some(message) => Err(message),
                None => Ok(ModelOutput::Final { content }),
            }
        } else {
            Err(unknown_variant_message(kind.as_str(), "`tool_call` or `final`"))
        }
    }

    /// Read a reply. What [`ModelOutput::to_json`] wrote, with white space
    /// around it or in a fenced block, is read back.
    pub fn parse(raw: &str) -> (r: Result<ModelOutput, ModelOutputError>)
        ensures
            parse_result(r) == parsed(raw@),
            forall|o: ModelOutputView|
                plain_output(o) && compact(#[trigger] output_data(o)) == extracted(raw@)
                    ==> parse_result(r) == Ok::<ModelOutputView, Seq<char>>(o),
    {
        let read = read_json(extract_json(raw));
        proof {
            assert forall|o: ModelOutputView|
                plain_output(o) && compact(#[trigger] output_data(o)) == extracted(raw@) implies
                then_output(reading(read)) == Ok::<ModelOutputView, Seq<char>>(o) by {
                lemma_output_round_trip(o);
            }
        }
        let decoded = match read {
            Ok(v) => ModelOutput::from_data(&v),
            Err(message) => Err(message),
        };
        match decoded {
            Ok(output) => Ok(output),
            Err(message) => Err(ModelOutputError::Parse(message)),
        }
    }

    /// The output as JSON.
    pub fn to_json(&self) -> (r: String)
        ensures
            r@ == compact(output_data(self@)),
    {
        let mut members: Vec<(String, Data)> = Vec::new();
        match self {
            ModelOutput::ToolCall { tool_name, arguments, note } => {
                members.push(text_member("kind", "tool_call"));
                members.push(text_member("tool_name", tool_name.as_str()));
                members.push(value_member("arguments", arguments.clone()));
                match note {
                    Some(text) => members.push(text_member("note", text.as_str())),
                    None => members.push(value_member("note", Data::Null)),
                }
            },
            ModelOutput::Final { content } => {
                members.push(text_member("kind", "final"));
                members.push(text_member("content", content.as_str()));
            },
        }
        let data = Data::Object(members);
        assert(data@->Object_0 =~= output_data(self@)->Object_0);
        data.to_json()
    }
}

/// An envelope without a fence is found whole in a reply that is nothing else.
pub proof fn lemma_bare_envelope(o: ModelOutputView)
    requires
        !contains(compact(output_data(o)), fence()),
    ensures
        extracted(compact(output_data(o))) == compact(output_data(o)),
{
    let text = compact(output_data(o));
    lemma_position_contains(text, fence());
    assert(text[0] == '{');
    assert(text.last() == '}');
}

/// A reply in a fenced block is read as what stands in the block, as long as
/// that holds no fence itself.
pub proof fn lemma_fenced_reply(
    prose: Seq<char>,
    tag: Seq<char>,
    inner: Seq<char>,
    rest: Seq<char>,
)
    requires
        fence_free(prose),
        !tag.contains('\n'),
        fence_free(inner),
    ensures
        parsed(prose + fence() + tag + "\n"@ + inner + fence() + rest) == parsed(inner),
{
    lemma_fenced_block(prose, tag, inner, rest);
    lemma_position_contains(inner, fence());
}

} // verus!
