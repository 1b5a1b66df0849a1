//! The tools that a model can be given.
use vstd::prelude::*;

use crate::data::{Data, DataView};
use crate::decode::{Form, Shape};
use crate::tool::{tool_result, ToolError, ToolErrorView};

use add_numbers::AddNumbers;
use echo::Echo;
use session_notes::{SessionNoteAppend, SessionNoteSearch};

pub mod add_numbers;
pub mod echo;
pub mod filesystem;
pub mod run_command;
pub mod session_notes;

verus! {

/// The argument of a tool that takes one text; `record` is what its arguments
/// are called.
pub open spec fn text_argument(record: &'static str, arguments: DataView, name: Seq<char>) -> Result<
    Seq<char>,
    ToolErrorView,
> {
    let shape = Shape { name: record, fields: 1, form: Form::Value };
    match shape.decoded(arguments, None, shape.text(arguments, 0, name)) {
        Err(message) => Err(ToolErrorView::InvalidArguments(message)),
        Ok(text) => Ok(text),
    }
}

/// The argument of a tool that takes one text.
pub fn read_text_argument(record: &'static str, args: &Data, name: &str) -> (r: Result<
    String,
    ToolError,
>)
    ensures
        tool_result(r) == text_argument(record, args@, name@),
{
    let shape = Shape { name: record, fields: 1, form: Form::Value };
    if let Some(message) = shape.error_of(args) {
        return Err(ToolError::InvalidArguments(message));
    }
    let text = match shape.text_of(args, 0, name) {
        Err(message) => return Err(ToolError::InvalidArguments(message)),
        Ok(text) => text,
    };
    match shape.surplus_of(args) {
        Some(message) => Err(ToolError::InvalidArguments(message)),
        None => Ok(text),
    }
}

/// The tools that there are: what each is called, and what it does, in words.
pub open spec fn catalogue() -> Seq<(Seq<char>, Seq<char>)> {
    seq![
        ("echo"@, "Echoes the `text` field of its arguments back as the output."@),
        ("add_numbers"@, "Adds two numbers `a` and `b` and returns their sum."@),
        (
            "session_note_append"@,
            "Appends `note` to the project notes as a timestamped JSONL record."@,
        ),
        (
            "session_note_search"@,
            "Returns notes whose text contains `query` as a substring, one per line."@,
        ),
        (
            "read_file"@,
            "Reads the UTF-8 text file at `path` (relative to the project root) and returns its contents."@,
        ),
        (
            "list_dir"@,
            "Lists the entries of the directory at `path` (relative to the project root), one per line, sorted."@,
        ),
        (
            "run_command"@,
            "Runs a shell command in the project directory and returns its combined stdout and stderr."@,
        ),
    ]
}

/// A tool of the set that an agent starts with.
pub enum StarterTool {
    Echo(Echo),
    AddNumbers(AddNumbers),
    SessionNoteAppend(SessionNoteAppend),
    SessionNoteSearch(SessionNoteSearch),
}

impl StarterTool {
    /// The name of the tool.
    pub open spec fn called(&self) -> Seq<char> {
        match self {
            StarterTool::Echo(_) => "echo"@,
            StarterTool::AddNumbers(_) => "add_numbers"@,
            StarterTool::SessionNoteAppend(_) => "session_note_append"@,
            StarterTool::SessionNoteSearch(_) => "session_note_search"@,
        }
    }

    /// The name of the tool.
    pub fn name(&self) -> (r: &'static str)
        ensures
            r@ == self.called(),
    {
        match self {
            StarterTool::Echo(_) => "echo",
            StarterTool::AddNumbers(tool) => tool.name(),
            StarterTool::SessionNoteAppend(tool) => tool.name(),
            StarterTool::SessionNoteSearch(tool) => tool.name(),
        }
    }
}

/// The set of tools that an agent starts with: those that keep notes keep them
/// at `notes_path`. No two of them have the same name.
pub fn starter_tools(notes_path: &str) -> (r: Vec<StarterTool>)
    ensures
        r@.len() == 4,
        r@[0] is Echo,
        r@[1] is AddNumbers,
        r@[2] matches StarterTool::SessionNoteAppend(tool) && tool.path@ == notes_path@,
        r@[3] matches StarterTool::SessionNoteSearch(tool) && tool.path@ == notes_path@,
        r@.map_values(|t: StarterTool| t.called()).no_duplicates(),
        forall|i: int| 0 <= i < 4 ==> (#[trigger] r@[i]).called() == catalogue()[i].0,
{
    let mut tools: Vec<StarterTool> = Vec::new();
    tools.push(StarterTool::Echo(Echo));
    tools.push(StarterTool::AddNumbers(AddNumbers));
    tools.push(StarterTool::SessionNoteAppend(SessionNoteAppend::new(notes_path)));
    tools.push(StarterTool::SessionNoteSearch(SessionNoteSearch::new(notes_path)));
    proof {
        reveal_strlit("echo");
        reveal_strlit("add_numbers");
        reveal_strlit("session_note_append");
        reveal_strlit("session_note_search");
        assert("echo"@.len() == 4);
        assert("add_numbers"@.len() == 11);
        assert("session_note_append"@.len() == 19 && "session_note_append"@[13] == 'a');
        assert("session_note_search"@.len() == 19 && "session_note_search"@[13] == 's');
    }
    tools
}

} // verus!
