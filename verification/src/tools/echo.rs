//! A tool that says back what it is told.
use vstd::prelude::*;

use crate::data::{Data, DataView};
use crate::tool::{Tool, ToolError, ToolErrorView};
use crate::tools::{read_text_argument, text_argument};

verus! {

/// Echoes its argument.
pub struct Echo;

impl Tool for Echo {
    open spec fn called(&self) -> Seq<char> {
        "echo"@
    }

    open spec fn described(&self) -> Seq<char> {
        "Echoes the `text` field of its arguments back as the output."@
    }

    open spec fn gives(
        &self,
        arguments: DataView,
        result: Result<Seq<char>, ToolErrorView>,
    ) -> bool {
        result == text_argument("struct EchoArgs", arguments, "text"@)
    }

    fn name(&self) -> (r: &str) {
        "echo"
    }

    fn description(&self) -> (r: &str) {
        "Echoes the `text` field of its arguments back as the output."
    }

    fn invoke(&self, args: &Data) -> (r: Result<String, ToolError>) {
        read_text_argument("struct EchoArgs", args, "text")
    }
}

} // verus!
