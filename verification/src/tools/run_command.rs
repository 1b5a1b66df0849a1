//! A tool that runs a shell command: what it is asked to run, and what it says
//! of how that went.
use vstd::prelude::*;

use crate::data::Data;
use crate::text::{decimal, decimal_text};
use crate::tool::{tool_result, ToolError};
use crate::tools::{catalogue, read_text_argument, text_argument};

verus! {

/// Runs a shell command in a directory. What may run is for the approval
/// policy to say, which sees every call.
pub struct RunCommand {
    pub working_dir: String,
}

/// A whole number, with its sign where it is negative.
pub open spec fn signed_decimal(i: int) -> Seq<char> {
    if i < 0 {
        "-"@ + decimal((0 - i) as nat)
    } else {
        decimal(i as nat)
    }
}

/// What a command said: both its streams, and how it failed if it did. A code
/// is missing where a signal ended the command.
pub open spec fn command_report(
    stdout: Seq<char>,
    stderr: Seq<char>,
    success: bool,
    code: Option<i32>,
) -> Seq<char> {
    if success {
        stdout + stderr
    } else {
        stdout + stderr + "\n[command failed: "@ + (match code {
            Some(c) => "exit code "@ + signed_decimal(c as int),
            None => "terminated by signal"@,
        }) + "]"@
    }
}

/// What a command wrote to its two streams stands first in what is said of it,
/// whether or not it succeeded, and alone where it did. How it failed is said
/// behind: by its exit code, or by there being none.
pub proof fn lemma_command_report(
    stdout: Seq<char>,
    stderr: Seq<char>,
    success: bool,
    code: Option<i32>,
)
    ensures
        (stdout + stderr).is_prefix_of(command_report(stdout, stderr, success, code)),
        success <==> command_report(stdout, stderr, success, code) == stdout + stderr,
        !success ==> command_report(stdout, stderr, success, code) == stdout + stderr + (match code {
            Some(c) if c < 0 => "\n[command failed: exit code -"@ + decimal((0 - c) as nat) + "]"@,
            Some(c) => "\n[command failed: exit code "@ + decimal(c as nat) + "]"@,
            None => "\n[command failed: terminated by signal]"@,
        }),
{
    reveal_strlit("\n[command failed: ");
    reveal_strlit("exit code ");
    reveal_strlit("-");
    reveal_strlit("]");
    reveal_strlit("terminated by signal");
    reveal_strlit("\n[command failed: exit code -");
    reveal_strlit("\n[command failed: exit code ");
    reveal_strlit("\n[command failed: terminated by signal]");
    let both = stdout + stderr;
    let report = command_report(stdout, stderr, success, code);
    assert(both =~= report.take(both.len() as int));
    if !success {
        assert("\n[command failed: exit code "@ =~= "\n[command failed: "@ + "exit code "@);
        assert("\n[command failed: exit code -"@ =~= "\n[command failed: "@ + ("exit code "@
            + "-"@));
        assert("\n[command failed: terminated by signal]"@ =~= "\n[command failed: "@
            + "terminated by signal"@ + "]"@);
        match code {
            Some(c) => {
                if c < 0 {
                    assert(report =~= both + ("\n[command failed: exit code -"@ + decimal(
                        (0 - c) as nat,
                    ) + "]"@));
                } else {
                    assert(report =~= both + ("\n[command failed: exit code "@ + decimal(c as nat)
                        + "]"@));
                }
            },
            None => {
                assert(report =~= both + "\n[command failed: terminated by signal]"@);
            },
        }
        assert(report.len() > both.len());
    }
}

fn signed_text(i: i32) -> (r: String)
    ensures
        r@ == signed_decimal(i as int),
{
    if i < 0 {
        let mut text = "-".to_owned();
        text.append(decimal_text((0i64 - i as i64) as u64).as_str());
        text
    } else {
        decimal_text(i as u64)
    }
}

impl RunCommand {
    /// A tool that runs commands in this directory.
    pub fn new(working_dir: &str) -> (r: Self)
        ensures
            r.working_dir@ == working_dir@,
    {
        Self { working_dir: working_dir.to_owned() }
    }

    /// The name of the tool.
    pub fn name(&self) -> (r: &'static str)
        ensures
            r@ == "run_command"@,
            r@ == catalogue()[6].0,
    {
        "run_command"
    }

    /// What the tool does, in words.
    pub fn description(&self) -> (r: &'static str)
        ensures
            r@
                == "Runs a shell command in the project directory and returns its combined stdout and stderr."@,
            r@ == catalogue()[6].1,
    {
        "Runs a shell command in the project directory and returns its combined stdout and stderr."
    }

    /// The command that a call asks for.
    pub fn command(&self, args: &Data) -> (r: Result<String, ToolError>)
        ensures
            tool_result(r) == text_argument("struct RunCommandArgs", args@, "command"@),
    {
        read_text_argument("struct RunCommandArgs", args, "command")
    }

    /// What a command said, and how it failed if it did. A command that failed
    /// did run: that is no error of the tool.
    pub fn report(&self, stdout: &str, stderr: &str, success: bool, code: Option<i32>) -> (r:
        String)
        ensures
            r@ == command_report(stdout@, stderr@, success, code),
            (stdout@ + stderr@).is_prefix_of(r@),
            success <==> r@ == stdout@ + stderr@,
            !success ==> r@ == stdout@ + stderr@ + (match code {
                Some(c) if c < 0 => "\n[command failed: exit code -"@ + decimal((0 - c) as nat)
                    + "]"@,
                Some(c) => "\n[command failed: exit code "@ + decimal(c as nat) + "]"@,
                None => "\n[command failed: terminated by signal]"@,
            }),
    {
        proof {
            lemma_command_report(stdout@, stderr@, success, code);
        }
        let mut combined = stdout.to_owned();
        combined.append(stderr);
        if !success {
            let status = match code {
                Some(c) => {
                    let mut text = "exit code ".to_owned();
                    text.append(signed_text(c).as_str());
                    text
                },
                None => "terminated by signal".to_owned(),
            };
            combined.append("\n[command failed: ");
            combined.append(status.as_str());
            combined.append("]");
        }
        combined
    }
}

} // verus!
