use std::cell::RefCell;

use abcb::agent::{run_loop, AllowAll};
use abcb::data::{read_json, Data};
use abcb::event::EventBuffer;
use abcb::message::{Message, Role, Session};
use abcb::provider::MockProvider;
use abcb::tool::{Tool, ToolError, ToolRegistry};
use abcb::tools::add_numbers::AddNumbers;
use abcb::tools::echo::Echo;
use abcb::tools::filesystem::{confine_to_root, join_path, lies_inside, ListDir, ReadFile};
use abcb::tools::run_command::RunCommand;
use abcb::tools::session_notes::{search_notes, SessionNoteAppend, SessionNoteSearch};
use abcb::tools::{starter_tools, StarterTool};

fn data(json: &str) -> Data {
    read_json(json).expect("json")
}

#[test]
fn echo_returns_text_arg() {
    let tool = Echo;
    let args = data(r#"{"text": "hello"}"#);

    let output = tool.invoke(&args).expect("invoke");

    assert_eq!(output, "hello");
}

#[test]
fn echo_errors_on_missing_text_arg() {
    let tool = Echo;
    let args = data("{}");

    let err = tool.invoke(&args).expect_err("invoke should fail");

    assert!(matches!(err, ToolError::InvalidArguments(_)));
}

#[test]
fn echo_has_name_and_description() {
    let tool = Echo;

    assert_eq!(tool.name(), "echo");
    assert!(!tool.description().is_empty());
}

#[test]
fn text_arguments_come_by_name_or_by_position() {
    assert_eq!(Echo.invoke(&data(r#"["hello"]"#)), Ok("hello".to_string()));
    assert_eq!(Echo.invoke(&data(r#"{"text":"x","more":1}"#)), Ok("x".to_string()));
    for bad in [r#"["a","b"]"#, r#"{"text":5}"#, r#""text""#, "null", "[]"] {
        assert!(matches!(
            Echo.invoke(&data(bad)),
            Err(ToolError::InvalidArguments(_))
        ));
    }
}

/// The sum of the operands that a call names.
fn sum(args: &Data) -> Result<String, ToolError> {
    let (a, b) = AddNumbers.operands(args)?;
    let a: f64 = a.parse().expect("a number");
    let b: f64 = b.parse().expect("a number");
    Ok(format!("{}", a + b))
}

#[test]
fn add_numbers_returns_sum_of_floats() {
    let args = data(r#"{"a": 1.5, "b": 2.25}"#);

    let output = sum(&args).expect("invoke");

    assert_eq!(output, "3.75");
}

#[test]
fn add_numbers_works_with_integer_literals() {
    let args = data(r#"{"a": 2, "b": 3}"#);

    let output = sum(&args).expect("invoke");

    assert_eq!(output, "5");
}

#[test]
fn add_numbers_errors_on_missing_arg() {
    let args = data(r#"{"a": 1.0}"#);

    let err = sum(&args).expect_err("invoke should fail");

    assert!(matches!(err, ToolError::InvalidArguments(_)));
}

#[test]
fn add_numbers_takes_numbers_only() {
    assert_eq!(
        AddNumbers.operands(&data(r#"{"a":-7,"b":1e3}"#)),
        Ok(("-7".to_string(), "1000.0".to_string()))
    );
    assert_eq!(
        AddNumbers.operands(&data(r#"{"a":"1","b":2}"#)),
        Err(ToolError::InvalidArguments(
            "invalid type: string \"1\", expected f64".to_string()
        ))
    );
    let told = |json: &str| match AddNumbers.operands(&data(json)) {
        Err(ToolError::InvalidArguments(message)) => message,
        _ => String::new(),
    };
    assert_eq!(told("[1,2,3]"), "invalid length 3, expected fewer elements in array");
    assert_eq!(told("[1]"), "invalid length 1, expected struct AddArgs with 2 elements");
    assert_eq!(told("[1,true,3]"), "invalid type: boolean `true`, expected f64");
    assert_eq!(told("{}"), "missing field `a`");
    // A member that does not fit counts before one that is not there.
    assert_eq!(told(r#"{"b":null}"#), "invalid type: null, expected f64");
    assert_eq!(told("8"), "invalid type: integer `8`, expected struct AddArgs");
    assert_eq!(AddNumbers.name(), "add_numbers");
}

#[test]
fn default_registry_has_the_four_starter_tools() {
    let tools = starter_tools(".abcb/notes.txt");

    let mut names: Vec<&str> = tools.iter().map(|t| t.name()).collect();
    names.sort();

    assert_eq!(
        names,
        vec![
            "add_numbers",
            "echo",
            "session_note_append",
            "session_note_search"
        ]
    );
}

/// The notes of these texts, each appended in turn.
fn notes(texts: &[&str]) -> String {
    let tool = SessionNoteAppend::new("notes");
    let mut file = String::new();
    for text in texts {
        let args = Data::Object(vec![("note".to_string(), Data::Text(text.to_string()))]);
        file.push_str(&tool.record(&args).expect("append"));
        file.push('\n');
    }
    file
}

fn search(file: Option<&str>, args: &str) -> String {
    let tool = SessionNoteSearch::new("notes");
    let query = tool.query(&data(args)).expect("query");
    tool.answer(file, &query)
}

#[test]
fn append_writes_note_as_timestamped_jsonl_record() {
    let file = notes(&["remember this"]);
    let lines: Vec<&str> = file.lines().collect();
    assert_eq!(lines.len(), 1);
    let note: serde_json::Value = serde_json::from_str(lines[0]).expect("note line parses");
    assert_eq!(note["text"], "remember this");
    assert!(note["at"].as_u64().expect("a time") > 0, "append should stamp a real time");
}

#[test]
fn append_preserves_existing_notes() {
    let file = notes(&["first", "second"]);
    let texts: Vec<String> = file
        .lines()
        .map(|line| {
            let note: serde_json::Value = serde_json::from_str(line).expect("note line parses");
            note["text"].as_str().expect("a text").to_string()
        })
        .collect();
    assert_eq!(texts, vec!["first", "second"]);
}

#[test]
fn append_records_are_exact() {
    let tool = SessionNoteAppend::new("p");
    assert_eq!(
        tool.record_at(&data(r#"{"note":"buy \"milk\""}"#), 42),
        Ok("{\"at\":42,\"text\":\"buy \\\"milk\\\"\"}".to_string())
    );
    assert!(matches!(
        tool.record_at(&data(r#"{"text":"x"}"#), 42),
        Err(ToolError::InvalidArguments(_))
    ));
    assert_eq!(tool.done(), "note appended");
    assert_eq!(tool.path, "p");
}

#[test]
fn search_finds_substring_match() {
    let file = notes(&["buy milk", "feed cat", "buy bread"]);

    let output = search(Some(&file), r#"{"query": "buy"}"#);

    assert_eq!(output, "buy milk\nbuy bread");
}

#[test]
fn search_returns_no_matches_when_query_absent() {
    let file = notes(&["hello"]);

    let output = search(Some(&file), r#"{"query": "missing"}"#);

    assert_eq!(output, "no matches");
}

#[test]
fn search_returns_no_matches_when_file_missing() {
    let output = search(None, r#"{"query": "anything"}"#);

    assert_eq!(output, "no matches");
}

#[test]
fn search_passes_over_lines_that_hold_no_note() {
    let file = "not a note\n{\"at\":1,\"text\":\"one\"}\n{\"text\":\"no time\"}\n[2,\"two\"]\n\n";
    assert_eq!(search_notes(file, ""), "one\ntwo");
    assert_eq!(search_notes(file, "two"), "two");
    assert_eq!(search_notes("", ""), "no matches");
}

#[test]
fn what_is_appended_is_found() {
    let odd = "a\nb \u{1} \"c\" 🦀";
    let file = notes(&["x", odd]);
    assert_eq!(search_notes(&file, "🦀"), odd);
    assert_eq!(search_notes(&file, "\n"), odd);
}

#[test]
fn paths_are_joined_under_a_root() {
    assert_eq!(join_path("root", "a/b"), "root/a/b");
    assert_eq!(join_path("root/", "a"), "root/a");
    assert_eq!(join_path("root", "/etc"), "/etc");
    assert_eq!(join_path("", "a"), "a");
    assert_eq!(join_path("root", ""), "root/");
    for (root, name) in [("a", "b"), ("a/", "b"), ("", "x"), ("/", "x"), ("a", "/b"), ("é", "ü")] {
        let expected = std::path::Path::new(root).join(name);
        assert_eq!(join_path(root, name), expected.to_str().expect("utf8"));
    }
}

#[test]
fn inside_goes_by_components() {
    let cases = [
        ("/a/b", "/a/b", true),
        ("/a/b", "/a/b/c", true),
        ("/a/b", "/a/bc", false),
        ("/a/b", "/a", false),
        ("/", "/anything", true),
        ("/a/b/", "/a//b/./c", true),
        ("/a", "a", false),
        ("/tmp/root", "/etc/passwd", false),
    ];
    for (root, path, expected) in cases {
        assert_eq!(lies_inside(root, path), expected, "{root} {path}");
        assert_eq!(
            std::path::Path::new(path).starts_with(root),
            expected,
            "{root} {path}"
        );
    }
}

#[test]
fn paths_outside_the_root_are_rejected() {
    assert_eq!(
        confine_to_root("/root", "/root/hello.txt", "hello.txt"),
        Ok("/root/hello.txt".to_string())
    );
    assert_eq!(
        confine_to_root("/root", "/other/secret.txt", "../other/secret.txt"),
        Err(ToolError::Execution(
            "path `../other/secret.txt` is outside the project root".to_string()
        ))
    );
}

#[test]
fn file_tools_take_a_path() {
    let read = ReadFile::new("/root");
    assert_eq!(read.name(), "read_file");
    assert_eq!(read.requested(&data(r#"{"path":"a"}"#)), Ok("a".to_string()));
    assert!(read.requested(&data("{}")).is_err());
    assert!(read.description().contains("UTF-8"));
    let list = ListDir::new("/root");
    assert_eq!(list.name(), "list_dir");
    assert_eq!(list.requested(&data(r#"{"path":"."}"#)), Ok(".".to_string()));
    assert!(list.description().contains("sorted"));
}

#[test]
fn listings_are_sorted() {
    let list = ListDir::new("/root");
    let names = vec!["sub".to_string(), "b.txt".to_string(), "a.txt".to_string()];
    assert_eq!(list.listing(names), "a.txt\nb.txt\nsub");
    assert_eq!(list.listing(vec![]), "");
}

#[test]
fn command_reports_say_how_a_command_failed() {
    let tool = RunCommand::new("/work");
    assert_eq!(tool.working_dir, "/work");
    assert_eq!(tool.name(), "run_command");
    assert!(tool.description().contains("stderr"));
    assert_eq!(
        tool.command(&data(r#"{"command":"echo hello"}"#)),
        Ok("echo hello".to_string())
    );
    assert!(tool.command(&data(r#"{"cmd":"x"}"#)).is_err());
    assert_eq!(tool.report("hello\n", "", true, Some(0)), "hello\n");
    assert_eq!(
        tool.report("out", "err", false, Some(3)),
        "outerr\n[command failed: exit code 3]"
    );
    assert_eq!(
        tool.report("", "", false, Some(-1)),
        "\n[command failed: exit code -1]"
    );
    assert_eq!(
        tool.report("", "", false, None),
        "\n[command failed: terminated by signal]"
    );
}

/// A starter tool whose notes are kept in memory.
struct InMemory<'a> {
    tool: StarterTool,
    notes: &'a RefCell<String>,
}

impl<'a> Tool for InMemory<'a> {
    fn name(&self) -> &str {
        self.tool.name()
    }

    fn description(&self) -> &str {
        "A tool with its notes in memory."
    }

    fn invoke(&self, args: &Data) -> Result<String, ToolError> {
        match &self.tool {
            StarterTool::Echo(tool) => tool.invoke(args),
            StarterTool::AddNumbers(_) => sum(args),
            StarterTool::SessionNoteAppend(tool) => {
                let line = tool.record(args)?;
                self.notes.borrow_mut().push_str(&format!("{line}\n"));
                Ok(tool.done())
            }
            StarterTool::SessionNoteSearch(tool) => {
                let query = tool.query(args)?;
                Ok(tool.answer(Some(&self.notes.borrow()), &query))
            }
        }
    }
}

#[test]
fn run_loop_with_real_tools_appends_a_note_then_finishes() {
    let notes = RefCell::new(String::new());
    let mut provider = MockProvider::new([
        r#"{"kind":"tool_call","tool_name":"session_note_append","arguments":{"note":"buy milk"}}"#,
        r#"{"kind":"final","content":"noted"}"#,
    ]);
    let mut registry = ToolRegistry::new();
    for tool in starter_tools("notes") {
        registry
            .register(InMemory { tool, notes: &notes })
            .expect("the names of the starter tools are unique");
    }

    let mut session = Session::start();
    session.push_message(Message::new(Role::User, "remember to buy milk"));
    let answer = run_loop(
        &mut provider,
        &registry,
        &mut session,
        5,
        &mut EventBuffer::new(),
        &mut AllowAll,
    )
    .expect("loop should finish");

    assert_eq!(answer, "noted");
    let contents = notes.borrow();
    let lines: Vec<&str> = contents.lines().collect();
    assert_eq!(lines.len(), 1);
    assert!(lines[0].contains(r#""text":"buy milk""#));
    assert!(lines[0].contains(r#""at":"#));
}

#[test]
fn what_lies_inside_an_inner_root_lies_inside_the_outer_one() {
    assert!(lies_inside("/a", "/a/b"));
    assert!(lies_inside("/a/b", "/a/b/c/d"));
    assert!(lies_inside("/a", "/a/b/c/d"));
}
