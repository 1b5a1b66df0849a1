//! What the tools make of their arguments and of what they find.
use vstd::prelude::*;

use crate::data::{compact, distinct_names, DataView};
use crate::external::json_of_text;
use crate::laws::records::{lemma_fits, lemma_member_is_found, Members};
use crate::order::{at_most, lemma_sorted_names_unique, name_order};
use crate::text::{contains, joined, lines};
use crate::tool::{
    found, lemma_each_tool_is_found, lemma_found, lemma_found_from_push, prompt, registered,
    tool_lines, tool_names, Tool, ToolErrorView, PROMPT_HEAD, PROMPT_TAIL,
};
use crate::order::sorted_names;
use crate::tools::add_numbers::{written_operands, AddFields};
use crate::tools::echo::Echo;
use crate::tools::filesystem::{
    components, components_from, confined, inside, lemma_slash_from, listed, outside_root, path_under,
    slash_from,
};
use crate::tools::session_notes::{
    appended, line_match, line_matches, note_matches, note_of, search_report, searched, NoteView,
};
use crate::tools::{catalogue, text_argument};

verus! {

// ---------------------------------------------------------------------------
// Arguments
// ---------------------------------------------------------------------------
/// A tool that takes one text takes the member with its name, wherever it stands
/// and whatever else there is, or the one item of an array. Everything else is
/// refused as invalid arguments.
pub proof fn lemma_text_argument(record: &'static str, name: Seq<char>, text: Seq<char>)
    ensures
        forall|members: Members|
            distinct_names(members) ==> (#[trigger] text_argument(
                record,
                DataView::Object(members),
                name,
            ) == Ok::<Seq<char>, ToolErrorView>(text) <==> members.contains(
                (name, DataView::Text(text)),
            )),
        forall|items: Seq<DataView>| #[trigger]
            text_argument(record, DataView::Array(items), name) == Ok::<Seq<char>, ToolErrorView>(
                text,
            ) <==> items == seq![DataView::Text(text)],
        forall|v: DataView| (#[trigger] text_argument(record, v, name)) is Ok ==> v is Object || v
            is Array,
        forall|v: DataView|
            (#[trigger] text_argument(record, v, name)) matches Err(e) ==> e is InvalidArguments,
{
    assert forall|members: Members| distinct_names(members) implies (#[trigger] text_argument(
        record,
        DataView::Object(members),
        name,
    ) == Ok::<Seq<char>, ToolErrorView>(text) <==> members.contains(
        (name, DataView::Text(text)),
    )) by {
        lemma_member_is_found(members, name, DataView::Text(text));
    }
    assert forall|items: Seq<DataView>| #[trigger]
        text_argument(record, DataView::Array(items), name) == Ok::<Seq<char>, ToolErrorView>(
            text,
        ) <==> items == seq![DataView::Text(text)] by {
        if items.len() == 1 {
            assert(items =~= seq![items[0]]);
        }
    }
}

/// Whether a value is a number.
pub open spec fn is_number(v: DataView) -> bool {
    v is Unsigned || v is Negative || v is Other
}

/// The two numbers to be added are the members `a` and `b`, wherever they stand,
/// as they are written; what is no number is refused.
pub proof fn lemma_operands(members: Members, a: DataView, b: DataView)
    requires
        distinct_names(members),
        members.contains(("a"@, a)),
        members.contains(("b"@, b)),
    ensures
        is_number(a) && is_number(b) ==> written_operands(DataView::Object(members)) == Ok::<
            (Seq<char>, Seq<char>),
            ToolErrorView,
        >((compact(a), compact(b))),
        !(is_number(a) && is_number(b)) ==> written_operands(DataView::Object(members)) is Err,
{
    reveal_strlit("a");
    reveal_strlit("b");
    assert("a"@[0] != "b"@[0]);
    lemma_member_is_found(members, "a"@, a);
    lemma_member_is_found(members, "b"@, b);
    lemma_fits(AddFields, members);
    if is_number(a) && is_number(b) {
        assert forall|k: int| 0 <= k < members.len() implies crate::decode::Fields::misfit(
            &AddFields,
            (#[trigger] members[k]).0,
            members[k].1,
        ) is None by {
            assert(members.contains(members[k]));
            if members[k].0 == "a"@ {
                lemma_member_is_found(members, "a"@, members[k].1);
            } else if members[k].0 == "b"@ {
                lemma_member_is_found(members, "b"@, members[k].1);
            }
        }
    }
}

// ---------------------------------------------------------------------------
// Paths
// ---------------------------------------------------------------------------
proof fn lemma_components_shift(head: Seq<char>, s: Seq<char>, from: int)
    requires
        0 <= from,
    ensures
        slash_from(head + s, head.len() + from) == head.len() + slash_from(s, from),
        components_from(head + s, head.len() + from) == components_from(s, from),
    decreases s.len() - from,
{
    let whole = head + s;
    let at = head.len() + from;
    if from < s.len() {
        assert(whole[at] == s[from]);
        if s[from] != '/' {
            lemma_components_shift(head, s, from + 1);
        }
        lemma_slash_from(s, from);
        let end = slash_from(s, from);
        assert(whole.subrange(at, head.len() + end) =~= s.subrange(from, end));
        if end < s.len() {
            lemma_components_shift(head, s, end + 1);
        } else {
            assert(components_from(s, end + 1) =~= Seq::empty());
            assert(components_from(whole, head.len() + end + 1) =~= Seq::empty());
        }
    }
}

proof fn lemma_components_front(a: Seq<char>, b: Seq<char>, from: int)
    requires
        0 <= from <= a.len(),
    ensures
        components_from(a + seq!['/'] + b, from) == components_from(a, from) + components(b),
    decreases a.len() - from,
{
    let head = a + seq!['/'];
    let whole = head + b;
    lemma_slash_in_front(a, b, from);
    let end = slash_from(a, from);
    lemma_slash_from(a, from);
    assert(whole.subrange(from, end) =~= a.subrange(from, end));
    if end == a.len() {
        lemma_components_shift(head, b, 0);
        if from == a.len() {
            let part = a.subrange(from, end);
            assert(part.len() == 0);
            assert(components_from(whole, from) =~= components(b));
            assert(components_from(a, from) + components(b) =~= components(b));
        } else {
            assert(components_from(a, end + 1) =~= Seq::empty());
            assert(components_from(whole, from) =~= components_from(a, from) + components(b));
        }
    } else {
        lemma_components_front(a, b, end + 1);
        assert(components_from(whole, from) =~= components_from(a, from) + components(b));
    }
}

proof fn lemma_slash_in_front(a: Seq<char>, b: Seq<char>, from: int)
    requires
        0 <= from <= a.len(),
    ensures
        slash_from(a + seq!['/'] + b, from) == slash_from(a, from),
    decreases a.len() - from,
{
    let whole = a + seq!['/'] + b;
    if from < a.len() {
        assert(whole[from] == a[from]);
        if a[from] != '/' {
            lemma_slash_in_front(a, b, from + 1);
        }
    } else {
        assert(whole[from] == '/');
    }
}

/// The components of a path are those before a slash and those behind it. What
/// stands between slashes is one component, unless it is nothing or a single
/// dot.
pub proof fn lemma_components(a: Seq<char>, b: Seq<char>, part: Seq<char>)
    requires
        !part.contains('/'),
    ensures
        components(a + seq!['/'] + b) == components(a) + components(b),
        components(part) == if part.len() == 0 || part == seq!['.'] {
            Seq::empty()
        } else {
            seq![part]
        },
{
    lemma_components_front(a, b, 0);
    reveal_strlit(".");
    assert("."@ =~= seq!['.']);
    lemma_slash_from(part, 0);
    if part.len() > 0 {
        lemma_no_slash(part, 0);
        assert(part.subrange(0, part.len() as int) =~= part);
        assert(components_from(part, part.len() as int + 1) =~= Seq::empty());
    }
}

proof fn lemma_no_slash(part: Seq<char>, from: int)
    requires
        !part.contains('/'),
        0 <= from <= part.len(),
    ensures
        slash_from(part, from) == part.len(),
    decreases part.len() - from,
{
    if from < part.len() {
        assert(part.contains(part[from]));
        lemma_no_slash(part, from + 1);
    }
}

/// A path lies inside a root exactly where the components of the root are the
/// first ones of the path, one by one: a path that shares only some letters of a
/// component, or is shorter, lies outside. The root lies inside itself, and so
/// does everything under it.
pub proof fn lemma_inside(root: Seq<char>, path: Seq<char>, rest: Seq<char>)
    ensures
        inside(root, path) <==> {
            &&& (root.len() > 0 && root[0] == '/') == (path.len() > 0 && path[0] == '/')
            &&& components(root).len() <= components(path).len()
            &&& forall|i: int|
                0 <= i < components(root).len() ==> #[trigger] components(root)[i] == components(
                    path,
                )[i]
        },
        inside(root, root),
        root.len() > 0 ==> inside(root, root + seq!['/'] + rest),
{
    let a = components(root);
    let b = components(path);
    if a.is_prefix_of(b) {
        assert(forall|i: int| 0 <= i < a.len() ==> #[trigger] a[i] == b.take(a.len() as int)[i]);
    }
    if a.len() <= b.len() && (forall|i: int| 0 <= i < a.len() ==> #[trigger] a[i] == b[i]) {
        assert(a =~= b.take(a.len() as int));
    }
    assert(a =~= a.take(a.len() as int));
    let under = root + seq!['/'] + rest;
    lemma_components_front(root, rest, 0);
    assert(a =~= components(under).take(a.len() as int));
    if root.len() > 0 {
        assert(under[0] == root[0]);
    }
}

/// A name goes under a root with one slash between the two, which may be the
/// root's own; a name that starts at the root of the file system stands for
/// itself. Under a root lie the components of the root and behind them those of
/// the name.
pub proof fn lemma_path_under(root: Seq<char>, name: Seq<char>)
    ensures
        name.len() > 0 && name[0] == '/' ==> path_under(root, name) == name,
        !(name.len() > 0 && name[0] == '/') ==> {
            &&& root.len() == 0 ==> path_under(root, name) == name
            &&& root.len() > 0 && root.last() == '/' ==> path_under(root, name) == root + name
            &&& root.len() > 0 && root.last() != '/' ==> path_under(root, name) == root + seq![
                '/',
            ] + name
            &&& components(path_under(root, name)) == components(root) + components(name)
        },
{
    reveal_strlit("/");
    assert("/"@ =~= seq!['/']);
    if !(name.len() > 0 && name[0] == '/') {
        if root.len() == 0 {
            assert(root + name =~= name);
            assert(components(root) + components(name) =~= components(name));
        } else if root.last() == '/' {
            let shorter = root.drop_last();
            let none = Seq::<char>::empty();
            assert(root + name =~= shorter + seq!['/'] + name);
            assert(root =~= shorter + seq!['/'] + none);
            lemma_components_front(shorter, name, 0);
            lemma_components_front(shorter, none, 0);
            assert(components(none) =~= Seq::empty());
            assert(components(root) =~= components(shorter));
        } else {
            lemma_components_front(root, name, 0);
        }
    }
}

/// What is told of a path outside the root names the path, and the model may try
/// another one.
pub proof fn lemma_outside_root(requested: Seq<char>)
    ensures
        outside_root(requested) == ToolErrorView::Execution(
            "path `"@ + requested + "` is outside the project root"@,
        ),
{
}

/// A call is kept inside its root: it gets the path that it leads to, as it is,
/// where that lies inside, and else no path at all, whatever was asked for.
pub proof fn lemma_confined(root: Seq<char>, resolved: Seq<char>, requested: Seq<char>)
    ensures
        confined(root, resolved, requested) is Ok <==> inside(root, resolved),
        confined(root, resolved, requested) matches Ok(path) ==> path == resolved && inside(
            root,
            path,
        ),
        confined(root, resolved, requested) matches Err(e) ==> e == ToolErrorView::Execution(
            "path `"@ + requested + "` is outside the project root"@,
        ),
{
}

/// A tool is registered unless there is one of its name, which then stays; a
/// registered tool is found by its name, and every other name finds what it
/// found before.
pub proof fn lemma_registers<T: Tool>(tools: Seq<T>, tool: T, other: Seq<char>)
    ensures
        registered(tools, tool) is Err <==> found(tools, tool.called()) is Some,
        registered(tools, tool) matches Err(name) ==> name == tool.called(),
        registered(tools, tool) matches Ok(more) ==> {
            &&& more.len() == tools.len() + 1
            &&& more.take(tools.len() as int) == tools
            &&& found(more, tool.called()) == Some(tool)
            &&& other != tool.called() ==> found(more, other) == found(tools, other)
        },
{
    lemma_found(tools, tool.called());
    if let Ok(more) = registered(tools, tool) {
        assert(more.take(tools.len() as int) =~= tools);
        lemma_found_from_push(tools, tool, tool.called(), 0);
        lemma_found_from_push(tools, tool, other, 0);
    }
}

/// What the tools are called, and what they say that they do.
pub proof fn lemma_catalogue()
    ensures
        catalogue().len() == 7,
        catalogue()[0] == (
            "echo"@,
            "Echoes the `text` field of its arguments back as the output."@,
        ),
        catalogue()[1] == (
            "add_numbers"@,
            "Adds two numbers `a` and `b` and returns their sum."@,
        ),
        catalogue()[2] == (
            "session_note_append"@,
            "Appends `note` to the project notes as a timestamped JSONL record."@,
        ),
        catalogue()[3] == (
            "session_note_search"@,
            "Returns notes whose text contains `query` as a substring, one per line."@,
        ),
        catalogue()[4] == (
            "read_file"@,
            "Reads the UTF-8 text file at `path` (relative to the project root) and returns its contents."@,
        ),
        catalogue()[5] == (
            "list_dir"@,
            "Lists the entries of the directory at `path` (relative to the project root), one per line, sorted."@,
        ),
        catalogue()[6] == (
            "run_command"@,
            "Runs a shell command in the project directory and returns its combined stdout and stderr."@,
        ),
{
}

/// One name comes before another where it is the beginning of it, or where it
/// has the lesser character at the first place at which the two differ.
pub proof fn lemma_order_of_names(a: Seq<char>, b: Seq<char>)
    ensures
        at_most(a, b) <==> a.is_prefix_of(b) || exists|k: int|
            0 <= k < a.len() && k < b.len() && a.take(k) == b.take(k) && #[trigger] a[k] < b[k],
    decreases a.len(),
{
    if a.len() == 0 {
        assert(a =~= b.take(0));
    } else if b.len() == 0 {
    } else if a[0] != b[0] {
        if a.is_prefix_of(b) {
            assert(a[0] == b.take(a.len() as int)[0]);
        }
        assert(a.take(0) =~= b.take(0));
        if exists|k: int|
            0 <= k < a.len() && k < b.len() && a.take(k) == b.take(k) && #[trigger] a[k] < b[k] {
            let k = choose|k: int|
                0 <= k < a.len() && k < b.len() && a.take(k) == b.take(k) && #[trigger] a[k]
                    < b[k];
            if k > 0 {
                assert(a.take(k)[0] == b.take(k)[0]);
            }
        }
    } else {
        let x = a.drop_first();
        let y = b.drop_first();
        lemma_order_of_names(x, y);
        if x.is_prefix_of(y) {
            assert(a =~= b.take(a.len() as int)) by {
                assert forall|i: int| 0 <= i < a.len() implies a[i] == b[i] by {
                    if i > 0 {
                        assert(x[i - 1] == y.take(x.len() as int)[i - 1]);
                    }
                }
            }
        }
        if a.is_prefix_of(b) {
            assert(x =~= y.take(x.len() as int)) by {
                assert forall|i: int| 0 <= i < x.len() implies x[i] == y[i] by {
                    assert(a[i + 1] == b.take(a.len() as int)[i + 1]);
                }
            }
        }
        if exists|k: int|
            0 <= k < x.len() && k < y.len() && x.take(k) == y.take(k) && #[trigger] x[k] < y[k] {
            let k = choose|k: int|
                0 <= k < x.len() && k < y.len() && x.take(k) == y.take(k) && #[trigger] x[k]
                    < y[k];
            assert(a.take(k + 1) =~= seq![a[0]] + x.take(k));
            assert(b.take(k + 1) =~= seq![b[0]] + y.take(k));
            assert(a[k + 1] < b[k + 1]);
        }
        if exists|k: int|
            0 <= k < a.len() && k < b.len() && a.take(k) == b.take(k) && #[trigger] a[k] < b[k] {
            let k = choose|k: int|
                0 <= k < a.len() && k < b.len() && a.take(k) == b.take(k) && #[trigger] a[k]
                    < b[k];
            assert(x.take(k - 1) =~= a.take(k).drop_first());
            assert(y.take(k - 1) =~= b.take(k).drop_first());
            assert(x[k - 1] < y[k - 1]);
        }
    }
}

// ---------------------------------------------------------------------------
// Notes
// ---------------------------------------------------------------------------
/// A search goes line by line: what is found in two runs of lines is found in
/// one and then in the other. A line is found exactly where it is JSON, and a
/// note, whose text contains what is searched for; the text is what is found.
pub proof fn lemma_search(
    first: Seq<Seq<char>>,
    second: Seq<Seq<char>>,
    line: Seq<char>,
    query: Seq<char>,
    v: DataView,
    note: NoteView,
)
    ensures
        line_matches(first + second, query) == line_matches(first, query) + line_matches(
            second,
            query,
        ),
        line_matches(Seq::empty(), query) == Seq::<Seq<char>>::empty(),
        json_of_text(line) is Err ==> line_matches(seq![line], query).len() == 0,
        json_of_text(line) == Ok::<DataView, Seq<char>>(v) && note_of(v) is Err ==> line_matches(
            seq![line],
            query,
        ).len() == 0,
        json_of_text(line) == Ok::<DataView, Seq<char>>(v) && note_of(v) == Ok::<
            NoteView,
            Seq<char>,
        >(note) ==> line_matches(seq![line], query) == if contains(note.text, query) {
            seq![note.text]
        } else {
            Seq::empty()
        },
    decreases second.len(),
{
    let one = seq![line];
    assert(one.drop_last() =~= Seq::empty());
    reveal_with_fuel(line_matches, 2);
    assert(line_matches(one, query) =~= match line_match(line, query) {
        Some(text) => seq![text],
        None => Seq::empty(),
    });
    if second.len() == 0 {
        assert(first + second =~= first);
        assert(line_matches(first, query) + line_matches(second, query) =~= line_matches(
            first,
            query,
        ));
    } else {
        assert((first + second).drop_last() =~= first + second.drop_last());
        lemma_search(first, second.drop_last(), line, query, v, note);
        assert(line_matches(first + second, query) =~= line_matches(first, query) + line_matches(
            second,
            query,
        ));
    }
}

/// Of notes those are found, in order, whose text contains what is searched for.
pub proof fn lemma_notes_found(first: Seq<NoteView>, second: Seq<NoteView>, note: NoteView, query: Seq<char>)
    ensures
        note_matches(first + second, query) == note_matches(first, query) + note_matches(
            second,
            query,
        ),
        note_matches(seq![note], query) == if contains(note.text, query) {
            seq![note.text]
        } else {
            Seq::empty()
        },
        note_matches(Seq::empty(), query) == Seq::<Seq<char>>::empty(),
    decreases second.len(),
{
    let one = seq![note];
    assert(one.drop_last() =~= Seq::empty());
    reveal_with_fuel(note_matches, 2);
    assert(note_matches(one, query) =~= if contains(note.text, query) {
        seq![note.text]
    } else {
        Seq::empty()
    });
    if second.len() == 0 {
        assert(first + second =~= first);
        assert(note_matches(first, query) + note_matches(second, query) =~= note_matches(
            first,
            query,
        ));
    } else {
        assert((first + second).drop_last() =~= first + second.drop_last());
        lemma_notes_found(first, second.drop_last(), note, query);
        assert(note_matches(first + second, query) =~= note_matches(first, query) + note_matches(
            second,
            query,
        ));
    }
}

/// A search says each text that it found on a line of its own, in order, and
/// says so where it found none.
pub proof fn lemma_search_report(matches: Seq<Seq<char>>)
    ensures
        matches.len() == 0 ==> search_report(matches) == "no matches"@,
        matches.len() > 0 ==> search_report(matches) == joined(matches, "\n"@),
{
}

/// A note that is appended is an object with its time and its text, whole; a
/// call without a text to note is refused and appends nothing.
pub proof fn lemma_appends(arguments: DataView, at: u64, text: Seq<char>)
    ensures
        text_argument("struct AppendArgs", arguments, "note"@) == Ok::<Seq<char>, ToolErrorView>(
            text,
        ) ==> appended(arguments, at) == Ok::<Seq<char>, ToolErrorView>(
            compact(
                DataView::Object(
                    seq![("at"@, DataView::Unsigned(at)), ("text"@, DataView::Text(text))],
                ),
            ),
        ),
        text_argument("struct AppendArgs", arguments, "note"@) is Err ==> appended(arguments, at)
            is Err,
{
}

// ---------------------------------------------------------------------------
// The prompt
// ---------------------------------------------------------------------------
/// The prompt is its head, the lines of the tools in the order of their names,
/// and its tail. The line of a tool says its name and what it does.
pub proof fn lemma_prompt<T: Tool>(tools: Seq<T>, names: Seq<Seq<char>>, tool: T)
    requires
        tool_names(tools).no_duplicates(),
        tools.contains(tool),
    ensures
        prompt(tools) == PROMPT_HEAD@ + tool_lines(tools, sorted_names(tool_names(tools)))
            + PROMPT_TAIL@,
        tool_lines(tools, Seq::empty()) == Seq::<char>::empty(),
        tool_lines(tools, names.push(tool.called())) == tool_lines(tools, names) + ("- "@
            + tool.called() + ": "@ + tool.described() + "\n"@),
{
    lemma_each_tool_is_found(tools, tool);
    assert(names.push(tool.called()).drop_last() =~= names);
}

/// What the prompt teaches of a reply: that it is one JSON object and nothing
/// else, and which two shapes it has, with an example of each.
pub proof fn lemma_prompt_teaches()
    ensures
        PROMPT_HEAD@
            == "You are abcb, an agent that acts by emitting JSON.\n\nRespond with EXACTLY ONE JSON object and nothing else: no prose, no markdown code fences.\n\nThe object must be one of two shapes:\n\nTo call a tool:\n  {\"kind\":\"tool_call\",\"tool_name\":\"<one of the tools below>\",\"arguments\":{...}}\n\nTo give your final answer:\n  {\"kind\":\"final\",\"content\":\"<your answer>\"}\n\nAvailable tools:\n"@,
        PROMPT_TAIL@
            == "\nExamples:\n  {\"kind\":\"tool_call\",\"tool_name\":\"echo\",\"arguments\":{\"text\":\"hello\"}}\n  {\"kind\":\"final\",\"content\":\"All done.\"}"@,
{
}

/// What an error of a tool says: what went wrong, and the words of what lies
/// beneath it.
pub proof fn lemma_tool_errors(e: ToolErrorView)
    ensures
        match e {
            ToolErrorView::InvalidArguments(message) => e.text() == "invalid tool arguments: "@
                + message && e.cause() == Some(message),
            ToolErrorView::Execution(message) => e.text() == "tool execution failed: "@ + message
                && e.cause() is None,
            ToolErrorView::Io(message) => e.text() == "tool io error: "@ + message && e.cause()
                == Some(message),
        },
{
}

/// The tool that echoes is called so, says so, and gives back the text of its
/// arguments, whole.
pub proof fn lemma_echo(members: Members, text: Seq<char>, result: Result<Seq<char>, ToolErrorView>)
    requires
        distinct_names(members),
        members.contains(("text"@, DataView::Text(text))),
    ensures
        Echo.called() == "echo"@,
        Echo.described() == "Echoes the `text` field of its arguments back as the output."@,
        Echo.gives(DataView::Object(members), result) <==> result == Ok::<
            Seq<char>,
            ToolErrorView,
        >(text),
        forall|v: DataView, r: Result<Seq<char>, ToolErrorView>| #[trigger]
            Echo.gives(v, r) <==> r == text_argument("struct EchoArgs", v, "text"@),
{
    lemma_text_argument("struct EchoArgs", "text"@, text);
    assert(text_argument("struct EchoArgs", DataView::Object(members), "text"@) == Ok::<
        Seq<char>,
        ToolErrorView,
    >(text));
}

/// A listing has each entry on a line of its own, as often as it is there, in the
/// order of the names: whatever the order in which the entries were found, and
/// nothing else.
pub proof fn lemma_listed(names: Seq<Seq<char>>, ordered: Seq<Seq<char>>)
    requires
        ordered.to_multiset() == names.to_multiset(),
        vstd::relations::sorted_by(ordered, name_order()),
    ensures
        listed(names) == joined(ordered, "\n"@),
        forall|a: Seq<char>, b: Seq<char>| #[trigger] name_order()(a, b) == at_most(a, b),
{
    lemma_sorted_names_unique(names, ordered);
}

/// A search of a file goes through its lines; without a file nothing is found.
pub proof fn lemma_searched(content: Seq<char>, query: Seq<char>)
    ensures
        searched(Some(content), query) == if line_matches(lines(content), query).len() == 0 {
            "no matches"@
        } else {
            joined(line_matches(lines(content), query), "\n"@)
        },
        searched(None, query) == "no matches"@,
{
}

} // verus!
