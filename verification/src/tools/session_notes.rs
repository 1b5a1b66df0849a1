//! Tools that keep the notes of a project, one JSON record a line, and search
//! them.
use vstd::prelude::*;

use crate::data::{
    compact, depth_limit, lemma_compact_printable, lemma_plain_deeper, number_member, plain,
    read_json, reading, text_member, Data, DataView,
};
use crate::decode::{Form, Shape};
use crate::external::json_of_text;
use crate::message::now_millis;
use crate::provider::optional;
use crate::text::{
    contains, ended, has_text, join, joined, lemma_lines_of_ended, lines, lines_of, one_line, texts,
};
use crate::tool::{tool_result, ToolError, ToolErrorView};
use crate::tools::{catalogue, read_text_argument, text_argument};

verus! {

/// A note, with the time at which it was written.
pub struct NoteView {
    pub at: u64,
    pub text: Seq<char>,
}

/// A note as a value.
pub open spec fn note_data(note: NoteView) -> DataView {
    DataView::Object(
        seq![("at"@, DataView::Unsigned(note.at)), ("text"@, DataView::Text(note.text))],
    )
}

/// A note as a record.
pub open spec fn note_shape() -> Shape {
    Shape { name: "struct Note", fields: 2, form: Form::Document }
}

/// The note that a value says.
pub open spec fn note_of(v: DataView) -> Result<NoteView, Seq<char>> {
    note_shape().decoded(
        v,
        None,
        match note_shape().number(v, 0, "at"@) {
            Err(message) => Err(message),
            Ok(at) => match note_shape().text(v, 1, "text"@) {
                Err(message) => Err(message),
                Ok(text) => Ok(NoteView { at, text }),
            },
        },
    )
}

/// The line of a note.
pub open spec fn note_line(note: NoteView) -> Seq<char> {
    compact(note_data(note))
}

/// The file of these notes.
pub open spec fn notes_text(notes: Seq<NoteView>) -> Seq<char> {
    ended(notes.map_values(|n: NoteView| note_line(n)))
}

/// The text of the note that a value says, if it says one that contains
/// `query`.
pub open spec fn value_match(v: DataView, query: Seq<char>) -> Option<Seq<char>> {
    match note_of(v) {
        Err(_) => None,
        Ok(note) => if contains(note.text, query) {
            Some(note.text)
        } else {
            None
        },
    }
}

/// The text of the note of a line, if the line holds one that contains `query`.
pub open spec fn line_match(line: Seq<char>, query: Seq<char>) -> Option<Seq<char>> {
    match json_of_text(line) {
        Err(_) => None,
        Ok(v) => value_match(v, query),
    }
}

/// The texts of the notes on the lines that contain `query`. A line that holds
/// no note is passed over.
pub open spec fn line_matches(lines: Seq<Seq<char>>, query: Seq<char>) -> Seq<Seq<char>>
    decreases lines.len(),
{
    if lines.len() == 0 {
        Seq::empty()
    } else {
        match line_match(lines.last(), query) {
            Some(text) => line_matches(lines.drop_last(), query).push(text),
            None => line_matches(lines.drop_last(), query),
        }
    }
}

/// The texts of the notes that contain `query`.
pub open spec fn note_matches(notes: Seq<NoteView>, query: Seq<char>) -> Seq<Seq<char>>
    decreases notes.len(),
{
    if notes.len() == 0 {
        Seq::empty()
    } else if contains(notes.last().text, query) {
        note_matches(notes.drop_last(), query).push(notes.last().text)
    } else {
        note_matches(notes.drop_last(), query)
    }
}

/// What a search says that found these texts.
pub open spec fn search_report(matches: Seq<Seq<char>>) -> Seq<char> {
    if matches.len() == 0 {
        "no matches"@
    } else {
        joined(matches, "\n"@)
    }
}

proof fn lemma_note_line(note: NoteView)
    ensures
        note_of(note_data(note)) == Ok::<NoteView, Seq<char>>(note),
        plain(note_data(note), depth_limit()),
        one_line(note_line(note)),
{
    reveal_strlit("at");
    reveal_strlit("text");
    assert("at"@.len() != "text"@.len());
    reveal_with_fuel(crate::decode::member_from, 3);
    reveal_with_fuel(plain, 2);
    let data = note_data(note);
    assert(plain(data, 1));
    lemma_plain_deeper(data, 1, depth_limit());
    lemma_compact_printable(data, 1);
    let line = note_line(note);
    assert(line.last() == '}');
    if line.contains('\n') {
        let k = choose|k: int| 0 <= k < line.len() && line[k] == '\n';
        assert(' ' <= line[k]);
    }
}

proof fn lemma_note_lines(notes: Seq<NoteView>)
    ensures
        lines(notes_text(notes)) == notes.map_values(|n: NoteView| note_line(n)),
{
    let listed = notes.map_values(|n: NoteView| note_line(n));
    assert forall|i: int| 0 <= i < listed.len() implies one_line(#[trigger] listed[i]) by {
        lemma_note_line(notes[i]);
    }
    lemma_lines_of_ended(listed);
}

/// The text of the note that a value says, if it says one that contains
/// `query`.
pub fn match_value(v: &Data, query: &str) -> (r: Option<String>)
    ensures
        optional(r) == value_match(v@, query@),
{
    let shape = Shape { name: "struct Note", fields: 2, form: Form::Document };
    if shape.error_of(v).is_some() || shape.surplus_of(v).is_some() {
        return None;
    }
    if shape.number_in(v, 0, "at").is_err() {
        return None;
    }
    match shape.text_of(v, 1, "text") {
        Err(_) => None,
        Ok(text) => if has_text(text.as_str(), query) {
            Some(text)
        } else {
            None
        },
    }
}

/// The text of the note of a line that contains `query`.
fn match_line(line: &str, query: &str) -> (r: Option<String>)
    ensures
        optional(r) == line_match(line@, query@),
        forall|note: NoteView| #[trigger]
            note_line(note) == line@ ==> optional(r) == if contains(
                note.text,
                query@,
            ) {
                Some(note.text)
            } else {
                None
            },
{
    let read = read_json(line);
    proof {
        assert forall|note: NoteView| #[trigger] note_line(note) == line@ implies reading(read)
            == Ok::<DataView, Seq<char>>(note_data(note)) && note_of(note_data(note)) == Ok::<
            NoteView,
            Seq<char>,
        >(note) by {
            lemma_note_line(note);
        }
    }
    match read {
        Err(_) => None,
        Ok(v) => match_value(&v, query),
    }
}

/// Search the notes of a file. What [`SessionNoteAppend::record_at`] wrote is
/// found by every text that it contains.
pub fn search_notes(content: &str, query: &str) -> (r: String)
    ensures
        r@ == search_report(line_matches(lines(content@), query@)),
        forall|notes: Seq<NoteView>| #[trigger]
            notes_text(notes) == content@ ==> r@ == search_report(note_matches(notes, query@)),
{
    let listed = lines_of(content);
    let ghost all = lines(content@);
    let mut found: Vec<String> = Vec::new();
    assert(texts(found@) =~= Seq::empty());
    assert(all.take(0) =~= Seq::empty());
    proof {
        assert forall|notes: Seq<NoteView>| #[trigger] notes_text(notes) == content@ implies
            notes.len() == all.len() && note_matches(notes.take(0), query@) == texts(found@) by {
            lemma_note_lines(notes);
            assert(notes.take(0) =~= Seq::empty());
        }
    }
    let mut i: usize = 0;
    while i < listed.len()
        invariant
            i <= listed@.len(),
            all == lines(content@),
            all == texts(listed@),
            texts(found@) == line_matches(all.take(i as int), query@),
            forall|notes: Seq<NoteView>| #[trigger]
                notes_text(notes) == content@ ==> notes.len() == all.len() && note_matches(
                    notes.take(i as int),
                    query@,
                ) == texts(found@),
        decreases listed@.len() - i,
    {
        assert(all.take(i + 1).drop_last() =~= all.take(i as int));
        assert(all[i as int] == listed@[i as int]@);
        let ghost before = texts(found@);
        let hit = match_line(listed[i].as_str(), query);
        let ghost gave = optional(hit);
        match hit {
            Some(text) => {
                found.push(text);
                assert(texts(found@) =~= before.push(text@));
            },
            None => {},
        }
        proof {
            assert forall|notes: Seq<NoteView>| #[trigger] notes_text(notes) == content@ implies
                note_matches(notes.take(i + 1), query@) == texts(found@) by {
                lemma_note_lines(notes);
                assert(all[i as int] == note_line(notes[i as int]));
                assert(notes.take(i + 1).drop_last() =~= notes.take(i as int));
            }
        }
        i = i + 1;
    }
    assert(all.take(i as int) =~= all);
    proof {
        assert forall|notes: Seq<NoteView>| #[trigger] notes_text(notes) == content@ implies
            note_matches(notes, query@) == texts(found@) by {
            assert(notes.take(i as int) =~= notes);
        }
    }
    if found.len() == 0 {
        "no matches".to_owned()
    } else {
        join(&found, "\n")
    }
}

/// Appends a note to the notes of the project.
pub struct SessionNoteAppend {
    pub path: String,
}

/// The record that a call of [`SessionNoteAppend`] adds at a time.
pub open spec fn appended(arguments: DataView, at: u64) -> Result<Seq<char>, ToolErrorView> {
    match text_argument("struct AppendArgs", arguments, "note"@) {
        Err(e) => Err(e),
        Ok(text) => Ok(note_line(NoteView { at, text })),
    }
}

impl SessionNoteAppend {
    /// A tool that keeps the notes at this path.
    pub fn new(path: &str) -> (r: Self)
        ensures
            r.path@ == path@,
    {
        Self { path: path.to_owned() }
    }

    /// The name of the tool.
    pub fn name(&self) -> (r: &'static str)
        ensures
            r@ == "session_note_append"@,
            r@ == catalogue()[2].0,
    {
        "session_note_append"
    }

    /// What the tool does, in words.
    pub fn description(&self) -> (r: &'static str)
        ensures
            r@ == "Appends `note` to the project notes as a timestamped JSONL record."@,
            r@ == catalogue()[2].1,
    {
        "Appends `note` to the project notes as a timestamped JSONL record."
    }

    /// The line that a call adds to the notes at a time.
    pub fn record_at(&self, args: &Data, at: u64) -> (r: Result<String, ToolError>)
        ensures
            tool_result(r) == appended(args@, at),
    {
        let text = match read_text_argument("struct AppendArgs", args, "note") {
            Err(e) => return Err(e),
            Ok(text) => text,
        };
        let mut members: Vec<(String, Data)> = Vec::new();
        members.push(number_member("at", at));
        members.push(text_member("text", text.as_str()));
        let data = Data::Object(members);
        assert(data@->Object_0 =~= note_data(NoteView { at, text: text@ })->Object_0);
        Ok(data.to_json())
    }

    /// The line that a call adds to the notes now. Which time that is, is the
    /// clock's to say.
    pub fn record(&self, args: &Data) -> (r: Result<String, ToolError>)
        ensures
            exists|at: u64| tool_result(r) == #[trigger] appended(args@, at),
    {
        self.record_at(args, now_millis())
    }

    /// What a call says that added its note.
    pub fn done(&self) -> (r: String)
        ensures
            r@ == "note appended"@,
    {
        "note appended".to_owned()
    }
}

/// What a search says of the notes in a file, or of there being no file yet.
pub open spec fn searched(content: Option<Seq<char>>, query: Seq<char>) -> Seq<char> {
    match content {
        Some(content) => search_report(line_matches(lines(content), query)),
        None => "no matches"@,
    }
}

/// Searches the notes of the project.
pub struct SessionNoteSearch {
    pub path: String,
}

impl SessionNoteSearch {
    /// A tool that searches the notes at this path.
    pub fn new(path: &str) -> (r: Self)
        ensures
            r.path@ == path@,
    {
        Self { path: path.to_owned() }
    }

    /// The name of the tool.
    pub fn name(&self) -> (r: &'static str)
        ensures
            r@ == "session_note_search"@,
            r@ == catalogue()[3].0,
    {
        "session_note_search"
    }

    /// What the tool does, in words.
    pub fn description(&self) -> (r: &'static str)
        ensures
            r@ == "Returns notes whose text contains `query` as a substring, one per line."@,
            r@ == catalogue()[3].1,
    {
        "Returns notes whose text contains `query` as a substring, one per line."
    }

    /// The text that a call searches for.
    pub fn query(&self, args: &Data) -> (r: Result<String, ToolError>)
        ensures
            tool_result(r) == text_argument("struct SearchArgs", args@, "query"@),
    {
        read_text_argument("struct SearchArgs", args, "query")
    }

    /// What a search says of the notes, or of there being none yet.
    pub fn answer(&self, content: Option<&str>, query: &str) -> (r: String)
        ensures
            r@ == match content {
                Some(content) => search_report(line_matches(lines(content@), query@)),
                None => "no matches"@,
            },
            r@ == searched(
                match content {
                    Some(text) => Some(text@),
                    None => None,
                },
                query@,
            ),
            content matches Some(content) ==> forall|notes: Seq<NoteView>| #[trigger]
                notes_text(notes) == content@ ==> r@ == search_report(note_matches(notes, query@)),
    {
        match content {
            Some(content) => search_notes(content, query),
            None => "no matches".to_owned(),
        }
    }
}

/// A note that is appended stands behind the notes that there were, and is
/// found by every text that it contains.
pub proof fn lemma_appended_note_is_found(notes: Seq<NoteView>, note: NoteView, query: Seq<char>)
    ensures
        notes_text(notes.push(note)) == notes_text(notes) + note_line(note).push('\n'),
        contains(note.text, query) ==> note_matches(notes.push(note), query) == note_matches(
            notes,
            query,
        ).push(note.text),
        !contains(note.text, query) ==> note_matches(notes.push(note), query) == note_matches(
            notes,
            query,
        ),
{
    let all = notes.push(note);
    assert(all.drop_last() =~= notes);
    let listed = all.map_values(|n: NoteView| note_line(n));
    assert(listed.drop_last() =~= notes.map_values(|n: NoteView| note_line(n)));
}

} // verus!
