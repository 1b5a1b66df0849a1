//! Values of structured text: what a JSON or a TOML document says, as plain
//! data, and how a value is written as compact JSON.
use vstd::prelude::*;

use crate::external::{json_from_str, json_of_text, json_open, json_quote, json_tree};
use crate::external::{toml_from_str, toml_of_text, toml_open, toml_tree};
use crate::text::{decimal, decimal_text, joined, lemma_decimal_digits};

verus! {

/// A value of a structured text.
#[derive(Debug, PartialEq, Eq)]
pub enum Data {
    Null,
    Bool(bool),
    /// A whole number that is not negative.
    Unsigned(u64),
    /// A whole number below zero.
    Negative(i64),
    /// A number with a fraction or an exponent, or a date, as it is written.
    Other(String),
    Text(String),
    Array(Vec<Data>),
    /// The members in the order of the document, each name once.
    Object(Vec<(String, Data)>),
}

/// What a [`Data`] says.
pub enum DataView {
    Null,
    Bool(bool),
    Unsigned(u64),
    Negative(i64),
    Other(Seq<char>),
    Text(Seq<char>),
    Array(Seq<DataView>),
    Object(Seq<(Seq<char>, DataView)>),
}

/// One level of a value of an outside document type `V`.
pub enum Node<V> {
    Null,
    Bool(bool),
    Unsigned(u64),
    Signed(i64),
    Other(String),
    Text(String),
    Array(Vec<V>),
    Object(Vec<(String, V)>),
}

/// A whole number as a value.
pub open spec fn integer(i: i64) -> DataView {
    if i >= 0 {
        DataView::Unsigned(i as u64)
    } else {
        DataView::Negative(i)
    }
}

impl<V> Node<V> {
    /// What a node says, where `tree` tells what each nested value says.
    pub open spec fn says(&self, tree: spec_fn(V) -> DataView) -> DataView {
        match self {
            Node::Null => DataView::Null,
            Node::Bool(b) => DataView::Bool(*b),
            Node::Unsigned(n) => DataView::Unsigned(*n),
            Node::Signed(i) => integer(*i),
            Node::Other(t) => DataView::Other(t@),
            Node::Text(t) => DataView::Text(t@),
            Node::Array(items) => DataView::Array(items@.map_values(tree)),
            Node::Object(members) => DataView::Object(
                members@.map_values(|m: (String, V)| (m.0@, tree(m.1))),
            ),
        }
    }
}

impl View for Data {
    type V = DataView;

    open spec fn view(&self) -> DataView {
        self.says()
    }
}

impl Data {
    /// What the value says.
    pub open spec fn says(&self) -> DataView
        decreases self,
    {
        match self {
            Data::Null => DataView::Null,
            Data::Bool(b) => DataView::Bool(*b),
            Data::Unsigned(n) => DataView::Unsigned(*n),
            Data::Negative(i) => DataView::Negative(*i),
            Data::Other(t) => DataView::Other(t@),
            Data::Text(t) => DataView::Text(t@),
            Data::Array(items) => DataView::Array(
                Seq::new(
                    items@.len(),
                    |i: int|
                        if 0 <= i < items@.len() {
                            items@[i].says()
                        } else {
                            DataView::Null
                        },
                ),
            ),
            Data::Object(members) => DataView::Object(
                Seq::new(
                    members@.len(),
                    |i: int|
                        if 0 <= i < members@.len() {
                            (members@[i].0@, members@[i].1.says())
                        } else {
                            (Seq::empty(), DataView::Null)
                        },
                ),
            ),
        }
    }
}

// ---------------------------------------------------------------------------
// Compact JSON
// ---------------------------------------------------------------------------
/// A digit of a number in base sixteen.
pub open spec fn hex_digit(d: int) -> char {
    if d < 10 {
        crate::text::digit(d as nat)
    } else if d == 10 {
        'a'
    } else if d == 11 {
        'b'
    } else if d == 12 {
        'c'
    } else if d == 13 {
        'd'
    } else if d == 14 {
        'e'
    } else {
        'f'
    }
}

/// How a character stands in a JSON string.
pub open spec fn escaped_char(c: char) -> Seq<char> {
    if c == '"' {
        seq!['\\', '"']
    } else if c == '\\' {
        seq!['\\', '\\']
    } else if c == '\u{8}' {
        seq!['\\', 'b']
    } else if c == '\u{c}' {
        seq!['\\', 'f']
    } else if c == '\n' {
        seq!['\\', 'n']
    } else if c == '\r' {
        seq!['\\', 'r']
    } else if c == '\t' {
        seq!['\\', 't']
    } else if ' ' > c {
        seq!['\\', 'u', '0', '0', hex_digit(c as int / 16), hex_digit(c as int % 16)]
    } else {
        seq![c]
    }
}

/// How the characters of a text stand in a JSON string.
pub open spec fn escaped(s: Seq<char>) -> Seq<char>
    decreases s.len(),
{
    if s.len() == 0 {
        Seq::empty()
    } else {
        escaped(s.drop_last()) + escaped_char(s.last())
    }
}

/// A text as a JSON string, with its quotes.
pub open spec fn quoted(s: Seq<char>) -> Seq<char> {
    seq!['"'] + escaped(s) + seq!['"']
}

/// The size of a number without its sign.
pub open spec fn magnitude(i: i64) -> nat {
    if i < 0 {
        (0 - i) as nat
    } else {
        i as nat
    }
}

/// A value as JSON without white space between its parts.
pub open spec fn compact(v: DataView) -> Seq<char>
    decreases v,
{
    match v {
        DataView::Null => "null"@,
        DataView::Bool(b) => if b {
            "true"@
        } else {
            "false"@
        },
        DataView::Unsigned(n) => decimal(n as nat),
        DataView::Negative(i) => seq!['-'] + decimal(magnitude(i)),
        DataView::Other(t) => t,
        DataView::Text(t) => quoted(t),
        DataView::Array(items) => seq!['['] + joined(compact_items(items), seq![',']) + seq![']'],
        DataView::Object(members) => seq!['{'] + joined(compact_members(members), seq![','])
            + seq!['}'],
    }
}

/// The values of an array, each as compact JSON.
pub open spec fn compact_items(items: Seq<DataView>) -> Seq<Seq<char>>
    decreases items,
{
    Seq::new(
        items.len(),
        |i: int|
            if 0 <= i < items.len() {
                compact(items[i])
            } else {
                Seq::empty()
            },
    )
}

/// The members of an object, each as compact JSON.
pub open spec fn compact_members(members: Seq<(Seq<char>, DataView)>) -> Seq<Seq<char>>
    decreases members,
{
    Seq::new(
        members.len(),
        |i: int|
            if 0 <= i < members.len() {
                quoted(members[i].0) + seq![':'] + compact(members[i].1)
            } else {
                Seq::empty()
            },
    )
}

/// The names of the members are all different.
pub open spec fn distinct_names(members: Seq<(Seq<char>, DataView)>) -> bool {
    forall|i: int, j: int|
        0 <= i < j < members.len() ==> (#[trigger] members[i]).0 != (#[trigger] members[j]).0
}

/// How deep the values of a text may be nested that is read.
pub open spec fn depth_limit() -> nat {
    127
}

/// A value that compact JSON carries without loss: no number is a fraction, no
/// object holds a name twice, and values are nested at most `depth` deep.
pub open spec fn plain(v: DataView, depth: nat) -> bool
    decreases depth,
{
    match v {
        DataView::Null | DataView::Bool(_) | DataView::Unsigned(_) | DataView::Text(_) => true,
        DataView::Negative(i) => i < 0,
        DataView::Other(_) => false,
        DataView::Array(items) => depth > 0 && forall|i: int|
            0 <= i < items.len() ==> plain(#[trigger] items[i], (depth - 1) as nat),
        DataView::Object(members) => depth > 0 && distinct_names(members) && forall|i: int|
            0 <= i < members.len() ==> plain((#[trigger] members[i]).1, (depth - 1) as nat),
    }
}

/// A value that is nested so deep is nested at most deeper.
pub proof fn lemma_plain_deeper(v: DataView, depth: nat, deeper: nat)
    requires
        plain(v, depth),
        depth <= deeper,
    ensures
        plain(v, deeper),
    decreases depth,
{
    match v {
        DataView::Array(items) => {
            assert forall|i: int| 0 <= i < items.len() implies plain(
                #[trigger] items[i],
                (deeper - 1) as nat,
            ) by {
                lemma_plain_deeper(items[i], (depth - 1) as nat, (deeper - 1) as nat);
            }
        },
        DataView::Object(members) => {
            assert forall|i: int| 0 <= i < members.len() implies plain(
                (#[trigger] members[i]).1,
                (deeper - 1) as nat,
            ) by {
                lemma_plain_deeper(members[i].1, (depth - 1) as nat, (deeper - 1) as nat);
            }
        },
        _ => {},
    }
}

/// No character of a text is a control character below the blank.
pub open spec fn printable(s: Seq<char>) -> bool {
    forall|i: int| 0 <= i < s.len() ==> ' ' <= #[trigger] s[i]
}

proof fn lemma_escaped_printable(s: Seq<char>)
    ensures
        printable(escaped(s)),
    decreases s.len(),
{
    if s.len() > 0 {
        lemma_escaped_printable(s.drop_last());
        assert(printable(escaped_char(s.last())));
    }
}

proof fn lemma_joined_printable(parts: Seq<Seq<char>>, separator: Seq<char>)
    requires
        printable(separator),
        forall|i: int| 0 <= i < parts.len() ==> printable(#[trigger] parts[i]),
    ensures
        printable(joined(parts, separator)),
    decreases parts.len(),
{
    if parts.len() > 1 {
        lemma_joined_printable(parts.drop_last(), separator);
        assert(printable(parts.last()));
    } else if parts.len() == 1 {
        assert(printable(parts[0]));
    }
}

/// Compact JSON holds no control character, so that it stands on one line.
pub proof fn lemma_compact_printable(v: DataView, depth: nat)
    requires
        plain(v, depth),
    ensures
        printable(compact(v)),
    decreases depth,
{
    match v {
        DataView::Null => {
            reveal_strlit("null");
        },
        DataView::Bool(b) => {
            reveal_strlit("true");
            reveal_strlit("false");
        },
        DataView::Unsigned(n) => {
            lemma_decimal_digits(n as nat);
        },
        DataView::Negative(i) => {
            lemma_decimal_digits(magnitude(i));
        },
        DataView::Other(_) => {},
        DataView::Text(t) => {
            lemma_escaped_printable(t);
        },
        DataView::Array(items) => {
            let parts = compact_items(items);
            assert forall|i: int| 0 <= i < parts.len() implies printable(#[trigger] parts[i]) by {
                lemma_compact_printable(items[i], (depth - 1) as nat);
            }
            lemma_joined_printable(parts, seq![',']);
        },
        DataView::Object(members) => {
            let parts = compact_members(members);
            assert forall|i: int| 0 <= i < parts.len() implies printable(#[trigger] parts[i]) by {
                lemma_compact_printable(members[i].1, (depth - 1) as nat);
                lemma_escaped_printable(members[i].0);
            }
            lemma_joined_printable(parts, seq![',']);
        },
    }
}

// ---------------------------------------------------------------------------
// Writing
// ---------------------------------------------------------------------------
/// A member of an object.
pub fn value_member(name: &str, value: Data) -> (r: (String, Data))
    ensures
        r.0@ == name@,
        r.1@ == value@,
{
    (name.to_owned(), value)
}

/// A member of an object that is a text.
pub fn text_member(name: &str, text: &str) -> (r: (String, Data))
    ensures
        r.0@ == name@,
        r.1@ == DataView::Text(text@),
{
    (name.to_owned(), Data::Text(text.to_owned()))
}

/// A member of an object that is a whole number.
pub fn number_member(name: &str, n: u64) -> (r: (String, Data))
    ensures
        r.0@ == name@,
        r.1@ == DataView::Unsigned(n),
{
    (name.to_owned(), Data::Unsigned(n))
}

impl Data {
    /// The value as JSON without white space between its parts.
    pub fn to_json(&self) -> (r: String)
        ensures
            r@ == compact(self@),
        decreases self,
    {
        match self {
            Data::Null => "null".to_owned(),
            Data::Bool(b) => if *b {
                "true".to_owned()
            } else {
                "false".to_owned()
            },
            Data::Unsigned(n) => decimal_text(*n),
            Data::Negative(i) => {
                let mut text = String::new();
                text.push('-');
                let size: u64 = if *i < 0 {
                    (0i128 - *i as i128) as u64
                } else {
                    *i as u64
                };
                text.append(decimal_text(size).as_str());
                assert(text@ =~= compact(self@));
                text
            },
            Data::Other(t) => t.clone(),
            Data::Text(t) => json_quote(t.as_str()),
            Data::Array(items) => {
                let mut text = String::new();
                text.push('[');
                assert(self@ is Array);
                assert(self@->Array_0.len() == items@.len());
                let ghost parts = compact_items(self@->Array_0);
                assert(parts.len() == items@.len());
                assert(parts.take(0) =~= Seq::empty());
                let mut i: usize = 0;
                while i < items.len()
                    invariant
                        i <= items@.len() == parts.len(),
                        forall|k: int| 0 <= k < parts.len() ==> parts[k] == compact(items@[k]@),
                        text@ == seq!['['] + joined(parts.take(i as int), seq![',']),
                        *self == Data::Array(*items),
                    decreases items@.len() - i,
                {
                    let ghost done = parts.take(i + 1);
                    assert(done.drop_last() =~= parts.take(i as int));
                    if i > 0 {
                        text.push(',');
                    }
                    proof {
                        assert(decreases_to!(*self => self->Array_0));
                        assert(decreases_to!(*items => items@));
                        assert(decreases_to!(items@ => items@[i as int]));
                    }
                    text.append(items[i].to_json().as_str());
                    assert(text@ =~= seq!['['] + joined(done, seq![',']));
                    i = i + 1;
                }
                assert(parts.take(i as int) =~= parts);
                text.push(']');
                assert(text@ =~= compact(self@));
                text
            },
            Data::Object(members) => {
                let mut text = String::new();
                text.push('{');
                let ghost parts = compact_members(self@->Object_0);
                assert(parts.take(0) =~= Seq::empty());
                let mut i: usize = 0;
                while i < members.len()
                    invariant
                        i <= members@.len() == parts.len(),
                        forall|k: int|
                            0 <= k < parts.len() ==> parts[k] == quoted(members@[k].0@) + seq![':']
                                + compact(members@[k].1@),
                        text@ == seq!['{'] + joined(parts.take(i as int), seq![',']),
                        *self == Data::Object(*members),
                    decreases members@.len() - i,
                {
                    let ghost done = parts.take(i + 1);
                    assert(done.drop_last() =~= parts.take(i as int));
                    if i > 0 {
                        text.push(',');
                    }
                    text.append(json_quote(members[i].0.as_str()).as_str());
                    text.push(':');
                    proof {
                        assert(decreases_to!(*self => self->Object_0));
                        assert(decreases_to!(*members => members@));
                        assert(decreases_to!(members@ => members@[i as int]));
                        assert(decreases_to!(members@[i as int] => members@[i as int].1));
                    }
                    text.append(members[i].1.to_json().as_str());
                    assert(text@ =~= seq!['{'] + joined(done, seq![',']));
                    i = i + 1;
                }
                assert(parts.take(i as int) =~= parts);
                text.push('}');
                assert(text@ =~= compact(self@));
                text
            },
        }
    }
}

impl Data {
    /// A copy of the value.
    fn copy(&self) -> (r: Data)
        ensures
            r@ == self@,
        decreases self,
    {
        match self {
            Data::Null => Data::Null,
            Data::Bool(b) => Data::Bool(*b),
            Data::Unsigned(n) => Data::Unsigned(*n),
            Data::Negative(i) => Data::Negative(*i),
            Data::Other(t) => Data::Other(t.clone()),
            Data::Text(t) => Data::Text(t.clone()),
            Data::Array(items) => {
                let mut copied: Vec<Data> = Vec::new();
                let mut i: usize = 0;
                while i < items.len()
                    invariant
                        i <= items@.len(),
                        copied@.len() == i,
                        forall|k: int| 0 <= k < i ==> (#[trigger] copied@[k])@ == items@[k]@,
                        *self == Data::Array(*items),
                    decreases items@.len() - i,
                {
                    proof {
                        assert(decreases_to!(*self => self->Array_0));
                        assert(decreases_to!(*items => items@));
                        assert(decreases_to!(items@ => items@[i as int]));
                    }
                    copied.push(items[i].copy());
                    i = i + 1;
                }
                let r = Data::Array(copied);
                assert(r@->Array_0 =~= self@->Array_0);
                r
            },
            Data::Object(members) => {
                let mut copied: Vec<(String, Data)> = Vec::new();
                let mut i: usize = 0;
                while i < members.len()
                    invariant
                        i <= members@.len(),
                        copied@.len() == i,
                        forall|k: int|
                            0 <= k < i ==> (#[trigger] copied@[k]).0@ == members@[k].0@
                                && copied@[k].1@ == members@[k].1@,
                        *self == Data::Object(*members),
                    decreases members@.len() - i,
                {
                    proof {
                        assert(decreases_to!(*self => self->Object_0));
                        assert(decreases_to!(*members => members@));
                        assert(decreases_to!(members@ => members@[i as int]));
                        assert(decreases_to!(members@[i as int] => members@[i as int].1));
                    }
                    let value = members[i].1.copy();
                    copied.push((members[i].0.clone(), value));
                    i = i + 1;
                }
                let r = Data::Object(copied);
                assert(r@->Object_0 =~= self@->Object_0);
                r
            },
        }
    }
}

impl Clone for Data {
    fn clone(&self) -> (r: Self)
        ensures
            r@ == self@,
    {
        self.copy()
    }
}

// ---------------------------------------------------------------------------
// Reading
// ---------------------------------------------------------------------------
/// A document value that is taken apart one level at a time.
pub trait Document: Sized {
    /// What the value says.
    spec fn tree(self) -> DataView;

    /// One level of the value.
    fn open(self) -> (r: Node<Self>)
        ensures
            self.tree() == r.says(|w: Self| w.tree()),
    ;
}

impl Document for serde_json::Value {
    open spec fn tree(self) -> DataView {
        json_tree(self)
    }

    fn open(self) -> (r: Node<Self>) {
        let node = json_open(self);
        assert((|w: Self| w.tree()) =~= (|w: serde_json::Value| json_tree(w)));
        node
    }
}

impl Document for toml::Value {
    open spec fn tree(self) -> DataView {
        toml_tree(self)
    }

    fn open(self) -> (r: Node<Self>) {
        let node = toml_open(self);
        assert((|w: Self| w.tree()) =~= (|w: toml::Value| toml_tree(w)));
        node
    }
}

/// The plain data of a document value.
fn data_of<D: Document>(v: D) -> (r: Data)
    ensures
        r@ == v.tree(),
    decreases v.tree(),
{
    let ghost whole = v.tree();
    match v.open() {
        Node::Null => Data::Null,
        Node::Bool(b) => Data::Bool(b),
        Node::Unsigned(n) => Data::Unsigned(n),
        Node::Signed(i) => whole_number(i),
        Node::Other(t) => Data::Other(t),
        Node::Text(t) => Data::Text(t),
        Node::Array(items) => {
            let ghost nested = items@;
            let mut found: Vec<Data> = Vec::new();
            for item in it: items
                invariant
                    it.seq() == nested,
                    whole is Array,
                    whole == v.tree(),
                    whole->Array_0 == nested.map_values(|w: D| w.tree()),
                    found@.len() == it.index(),
                    forall|k: int| 0 <= k < found@.len() ==> (#[trigger] found@[k])@ == nested[k].tree(),
            {
                proof {
                    let i = it.index() as int;
                    assert(whole->Array_0[i] == item.tree());
                    assert(decreases_to!(whole => whole->Array_0));
                    assert(decreases_to!(whole->Array_0 => whole->Array_0[i]));
                }
                found.push(data_of(item));
            }
            let r = Data::Array(found);
            assert(r@->Array_0 =~= whole->Array_0);
            r
        },
        Node::Object(members) => {
            let ghost nested = members@;
            let mut found: Vec<(String, Data)> = Vec::new();
            for member in it: members
                invariant
                    it.seq() == nested,
                    whole is Object,
                    whole == v.tree(),
                    whole->Object_0 == nested.map_values(
                        |m: (String, D)| (m.0@, m.1.tree()),
                    ),
                    found@.len() == it.index(),
                    forall|k: int|
                        0 <= k < found@.len() ==> (#[trigger] found@[k]).0@ == nested[k].0@
                            && found@[k].1@ == nested[k].1.tree(),
            {
                proof {
                    let i = it.index() as int;
                    assert(whole->Object_0[i] == (member.0@, member.1.tree()));
                    assert(decreases_to!(whole => whole->Object_0));
                    assert(decreases_to!(whole->Object_0 => whole->Object_0[i]));
                    assert(decreases_to!(whole->Object_0[i] => whole->Object_0[i].1));
                }
                let value = data_of(member.1);
                found.push((member.0, value));
            }
            let r = Data::Object(found);
            assert(r@->Object_0 =~= whole->Object_0);
            r
        },
    }
}

/// A whole number as plain data.
fn whole_number(i: i64) -> (r: Data)
    ensures
        r@ == integer(i),
{
    if i >= 0 {
        Data::Unsigned(i as u64)
    } else {
        Data::Negative(i)
    }
}

/// What a reading gave, as plain data.
pub open spec fn reading(r: Result<Data, String>) -> Result<DataView, Seq<char>> {
    match r {
        Ok(data) => Ok(data@),
        Err(message) => Err(message@),
    }
}

/// Read a JSON text. Of a name that stands twice in one object, the last value
/// counts. What [`Data::to_json`] wrote is read back as it was.
pub fn read_json(text: &str) -> (r: Result<Data, String>)
    ensures
        reading(r) == json_of_text(text@),
        forall|d: DataView|
            plain(d, depth_limit()) && #[trigger] compact(d) == text@ ==> reading(r) == Ok::<
                DataView,
                Seq<char>,
            >(d),
{
    match json_from_str(text) {
        Ok(value) => Ok(data_of(value)),
        Err(message) => Err(message),
    }
}

/// Read a TOML document.
pub fn read_toml(text: &str) -> (r: Result<Data, String>)
    ensures
        reading(r) == toml_of_text(text@),
{
    match toml_from_str(text) {
        Ok(value) => Ok(data_of(value)),
        Err(message) => Err(message),
    }
}

} // verus!
