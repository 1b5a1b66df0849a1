//! Reading records out of plain data: fields by name, or by position where the
//! record is written as an array, and the messages of what does not fit. The
//! messages are in the words of serde; where in a text a value stands is not
//! known here, so that they do not say it.
use vstd::prelude::*;

use crate::data::{compact, Data, DataView};
use crate::external::{debug_form, debug_text};
use crate::text::{decimal, decimal_text, same_text};

verus! {

/// The value of the first member with a name, from position `i` on.
pub open spec fn member_from(
    members: Seq<(Seq<char>, DataView)>,
    name: Seq<char>,
    i: int,
) -> Option<DataView>
    decreases members.len() - i,
{
    if i < 0 || i >= members.len() {
        None
    } else if members[i].0 == name {
        Some(members[i].1)
    } else {
        member_from(members, name, i + 1)
    }
}

/// The value of the member with a name.
pub open spec fn member(members: Seq<(Seq<char>, DataView)>, name: Seq<char>) -> Option<DataView> {
    member_from(members, name, 0)
}

/// The field of a record: a member by its name, or an item by its position.
pub open spec fn field(record: DataView, position: int, name: Seq<char>) -> Option<DataView> {
    match record {
        DataView::Object(members) => member(members, name),
        DataView::Array(items) => if 0 <= position < items.len() {
            Some(items[position])
        } else {
            None
        },
        _ => None,
    }
}

/// A view of an optional value.
pub open spec fn maybe(d: Option<&Data>) -> Option<DataView> {
    match d {
        Some(data) => Some(data@),
        None => None,
    }
}

/// A text that is shown in this way, in words.
pub open spec fn string_shown(shown: Seq<char>) -> Seq<char> {
    "string "@ + shown
}

/// A value that does not fit, in words.
pub open spec fn unexpected(v: DataView) -> Seq<char> {
    match v {
        DataView::Null => "null"@,
        DataView::Bool(_) => "boolean `"@ + compact(v) + "`"@,
        DataView::Unsigned(_) => "integer `"@ + compact(v) + "`"@,
        DataView::Negative(_) => "integer `"@ + compact(v) + "`"@,
        DataView::Other(_) => "floating point `"@ + compact(v) + "`"@,
        DataView::Text(t) => string_shown(debug_form(t)),
        DataView::Array(_) => "sequence"@,
        DataView::Object(_) => "map"@,
    }
}

/// The message for a value of a kind that does not fit.
pub open spec fn wrong_kind(v: DataView, expected: Seq<char>) -> Seq<char> {
    "invalid type: "@ + unexpected(v) + ", expected "@ + expected
}

/// The message for a value of the right kind that is out of range.
pub open spec fn wrong_value(v: DataView, expected: Seq<char>) -> Seq<char> {
    "invalid value: "@ + unexpected(v) + ", expected "@ + expected
}

/// The message for a field that is not there.
pub open spec fn missing_field(name: Seq<char>) -> Seq<char> {
    "missing field `"@ + name + "`"@
}

/// The message for an array of a length that does not fit.
pub open spec fn wrong_length(len: nat, expected: Seq<char>) -> Seq<char> {
    "invalid length "@ + decimal(len) + ", expected "@ + expected
}

/// A number of elements, in words.
pub open spec fn elements(n: nat) -> Seq<char> {
    if n == 1 {
        "1 element"@
    } else {
        decimal(n) + " elements"@
    }
}

/// Where a record is read from.
#[derive(Clone, Copy)]
pub enum Form {
    /// The text of a document.
    Document,
    /// A value that was read before.
    Value,
    /// What stands behind the tag that says which record it is.
    Tagged,
}

/// A record: what it is called, how many fields it has, and where it is read
/// from.
#[derive(Clone, Copy)]
pub struct Shape {
    pub name: &'static str,
    pub fields: u8,
    pub form: Form,
}

impl Shape {
    /// How many items of an array stand before the fields.
    pub open spec fn lead(self) -> nat {
        match self.form {
            Form::Tagged => 1,
            _ => 0,
        }
    }

    /// The message for an array with more items than the record has fields.
    pub open spec fn too_long(self, items: nat) -> Seq<char> {
        match self.form {
            Form::Document => "trailing characters"@,
            Form::Value => wrong_length(items, "fewer elements in array"@),
            Form::Tagged => wrong_length(
                (items - 1) as nat,
                elements(self.fields as nat) + " in sequence"@,
            ),
        }
    }

    /// The message for a field that is not there.
    pub open spec fn absent(self, record: DataView, position: nat, name: Seq<char>) -> Seq<char> {
        if record is Array {
            wrong_length(position, self.name@ + " with "@ + elements(self.fields as nat))
        } else {
            missing_field(name)
        }
    }

    /// The field of a record.
    pub open spec fn field(self, record: DataView, position: nat, name: Seq<char>) -> Option<
        DataView,
    > {
        field(record, (self.lead() + position) as int, name)
    }

    /// Why a value can be no such record: it has to be an object or an array.
    pub open spec fn error(self, v: DataView) -> Option<Seq<char>> {
        match v {
            DataView::Object(_) | DataView::Array(_) => None,
            _ => Some(wrong_kind(v, self.name@)),
        }
    }

    /// The message for an array with items that are no fields.
    pub open spec fn surplus(self, v: DataView) -> Option<Seq<char>> {
        match v {
            DataView::Array(items) => if items.len() <= self.lead() + self.fields {
                None
            } else {
                Some(self.too_long(items.len()))
            },
            _ => None,
        }
    }

    /// What a value says as such a record, where its fields taken one by one say
    /// `fields`: a member that does not fit counts before a field that is not
    /// there, and items behind the fields count last.
    pub open spec fn decoded<A>(
        self,
        v: DataView,
        misfit: Option<Seq<char>>,
        fields: Result<A, Seq<char>>,
    ) -> Result<A, Seq<char>> {
        match (self.error(v), misfit, fields, self.surplus(v)) {
            (Some(message), _, _, _) => Err(message),
            (_, Some(message), _, _) => Err(message),
            (_, _, Err(message), _) => Err(message),
            (_, _, _, Some(message)) => Err(message),
            (_, _, Ok(a), _) => Ok(a),
        }
    }

    /// A field that has to be a text.
    pub open spec fn text(self, record: DataView, position: nat, name: Seq<char>) -> Result<
        Seq<char>,
        Seq<char>,
    > {
        match self.field(record, position, name) {
            Some(DataView::Text(t)) => Ok(t),
            Some(v) => Err(wrong_kind(v, "a string"@)),
            None => Err(self.absent(record, position, name)),
        }
    }

    /// A field that is a text, is null or is not there.
    pub open spec fn optional_text(self, record: DataView, position: nat, name: Seq<char>) -> Result<
        Option<Seq<char>>,
        Seq<char>,
    > {
        match self.field(record, position, name) {
            Some(DataView::Text(t)) => Ok(Some(t)),
            Some(DataView::Null) => Ok(None),
            Some(v) => Err(wrong_kind(v, "a string"@)),
            None => Ok(None),
        }
    }

    /// A field that has to be a whole number that is not negative.
    pub open spec fn number(self, record: DataView, position: nat, name: Seq<char>) -> Result<
        u64,
        Seq<char>,
    > {
        match self.field(record, position, name) {
            Some(v) => number_of(v),
            None => Err(self.absent(record, position, name)),
        }
    }
}

/// The whole number that a value says.
pub open spec fn number_of(v: DataView) -> Result<u64, Seq<char>> {
    match v {
        DataView::Unsigned(n) => Ok(n),
        DataView::Negative(_) => Err(wrong_value(v, "u64"@)),
        _ => Err(wrong_kind(v, "u64"@)),
    }
}

/// Why a value is no text.
pub open spec fn text_misfit(v: DataView) -> Option<Seq<char>> {
    match v {
        DataView::Text(_) => None,
        _ => Some(wrong_kind(v, "a string"@)),
    }
}

/// Why a value is neither a text nor null.
pub open spec fn optional_text_misfit(v: DataView) -> Option<Seq<char>> {
    match v {
        DataView::Null => None,
        _ => text_misfit(v),
    }
}

/// The message of what failed.
pub open spec fn failure<A>(r: Result<A, Seq<char>>) -> Option<Seq<char>> {
    match r {
        Ok(_) => None,
        Err(message) => Some(message),
    }
}

/// What the fields of a record have to be.
pub trait Fields: Sized {
    /// Why a value cannot be that of the member with this name, if it cannot.
    spec fn misfit(&self, name: Seq<char>, v: DataView) -> Option<Seq<char>>;

    /// Why a value cannot be that of the member with this name, if it cannot.
    fn check(&self, name: &str, v: &Data) -> (r: Option<String>)
        ensures
            message_of(r) == self.misfit(name@, v@),
    ;
}

/// Why the first member, from position `i` on, that does not fit does not.
pub open spec fn misfit_from<F: Fields>(
    fields: F,
    members: Seq<(Seq<char>, DataView)>,
    i: int,
) -> Option<Seq<char>>
    decreases members.len() - i,
{
    if i < 0 || i >= members.len() {
        None
    } else {
        match fields.misfit(members[i].0, members[i].1) {
            Some(message) => Some(message),
            None => misfit_from(fields, members, i + 1),
        }
    }
}

/// Why the first member of an object that does not fit does not.
pub open spec fn first_misfit<F: Fields>(fields: F, v: DataView) -> Option<Seq<char>> {
    match v {
        DataView::Object(members) => misfit_from(fields, members, 0),
        _ => None,
    }
}

/// The tag of a value that says which record of an enum it is: the first item of
/// an array.
pub open spec fn tag_of(v: DataView, name: Seq<char>) -> Result<DataView, Seq<char>> {
    match v {
        DataView::Object(_) | DataView::Array(_) => match field(v, 0, "kind"@) {
            Some(tag) => Ok(tag),
            None => Err(missing_field("kind"@)),
        },
        _ => Err(wrong_kind(v, "internally tagged enum "@ + name)),
    }
}

/// The name of a variant that a tag says.
pub open spec fn variant_of(tag: DataView) -> Result<Seq<char>, Seq<char>> {
    match tag {
        DataView::Text(name) => Ok(name),
        _ => Err(wrong_kind(tag, "variant identifier"@)),
    }
}

/// The message for a name that no variant has.
pub open spec fn unknown_variant(name: Seq<char>, expected: Seq<char>) -> Seq<char> {
    "unknown variant `"@ + name + "`, expected "@ + expected
}

/// A value, or a message, that was found.
pub open spec fn found_value(r: Result<&Data, String>) -> Result<DataView, Seq<char>> {
    match r {
        Ok(v) => Ok(v@),
        Err(message) => Err(message@),
    }
}

/// A text, or a message, of a decoded field.
pub open spec fn text_result(r: Result<String, String>) -> Result<Seq<char>, Seq<char>> {
    match r {
        Ok(t) => Ok(t@),
        Err(message) => Err(message@),
    }
}

/// An optional text, or a message, of a decoded field.
pub open spec fn optional_text_result(r: Result<Option<String>, String>) -> Result<
    Option<Seq<char>>,
    Seq<char>,
> {
    match r {
        Ok(Some(t)) => Ok(Some(t@)),
        Ok(None) => Ok(None),
        Err(message) => Err(message@),
    }
}

/// A number, or a message, of a decoded field.
pub open spec fn number_result(r: Result<u64, String>) -> Result<u64, Seq<char>> {
    match r {
        Ok(n) => Ok(n),
        Err(message) => Err(message@),
    }
}

/// The text of an optional message.
pub open spec fn message_of(r: Option<String>) -> Option<Seq<char>> {
    match r {
        Some(message) => Some(message@),
        None => None,
    }
}

impl Data {
    /// The field of a record: a member by its name, or an item by its position.
    pub fn field(&self, position: usize, name: &str) -> (r: Option<&Data>)
        ensures
            maybe(r) == field(self@, position as int, name@),
    {
        match self {
            Data::Object(members) => {
                let ghost seen = self@->Object_0;
                let mut i: usize = 0;
                while i < members.len()
                    invariant
                        self@ == DataView::Object(seen),
                        i <= members@.len() == seen.len(),
                        forall|k: int|
                            0 <= k < seen.len() ==> #[trigger] seen[k] == (
                                members@[k].0@,
                                members@[k].1@,
                            ),
                        member_from(seen, name@, i as int) == member(seen, name@),
                    decreases members@.len() - i,
                {
                    assert(seen[i as int] == (members@[i as int].0@, members@[i as int].1@));
                    if same_text(members[i].0.as_str(), name) {
                        return Some(&members[i].1);
                    }
                    i = i + 1;
                }
                None
            },
            Data::Array(items) => if position < items.len() {
                assert(self@->Array_0[position as int] == items@[position as int]@);
                Some(&items[position])
            } else {
                None
            },
            _ => None,
        }
    }

    /// The value, in words.
    pub fn unexpected(&self) -> (r: String)
        ensures
            r@ == unexpected(self@),
    {
        let kind = match self {
            Data::Null => return "null".to_owned(),
            Data::Text(t) => return string_shown_as(debug_text(t.as_str()).as_str()),
            Data::Array(_) => return "sequence".to_owned(),
            Data::Object(_) => return "map".to_owned(),
            Data::Bool(_) => "boolean `",
            Data::Unsigned(_) => "integer `",
            Data::Negative(_) => "integer `",
            Data::Other(_) => "floating point `",
        };
        let mut text = kind.to_owned();
        text.append(self.to_json().as_str());
        text.append("`");
        text
    }

    /// The message that this value is of a kind that does not fit.
    pub fn wrong_kind(&self, expected: &str) -> (r: String)
        ensures
            r@ == wrong_kind(self@, expected@),
    {
        let mut text = "invalid type: ".to_owned();
        text.append(self.unexpected().as_str());
        text.append(", expected ");
        text.append(expected);
        text
    }

    /// The message that this value is out of range.
    pub fn wrong_value(&self, expected: &str) -> (r: String)
        ensures
            r@ == wrong_value(self@, expected@),
    {
        let mut text = "invalid value: ".to_owned();
        text.append(self.unexpected().as_str());
        text.append(", expected ");
        text.append(expected);
        text
    }

    /// The whole number that the value says.
    pub fn number(&self) -> (r: Result<u64, String>)
        ensures
            number_result(r) == number_of(self@),
    {
        match self {
            Data::Unsigned(n) => Ok(*n),
            Data::Negative(_) => Err(self.wrong_value("u64")),
            _ => Err(self.wrong_kind("u64")),
        }
    }

    /// Why the value is no text.
    pub fn text_misfit(&self) -> (r: Option<String>)
        ensures
            message_of(r) == text_misfit(self@),
    {
        match self {
            Data::Text(_) => None,
            _ => Some(self.wrong_kind("a string")),
        }
    }

    /// Why the value is neither a text nor null.
    pub fn optional_text_misfit(&self) -> (r: Option<String>)
        ensures
            message_of(r) == optional_text_misfit(self@),
    {
        match self {
            Data::Null => None,
            _ => self.text_misfit(),
        }
    }

    /// Why the first member of an object that does not fit does not.
    pub fn first_misfit<F: Fields>(&self, fields: F) -> (r: Option<String>)
        ensures
            message_of(r) == first_misfit(fields, self@),
    {
        match self {
            Data::Object(members) => {
                let ghost seen = self@->Object_0;
                let mut i: usize = 0;
                while i < members.len()
                    invariant
                        self@ == DataView::Object(seen),
                        i <= members@.len() == seen.len(),
                        forall|k: int|
                            0 <= k < seen.len() ==> #[trigger] seen[k] == (
                                members@[k].0@,
                                members@[k].1@,
                            ),
                        misfit_from(fields, seen, i as int) == misfit_from(fields, seen, 0),
                    decreases members@.len() - i,
                {
                    assert(seen[i as int] == (members@[i as int].0@, members@[i as int].1@));
                    if let Some(message) = fields.check(members[i].0.as_str(), &members[i].1) {
                        return Some(message);
                    }
                    i = i + 1;
                }
                None
            },
            _ => None,
        }
    }

    /// The tag of a value that says which record of the enum `name` it is.
    pub fn tag(&self, name: &str) -> (r: Result<&Data, String>)
        ensures
            found_value(r) == tag_of(self@, name@),
    {
        match self {
            Data::Object(_) => {},
            Data::Array(_) => {},
            _ => {
                let mut expected = "internally tagged enum ".to_owned();
                expected.append(name);
                return Err(self.wrong_kind(expected.as_str()));
            },
        }
        match self.field(0, "kind") {
            Some(tag) => Ok(tag),
            None => Err(missing_message("kind")),
        }
    }

    /// The name of a variant that the value says as a tag.
    pub fn variant(&self) -> (r: Result<String, String>)
        ensures
            text_result(r) == variant_of(self@),
    {
        match self {
            Data::Text(name) => Ok(name.clone()),
            _ => Err(self.wrong_kind("variant identifier")),
        }
    }
}

impl Shape {
    fn offset(self) -> (r: usize)
        ensures
            r == self.lead(),
            r <= 1,
    {
        match self.form {
            Form::Tagged => 1,
            _ => 0,
        }
    }

    /// The field of a record.
    pub fn field_of<'a>(self, record: &'a Data, position: u8, name: &str) -> (r: Option<
        &'a Data,
    >)
        ensures
            maybe(r) == self.field(record@, position as nat, name@),
    {
        record.field(self.offset() + position as usize, name)
    }

    /// The message for a field that is not there.
    pub fn absent_message(self, record: &Data, position: u8, name: &str) -> (r: String)
        ensures
            r@ == self.absent(record@, position as nat, name@),
    {
        match record {
            Data::Array(_) => {
                let mut expected = self.name.to_owned();
                expected.append(" with ");
                expected.append(elements_text(self.fields as usize).as_str());
                length_message(position as usize, expected.as_str())
            },
            _ => missing_message(name),
        }
    }

    /// Why a value can be no such record, if it cannot.
    pub fn error_of(self, v: &Data) -> (r: Option<String>)
        ensures
            message_of(r) == self.error(v@),
    {
        match v {
            Data::Object(_) => None,
            Data::Array(_) => None,
            _ => Some(v.wrong_kind(self.name)),
        }
    }

    /// The message for an array with items that are no fields.
    pub fn surplus_of(self, v: &Data) -> (r: Option<String>)
        ensures
            message_of(r) == self.surplus(v@),
    {
        match v {
            Data::Array(items) => {
                let n: usize = items.len();
                if n <= self.offset() + self.fields as usize {
                    None
                } else {
                    match self.form {
                        Form::Document => Some("trailing characters".to_owned()),
                        Form::Value => Some(length_message(n, "fewer elements in array")),
                        Form::Tagged => {
                            let mut expected = elements_text(self.fields as usize);
                            expected.append(" in sequence");
                            Some(length_message(n - 1, expected.as_str()))
                        },
                    }
                }
            },
            _ => None,
        }
    }

    /// A field that has to be a text.
    pub fn text_of(self, record: &Data, position: u8, name: &str) -> (r: Result<String, String>)
        ensures
            text_result(r) == self.text(record@, position as nat, name@),
    {
        match self.field_of(record, position, name) {
            Some(Data::Text(t)) => Ok(t.clone()),
            Some(v) => Err(v.wrong_kind("a string")),
            None => Err(self.absent_message(record, position, name)),
        }
    }

    /// A field that is a text, is null or is not there.
    pub fn optional_text_of(self, record: &Data, position: u8, name: &str) -> (r: Result<
        Option<String>,
        String,
    >)
        ensures
            optional_text_result(r) == self.optional_text(record@, position as nat, name@),
    {
        match self.field_of(record, position, name) {
            Some(Data::Text(t)) => Ok(Some(t.clone())),
            Some(Data::Null) => Ok(None),
            Some(v) => Err(v.wrong_kind("a string")),
            None => Ok(None),
        }
    }

    /// A field that has to be a whole number that is not negative.
    pub fn number_in(self, record: &Data, position: u8, name: &str) -> (r: Result<u64, String>)
        ensures
            number_result(r) == self.number(record@, position as nat, name@),
    {
        match self.field_of(record, position, name) {
            Some(v) => v.number(),
            None => Err(self.absent_message(record, position, name)),
        }
    }
}

/// A text that is shown in this way, in words.
pub fn string_shown_as(shown: &str) -> (r: String)
    ensures
        r@ == string_shown(shown@),
{
    let mut text = "string ".to_owned();
    text.append(shown);
    text
}

/// The message for an array of a length that does not fit.
pub fn length_message(len: usize, expected: &str) -> (r: String)
    ensures
        r@ == wrong_length(len as nat, expected@),
{
    let mut text = "invalid length ".to_owned();
    text.append(decimal_text(len as u64).as_str());
    text.append(", expected ");
    text.append(expected);
    text
}

/// A number of elements, in words.
pub fn elements_text(n: usize) -> (r: String)
    ensures
        r@ == elements(n as nat),
{
    if n == 1 {
        "1 element".to_owned()
    } else {
        let mut text = decimal_text(n as u64);
        text.append(" elements");
        text
    }
}

/// The message for a name that no variant has.
pub fn unknown_variant_message(name: &str, expected: &str) -> (r: String)
    ensures
        r@ == unknown_variant(name@, expected@),
{
    let mut text = "unknown variant `".to_owned();
    text.append(name);
    text.append("`, expected ");
    text.append(expected);
    text
}

/// The message for a field that is not there.
pub fn missing_message(name: &str) -> (r: String)
    ensures
        r@ == missing_field(name@),
{
    let mut text = "missing field `".to_owned();
    text.append(name);
    text.append("`");
    text
}

} // verus!
