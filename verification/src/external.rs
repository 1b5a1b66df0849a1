//! The calls into `serde_json`, `toml` and `std` that are taken on trust, each
//! with what it is taken to do.
use vstd::prelude::*;

use crate::data::{compact, depth_limit, plain, quoted, DataView, Node};

verus! {

// ---------------------------------------------------------------------------
// serde_json
// ---------------------------------------------------------------------------
/// A JSON value of `serde_json`.
#[verifier::external_type_specification]
#[verifier::external_body]
pub struct ExJsonValue(serde_json::Value);

/// What a JSON value of `serde_json` holds.
pub uninterp spec fn json_tree(v: serde_json::Value) -> DataView;

/// What `serde_json` reads in a text: the value, or the message of the error.
pub uninterp spec fn json_of_text(text: Seq<char>) -> Result<DataView, Seq<char>>;

/// A reading of `serde_json` as plain data.
pub open spec fn json_reading(r: Result<serde_json::Value, String>) -> Result<
    DataView,
    Seq<char>,
> {
    match r {
        Ok(v) => Ok(json_tree(v)),
        Err(message) => Err(message@),
    }
}

/// A reading that gave a value.
pub open spec fn done(d: DataView) -> Result<DataView, Seq<char>> {
    Ok(d)
}

/// `serde_json::from_str` into a `serde_json::Value`. What it reads in a text,
/// or the message of its error, depends on the text alone. Of a text that is
/// the compact JSON of a value it reads that value: members keep their order
/// (the feature `preserve_order`), whole numbers of 64 bits keep their value,
/// and its recursion limit of 128 lets containers be nested 127 deep. Which
/// other texts it takes, and what its messages say, is not stated.
#[verifier::external_body]
pub(crate) fn json_from_str(text: &str) -> (r: Result<serde_json::Value, String>)
    ensures
        json_of_text(text@) == json_reading(r),
        forall|d: DataView|
            plain(d, depth_limit()) && #[trigger] compact(d) == text@ ==> json_reading(r) == done(d),
{
    serde_json::from_str(text).map_err(|e| e.to_string())
}

/// One level of a `serde_json::Value`, taken apart by its variant: what the
/// value holds is what its variant says of what the values in it hold. A number
/// is taken as `Number::as_u64` or `Number::as_i64` gives it, and else as
/// `Display` writes it; the members of an object come in the order of the map.
#[verifier::external_body]
pub(crate) fn json_open(v: serde_json::Value) -> (r: Node<serde_json::Value>)
    ensures
        json_tree(v) == r.says(|w: serde_json::Value| json_tree(w)),
{
    match v {
        serde_json::Value::Null => Node::Null,
        serde_json::Value::Bool(b) => Node::Bool(b),
        serde_json::Value::Number(n) => match (n.as_u64(), n.as_i64()) {
            (Some(u), _) => Node::Unsigned(u),
            (None, Some(i)) => Node::Signed(i),
            (None, None) => Node::Other(n.to_string()),
        },
        serde_json::Value::String(s) => Node::Text(s),
        serde_json::Value::Array(items) => Node::Array(items),
        serde_json::Value::Object(members) => Node::Object(members.into_iter().collect()),
    }
}

/// `serde_json::to_string` of a `str`: the text in quotes, in which the quote,
/// the backslash and the control characters below the blank are escaped. It
/// does not fail on a text.
#[verifier::external_body]
pub(crate) fn json_quote(text: &str) -> (r: String)
    ensures
        r@ == quoted(text@),
{
    serde_json::to_string(text).unwrap_or_default()
}

// ---------------------------------------------------------------------------
// toml
// ---------------------------------------------------------------------------
/// A TOML value of `toml`.
#[verifier::external_type_specification]
#[verifier::external_body]
pub struct ExTomlValue(toml::Value);

/// What a TOML value of `toml` holds.
pub uninterp spec fn toml_tree(v: toml::Value) -> DataView;

/// What `toml` reads in a document: the value, or the message of the error.
pub uninterp spec fn toml_of_text(text: Seq<char>) -> Result<DataView, Seq<char>>;

/// A reading of `toml` as plain data.
pub open spec fn toml_reading(r: Result<toml::Value, String>) -> Result<DataView, Seq<char>> {
    match r {
        Ok(v) => Ok(toml_tree(v)),
        Err(message) => Err(message@),
    }
}

/// `toml::from_str` into a `toml::Value`. What it reads in a document, or the
/// message of its error, depends on the document alone. Which documents it
/// takes, and what its messages say, is not stated.
#[verifier::external_body]
pub(crate) fn toml_from_str(text: &str) -> (r: Result<toml::Value, String>)
    ensures
        toml_of_text(text@) == toml_reading(r),
{
    toml::from_str(text).map_err(|e| e.to_string())
}

/// One level of a `toml::Value`, taken apart by its variant: what the value
/// holds is what its variant says of what the values in it hold. A float and a
/// date are taken as `Display` writes them; the members of a table come in the
/// order of the table.
#[verifier::external_body]
pub(crate) fn toml_open(v: toml::Value) -> (r: Node<toml::Value>)
    ensures
        toml_tree(v) == r.says(|w: toml::Value| toml_tree(w)),
{
    match v {
        toml::Value::String(s) => Node::Text(s),
        toml::Value::Integer(i) => Node::Signed(i),
        toml::Value::Float(f) => Node::Other(f.to_string()),
        toml::Value::Boolean(b) => Node::Bool(b),
        toml::Value::Datetime(d) => Node::Other(d.to_string()),
        toml::Value::Array(items) => Node::Array(items),
        toml::Value::Table(members) => Node::Object(members.into_iter().collect()),
    }
}

// ---------------------------------------------------------------------------
// std
// ---------------------------------------------------------------------------
/// A time of the clock of the system.
#[verifier::external_type_specification]
#[verifier::external_body]
pub struct ExSystemTime(std::time::SystemTime);

/// The error of a time that is earlier than another one.
#[verifier::external_type_specification]
#[verifier::external_body]
pub struct ExSystemTimeError(std::time::SystemTimeError);

/// The current time, by `std::time::SystemTime::now`. Nothing is claimed of
/// which time it is.
#[verifier::external_body]
pub(crate) fn system_now() -> (r: std::time::SystemTime) {
    std::time::SystemTime::now()
}

/// The time that has passed from the Unix epoch to another time, by
/// `std::time::SystemTime::duration_since`; an error if that time is before the
/// epoch. Which of the two it is, is the clock's to say: nothing is claimed.
#[verifier::external_body]
pub(crate) fn since_epoch(time: std::time::SystemTime) -> (r: Result<
    std::time::Duration,
    std::time::SystemTimeError,
>) {
    time.duration_since(std::time::UNIX_EPOCH)
}

/// The whole milliseconds of a duration, by `std::time::Duration::as_millis`.
/// How long a duration is, is not visible here: nothing is claimed.
#[verifier::external_body]
pub(crate) fn whole_millis(elapsed: std::time::Duration) -> (r: u128) {
    elapsed.as_millis()
}

/// A text as `{:?}` of `std` shows it: in quotes, and escaped.
pub uninterp spec fn debug_form(text: Seq<char>) -> Seq<char>;

/// `format!` of `std` with `{:?}` on a `str`. The form is a function of the
/// text alone; how it escapes each character is not stated.
#[verifier::external_body]
pub(crate) fn debug_text(text: &str) -> (r: String)
    ensures
        r@ == debug_form(text@),
{
    format!("{text:?}")
}

} // verus!
