//! A tool that adds two numbers: what its arguments are.
use vstd::prelude::*;

use crate::data::{compact, Data, DataView};
use crate::decode::{failure, first_misfit, text_result, wrong_kind, Fields, Form, Shape};
use crate::text::same_text;
use crate::tool::{ToolError, ToolErrorView};
use crate::tools::catalogue;

verus! {

/// Adds two numbers. The numbers are handed on as they are written.
pub struct AddNumbers;

/// The arguments of a call as a record.
pub open spec fn add_shape() -> Shape {
    Shape { name: "struct AddArgs", fields: 2, form: Form::Value }
}

/// A number, as it is written.
pub open spec fn written(v: DataView) -> Result<Seq<char>, Seq<char>> {
    match v {
        DataView::Unsigned(_) | DataView::Negative(_) | DataView::Other(_) => Ok(compact(v)),
        _ => Err(wrong_kind(v, "f64"@)),
    }
}

/// What the arguments of a call have to be.
pub struct AddFields;

impl Fields for AddFields {
    open spec fn misfit(&self, name: Seq<char>, v: DataView) -> Option<Seq<char>> {
        if name == "a"@ || name == "b"@ {
            failure(written(v))
        } else {
            None
        }
    }

    fn check(&self, name: &str, v: &Data) -> (r: Option<String>) {
        if same_text(name, "a") || same_text(name, "b") {
            match write_number(v) {
                Ok(_) => None,
                Err(message) => Some(message),
            }
        } else {
            None
        }
    }
}

/// A field that has to be a number, as it is written.
pub open spec fn written_number(v: DataView, position: nat, name: Seq<char>) -> Result<
    Seq<char>,
    Seq<char>,
> {
    match add_shape().field(v, position, name) {
        None => Err(add_shape().absent(v, position, name)),
        Some(number) => written(number),
    }
}

/// The two numbers of a call, as they are written.
pub open spec fn written_operands(arguments: DataView) -> Result<
    (Seq<char>, Seq<char>),
    ToolErrorView,
> {
    let fields = match written_number(arguments, 0, "a"@) {
        Err(message) => Err(message),
        Ok(a) => match written_number(arguments, 1, "b"@) {
            Err(message) => Err(message),
            Ok(b) => Ok((a, b)),
        },
    };
    match add_shape().decoded(arguments, first_misfit(AddFields, arguments), fields) {
        Err(message) => Err(ToolErrorView::InvalidArguments(message)),
        Ok(pair) => Ok(pair),
    }
}

fn write_number(number: &Data) -> (r: Result<String, String>)
    ensures
        text_result(r) == written(number@),
{
    match number {
        Data::Unsigned(_) => Ok(number.to_json()),
        Data::Negative(_) => Ok(number.to_json()),
        Data::Other(_) => Ok(number.to_json()),
        _ => Err(number.wrong_kind("f64")),
    }
}

fn read_number(args: &Data, position: u8, name: &str) -> (r: Result<String, String>)
    ensures
        text_result(r) == written_number(args@, position as nat, name@),
{
    let shape = Shape { name: "struct AddArgs", fields: 2, form: Form::Value };
    match shape.field_of(args, position, name) {
        None => Err(shape.absent_message(args, position, name)),
        Some(number) => write_number(number),
    }
}

impl AddNumbers {
    /// The name of the tool.
    pub fn name(&self) -> (r: &'static str)
        ensures
            r@ == "add_numbers"@,
            r@ == catalogue()[1].0,
    {
        "add_numbers"
    }

    /// What the tool does, in words.
    pub fn description(&self) -> (r: &'static str)
        ensures
            r@ == "Adds two numbers `a` and `b` and returns their sum."@,
            r@ == catalogue()[1].1,
    {
        "Adds two numbers `a` and `b` and returns their sum."
    }

    /// The two numbers of a call, as they are written.
    pub fn operands(&self, args: &Data) -> (r: Result<(String, String), ToolError>)
        ensures
            match r {
                Ok(pair) => written_operands(args@) == Ok::<(Seq<char>, Seq<char>), ToolErrorView>(
                    (pair.0@, pair.1@),
                ),
                Err(e) => written_operands(args@) == Err::<(Seq<char>, Seq<char>), ToolErrorView>(
                    e@,
                ),
            },
    {
        let shape = Shape { name: "struct AddArgs", fields: 2, form: Form::Value };
        if let Some(message) = shape.error_of(args) {
            return Err(ToolError::InvalidArguments(message));
        }
        if let Some(message) = args.first_misfit(AddFields) {
            return Err(ToolError::InvalidArguments(message));
        }
        let a = match read_number(args, 0, "a") {
            Err(message) => return Err(ToolError::InvalidArguments(message)),
            Ok(a) => a,
        };
        let b = match read_number(args, 1, "b") {
            Err(message) => return Err(ToolError::InvalidArguments(message)),
            Ok(b) => b,
        };
        match shape.surplus_of(args) {
            Some(message) => Err(ToolError::InvalidArguments(message)),
            None => Ok((a, b)),
        }
    }
}

} // verus!
