//! The ways in which a command line can fail to parse.
use crate::parser::ValueType;
use vstd::prelude::*;
use vstd::string::StringExecFns;

verus! {

pub enum ParseError<'a> {
    /// A single-key command came without its key.
    MissingKey,
    /// A bulk command came without any key.
    MissingKeys,
    /// A `set` command came without its value.
    MissingValue,
    /// The key of a `set` command names no known type before its first `-`.
    InvalidType,
    /// The literal is no value of the type.
    CannotBeParsedAs(&'a str, ValueType),
    /// The options of a command contradict each other.
    InvalidCommandOptions(&'a str),
    /// An option of a command came with a value that it cannot take.
    InvalidCommandOptionValue(&'a str),
}

/// What a `ParseError` holds, as mathematics.
pub enum ParseErrorView {
    MissingKey,
    MissingKeys,
    MissingValue,
    InvalidType,
    CannotBeParsedAs(Seq<char>, ValueType),
    InvalidCommandOptions(Seq<char>),
    InvalidCommandOptionValue(Seq<char>),
}

impl ParseErrorView {
    /// The text that reports the error to the client.
    pub open spec fn message(self) -> Seq<char> {
        match self {
            ParseErrorView::MissingKey => "No key provided"@,
            ParseErrorView::MissingKeys => "No keys provided"@,
            ParseErrorView::MissingValue => "No value provided"@,
            ParseErrorView::InvalidType => "Invalid type"@,
            ParseErrorView::CannotBeParsedAs(literal, to_type) => literal
                + " cannot be parsed as a ("@ + to_type.tag() + ")"@,
            ParseErrorView::InvalidCommandOptions(reason) => "Invalid command options: "@ + reason,
            ParseErrorView::InvalidCommandOptionValue(reason) => "Invalid command option value: "@
                + reason,
        }
    }
}

impl<'a> View for ParseError<'a> {
    type V = ParseErrorView;

    open spec fn view(&self) -> ParseErrorView {
        match self {
            ParseError::MissingKey => ParseErrorView::MissingKey,
            ParseError::MissingKeys => ParseErrorView::MissingKeys,
            ParseError::MissingValue => ParseErrorView::MissingValue,
            ParseError::InvalidType => ParseErrorView::InvalidType,
            ParseError::CannotBeParsedAs(literal, to_type) => ParseErrorView::CannotBeParsedAs(
                literal@,
                *to_type,
            ),
            ParseError::InvalidCommandOptions(reason) => ParseErrorView::InvalidCommandOptions(
                reason@,
            ),
            ParseError::InvalidCommandOptionValue(reason) => {
                ParseErrorView::InvalidCommandOptionValue(reason@)
            },
        }
    }
}

impl<'a> ParseError<'a> {
    /// The text that reports the error to the client.
    pub fn to_string(&self) -> (r: String)
        ensures
            r@ == self@.message(),
    {
        match self {
            ParseError::MissingKey => String::from_str("No key provided"),
            ParseError::MissingKeys => String::from_str("No keys provided"),
            ParseError::MissingValue => String::from_str("No value provided"),
            ParseError::InvalidType => String::from_str("Invalid type"),
            ParseError::CannotBeParsedAs(literal, to_type) => String::from_str(literal).concat(
                " cannot be parsed as a (",
            ).concat(to_type.as_str()).concat(")"),
            ParseError::InvalidCommandOptions(reason) => String::from_str(
                "Invalid command options: ",
            ).concat(reason),
            ParseError::InvalidCommandOptionValue(reason) => String::from_str(
                "Invalid command option value: ",
            ).concat(reason),
        }
    }
}

/// Whether a parse ended as expected: with the expected value, or with the
/// message of the expected error.
pub open spec fn agrees<T: View>(r: Result<T, String>, expected: Result<T::V, ParseErrorView>) -> bool {
    match (r, expected) {
        (Ok(value), Ok(model)) => value@ == model,
        (Err(text), Err(error)) => text@ == error.message(),
        _ => false,
    }
}

} // verus!
