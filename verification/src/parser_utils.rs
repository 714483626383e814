//! Decoding: from the spelling of a key to the type of its value, and from
//! a literal to the value it denotes.
use crate::number::{int_literal, is_float, is_float_literal, parse_i64};
pub use crate::parser::utils::ParseError;
use crate::parser::utils::{agrees, ParseErrorView};
use crate::parser::ValueType;
use crate::store::{Value, ValueView};
use crate::text::{chars_of, lowercase, string_of, text_eq, texts, to_lowercase};
use vstd::prelude::*;
use vstd::string::StringExecFns;

verus! {

/// The type that a key names: the tag before its first `-`, in any case.
/// A key without a `-`, or with another word before it, names none.
pub open spec fn spec_type_from_key(key: Seq<char>) -> Option<ValueType> {
    match key.index_of_first('-') {
        Some(dash) => ValueType::spec_from_tag(lowercase(key.take(dash))),
        None => None,
    }
}

/// Infers the type of a value from the key it is stored under.
pub fn get_type_from_key(key: &str) -> (r: Option<ValueType>)
    ensures
        r == spec_type_from_key(key@),
{
    let chars = chars_of(key);
    let mut dash: usize = 0;
    while dash < chars.len() && chars[dash] != '-'
        invariant
            dash <= chars.len(),
            forall|j: int| 0 <= j < dash ==> chars@[j] != '-',
        decreases chars.len() - dash,
    {
        dash += 1;
    }
    proof {
        chars@.index_of_first_ensures('-');
    }
    if dash == chars.len() {
        return None;
    }
    assert(chars@.take(dash as int) == chars@.subrange(0, dash as int));
    let tag = string_of(&chars, 0, dash);
    let lower = to_lowercase(tag.as_str());
    ValueType::from_tag(lower.as_str())
}

/// The truth value that a lowercase word names.
pub open spec fn spec_bool_from_word(word: Seq<char>) -> Option<bool> {
    if word == "true"@ {
        Some(true)
    } else if word == "false"@ {
        Some(false)
    } else {
        None
    }
}

/// The truth value that a lowercase word names, if it names one.
pub fn bool_from_word(word: &str) -> (r: Option<bool>)
    ensures
        r == spec_bool_from_word(word@),
{
    if text_eq(word, "true") {
        Some(true)
    } else if text_eq(word, "false") {
        Some(false)
    } else {
        None
    }
}

/// The value that a literal denotes as a value of a type, or the error that
/// names the literal and the type.
pub open spec fn spec_parse_raw_value(raw_value: Seq<char>, to_type: ValueType) -> Result<
    ValueView,
    ParseErrorView,
> {
    let failure = Err(ParseErrorView::CannotBeParsedAs(raw_value, to_type));
    match to_type {
        ValueType::Str => Ok(ValueView::Str(raw_value)),
        ValueType::Int => match int_literal(raw_value) {
            Some(number) => Ok(ValueView::Int(number)),
            None => failure,
        },
        ValueType::Float => if is_float_literal(raw_value) {
            Ok(ValueView::Float(raw_value))
        } else {
            failure
        },
        ValueType::Bool => match spec_bool_from_word(lowercase(raw_value)) {
            Some(truth) => Ok(ValueView::Bool(truth)),
            None => failure,
        },
    }
}

/// Decodes a literal as a value of the given type.
pub fn parse_raw_value(raw_value: &str, to_type: ValueType) -> (r: Result<Value, String>)
    ensures
        agrees(r, spec_parse_raw_value(raw_value@, to_type)),
        r matches Ok(value) ==> value@.wf(),
{
    let parsed = match to_type {
        ValueType::Str => Some(Value::Str(String::from_str(raw_value))),
        ValueType::Int => match parse_i64(raw_value) {
            Some(number) => Some(Value::Int(number)),
            None => None,
        },
        ValueType::Float => if is_float(raw_value) {
            Some(Value::Float(String::from_str(raw_value)))
        } else {
            None
        },
        ValueType::Bool => match bool_from_word(to_lowercase(raw_value).as_str()) {
            Some(truth) => Some(Value::Bool(truth)),
            None => None,
        },
    };
    match parsed {
        Some(value) => Ok(value),
        None => Err(ParseError::CannotBeParsedAs(raw_value, to_type).to_string()),
    }
}

/// The key and the value that the words after `set` denote: the first word
/// is the key and names the type, the second is the literal of the value.
pub open spec fn spec_parse_key_value(parts: Seq<Seq<char>>) -> Result<
    (Seq<char>, ValueView),
    ParseErrorView,
> {
    if parts.len() == 0 {
        Err(ParseErrorView::MissingKey)
    } else {
        match spec_type_from_key(parts[0]) {
            None => Err(ParseErrorView::InvalidType),
            Some(to_type) => if parts.len() == 1 {
                Err(ParseErrorView::MissingValue)
            } else {
                match spec_parse_raw_value(parts[1], to_type) {
                    Err(error) => Err(error),
                    Ok(value) => Ok((parts[0], value)),
                }
            },
        }
    }
}

/// Reads the key and the value of a `set` command from the words after the
/// command's name.
pub fn parse_key_value(parts: &Vec<String>) -> (r: Result<(String, Value), String>)
    ensures
        agrees(r, spec_parse_key_value(texts(parts@))),
        r matches Ok(pair) ==> pair.1@.wf(),
{
    if parts.len() == 0 {
        return Err(ParseError::MissingKey.to_string());
    }
    let to_type = match get_type_from_key(parts[0].as_str()) {
        Some(to_type) => to_type,
        None => {
            return Err(ParseError::InvalidType.to_string());
        },
    };
    if parts.len() == 1 {
        return Err(ParseError::MissingValue.to_string());
    }
    match parse_raw_value(parts[1].as_str(), to_type) {
        Ok(value) => Ok((parts[0].clone(), value)),
        Err(text) => Err(text),
    }
}

} // verus!
