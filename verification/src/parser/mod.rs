//! From a request line to a typed command.
//!
//! A line is split into words. The first word, in any case, names the
//! command, and the words after it are its arguments. Two protocols read
//! them:
//!
//! - the single-key protocol, [`parse_input`], in which every command names
//!   at most one key and words after it are ignored;
//! - the bulk protocol, [`Parser::parse_input`], in which `del` and `touch`
//!   take one key or more and `set` takes options after its value.
//!
//! In the bulk protocol a `del` with exactly one key is the single deletion,
//! answered with the value that left; with more keys it is the bulk
//! deletion, answered with a count. The bulk forms have no name of their
//! own: the number of keys tells them apart.
//!
//! A first word that names no command is no error: it is kept, as typed, in
//! an unknown command.
use crate::commands::del_command::DelCommand;
use crate::commands::get_command::GetCommand;
use crate::commands::help_command::HelpCommand;
use crate::commands::set_command::SetCommand;
use crate::commands::touch_command::TouchCommand;
use crate::commands::{CommandTrait, CommandView, CommandWrapper};
use crate::parser_utils::{parse_key_value, spec_parse_key_value};
use crate::store::{Key, Value};
use crate::text::{
    is_word, lemma_words_are_words, lowercase, split_whitespace, text_eq, texts, to_lowercase, words,
};
use self::utils::{agrees, ParseError, ParseErrorView};
use vstd::prelude::*;
use vstd::string::StringExecFns;

pub mod utils;

verus! {

/// The types a value can have. A key names the type of its value before its
/// first `-`.
#[derive(Debug, Clone, Copy, PartialEq, Eq, Structural)]
pub enum ValueType {
    Str,
    Int,
    Float,
    Bool,
}

impl ValueType {
    /// The tag that names the type in keys and in the canonical text of values.
    pub open spec fn tag(self) -> Seq<char> {
        match self {
            ValueType::Str => "str"@,
            ValueType::Int => "int"@,
            ValueType::Float => "float"@,
            ValueType::Bool => "bool"@,
        }
    }

    /// The type that a lowercase tag names.
    pub open spec fn spec_from_tag(tag: Seq<char>) -> Option<ValueType> {
        if tag == "str"@ {
            Some(ValueType::Str)
        } else if tag == "int"@ {
            Some(ValueType::Int)
        } else if tag == "float"@ {
            Some(ValueType::Float)
        } else if tag == "bool"@ {
            Some(ValueType::Bool)
        } else {
            None
        }
    }

    pub fn as_str(&self) -> (r: &'static str)
        ensures
            r@ == self.tag(),
    {
        match self {
            ValueType::Str => "str",
            ValueType::Int => "int",
            ValueType::Float => "float",
            ValueType::Bool => "bool",
        }
    }

    /// The type that a lowercase tag names, if it names one.
    pub fn from_tag(tag: &str) -> (r: Option<ValueType>)
        ensures
            r == ValueType::spec_from_tag(tag@),
    {
        if text_eq(tag, "str") {
            Some(ValueType::Str)
        } else if text_eq(tag, "int") {
            Some(ValueType::Int)
        } else if text_eq(tag, "float") {
            Some(ValueType::Float)
        } else if text_eq(tag, "bool") {
            Some(ValueType::Bool)
        } else {
            None
        }
    }
}

/// A command of the single-key protocol: every command names at most one key.
pub enum Command {
    SetValue(Key, Value),
    Get(Key),
    Del(Key),
    Touch(Key),
    Help,
    Unknown(String),
    Empty,
}

impl View for Command {
    type V = CommandView;

    /// A single-key command is the general command with that one key and
    /// without options.
    open spec fn view(&self) -> CommandView {
        match self {
            Command::SetValue(key, value) => CommandView::SetValue {
                key: key@,
                value: value@,
                options: None,
            },
            Command::Get(key) => CommandView::Get { key: key@ },
            Command::Del(key) => CommandView::Del { keys: seq![key@] },
            Command::Touch(key) => CommandView::Touch { keys: seq![key@] },
            Command::Help => CommandView::Help,
            Command::Unknown(text) => CommandView::Unknown { text: text@ },
            Command::Empty => CommandView::Empty,
        }
    }
}

/// The one key that a single-key command names: the first word after the
/// command's name.
pub open spec fn spec_parse_key(parts: Seq<Seq<char>>) -> Result<Seq<char>, ParseErrorView> {
    if parts.len() == 0 {
        Err(ParseErrorView::MissingKey)
    } else {
        Ok(parts[0])
    }
}

/// The `set` command that the words after its name denote.
pub open spec fn spec_parse_set_command(parts: Seq<Seq<char>>) -> Result<CommandView, ParseErrorView> {
    match spec_parse_key_value(parts) {
        Ok(pair) => Ok(CommandView::SetValue { key: pair.0, value: pair.1, options: None }),
        Err(error) => Err(error),
    }
}

/// The `get` command that the words after its name denote.
pub open spec fn spec_parse_get_command(parts: Seq<Seq<char>>) -> Result<CommandView, ParseErrorView> {
    match spec_parse_key(parts) {
        Ok(key) => Ok(CommandView::Get { key }),
        Err(error) => Err(error),
    }
}

/// The `del` command that the words after its name denote.
pub open spec fn spec_parse_del_command(parts: Seq<Seq<char>>) -> Result<CommandView, ParseErrorView> {
    match spec_parse_key(parts) {
        Ok(key) => Ok(CommandView::Del { keys: seq![key] }),
        Err(error) => Err(error),
    }
}

/// The `touch` command that the words after its name denote.
pub open spec fn spec_parse_touch_command(parts: Seq<Seq<char>>) -> Result<
    CommandView,
    ParseErrorView,
> {
    match spec_parse_key(parts) {
        Ok(key) => Ok(CommandView::Touch { keys: seq![key] }),
        Err(error) => Err(error),
    }
}

/// What the single-key protocol makes of a request: `word` is its first word
/// as typed, `name` that word in lowercase, `parts` the words after it. The
/// name chooses the command; a word that names none is kept as typed.
pub open spec fn spec_parse_command(
    word: Seq<char>,
    name: Seq<char>,
    parts: Seq<Seq<char>>,
) -> Result<CommandView, ParseErrorView> {
    if name == "set"@ {
        spec_parse_set_command(parts)
    } else if name == "get"@ {
        spec_parse_get_command(parts)
    } else if name == "del"@ {
        spec_parse_del_command(parts)
    } else if name == "touch"@ {
        spec_parse_touch_command(parts)
    } else if name == "help"@ {
        Ok(CommandView::Help)
    } else {
        Ok(CommandView::Unknown { text: word })
    }
}

/// What the single-key protocol makes of a request line: the first word, in
/// lowercase, names the command, and the words after it are its arguments.
pub open spec fn spec_parse_input(line: Seq<char>) -> Result<CommandView, ParseErrorView> {
    let parts = words(line);
    if parts.len() == 0 {
        Ok(CommandView::Empty)
    } else {
        spec_parse_command(parts[0], lowercase(parts[0]), parts.drop_first())
    }
}

/// Parses a request line of the single-key protocol.
pub fn parse_input(input: String) -> (r: Result<Command, String>)
    ensures
        agrees(r, spec_parse_input(input@)),
{
    let mut parts = split_whitespace(input.as_str());
    if parts.len() == 0 {
        return Ok(Command::Empty);
    }
    let arguments = parts.split_off(1);
    let name = to_lowercase(parts[0].as_str());
    assert(texts(arguments@) == words(input@).drop_first());
    parse_command(parts[0].as_str(), name.as_str(), arguments)
}

/// Parses a command of the single-key protocol from the first word of the
/// request as typed, that word in lowercase, and the words after it.
pub fn parse_command(word: &str, name: &str, parts: Vec<String>) -> (r: Result<Command, String>)
    ensures
        agrees(r, spec_parse_command(word@, name@, texts(parts@))),
{
    if text_eq(name, "set") {
        parse_set_command(parts)
    } else if text_eq(name, "get") {
        parse_get_command(parts)
    } else if text_eq(name, "del") {
        parse_del_command(parts)
    } else if text_eq(name, "touch") {
        parse_touch_command(parts)
    } else if text_eq(name, "help") {
        parse_help_command()
    } else {
        parse_unknown_command(word)
    }
}

fn parse_key(parts: &Vec<String>) -> (r: Result<Key, String>)
    ensures
        agrees(r, spec_parse_key(texts(parts@))),
{
    if parts.len() == 0 {
        return Err(ParseError::MissingKey.to_string());
    }
    Ok(parts[0].clone())
}

/// Reads a `set` command of the single-key protocol from the words after its
/// name: the key, then the literal of the value.
pub fn parse_set_command(parts: Vec<String>) -> (r: Result<Command, String>)
    ensures
        agrees(r, spec_parse_set_command(texts(parts@))),
{
    match parse_key_value(&parts) {
        Ok(pair) => Ok(Command::SetValue(pair.0, pair.1)),
        Err(text) => Err(text),
    }
}

/// Reads a `get` command from the words after its name.
pub fn parse_get_command(parts: Vec<String>) -> (r: Result<Command, String>)
    ensures
        agrees(r, spec_parse_get_command(texts(parts@))),
{
    match parse_key(&parts) {
        Ok(key) => Ok(Command::Get(key)),
        Err(text) => Err(text),
    }
}

/// Reads a `del` command of the single-key protocol from the words after its
/// name.
pub fn parse_del_command(parts: Vec<String>) -> (r: Result<Command, String>)
    ensures
        agrees(r, spec_parse_del_command(texts(parts@))),
{
    match parse_key(&parts) {
        Ok(key) => Ok(Command::Del(key)),
        Err(text) => Err(text),
    }
}

/// Reads a `touch` command of the single-key protocol from the words after
/// its name.
pub fn parse_touch_command(parts: Vec<String>) -> (r: Result<Command, String>)
    ensures
        agrees(r, spec_parse_touch_command(texts(parts@))),
{
    match parse_key(&parts) {
        Ok(key) => Ok(Command::Touch(key)),
        Err(text) => Err(text),
    }
}

/// The `help` command, which takes no arguments.
pub fn parse_help_command() -> (r: Result<Command, String>)
    ensures
        r matches Ok(command) && command@ == CommandView::Help,
{
    Ok(Command::Help)
}

/// The command that stands for a word that names no command: it keeps the
/// word as it is given.
pub fn parse_unknown_command(cmd: &str) -> (r: Result<Command, String>)
    ensures
        r matches Ok(command) && command@ == (CommandView::Unknown { text: cmd@ }),
{
    Ok(Command::Unknown(String::from_str(cmd)))
}

/// The parser of the bulk protocol: `del` and `touch` take any number of
/// keys, and `set` takes options.
pub struct Parser;

impl Parser {
    /// What the bulk protocol makes of a request: `word` is its first word
    /// as typed, `name` that word in lowercase, `parts` the words after it.
    /// The name chooses the command; a word that names none is kept as typed.
    pub open spec fn spec_parse_command(
        word: Seq<char>,
        name: Seq<char>,
        parts: Seq<Seq<char>>,
    ) -> Result<CommandView, ParseErrorView> {
        if name == "set"@ {
            SetCommand::spec_from_parts(parts)
        } else if name == "get"@ {
            GetCommand::spec_from_parts(parts)
        } else if name == "del"@ {
            DelCommand::spec_from_parts(parts)
        } else if name == "touch"@ {
            TouchCommand::spec_from_parts(parts)
        } else if name == "help"@ {
            HelpCommand::spec_from_parts(parts)
        } else {
            Ok(CommandView::Unknown { text: word })
        }
    }

    /// What the bulk protocol makes of a request line: the first word, in
    /// lowercase, names the command, and the words after it are its
    /// arguments.
    pub open spec fn spec_parse_input(line: Seq<char>) -> Result<CommandView, ParseErrorView> {
        let parts = words(line);
        if parts.len() == 0 {
            Ok(CommandView::Empty)
        } else {
            Parser::spec_parse_command(parts[0], lowercase(parts[0]), parts.drop_first())
        }
    }

    /// Parses a request line.
    pub fn parse_input(input: String) -> (r: Result<CommandWrapper, String>)
        ensures
            agrees(r, Parser::spec_parse_input(input@)),
    {
        let mut parts = split_whitespace(input.as_str());
        if parts.len() == 0 {
            return Ok(CommandWrapper::Empty);
        }
        let arguments = parts.split_off(1);
        let name = to_lowercase(parts[0].as_str());
        assert(texts(arguments@) == words(input@).drop_first());
        Parser::parse_command(parts[0].as_str(), name.as_str(), arguments)
    }

    /// Parses a command from the first word of the request as typed, that
    /// word in lowercase, and the words after it.
    pub fn parse_command(word: &str, name: &str, parts: Vec<String>) -> (r: Result<
        CommandWrapper,
        String,
    >)
        ensures
            agrees(r, Parser::spec_parse_command(word@, name@, texts(parts@))),
    {
        if text_eq(name, "set") {
            SetCommand::from_parts(parts)
        } else if text_eq(name, "get") {
            GetCommand::from_parts(parts)
        } else if text_eq(name, "del") {
            DelCommand::from_parts(parts)
        } else if text_eq(name, "touch") {
            TouchCommand::from_parts(parts)
        } else if text_eq(name, "help") {
            HelpCommand::from_parts(parts)
        } else {
            Ok(CommandWrapper::Unknown(String::from_str(word)))
        }
    }
}

/// Whether every key that a parsed command names is a word.
pub open spec fn names_words(parsed: Result<CommandView, ParseErrorView>) -> bool {
    parsed matches Ok(command) ==> forall|i: int|
        0 <= i < command.keys().len() ==> is_word(#[trigger] command.keys()[i])
}

/// A key is one word: every key that a parsed line names holds at least one
/// character and no whitespace, in either protocol.
pub proof fn lemma_parsed_keys_are_words(line: Seq<char>)
    ensures
        names_words(spec_parse_input(line)),
        names_words(Parser::spec_parse_input(line)),
{
    let all = words(line);
    lemma_words_are_words(line);
    if all.len() > 0 {
        let name = lowercase(all[0]);
        let parts = all.drop_first();
        assert forall|i: int| 0 <= i < parts.len() implies is_word(#[trigger] parts[i]) by {
            assert(parts[i] == all[i + 1]);
        }
        assert(names_words(spec_parse_command(all[0], name, parts)));
        assert(names_words(Parser::spec_parse_command(all[0], name, parts)));
    }
}

} // verus!
