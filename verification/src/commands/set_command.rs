use super::{stores, CommandTrait, CommandView, CommandWrapper};
use crate::parser::utils::{ParseError, ParseErrorView};
use crate::parser_utils::{parse_key_value, spec_parse_key_value};
use crate::store::{Store, Value};
use crate::text::{lowercase, text_eq, texts, to_lowercase};
use vstd::prelude::*;
use vstd::slice::slice_subrange;
use vstd::string::StringExecFns;

verus! {

/// Whether a `set` asks for a key that exists or for one that does not.
#[derive(Clone, Copy, PartialEq)]
pub enum SetXxNx {
    /// Set the key only if it already exists
    Xx,
    /// Only set the key if it does not already exist
    Nx,
}

/// The options of a `set` command.
#[derive(Clone, Copy)]
pub struct SetCommandOptions {
    /// Set the key only if it already exists or does not exist (`x` is for existence)
    pub x: Option<SetXxNx>,
    /// Get the value of the key before setting it
    pub get: Option<bool>,
    /// timestamp-milliseconds -- Set the specified Unix time at which the key will expire, in milliseconds (a positive integer)
    pub pxat: Option<u64>,
    /// Retain the time to live of the key
    pub keep_ttl: Option<bool>,
}

/// What one word does to the options read so far.
pub enum OptionStep {
    /// The word is an option: these are the options with it.
    Next(SetCommandOptions),
    /// The word is no option: the options end before it.
    Stop,
    /// The word asks for `nx` after `xx`, or for `xx` after `nx`.
    Conflict,
}

impl SetCommandOptions {
    /// No option chosen.
    pub open spec fn none() -> SetCommandOptions {
        SetCommandOptions { x: None, get: None, pxat: None, keep_ttl: None }
    }

    /// What a lowercase word does to the options.
    pub open spec fn spec_apply(self, word: Seq<char>) -> OptionStep {
        if word == "xx"@ {
            if self.x == Some(SetXxNx::Nx) {
                OptionStep::Conflict
            } else {
                OptionStep::Next(SetCommandOptions { x: Some(SetXxNx::Xx), ..self })
            }
        } else if word == "nx"@ {
            if self.x == Some(SetXxNx::Xx) {
                OptionStep::Conflict
            } else {
                OptionStep::Next(SetCommandOptions { x: Some(SetXxNx::Nx), ..self })
            }
        } else if word == "get"@ {
            OptionStep::Next(SetCommandOptions { get: Some(true), ..self })
        } else if word == "keepttl"@ {
            OptionStep::Next(SetCommandOptions { keep_ttl: Some(true), ..self })
        } else {
            OptionStep::Stop
        }
    }

    /// The options after the words of `parts`, each taken in lowercase, up to
    /// the first word that is no option; or the error where two of them
    /// contradict each other.
    pub open spec fn spec_scan(self, parts: Seq<Seq<char>>) -> Result<
        SetCommandOptions,
        ParseErrorView,
    >
        decreases parts.len(),
    {
        if parts.len() == 0 {
            Ok(self)
        } else {
            match self.spec_apply(lowercase(parts[0])) {
                OptionStep::Next(options) => options.spec_scan(parts.drop_first()),
                OptionStep::Stop => Ok(self),
                OptionStep::Conflict => Err(
                    ParseErrorView::InvalidCommandOptions("Cannot use nx and xx together"@),
                ),
            }
        }
    }

    /// What a lowercase word does to the options.
    pub fn apply(&self, word: &str) -> (r: OptionStep)
        ensures
            r == self.spec_apply(word@),
    {
        let mut options = *self;
        if text_eq(word, "xx") {
            if matches!(self.x, Some(SetXxNx::Nx)) {
                return OptionStep::Conflict;
            }
            options.x = Some(SetXxNx::Xx);
        } else if text_eq(word, "nx") {
            if matches!(self.x, Some(SetXxNx::Xx)) {
                return OptionStep::Conflict;
            }
            options.x = Some(SetXxNx::Nx);
        } else if text_eq(word, "get") {
            options.get = Some(true);
        } else if text_eq(word, "keepttl") {
            options.keep_ttl = Some(true);
        } else {
            return OptionStep::Stop;
        }
        OptionStep::Next(options)
    }

    /// Reads the options of a `set` command from the words after its value.
    pub fn get_options_from_parts(parts: &[String]) -> (r: Result<Option<SetCommandOptions>, String>)
        ensures
            match SetCommandOptions::none().spec_scan(texts(parts@)) {
                Ok(options) => r == Ok::<Option<SetCommandOptions>, String>(Some(options)),
                Err(error) => r matches Err(text) && text@ == error.message(),
            },
    {
        let ghost words = texts(parts@);
        let mut options = SetCommandOptions { x: None, get: None, pxat: None, keep_ttl: None };
        let mut i: usize = 0;
        assert(words.skip(0) == words);
        while i < parts.len()
            invariant
                i <= parts.len(),
                words == texts(parts@),
                SetCommandOptions::none().spec_scan(words) == options.spec_scan(
                    words.skip(i as int),
                ),
            decreases parts.len() - i,
        {
            let word = to_lowercase(parts[i].as_str());
            assert(words.skip(i as int)[0] == parts@[i as int]@);
            assert(words.skip(i as int).drop_first() == words.skip(i + 1));
            match options.apply(word.as_str()) {
                OptionStep::Next(next) => {
                    options = next;
                },
                OptionStep::Stop => {
                    return Ok(Some(options));
                },
                OptionStep::Conflict => {
                    return Err(
                        ParseError::InvalidCommandOptions(
                            "Cannot use nx and xx together",
                        ).to_string(),
                    );
                },
            }
            i += 1;
        }
        Ok(Some(options))
    }
}

/// `set`: stores a value under a key. The options are read and kept; they do
/// not change what the command does.
pub struct SetCommand {
    pub key: String,
    pub value: Value,
    pub options: Option<SetCommandOptions>,
}

impl View for SetCommand {
    type V = CommandView;

    open spec fn view(&self) -> CommandView {
        CommandView::SetValue { key: self.key@, value: self.value@, options: self.options }
    }
}

impl CommandTrait for SetCommand {
    open spec fn spec_from_parts(parts: Seq<Seq<char>>) -> Result<CommandView, ParseErrorView> {
        match spec_parse_key_value(parts) {
            Err(error) => Err(error),
            Ok(pair) => match SetCommandOptions::none().spec_scan(parts.skip(2)) {
                Err(error) => Err(error),
                Ok(options) => Ok(
                    CommandView::SetValue { key: pair.0, value: pair.1, options: Some(options) },
                ),
            },
        }
    }

    fn from_parts(parts: Vec<String>) -> (r: Result<CommandWrapper, String>) {
        let (key, value) = match parse_key_value(&parts) {
            Ok(pair) => pair,
            Err(text) => {
                return Err(text);
            },
        };
        let rest = slice_subrange(parts.as_slice(), 2, parts.len());
        assert(texts(rest@) == texts(parts@).skip(2));
        let options = match SetCommandOptions::get_options_from_parts(rest) {
            Ok(options) => options,
            Err(text) => {
                return Err(text);
            },
        };
        Ok(CommandWrapper::SetValue(Self { key, value, options }))
    }

    fn execute(self, store: &mut Store) -> (r: Result<String, String>) {
        store.set(self.key, self.value);
        let reply = String::from_str("OK");
        assert(stores(old(store)@, self.key@, self.value@, store@, reply@));
        Ok(reply)
    }
}

} // verus!
