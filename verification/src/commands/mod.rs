//! The commands of the protocol: what each holds, how it is read from the
//! words of a request, and what running it does to the store.
use crate::number::decimal;
use crate::parser::utils::{agrees, ParseErrorView};
use crate::store::{Store, Entries, ValueView};
use crate::text::texts;
use vstd::prelude::*;

use self::del_command::DelCommand;
use self::delmany_command::DelManyCommand;
use self::get_command::GetCommand;
use self::help_command::{HelpCommand, HELP_MESSAGE};
use self::set_command::{SetCommand, SetCommandOptions};
use self::touch_command::TouchCommand;
use self::touchmany_command::TouchManyCommand;

pub mod del_command;
pub mod delmany_command;
pub mod get_command;
pub mod help_command;
pub mod set_command;
pub mod touch_command;
pub mod touchmany_command;

verus! {

/// A command of the bulk protocol, ready to run.
pub enum CommandWrapper {
    SetValue(SetCommand),
    Get(GetCommand),
    Del(DelCommand),
    DelMany(DelManyCommand),
    Touch(TouchCommand),
    TouchMany(TouchManyCommand),
    Help(HelpCommand),
    Unknown(String),
    Empty,
}

/// What a command holds, as mathematics.
pub enum CommandView {
    SetValue { key: Seq<char>, value: ValueView, options: Option<SetCommandOptions> },
    Get { key: Seq<char> },
    Del { keys: Seq<Seq<char>> },
    DelMany { keys: Seq<Seq<char>> },
    Touch { keys: Seq<Seq<char>> },
    TouchMany { keys: Seq<Seq<char>> },
    Help,
    Unknown { text: Seq<char> },
    Empty,
}

impl CommandView {
    /// The keys that the command names.
    pub open spec fn keys(self) -> Seq<Seq<char>> {
        match self {
            CommandView::SetValue { key, .. } => seq![key],
            CommandView::Get { key } => seq![key],
            CommandView::Del { keys } => keys,
            CommandView::DelMany { keys } => keys,
            CommandView::Touch { keys } => keys,
            CommandView::TouchMany { keys } => keys,
            _ => Seq::empty(),
        }
    }
}

impl View for CommandWrapper {
    type V = CommandView;

    open spec fn view(&self) -> CommandView {
        match self {
            CommandWrapper::SetValue(command) => command@,
            CommandWrapper::Get(command) => command@,
            CommandWrapper::Del(command) => command@,
            CommandWrapper::DelMany(command) => command@,
            CommandWrapper::Touch(command) => command@,
            CommandWrapper::TouchMany(command) => command@,
            CommandWrapper::Help(command) => command@,
            CommandWrapper::Unknown(text) => CommandView::Unknown { text: text@ },
            CommandWrapper::Empty => CommandView::Empty,
        }
    }
}

/// The reply to a lookup or a single deletion that found nothing.
pub open spec fn or_not_found(found: Option<Seq<char>>) -> Seq<char> {
    match found {
        Some(text) => text,
        None => "Key not found"@,
    }
}

/// What deleting `keys` does: every entry under one of them leaves, and the
/// reply counts the entries that left.
pub open spec fn deletes(pre: Entries, keys: Seq<Seq<char>>, post: Entries, reply: Seq<char>) -> bool {
    &&& post == pre.remove_keys(keys.to_set())
    &&& reply == decimal(keys.to_set().intersect(pre.dom()).len())
}

/// What touching `keys` does: each is accessed in turn, at some time, and
/// the reply counts the keys that were present.
pub open spec fn touches(pre: Entries, keys: Seq<Seq<char>>, post: Entries, reply: Seq<char>) -> bool {
    &&& reply == decimal(Store::present(pre, keys))
    &&& exists|times: Seq<u128>|
        times.len() == keys.len() && post == Store::spec_touch_many(pre, keys, times)
}

/// What storing `value` under `key` does: the entry takes the value, at some
/// time where there was one before, and the reply is `OK`.
pub open spec fn stores(
    pre: Entries,
    key: Seq<char>,
    value: ValueView,
    post: Entries,
    reply: Seq<char>,
) -> bool {
    &&& reply == "OK"@
    &&& exists|now: u128| post == Store::spec_set(pre, key, value, now)
}

/// What looking `key` up does: the entry is accessed, at some time, and the
/// reply is the canonical text of its value.
pub open spec fn looks_up(pre: Entries, key: Seq<char>, post: Entries, reply: Seq<char>) -> bool {
    &&& reply == or_not_found(Store::spec_get(pre, key))
    &&& exists|now: u128| post == Store::spec_touch(pre, key, now)
}

/// What deleting the one `key` does: its entry leaves, and the reply is the
/// canonical text of the value that left with it.
pub open spec fn deletes_one(pre: Entries, key: Seq<char>, post: Entries, reply: Seq<char>) -> bool {
    &&& post == pre.remove(key)
    &&& reply == or_not_found(Store::spec_get(pre, key))
}

/// Whether running `command` on the store `pre` can leave the store `post`
/// and answer `reply`. The clock decides the time of each access and nothing
/// else. A `del` with one key answers with the value, with any other number
/// of keys with a count.
pub open spec fn outcome(pre: Entries, command: CommandView, post: Entries, reply: Seq<char>) -> bool {
    match command {
        CommandView::SetValue { key, value, options } => stores(pre, key, value, post, reply),
        CommandView::Get { key } => looks_up(pre, key, post, reply),
        CommandView::Del { keys } => if keys.len() == 1 {
            deletes_one(pre, keys[0], post, reply)
        } else {
            deletes(pre, keys, post, reply)
        },
        CommandView::DelMany { keys } => deletes(pre, keys, post, reply),
        CommandView::Touch { keys } => touches(pre, keys, post, reply),
        CommandView::TouchMany { keys } => touches(pre, keys, post, reply),
        CommandView::Help => post == pre && reply == HELP_MESSAGE@,
        CommandView::Unknown { text } => post == pre && reply == "Unknown command: "@ + text,
        CommandView::Empty => post == pre && reply == Seq::<char>::empty(),
    }
}

/// What every command of the protocol offers.
pub trait CommandTrait: Sized + View<V = CommandView> {
    /// The command that the words after a command's name denote, or the
    /// error in them.
    spec fn spec_from_parts(parts: Seq<Seq<char>>) -> Result<CommandView, ParseErrorView>;

    /// Reads the command from the words of a request. The parts do not
    /// include the command's name.
    fn from_parts(parts: Vec<String>) -> (r: Result<CommandWrapper, String>)
        ensures
            agrees(r, Self::spec_from_parts(texts(parts@))),
    ;

    /// Runs the command on the store and answers with the reply.
    fn execute(self, store: &mut Store) -> (r: Result<String, String>)
        ensures
            r matches Ok(reply) && outcome(old(store)@, self@, final(store)@, reply@),
    ;
}

} // verus!
