use super::{CommandTrait, CommandView, CommandWrapper};
use crate::parser::utils::ParseErrorView;
use crate::store::Store;
use vstd::prelude::*;
use vstd::string::StringExecFns;

verus! {

/// `help`: answers with the help text.
pub struct HelpCommand;

/// The help text: the commands, and how a key names the type of its value.
pub const HELP_MESSAGE: &'static str =
    "Commands:\n  set <type>-<key> <value>    - Set a key-value pair\n       |\n       └─ <type> can be one of: str, int, float, bool\n          For example: `set str-name Kiwi`, `set int-age 30`, `set float-pi 3.14`, `set bool-are_kiwis_good true`\n  get <key>                   - Get the value associated with a key\n  del <key>                   - Delete a key-value pair\n  del <key> <key> ...         - Delete key-value pairs and count them\n  touch <key> ...             - Record an access to keys and count them\n  help                        - Show this help message";

impl View for HelpCommand {
    type V = CommandView;

    open spec fn view(&self) -> CommandView {
        CommandView::Help
    }
}

impl CommandTrait for HelpCommand {
    open spec fn spec_from_parts(parts: Seq<Seq<char>>) -> Result<CommandView, ParseErrorView> {
        Ok(CommandView::Help)
    }

    fn from_parts(_parts: Vec<String>) -> (r: Result<CommandWrapper, String>) {
        Ok(CommandWrapper::Help(Self))
    }

    fn execute(self, _store: &mut Store) -> (r: Result<String, String>) {
        Ok(String::from_str(HELP_MESSAGE))
    }
}

} // verus!
