use super::{CommandTrait, CommandView, CommandWrapper};
use crate::number::u64_to_string;
use crate::parser::utils::{ParseError, ParseErrorView};
use crate::store::Store;
use crate::text::texts;
use vstd::prelude::*;

verus! {

/// `touch`: records an access to each key and answers with the number of
/// keys that were present.
pub struct TouchCommand {
    pub keys: Vec<String>,
}

impl View for TouchCommand {
    type V = CommandView;

    open spec fn view(&self) -> CommandView {
        CommandView::Touch { keys: texts(self.keys@) }
    }
}

impl CommandTrait for TouchCommand {
    open spec fn spec_from_parts(parts: Seq<Seq<char>>) -> Result<CommandView, ParseErrorView> {
        if parts.len() == 0 {
            Err(ParseErrorView::MissingKeys)
        } else {
            Ok(CommandView::Touch { keys: parts })
        }
    }

    fn from_parts(parts: Vec<String>) -> (r: Result<CommandWrapper, String>) {
        if parts.len() == 0 {
            return Err(ParseError::MissingKeys.to_string());
        }
        Ok(CommandWrapper::Touch(Self { keys: parts }))
    }

    fn execute(self, store: &mut Store) -> (r: Result<String, String>) {
        Ok(u64_to_string(store.touch_many(self.keys) as u64))
    }
}

} // verus!
