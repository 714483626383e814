use super::{CommandTrait, CommandView, CommandWrapper};
use crate::number::u64_to_string;
use crate::parser::utils::{ParseError, ParseErrorView};
use crate::store::Store;
use crate::text::texts;
use vstd::prelude::*;

verus! {

/// The bulk deletion: deletes keys and answers with the number of entries
/// that left, also where there is one key.
pub struct DelManyCommand {
    pub keys: Vec<String>,
}

impl View for DelManyCommand {
    type V = CommandView;

    open spec fn view(&self) -> CommandView {
        CommandView::DelMany { keys: texts(self.keys@) }
    }
}

impl CommandTrait for DelManyCommand {
    open spec fn spec_from_parts(parts: Seq<Seq<char>>) -> Result<CommandView, ParseErrorView> {
        if parts.len() == 0 {
            Err(ParseErrorView::MissingKeys)
        } else {
            Ok(CommandView::DelMany { keys: parts })
        }
    }

    fn from_parts(parts: Vec<String>) -> (r: Result<CommandWrapper, String>) {
        if parts.len() == 0 {
            return Err(ParseError::MissingKeys.to_string());
        }
        Ok(CommandWrapper::DelMany(Self { keys: parts }))
    }

    fn execute(self, store: &mut Store) -> (r: Result<String, String>) {
        Ok(u64_to_string(store.del_many(self.keys) as u64))
    }
}

} // verus!
