use super::{CommandTrait, CommandView, CommandWrapper};
use crate::number::u64_to_string;
use crate::parser::utils::{ParseError, ParseErrorView};
use crate::store::Store;
use crate::text::texts;
use vstd::prelude::*;
use vstd::string::StringExecFns;

verus! {

/// `del`: deletes one key and answers with its value, or deletes several and
/// answers with the number of entries that left.
pub struct DelCommand {
    pub keys: Vec<String>,
}

impl View for DelCommand {
    type V = CommandView;

    open spec fn view(&self) -> CommandView {
        CommandView::Del { keys: texts(self.keys@) }
    }
}

impl CommandTrait for DelCommand {
    open spec fn spec_from_parts(parts: Seq<Seq<char>>) -> Result<CommandView, ParseErrorView> {
        if parts.len() == 0 {
            Err(ParseErrorView::MissingKeys)
        } else {
            Ok(CommandView::Del { keys: parts })
        }
    }

    fn from_parts(parts: Vec<String>) -> (r: Result<CommandWrapper, String>) {
        if parts.len() == 0 {
            return Err(ParseError::MissingKeys.to_string());
        }
        Ok(CommandWrapper::Del(Self { keys: parts }))
    }

    fn execute(self, store: &mut Store) -> (r: Result<String, String>) {
        let keys = self.keys;
        if keys.len() == 1 {
            match store.del(&keys[0]) {
                Some(value) => Ok(value.to_string()),
                None => Ok(String::from_str("Key not found")),
            }
        } else {
            Ok(u64_to_string(store.del_many(keys) as u64))
        }
    }
}

} // verus!
