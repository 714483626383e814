use super::{CommandTrait, CommandView, CommandWrapper};
use crate::parser::utils::{ParseError, ParseErrorView};
use crate::store::Store;
use vstd::prelude::*;
use vstd::string::StringExecFns;

verus! {

/// `get`: looks a key up and answers with the canonical text of its value.
pub struct GetCommand {
    pub key: String,
}

impl View for GetCommand {
    type V = CommandView;

    open spec fn view(&self) -> CommandView {
        CommandView::Get { key: self.key@ }
    }
}

impl CommandTrait for GetCommand {
    open spec fn spec_from_parts(parts: Seq<Seq<char>>) -> Result<CommandView, ParseErrorView> {
        if parts.len() == 0 {
            Err(ParseErrorView::MissingKey)
        } else {
            Ok(CommandView::Get { key: parts[0] })
        }
    }

    fn from_parts(parts: Vec<String>) -> (r: Result<CommandWrapper, String>) {
        if parts.len() == 0 {
            return Err(ParseError::MissingKey.to_string());
        }
        Ok(CommandWrapper::Get(Self { key: parts[0].clone() }))
    }

    fn execute(self, store: &mut Store) -> (r: Result<String, String>) {
        match store.get(&self.key) {
            Some(response) => Ok(response),
            None => Ok(String::from_str("Key not found")),
        }
    }
}

} // verus!
