//! The dispatcher: from a request line to the reply, by way of the store.
use crate::commands::help_command::HELP_MESSAGE;
use crate::commands::{outcome, CommandTrait, CommandView, CommandWrapper};
use crate::parser::Parser;
use crate::store::{Store, Entries};
use crate::text::{is_whitespace, lemma_no_words_iff_blank, lowercase, words};
use vstd::prelude::*;
use vstd::string::StringExecFns;

verus! {

/// Runs a parsed command on the store and answers with the reply. It never
/// fails.
pub fn execute(command: CommandWrapper, store: &mut Store) -> (r: Result<String, String>)
    ensures
        r matches Ok(reply) && outcome(old(store)@, command@, final(store)@, reply@),
{
    match command {
        CommandWrapper::SetValue(cmd) => cmd.execute(store),
        CommandWrapper::Get(cmd) => cmd.execute(store),
        CommandWrapper::Del(cmd) => cmd.execute(store),
        CommandWrapper::DelMany(cmd) => cmd.execute(store),
        CommandWrapper::Touch(cmd) => cmd.execute(store),
        CommandWrapper::TouchMany(cmd) => cmd.execute(store),
        CommandWrapper::Help(cmd) => cmd.execute(store),
        CommandWrapper::Unknown(cmd) => Ok(String::from_str("Unknown command: ").concat(cmd.as_str())),
        CommandWrapper::Empty => Ok(String::new()),
    }
}

/// What a reply holds, as mathematics.
pub open spec fn reply_view(r: Result<String, String>) -> Result<Seq<char>, Seq<char>> {
    match r {
        Ok(text) => Ok(text@),
        Err(text) => Err(text@),
    }
}

/// Whether handling the request `line` on the store `pre` can leave the
/// store `post` and answer `r`: a line that parses is answered with `Ok` and
/// an outcome of its command, a line that does not is answered with `Err`
/// and the text of its error, and changes nothing.
pub open spec fn handled(
    line: Seq<char>,
    pre: Entries,
    post: Entries,
    r: Result<Seq<char>, Seq<char>>,
) -> bool {
    match Parser::spec_parse_input(line) {
        Ok(command) => r matches Ok(reply) && outcome(pre, command, post, reply),
        Err(error) => r == Err::<Seq<char>, Seq<char>>(error.message()) && post == pre,
    }
}

/// Parses a request line and runs the command it holds. A line that does
/// not parse is answered with `Err` and the text of the error, and leaves
/// the store as it was.
pub fn handle_command(input: String, store: &mut Store) -> (r: Result<String, String>)
    ensures
        handled(input@, old(store)@, final(store)@, reply_view(r)),
{
    match Parser::parse_input(input) {
        Ok(command) => execute(command, store),
        Err(text) => Err(text),
    }
}

/// The help text is fixed: a line whose first word is `help`, in any case,
/// is answered with the same text whatever the store holds, and leaves the
/// store as it is.
pub proof fn lemma_help_ignores_the_store(
    line: Seq<char>,
    pre: Entries,
    post: Entries,
    r: Result<Seq<char>, Seq<char>>,
)
    requires
        words(line).len() > 0,
        lowercase(words(line)[0]) == "help"@,
        handled(line, pre, post, r),
    ensures
        r == Ok::<Seq<char>, Seq<char>>(HELP_MESSAGE@),
        post == pre,
{
    reveal_strlit("help");
    reveal_strlit("set");
    reveal_strlit("get");
    reveal_strlit("del");
    reveal_strlit("touch");
    let name = lowercase(words(line)[0]);
    assert(name.len() == 4);
    assert(name != "set"@ && name != "get"@ && name != "del"@ && name != "touch"@);
    assert(Parser::spec_parse_command(words(line)[0], name, words(line).drop_first()) matches Ok(
        CommandView::Help,
    ));
    assert(Parser::spec_parse_input(line) matches Ok(CommandView::Help));
}

/// A line without words, empty or blank, is answered with the empty text
/// whatever the store holds, and leaves the store as it is.
pub proof fn lemma_blank_line_is_answered_with_nothing(
    line: Seq<char>,
    pre: Entries,
    post: Entries,
    r: Result<Seq<char>, Seq<char>>,
)
    requires
        forall|i: int| 0 <= i < line.len() ==> is_whitespace(#[trigger] line[i]),
        handled(line, pre, post, r),
    ensures
        r == Ok::<Seq<char>, Seq<char>>(Seq::empty()),
        post == pre,
{
    lemma_no_words_iff_blank(line);
}

} // verus!
