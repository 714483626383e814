use kvstore::commands::CommandWrapper;
use kvstore::parser::{
    parse_command, parse_del_command, parse_get_command, parse_help_command, parse_input,
    parse_set_command, parse_touch_command, parse_unknown_command, Command, Parser, ValueType,
};
use kvstore::store::Value;

/// The words of a request after the command's name.
fn parts_of(input: &str) -> Vec<String> {
    let mut parts = input.split_whitespace();
    parts.next(); // Skip the command
    parts.map(|s| s.to_string()).collect()
}

/* ------------------------------------------------------ */
/*                       parse_input                      */
/* ------------------------------------------------------ */
#[test]
fn parser_test_parse_input_of_set_command() {
    let input = "set str-x y".to_string();
    match parse_input(input) {
        Ok(Command::SetValue(..)) => (),
        _ => panic!("Expected Command::Set"),
    }
}

#[test]
fn parser_test_parse_input_of_get_command() {
    let input = "get x".to_string();
    match parse_input(input) {
        Ok(Command::Get(..)) => (),
        _ => panic!("Expected Command::Get"),
    }
}

#[test]
fn parser_test_parse_input_of_del_command() {
    let input = "del x".to_string();
    match parse_input(input) {
        Ok(Command::Del(..)) => (),
        _ => panic!("Expected Command::Del"),
    }
}

#[test]
fn parser_test_parse_input_of_help_command() {
    let input = "help".to_string();
    match parse_input(input) {
        Ok(Command::Help) => (),
        _ => panic!("Expected Command::Help"),
    }
}

#[test]
fn parser_test_parse_input_of_unknown_command() {
    let input = "not-a-command".to_string();
    match parse_input(input) {
        Ok(Command::Unknown(..)) => (),
        _ => panic!("Expected Command::Unknown"),
    }
}

#[test]
fn parser_test_parse_input_of_empty_command() {
    let input = "".to_string();
    match parse_input(input) {
        Ok(Command::Empty) => (),
        _ => panic!("Expected Command::Empty"),
    }
}

/* ------------------------------------------------------ */
/*                    parse_set_command                   */
/* ------------------------------------------------------ */
#[test]
fn test_parse_set_command_with_key_and_value() {
    // The key `x` names no type before a `-`.
    match parse_set_command(parts_of("set x y")) {
        Err(e) => assert_eq!(e, "Invalid type"),
        _ => panic!("Expected an error"),
    }
    match parse_set_command(parts_of("set str-x y")) {
        Ok(Command::SetValue(key, value)) => {
            assert_eq!(key, "str-x");
            assert_eq!(value, Value::Str("y".to_string()));
        }
        _ => panic!("Expected Command::Set"),
    }
}

#[test]
fn test_parse_set_command_without_key_or_value() {
    match parse_set_command(parts_of("set")) {
        Err(e) => assert_eq!(e, "No key provided"),
        _ => panic!("Expected an error"),
    }
}

#[test]
fn test_parse_set_command_with_key_without_value() {
    // The key `x` names no type before a `-`: that is found before the value is missed.
    match parse_set_command(parts_of("set x")) {
        Err(e) => assert_eq!(e, "Invalid type"),
        _ => panic!("Expected an error"),
    }
    match parse_set_command(parts_of("set str-x")) {
        Err(e) => assert_eq!(e, "No value provided"),
        _ => panic!("Expected an error"),
    }
}

/* ------------------------------------------------------ */
/*                    parse_get_command                   */
/* ------------------------------------------------------ */
#[test]
fn test_parse_get_command_with_key() {
    match parse_get_command(parts_of("get x")) {
        Ok(Command::Get(key)) => assert_eq!(key, "x"),
        _ => panic!("Expected Command::Get"),
    }
}

#[test]
fn test_parse_get_command_without_key() {
    match parse_get_command(parts_of("get")) {
        Err(e) => assert_eq!(e, "No key provided"),
        _ => panic!("Expected an error"),
    }
}

/* ------------------------------------------------------ */
/*                    parse_del_command                   */
/* ------------------------------------------------------ */
#[test]
fn test_parse_del_command_with_key() {
    match parse_del_command(parts_of("del x")) {
        Ok(Command::Del(key)) => assert_eq!(key, "x"),
        _ => panic!("Expected Command::Del"),
    }
}

#[test]
fn test_parse_del_command_without_key() {
    match parse_del_command(parts_of("del")) {
        Err(e) => assert_eq!(e, "No key provided"),
        _ => panic!("Expected an error"),
    }
}

/* ------------------------------------------------------ */
/*                   parse_help_command                   */
/* ------------------------------------------------------ */
#[test]
fn test_parse_help_command() {
    match parse_help_command() {
        Ok(Command::Help) => (),
        _ => panic!("Expected Command::Help"),
    }
}

/* ------------------------------------------------------ */
/*                  parse_unknown_command                 */
/* ------------------------------------------------------ */
#[test]
fn test_parse_unknown_command() {
    let cmd = "not-a-command";
    match parse_unknown_command(cmd) {
        Ok(Command::Unknown(unknown_cmd)) => assert_eq!(unknown_cmd, cmd),
        _ => panic!("Expected Command::Unknown"),
    }
}

/* ------------------------------------------------------ */
/*                   Parser::parse_input                  */
/* ------------------------------------------------------ */
#[test]
fn mod_test_parse_input_of_set_command() {
    // The key `x` names no type before a `-`.
    let input = "set x y".to_string();
    match Parser::parse_input(input) {
        Err(e) => assert_eq!(e, "Invalid type"),
        _ => panic!("Expected an error"),
    }
    let input = "set str-x y".to_string();
    match Parser::parse_input(input) {
        Ok(CommandWrapper::SetValue(..)) => (),
        _ => panic!("Expected Command::Set"),
    }
}

#[test]
fn mod_test_parse_input_of_get_command() {
    let input = "get x".to_string();
    match Parser::parse_input(input) {
        Ok(CommandWrapper::Get(..)) => (),
        _ => panic!("Expected Command::Get"),
    }
}

#[test]
fn mod_test_parse_input_of_del_command() {
    let input = "del x".to_string();
    match Parser::parse_input(input) {
        Ok(CommandWrapper::Del(..)) => (),
        _ => panic!("Expected Command::Del"),
    }
}

#[test]
fn test_parse_input_of_touch_command() {
    let input = "touch x".to_string();
    match Parser::parse_input(input) {
        Ok(CommandWrapper::Touch(..)) => (),
        _ => panic!("Expected Command::Touch"),
    }
}

#[test]
fn mod_test_parse_input_of_help_command() {
    let input = "help".to_string();
    match Parser::parse_input(input) {
        Ok(CommandWrapper::Help(..)) => (),
        _ => panic!("Expected Command::Help"),
    }
}

#[test]
fn mod_test_parse_input_of_unknown_command() {
    let input = "not-a-command".to_string();
    match Parser::parse_input(input) {
        Ok(CommandWrapper::Unknown(cmd)) => {
            assert_eq!(cmd, "not-a-command");
        }
        _ => panic!("Expected Command::Unknown"),
    }
}

#[test]
fn mod_test_parse_input_of_empty_command() {
    let input = "".to_string();
    match Parser::parse_input(input) {
        Ok(CommandWrapper::Empty) => (),
        _ => panic!("Expected Command::Empty"),
    }
}

/* ------------------------------------------------------ */
/*                     the whole line                     */
/* ------------------------------------------------------ */
#[test]
fn a_set_line_yields_the_key_and_the_typed_value() {
    match Parser::parse_input("set int-age 30".to_string()) {
        Ok(CommandWrapper::SetValue(cmd)) => {
            assert_eq!(cmd.key, "int-age");
            assert_eq!(cmd.value, Value::Int(30));
        }
        _ => panic!("Expected Command::Set"),
    }
    match parse_input("set int-age 30".to_string()) {
        Ok(Command::SetValue(key, value)) => {
            assert_eq!(key, "int-age");
            assert_eq!(value, Value::Int(30));
        }
        _ => panic!("Expected Command::Set"),
    }
}

#[test]
fn a_set_line_with_a_literal_of_the_wrong_type_is_refused() {
    let expected = "abc cannot be parsed as a (int)";
    match Parser::parse_input("set int-age abc".to_string()) {
        Err(e) => assert_eq!(e, expected),
        _ => panic!("Expected an error"),
    }
    match parse_input("set int-age abc".to_string()) {
        Err(e) => assert_eq!(e, expected),
        _ => panic!("Expected an error"),
    }
}

#[test]
fn a_set_line_with_an_unknown_type_is_refused() {
    match Parser::parse_input("set x-key 1".to_string()) {
        Err(e) => assert_eq!(e, "Invalid type"),
        _ => panic!("Expected an error"),
    }
    match parse_input("set x-key 1".to_string()) {
        Err(e) => assert_eq!(e, "Invalid type"),
        _ => panic!("Expected an error"),
    }
}

#[test]
fn a_line_without_its_keys_is_refused() {
    match Parser::parse_input("get".to_string()) {
        Err(e) => assert_eq!(e, "No key provided"),
        _ => panic!("Expected an error"),
    }
    match Parser::parse_input("del".to_string()) {
        Err(e) => assert_eq!(e, "No keys provided"),
        _ => panic!("Expected an error"),
    }
    match Parser::parse_input("touch".to_string()) {
        Err(e) => assert_eq!(e, "No keys provided"),
        _ => panic!("Expected an error"),
    }
    match Parser::parse_input("set".to_string()) {
        Err(e) => assert_eq!(e, "No key provided"),
        _ => panic!("Expected an error"),
    }
    match Parser::parse_input("set str-k".to_string()) {
        Err(e) => assert_eq!(e, "No value provided"),
        _ => panic!("Expected an error"),
    }
}

#[test]
fn a_single_key_line_without_its_key_is_refused() {
    for line in ["get", "del", "touch", "set"] {
        match parse_input(line.to_string()) {
            Err(e) => assert_eq!(e, "No key provided"),
            _ => panic!("Expected an error"),
        }
    }
}

#[test]
fn the_command_name_is_read_in_any_case() {
    assert!(matches!(Parser::parse_input("SET str-k v".to_string()), Ok(CommandWrapper::SetValue(..))));
    assert!(matches!(Parser::parse_input("Get k".to_string()), Ok(CommandWrapper::Get(..))));
    assert!(matches!(Parser::parse_input("dEl k".to_string()), Ok(CommandWrapper::Del(..))));
    assert!(matches!(Parser::parse_input("TOUCH k".to_string()), Ok(CommandWrapper::Touch(..))));
    assert!(matches!(Parser::parse_input("HELP".to_string()), Ok(CommandWrapper::Help(..))));
    assert!(matches!(parse_input("GET k".to_string()), Ok(Command::Get(..))));
    assert!(matches!(parse_input("Touch k".to_string()), Ok(Command::Touch(..))));
}

#[test]
fn an_unknown_command_keeps_its_first_word_as_typed() {
    match Parser::parse_input("FooBar 1 2".to_string()) {
        Ok(CommandWrapper::Unknown(cmd)) => assert_eq!(cmd, "FooBar"),
        _ => panic!("Expected Command::Unknown"),
    }
    match Parser::parse_input("  Not-A-Command with words ".to_string()) {
        Ok(CommandWrapper::Unknown(cmd)) => assert_eq!(cmd, "Not-A-Command"),
        _ => panic!("Expected Command::Unknown"),
    }
    match parse_input("FooBar 1 2".to_string()) {
        Ok(Command::Unknown(cmd)) => assert_eq!(cmd, "FooBar"),
        _ => panic!("Expected Command::Unknown"),
    }
    match parse_input("ÉCHO".to_string()) {
        Ok(Command::Unknown(cmd)) => assert_eq!(cmd, "ÉCHO"),
        _ => panic!("Expected Command::Unknown"),
    }
}

#[test]
fn a_first_word_that_names_no_command_is_no_error() {
    for line in ["delmany", "delmany k1 k2", "touchmany", "TouchMany k", "exit", "sets str-k v", "-"] {
        let first = line.split_whitespace().next().unwrap();
        match Parser::parse_input(line.to_string()) {
            Ok(CommandWrapper::Unknown(cmd)) => assert_eq!(cmd, first),
            _ => panic!("Expected Command::Unknown"),
        }
        match parse_input(line.to_string()) {
            Ok(Command::Unknown(cmd)) => assert_eq!(cmd, first),
            _ => panic!("Expected Command::Unknown"),
        }
    }
}

#[test]
fn help_is_read_whatever_follows() {
    assert!(matches!(Parser::parse_input("help".to_string()), Ok(CommandWrapper::Help(..))));
    assert!(matches!(Parser::parse_input("Help me with set".to_string()), Ok(CommandWrapper::Help(..))));
    assert!(matches!(parse_input("HELP get".to_string()), Ok(Command::Help)));
}

#[test]
fn a_line_of_whitespace_is_empty() {
    assert!(matches!(Parser::parse_input(" \t \r\n".to_string()), Ok(CommandWrapper::Empty)));
    assert!(matches!(parse_input("\u{3000}\n".to_string()), Ok(Command::Empty)));
}

#[test]
fn words_may_be_parted_by_any_whitespace() {
    match Parser::parse_input("\tdel  a\u{a0}b \n".to_string()) {
        Ok(CommandWrapper::Del(cmd)) => assert_eq!(cmd.keys, vec!["a", "b"]),
        _ => panic!("Expected Command::Del"),
    }
}

#[test]
fn bulk_lines_keep_every_key() {
    match Parser::parse_input("del k1 k2 k1".to_string()) {
        Ok(CommandWrapper::Del(cmd)) => assert_eq!(cmd.keys, vec!["k1", "k2", "k1"]),
        _ => panic!("Expected Command::Del"),
    }
    match Parser::parse_input("touch k1 k2 k1".to_string()) {
        Ok(CommandWrapper::Touch(cmd)) => assert_eq!(cmd.keys, vec!["k1", "k2", "k1"]),
        _ => panic!("Expected Command::Touch"),
    }
}

#[test]
fn a_single_key_line_keeps_its_first_key() {
    match parse_input("del a b".to_string()) {
        Ok(Command::Del(key)) => assert_eq!(key, "a"),
        _ => panic!("Expected Command::Del"),
    }
    match parse_touch_command(parts_of("touch a b")) {
        Ok(Command::Touch(key)) => assert_eq!(key, "a"),
        _ => panic!("Expected Command::Touch"),
    }
}

#[test]
fn a_command_is_chosen_by_its_lowercase_name() {
    assert!(matches!(parse_command("GET", "get", vec!["k".to_string()]), Ok(Command::Get(..))));
    match parse_command("GET", "GET", vec!["k".to_string()]) {
        Ok(Command::Unknown(cmd)) => assert_eq!(cmd, "GET"),
        _ => panic!("Expected Command::Unknown"),
    }
    assert!(matches!(
        Parser::parse_command("Del", "del", vec!["k".to_string()]),
        Ok(CommandWrapper::Del(..))
    ));
    match Parser::parse_command("DelMany", "delmany", vec!["k".to_string()]) {
        Ok(CommandWrapper::Unknown(cmd)) => assert_eq!(cmd, "DelMany"),
        _ => panic!("Expected Command::Unknown"),
    }
    match Parser::parse_command("Exit", "exit", vec![]) {
        Ok(CommandWrapper::Unknown(cmd)) => assert_eq!(cmd, "Exit"),
        _ => panic!("Expected Command::Unknown"),
    }
}

#[test]
fn a_type_is_named_by_its_lowercase_tag() {
    assert_eq!(ValueType::from_tag("str"), Some(ValueType::Str));
    assert_eq!(ValueType::from_tag("int"), Some(ValueType::Int));
    assert_eq!(ValueType::from_tag("float"), Some(ValueType::Float));
    assert_eq!(ValueType::from_tag("bool"), Some(ValueType::Bool));
    assert_eq!(ValueType::from_tag("Int"), None);
    assert_eq!(ValueType::from_tag(""), None);
    assert_eq!(ValueType::from_tag("x"), None);
    assert_eq!(ValueType::Str.as_str(), "str");
    assert_eq!(ValueType::Int.as_str(), "int");
    assert_eq!(ValueType::Float.as_str(), "float");
    assert_eq!(ValueType::Bool.as_str(), "bool");
}
