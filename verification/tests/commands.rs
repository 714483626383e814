use kvstore::commands::del_command::DelCommand;
use kvstore::commands::delmany_command::DelManyCommand;
use kvstore::commands::get_command::GetCommand;
use kvstore::commands::help_command::{HelpCommand, HELP_MESSAGE};
use kvstore::commands::set_command::{OptionStep, SetCommand, SetCommandOptions, SetXxNx};
use kvstore::commands::touch_command::TouchCommand;
use kvstore::commands::touchmany_command::TouchManyCommand;
use kvstore::commands::{CommandTrait, CommandWrapper};
use kvstore::parser::utils::ParseError;
use kvstore::store::{Store, Value};

/// The words of a request after the command's name.
fn parts_of(input: &str) -> Vec<String> {
    let mut parts = input.split_whitespace();
    parts.next(); // Skip the command
    parts.map(|s| s.to_string()).collect()
}

#[test]
fn test_del_command_from_input() {
    let input = "del x y".to_string();
    match DelCommand::from_parts(parts_of(&input)).unwrap() {
        CommandWrapper::Del(cmd) => {
            assert_eq!(cmd.keys, vec!["x", "y"]);
        }
        _ => panic!("Expected a Del command"),
    };
}

#[test]
fn test_del_command_from_input_missing_keys() {
    let input = "del".to_string();
    match DelCommand::from_parts(parts_of(&input)) {
        Err(e) => assert_eq!(e, ParseError::MissingKeys.to_string()),
        _ => panic!("Expected an error"),
    };
}

#[test]
fn test_delmany_command_from_input() {
    let input = "delmany str-x str-y".to_string();
    match DelManyCommand::from_parts(parts_of(&input)).unwrap() {
        CommandWrapper::DelMany(cmd) => {
            assert_eq!(cmd.keys, vec!["str-x", "str-y"]);
        }
        _ => panic!("Expected a DelMany command"),
    };
}

#[test]
fn test_delmany_command_from_input_missing_keys() {
    let input = "delmany".to_string();
    match DelManyCommand::from_parts(parts_of(&input)) {
        Err(e) => assert_eq!(e, ParseError::MissingKeys.to_string()),
        _ => panic!("Expected an error"),
    };
}

#[test]
fn test_get_command_from_input() {
    let input = "get str-key".to_string();
    match GetCommand::from_parts(parts_of(&input)).unwrap() {
        CommandWrapper::Get(cmd) => {
            assert_eq!(cmd.key, "str-key");
        }
        _ => panic!("Expected a Get command"),
    };
}

#[test]
fn test_get_command_from_input_missing_key() {
    let input = "get".to_string();
    match GetCommand::from_parts(parts_of(&input)) {
        Err(e) => assert_eq!(e, ParseError::MissingKey.to_string()),
        _ => panic!("Expected an error"),
    };
}

#[test]
fn test_help_command_from_input() {
    let input = "help".to_string();
    match HelpCommand::from_parts(parts_of(&input)).unwrap() {
        CommandWrapper::Help(_cmd) => (),
        _ => panic!("Expected a Help command"),
    };
}

#[test]
fn test_set_command_from_input() {
    let input = "set str-key value".to_string();
    match SetCommand::from_parts(parts_of(&input)).unwrap() {
        CommandWrapper::SetValue(cmd) => {
            assert_eq!(cmd.key, "str-key");
            assert_eq!(cmd.value, Value::Str("value".to_string()));
        }
        _ => panic!("Expected a Set command"),
    };
}

#[test]
fn test_set_command_from_input_missing_key() {
    let input = "set".to_string();
    match SetCommand::from_parts(parts_of(&input)) {
        Err(e) => assert_eq!(e, ParseError::MissingKey.to_string()),
        _ => panic!("Expected an error"),
    };
}

#[test]
fn test_set_command_from_input_missing_value() {
    let input = "set str-key".to_string();
    match SetCommand::from_parts(parts_of(&input)) {
        Err(e) => assert_eq!(e, ParseError::MissingValue.to_string()),
        _ => panic!("Expected an error"),
    };
}

#[test]
fn test_set_command_from_input_invalid_type() {
    let input = "set x-key 123".to_string();
    match SetCommand::from_parts(parts_of(&input)) {
        Err(e) => assert_eq!(e, ParseError::InvalidType.to_string()),
        _ => panic!("Expected an error"),
    };
}

#[test]
fn test_set_command_from_input_missing_type() {
    let input = "set key value".to_string();
    match SetCommand::from_parts(parts_of(&input)) {
        Err(e) => assert_eq!(e, ParseError::InvalidType.to_string()),
        _ => panic!("Expected an error"),
    };
}

#[test]
fn test_touch_command_from_input() {
    let input = "touch x y".to_string();
    match TouchCommand::from_parts(parts_of(&input)).unwrap() {
        CommandWrapper::Touch(cmd) => {
            assert_eq!(cmd.keys, vec!["x", "y"]);
        }
        _ => panic!("Expected a Touch command"),
    };
}

#[test]
fn test_touch_command_from_input_missing_keys() {
    let input = "touch".to_string();
    match TouchCommand::from_parts(parts_of(&input)) {
        Err(e) => assert_eq!(e, ParseError::MissingKeys.to_string()),
        _ => panic!("Expected an error"),
    };
}

#[test]
fn test_touchmany_command_from_input() {
    let input = "touchmany str-x str-y".to_string();
    match TouchManyCommand::from_parts(parts_of(&input)).unwrap() {
        CommandWrapper::TouchMany(cmd) => {
            assert_eq!(cmd.keys, vec!["str-x", "str-y"]);
        }
        _ => panic!("Expected a TouchMany command"),
    };
}

#[test]
fn test_touchmany_command_from_input_missing_keys() {
    let input = "touchmany".to_string();
    match TouchManyCommand::from_parts(parts_of(&input)) {
        Err(e) => assert_eq!(e, ParseError::MissingKeys.to_string()),
        _ => panic!("Expected an error"),
    };
}

#[test]
fn set_command_decodes_the_value_by_the_type_of_the_key() {
    match SetCommand::from_parts(parts_of("set int-age 30")).unwrap() {
        CommandWrapper::SetValue(cmd) => {
            assert_eq!(cmd.key, "int-age");
            assert_eq!(cmd.value, Value::Int(30));
        }
        _ => panic!("Expected a Set command"),
    };
    match SetCommand::from_parts(parts_of("set BOOL-flag TRUE")).unwrap() {
        CommandWrapper::SetValue(cmd) => {
            assert_eq!(cmd.key, "BOOL-flag");
            assert_eq!(cmd.value, Value::Bool(true));
        }
        _ => panic!("Expected a Set command"),
    };
    match SetCommand::from_parts(parts_of("set float-pi 3.14")).unwrap() {
        CommandWrapper::SetValue(cmd) => {
            assert_eq!(cmd.value, Value::Float("3.14".to_string()));
        }
        _ => panic!("Expected a Set command"),
    };
}

#[test]
fn set_command_reports_a_literal_of_the_wrong_type() {
    match SetCommand::from_parts(parts_of("set int-age abc")) {
        Err(e) => {
            assert_eq!(e, ParseError::CannotBeParsedAs("abc", kvstore::parser::ValueType::Int).to_string());
            assert_eq!(e, "abc cannot be parsed as a (int)");
        }
        _ => panic!("Expected an error"),
    };
}

#[test]
fn set_command_reads_its_options() {
    match SetCommand::from_parts(parts_of("set str-k v NX get KeepTTL")).unwrap() {
        CommandWrapper::SetValue(cmd) => {
            let options = cmd.options.unwrap();
            assert!(options.x == Some(SetXxNx::Nx));
            assert_eq!(options.get, Some(true));
            assert_eq!(options.keep_ttl, Some(true));
            assert_eq!(options.pxat, None);
        }
        _ => panic!("Expected a Set command"),
    };
}

#[test]
fn set_command_without_options_chooses_none() {
    match SetCommand::from_parts(parts_of("set str-k v")).unwrap() {
        CommandWrapper::SetValue(cmd) => {
            let options = cmd.options.unwrap();
            assert!(options.x.is_none());
            assert_eq!(options.get, None);
            assert_eq!(options.keep_ttl, None);
            assert_eq!(options.pxat, None);
        }
        _ => panic!("Expected a Set command"),
    };
}

#[test]
fn set_command_options_end_at_the_first_other_word() {
    match SetCommand::from_parts(parts_of("set str-k v xx other nx")).unwrap() {
        CommandWrapper::SetValue(cmd) => {
            let options = cmd.options.unwrap();
            assert!(options.x == Some(SetXxNx::Xx));
            assert_eq!(options.get, None);
        }
        _ => panic!("Expected a Set command"),
    };
}

#[test]
fn set_command_refuses_nx_with_xx() {
    let expected = ParseError::InvalidCommandOptions("Cannot use nx and xx together").to_string();
    assert_eq!(expected, "Invalid command options: Cannot use nx and xx together");
    match SetCommand::from_parts(parts_of("set str-k v nx xx")) {
        Err(e) => assert_eq!(e, expected),
        _ => panic!("Expected an error"),
    };
    match SetCommand::from_parts(parts_of("set str-k v XX get NX")) {
        Err(e) => assert_eq!(e, expected),
        _ => panic!("Expected an error"),
    };
}

#[test]
fn an_option_word_steps_the_options() {
    let none = SetCommandOptions { x: None, get: None, pxat: None, keep_ttl: None };
    match none.apply("xx") {
        OptionStep::Next(options) => assert!(options.x == Some(SetXxNx::Xx)),
        _ => panic!("Expected the next options"),
    }
    match none.apply("keepttl") {
        OptionStep::Next(options) => assert_eq!(options.keep_ttl, Some(true)),
        _ => panic!("Expected the next options"),
    }
    assert!(matches!(none.apply("XX"), OptionStep::Stop));
    assert!(matches!(none.apply("ex"), OptionStep::Stop));
    let nx = SetCommandOptions { x: Some(SetXxNx::Nx), get: None, pxat: None, keep_ttl: None };
    assert!(matches!(nx.apply("xx"), OptionStep::Conflict));
    assert!(matches!(nx.apply("nx"), OptionStep::Next(_)));
}

#[test]
fn options_are_read_from_the_words_given() {
    let parts = parts_of("set str-k get get xx");
    let options = SetCommandOptions::get_options_from_parts(&parts[2..]).unwrap().unwrap();
    assert_eq!(options.get, Some(true));
    assert!(options.x == Some(SetXxNx::Xx));
    let options = SetCommandOptions::get_options_from_parts(&parts[4..]).unwrap().unwrap();
    assert_eq!(options.get, None);
    assert!(options.x.is_none());
}

#[test]
fn set_command_answers_ok() {
    let mut store = Store::new();
    let cmd = SetCommand { key: "str-k".to_string(), value: Value::Str("v".to_string()), options: None };
    assert_eq!(cmd.execute(&mut store), Ok("OK".to_string()));
    let cmd = SetCommand { key: "str-k".to_string(), value: Value::Str("w".to_string()), options: None };
    assert_eq!(cmd.execute(&mut store), Ok("OK".to_string()));
    assert_eq!(store.get(&"str-k".to_string()), Some("str w".to_string()));
}

#[test]
fn get_command_answers_with_the_encoded_value_or_not_found() {
    let mut store = Store::new();
    store.set("bool-b".to_string(), Value::Bool(false));
    let cmd = GetCommand { key: "bool-b".to_string() };
    assert_eq!(cmd.execute(&mut store), Ok("bool false".to_string()));
    let cmd = GetCommand { key: "bool-c".to_string() };
    assert_eq!(cmd.execute(&mut store), Ok("Key not found".to_string()));
}

#[test]
fn del_command_with_one_key_answers_with_the_value() {
    let mut store = Store::new();
    store.set("int-n".to_string(), Value::Int(-7));
    let cmd = DelCommand { keys: vec!["int-n".to_string()] };
    assert_eq!(cmd.execute(&mut store), Ok("int -7".to_string()));
    let cmd = DelCommand { keys: vec!["int-n".to_string()] };
    assert_eq!(cmd.execute(&mut store), Ok("Key not found".to_string()));
}

#[test]
fn del_command_with_several_keys_answers_with_the_count() {
    let mut store = Store::new();
    store.set("int-a".to_string(), Value::Int(1));
    store.set("int-b".to_string(), Value::Int(2));
    let cmd = DelCommand { keys: vec!["int-a".to_string(), "int-x".to_string(), "int-a".to_string()] };
    assert_eq!(cmd.execute(&mut store), Ok("1".to_string()));
    assert_eq!(store.get(&"int-b".to_string()), Some("int 2".to_string()));
    let cmd = DelCommand { keys: vec![] };
    assert_eq!(cmd.execute(&mut store), Ok("0".to_string()));
}

#[test]
fn delmany_command_answers_with_the_count_even_for_one_key() {
    let mut store = Store::new();
    store.set("int-a".to_string(), Value::Int(1));
    let cmd = DelManyCommand { keys: vec!["int-a".to_string()] };
    assert_eq!(cmd.execute(&mut store), Ok("1".to_string()));
    let cmd = DelManyCommand { keys: vec!["int-a".to_string()] };
    assert_eq!(cmd.execute(&mut store), Ok("0".to_string()));
}

#[test]
fn touch_commands_answer_with_the_count() {
    let mut store = Store::new();
    store.set("int-a".to_string(), Value::Int(1));
    let cmd = TouchCommand { keys: vec!["int-a".to_string()] };
    assert_eq!(cmd.execute(&mut store), Ok("1".to_string()));
    let cmd = TouchCommand { keys: vec!["int-z".to_string()] };
    assert_eq!(cmd.execute(&mut store), Ok("0".to_string()));
    let cmd = TouchManyCommand {
        keys: vec!["int-a".to_string(), "int-z".to_string(), "int-a".to_string()],
    };
    assert_eq!(cmd.execute(&mut store), Ok("2".to_string()));
}

#[test]
fn help_command_answers_with_the_help_text() {
    let mut store = Store::new();
    assert_eq!(HelpCommand.execute(&mut store), Ok(HELP_MESSAGE.to_string()));
    assert!(HELP_MESSAGE.starts_with("Commands:\n  set <type>-<key> <value>"));
    for word in ["set", "get", "del", "touch", "help", "str, int, float, bool"] {
        assert!(HELP_MESSAGE.contains(word));
    }
    assert!(!HELP_MESSAGE.contains("delmany"));
    assert!(!HELP_MESSAGE.contains("touchmany"));
}
