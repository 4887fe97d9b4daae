use rat_engine::command::parse_command;
use rat_engine::command::tokenize;
use rat_engine::command::CmdError;
use rat_engine::command::Command;
use rat_engine::decimal::Decimal;

#[test]
fn tokenize_splits_on_any_whitespace() {
    assert_eq!(tokenize("obj load  rat"), vec!["obj", "load", "rat"]);
    assert_eq!(tokenize("  a\tb \t"), vec!["a", "b"]);
    assert!(tokenize("").is_empty());
    assert!(tokenize(" \t ").is_empty());
}

#[test]
fn each_command_parses() {
    assert_eq!(
        parse_command("obj load rat"),
        Ok(Command::ObjLoad { name: String::from("rat") })
    );
    assert_eq!(parse_command("obj list"), Ok(Command::ObjList));
    assert_eq!(
        parse_command("obj remove rat"),
        Ok(Command::ObjRemove { name: String::from("rat") })
    );
    assert_eq!(
        parse_command("obj moveto rat 1 -2.5 0.25"),
        Ok(Command::ObjMoveTo {
            name: String::from("rat"),
            x: Decimal { neg: false, mantissa: 1, scale: 0 },
            y: Decimal { neg: true, mantissa: 25, scale: 1 },
            z: Decimal { neg: false, mantissa: 25, scale: 2 },
        })
    );
    assert_eq!(parse_command("quit"), Ok(Command::Quit));
    // extra words are ignored
    assert_eq!(
        parse_command("obj load rat now"),
        Ok(Command::ObjLoad { name: String::from("rat") })
    );
}

#[test]
fn missing_arguments_name_the_missing_slot() {
    assert_eq!(parse_command(""), Err(CmdError::MissingKey(String::from("command"))));
    assert_eq!(parse_command("obj"), Err(CmdError::MissingKey(String::from("operation"))));
    assert_eq!(
        parse_command("obj load"),
        Err(CmdError::MissingKey(String::from("name")))
    );
    assert_eq!(
        parse_command("obj remove"),
        Err(CmdError::MissingKey(String::from("name")))
    );
    assert_eq!(
        parse_command("obj moveto rat"),
        Err(CmdError::MissingKey(String::from("x")))
    );
    assert_eq!(
        parse_command("obj moveto rat 1"),
        Err(CmdError::MissingKey(String::from("y")))
    );
    assert_eq!(
        parse_command("obj moveto rat 1 2"),
        Err(CmdError::MissingKey(String::from("z")))
    );
}

#[test]
fn unknown_words_are_reported_as_such() {
    assert_eq!(
        parse_command("fly away"),
        Err(CmdError::UnknownCommand(String::from("fly")))
    );
    assert_eq!(
        parse_command("obj teleport rat"),
        Err(CmdError::UnknownOperation(String::from("teleport")))
    );
}

#[test]
fn a_bad_coordinate_is_reported_with_its_word() {
    assert_eq!(
        parse_command("obj moveto rat 1 two 3"),
        Err(CmdError::ParseError(String::from("two")))
    );
}
