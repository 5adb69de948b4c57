use notes::command_handler::Command;
use notes::command_parser::CommandParser;
use notes::command_parser::Invocation;

fn invocation(subcommand: Option<&str>, argument: Option<&str>) -> Invocation {
    Invocation { subcommand: subcommand.map(|s| s.to_string()), argument: argument.map(|s| s.to_string()) }
}

fn build(subcommand: Option<&str>, argument: Option<&str>) -> Result<Command, String> {
    CommandParser::new().build_command(&invocation(subcommand, argument)).map_err(|e| {
        assert!(e.backtrace.is_none());
        e.message
    })
}

#[test]
fn build_command_gives_each_command() {
    assert_eq!(build(Some("new"), Some("one-word-title")), Ok(Command::New { path: "one-word-title".to_string() }));
    assert_eq!(build(Some("list"), None), Ok(Command::List));
    assert_eq!(build(Some("search"), Some("needle")), Ok(Command::Search { needle: "needle".to_string() }));
    assert_eq!(build(Some("edit"), Some("111")), Ok(Command::Edit { id: 111 }));
    assert_eq!(build(Some("delete"), Some("111")), Ok(Command::Delete { id: 111 }));
    assert_eq!(build(Some("pull"), None), Ok(Command::Pull));
    assert_eq!(build(Some("push"), None), Ok(Command::Push));
    assert_eq!(build(Some("help"), None), Ok(Command::Help));
}

#[test]
fn build_command_reports_missing_arguments() {
    assert_eq!(build(Some("new"), None), Err("You must specify a title".to_string()));
    assert_eq!(build(Some("search"), None), Err("You must specify something to search".to_string()));
    assert_eq!(build(Some("edit"), None), Err("You must specify a note id".to_string()));
    assert_eq!(build(Some("delete"), None), Err("You must specify a note id".to_string()));
}

#[test]
fn build_command_refuses_what_is_no_command() {
    assert_eq!(build(None, None), Err("Bad command, try: $ notes help".to_string()));
    assert_eq!(build(None, Some("x")), Err("Bad command, try: $ notes help".to_string()));
    assert_eq!(build(Some("n"), Some("x")), Err("Bad command, try: $ notes help".to_string()));
    assert_eq!(build(Some(""), None), Err("Bad command, try: $ notes help".to_string()));
    assert_eq!(build(Some("List"), None), Err("Bad command, try: $ notes help".to_string()));
}

#[test]
fn build_command_gives_the_message_of_the_number_parser() {
    for text in ["abc", "", "-1", "1.5", "99999999999999999999999999", "+", "++1", " 1", "1 ", "1_000"] {
        let expected = text.parse::<usize>().unwrap_err().to_string();
        assert_eq!(build(Some("edit"), Some(text)), Err(expected.clone()));
        assert_eq!(build(Some("delete"), Some(text)), Err(expected));
    }
    assert_eq!(build(Some("edit"), Some("abc")), Err("invalid digit found in string".to_string()));
    assert_eq!(build(Some("delete"), Some("")), Err("cannot parse integer from empty string".to_string()));
    assert_eq!(
        build(Some("edit"), Some("99999999999999999999999999")),
        Err("number too large to fit in target type".to_string())
    );
    assert_eq!(build(Some("edit"), Some("+7")), Ok(Command::Edit { id: 7 }));
    assert_eq!(build(Some("delete"), Some("0")), Ok(Command::Delete { id: 0 }));
    assert_eq!(build(Some("edit"), Some("007")), Ok(Command::Edit { id: 7 }));
    let largest = usize::MAX.to_string();
    assert_eq!(build(Some("edit"), Some(&largest)), Ok(Command::Edit { id: usize::MAX }));
}

#[test]
fn identified_takes_the_parsed_number() {
    assert_eq!(CommandParser::identified(Ok(12), true).unwrap(), Command::Edit { id: 12 });
    assert_eq!(CommandParser::identified(Ok(12), false).unwrap(), Command::Delete { id: 12 });
    let error = CommandParser::identified(Err("no number".to_string()), true).unwrap_err();
    assert_eq!(error.message, "no number");
    assert!(error.backtrace.is_none());
}
