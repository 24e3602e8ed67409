use chrisql::repl::{echo_message, parse_command, trim_line, Command};

#[test]
fn exit_token_ends_the_session() {
    assert!(matches!(parse_command("exit"), Command::Exit));
    assert!(matches!(parse_command("EXIT"), Command::Exit));
    assert!(matches!(parse_command("Exit"), Command::Exit));
    assert!(matches!(parse_command("  eXiT \n"), Command::Exit));
}

#[test]
fn other_input_is_echoed_trimmed() {
    assert!(matches!(
        parse_command("select * from t"),
        Command::Echo(t) if t == "select * from t"
    ));
    assert!(matches!(parse_command("  hello \n"), Command::Echo(t) if t == "hello"));
    assert!(matches!(parse_command("exits"), Command::Echo(t) if t == "exits"));
    assert!(matches!(parse_command(" exit now "), Command::Echo(t) if t == "exit now"));
    assert!(matches!(parse_command(""), Command::Echo(t) if t.is_empty()));
    assert!(matches!(parse_command("   \n"), Command::Echo(t) if t.is_empty()));
}

#[test]
fn trimming_strips_only_surrounding_whitespace() {
    assert_eq!(trim_line("  a b  "), "a b".to_string());
    assert_eq!(trim_line("\t\r\n"), String::new());
    assert_eq!(trim_line("plain"), "plain".to_string());
}

#[test]
fn echo_line_repeats_the_entry() {
    assert_eq!(echo_message("hi"), "you entered: hi".to_string());
}
