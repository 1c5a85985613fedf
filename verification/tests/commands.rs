use coriander_bot::commands::{ReplaceCommand, ReplaceParseError};

#[test]
fn replace_two_plain_words() {
    let cmd = ReplaceCommand::parse_to_command("foo bar".to_string()).unwrap();
    assert_eq!(cmd.keyword, "foo");
    assert_eq!(cmd.replacement, "bar");
}

#[test]
fn replace_quoted_words() {
    let cmd = ReplaceCommand::parse_to_command("'old phrase' \"new phrase\"".to_string()).unwrap();
    assert_eq!(cmd.keyword, "old phrase");
    assert_eq!(cmd.replacement, "new phrase");
}

#[test]
fn replace_one_word_is_rejected() {
    let err = ReplaceCommand::parse_to_command("only".to_string()).unwrap_err();
    assert_eq!(err, ReplaceParseError::WrongArgCount { found: 1 });
}

#[test]
fn replace_three_words_are_rejected() {
    let err = ReplaceCommand::parse_to_command("a b c".to_string()).unwrap_err();
    assert_eq!(err, ReplaceParseError::WrongArgCount { found: 3 });
}

#[test]
fn replace_empty_string_is_rejected() {
    let err = ReplaceCommand::parse_to_command(String::new()).unwrap_err();
    assert_eq!(err, ReplaceParseError::WrongArgCount { found: 0 });
}

#[test]
fn replace_unclosed_quote_is_rejected() {
    let err = ReplaceCommand::parse_to_command("\"broken word".to_string()).unwrap_err();
    assert_eq!(err, ReplaceParseError::BadQuoting);
}
