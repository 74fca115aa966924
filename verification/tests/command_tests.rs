use beet_smart_cutoff::command::{same_text, Command, CommandError};

#[test]
fn words_for_quitting() {
    for word in ["q", "quit", "exit", "Q", "Quit", "QUIT", "eXiT"] {
        assert_eq!(Command::from_str(word).unwrap(), Command::Quit);
    }
}

#[test]
fn words_for_custom_targets() {
    for word in ["c", "custom", "C", "Custom", "CUSTOM"] {
        assert_eq!(Command::from_str(word).unwrap(), Command::Custom);
    }
}

#[test]
fn nothing_typed() {
    assert_eq!(Command::from_str("").unwrap(), Command::Empty);
}

#[test]
fn numbers_from_one_on() {
    assert_eq!(Command::from_str("1").unwrap(), Command::Number(1));
    assert_eq!(Command::from_str("12").unwrap(), Command::Number(12));
    assert_eq!(Command::from_str("+3").unwrap(), Command::Number(3));
    assert_eq!(Command::from_str("007").unwrap(), Command::Number(7));
}

#[test]
fn anything_else_is_unrecognized() {
    for word in ["0", "-1", "x", "quit now", " q", "1 ", "+", "1.5", "99999999999999999999999999"] {
        match Command::from_str(word) {
            Err(CommandError::Unrecognized { input }) => assert_eq!(input, word.to_lowercase()),
            Ok(command) => panic!("{word:?} was read as {command:?}"),
        }
    }
}

#[test]
fn unrecognized_input_is_kept_in_lower_case() {
    match Command::from_str("HeLLo") {
        Err(CommandError::Unrecognized { input }) => assert_eq!(input, "hello"),
        Ok(command) => panic!("read as {command:?}"),
    }
}

#[test]
fn classify_takes_lower_case_only() {
    assert_eq!(Command::classify("quit").unwrap(), Command::Quit);
    assert!(Command::classify("QUIT").is_err());
    assert_eq!(Command::classify("custom").unwrap(), Command::Custom);
    assert_eq!(Command::classify("").unwrap(), Command::Empty);
    assert_eq!(Command::classify("42").unwrap(), Command::Number(42));
}

#[test]
fn texts_are_compared_by_their_characters() {
    assert!(same_text("abc", "abc"));
    assert!(!same_text("abc", "abd"));
    assert!(!same_text("abc", "ab"));
    assert!(same_text("", ""));
}
