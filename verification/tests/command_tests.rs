use rust_agent::command::{strs_equal, Command};

fn parsed(s: &str) -> String {
    format!("{:?}", Command::parse(s))
}

#[test]
fn parse_quit_aliases() {
    for s in ["/quit", "/q", "/exit", "  /QUIT  "] {
        assert!(matches!(Command::parse(s), Some(Command::Quit)), "{}", s);
    }
}

#[test]
fn parse_commands_with_arguments() {
    match Command::parse("/scene tavern hall") {
        Some(Command::Scene(name)) => assert_eq!(name, "tavern hall"),
        other => panic!("unexpected {:?}", other),
    }
    match Command::parse("/save") {
        Some(Command::Save(name)) => assert_eq!(name, "autosave"),
        other => panic!("unexpected {:?}", other),
    }
    match Command::parse("/load slot1") {
        Some(Command::Load(name)) => assert_eq!(name, "slot1"),
        other => panic!("unexpected {:?}", other),
    }
}

#[test]
fn parse_simple_commands() {
    assert!(matches!(Command::parse("/characters"), Some(Command::Characters)));
    assert!(matches!(Command::parse("/chars"), Some(Command::Characters)));
    assert!(matches!(Command::parse("/model"), Some(Command::Model)));
    assert!(matches!(Command::parse("/h"), Some(Command::Help)));
    assert!(matches!(Command::parse("/clear"), Some(Command::Clear)));
}

#[test]
fn parse_rejects_plain_text_and_unknown_commands() {
    assert_eq!(parsed("hello"), "None");
    assert_eq!(parsed("/unknown"), "None");
    assert_eq!(parsed(""), "None");
    assert_eq!(parsed("   "), "None");
}

#[test]
fn help_lists_every_command() {
    let help = Command::help_text();
    for word in ["/scene", "/characters", "/model", "/save", "/load", "/clear", "/help", "/quit"] {
        assert!(help.contains(word), "{}", word);
    }
    assert_eq!(help.lines().count(), 8);
}

#[test]
fn strs_equal_compares_texts() {
    assert!(strs_equal("你好", "你好"));
    assert!(!strs_equal("你好", "你"));
    assert!(!strs_equal("ab", "ba"));
}

#[test]
fn every_help_line_starts_with_a_command() {
    for line in Command::help_text().lines() {
        let word = line.split(' ').next().unwrap();
        assert!(Command::parse(word).is_some(), "{}", line);
    }
}

#[test]
fn parse_ignores_surrounding_whitespace() {
    for s in ["/model", "  /model", "/model \t", "\n/help\n", "/save slot one "] {
        assert_eq!(parsed(s), parsed(s.trim()), "{:?}", s);
    }
    for s in ["say /quit", "/foo bar", "/", "/ quit"] {
        assert_eq!(parsed(s), "None", "{:?}", s);
    }
}
