use rust_agent::command::Command;
use rust_agent::tui_app::{App, AppEvent, ChatMessage, KeyCode};

fn typed(app: &mut App, text: &str) {
    for c in text.chars() {
        assert!(app.handle_key(KeyCode::Char(c), false).is_none());
    }
}

#[test]
fn new_app_is_empty() {
    let app = App::new("Story".to_string(), "Scene".to_string());
    assert!(app.messages.is_empty());
    assert_eq!(app.input, "");
    assert_eq!(app.cursor_position, 0);
    assert_eq!(app.story_title, "Story");
    assert_eq!(app.scene_name, "Scene");
    assert!(!app.should_quit);
}

#[test]
fn typing_wide_characters_keeps_char_cursor() {
    let mut app = App::new("S".to_string(), "s".to_string());
    typed(&mut app, "你好");
    assert_eq!(app.input, "你好");
    assert_eq!(app.cursor_position, 2);
    assert_eq!(app.input_char_count(), 2);
    assert_eq!(app.char_to_byte_index(1), 3);
    assert_eq!(app.char_to_byte_index(5), 6);
}

#[test]
fn backspace_undoes_typing() {
    let mut app = App::new("S".to_string(), "s".to_string());
    typed(&mut app, "ab");
    app.handle_key(KeyCode::Left, false);
    let before_input = app.input.clone();
    let before_cursor = app.cursor_position;
    app.handle_key(KeyCode::Char('界'), false);
    assert_eq!(app.input, "a界b");
    app.handle_key(KeyCode::Backspace, false);
    assert_eq!(app.input, before_input);
    assert_eq!(app.cursor_position, before_cursor);
}

#[test]
fn backspace_at_start_does_nothing() {
    let mut app = App::new("S".to_string(), "s".to_string());
    typed(&mut app, "ab");
    app.handle_key(KeyCode::Left, false);
    app.handle_key(KeyCode::Left, false);
    app.handle_key(KeyCode::Left, false);
    assert_eq!(app.cursor_position, 0);
    app.handle_key(KeyCode::Backspace, false);
    assert_eq!(app.input, "ab");
}

#[test]
fn left_undoes_right() {
    let mut app = App::new("S".to_string(), "s".to_string());
    typed(&mut app, "abc");
    app.handle_key(KeyCode::Left, false);
    app.handle_key(KeyCode::Left, false);
    assert_eq!(app.cursor_position, 1);
    app.handle_key(KeyCode::Right, false);
    app.handle_key(KeyCode::Left, false);
    assert_eq!(app.cursor_position, 1);
    app.handle_key(KeyCode::Right, false);
    app.handle_key(KeyCode::Right, false);
    app.handle_key(KeyCode::Right, false);
    assert_eq!(app.cursor_position, 3);
}

#[test]
fn page_down_undoes_page_up() {
    let mut app = App::new("S".to_string(), "s".to_string());
    app.handle_key(KeyCode::PageUp, false);
    assert_eq!(app.scroll_offset, 5);
    app.handle_key(KeyCode::PageDown, false);
    assert_eq!(app.scroll_offset, 0);
    app.handle_key(KeyCode::PageDown, false);
    assert_eq!(app.scroll_offset, 0);
}

#[test]
fn enter_sends_trimmed_message() {
    let mut app = App::new("S".to_string(), "s".to_string());
    typed(&mut app, "  hello  ");
    match app.handle_key(KeyCode::Enter, false) {
        Some(Command::SendMessage(t)) => assert_eq!(t, "hello"),
        other => panic!("unexpected {:?}", other),
    }
    assert_eq!(app.input, "");
    assert_eq!(app.cursor_position, 0);
    assert_eq!(app.input_history, vec!["hello".to_string()]);
}

#[test]
fn enter_parses_commands() {
    let mut app = App::new("S".to_string(), "s".to_string());
    typed(&mut app, "/Help");
    assert!(matches!(app.handle_key(KeyCode::Enter, false), Some(Command::Help)));
}

#[test]
fn enter_on_blank_line_does_nothing() {
    let mut app = App::new("S".to_string(), "s".to_string());
    typed(&mut app, "   ");
    assert!(app.handle_key(KeyCode::Enter, false).is_none());
    assert_eq!(app.input, "   ");
    assert!(app.input_history.is_empty());
}

#[test]
fn control_c_quits() {
    let mut app = App::new("S".to_string(), "s".to_string());
    assert!(matches!(app.handle_key(KeyCode::Char('c'), true), Some(Command::Quit)));
    assert!(app.should_quit);
    assert_eq!(app.input, "");
}

#[test]
fn history_navigation() {
    let mut app = App::new("S".to_string(), "s".to_string());
    typed(&mut app, "one");
    app.handle_key(KeyCode::Enter, false);
    typed(&mut app, "two");
    app.handle_key(KeyCode::Enter, false);
    app.handle_key(KeyCode::Up, false);
    assert_eq!(app.input, "two");
    assert_eq!(app.cursor_position, 3);
    app.handle_key(KeyCode::Up, false);
    assert_eq!(app.input, "one");
    app.handle_key(KeyCode::Up, false);
    assert_eq!(app.input, "one");
    app.handle_key(KeyCode::Down, false);
    assert_eq!(app.input, "two");
    app.handle_key(KeyCode::Down, false);
    assert_eq!(app.input, "");
    assert_eq!(app.history_index, None);
}

#[test]
fn submit_input_returns_trimmed_text() {
    let mut app = App::new("S".to_string(), "s".to_string());
    typed(&mut app, " x ");
    assert_eq!(app.submit_input(), Some("x".to_string()));
    assert_eq!(app.submit_input(), None);
}

#[test]
fn messages_and_events() {
    let mut app = App::new("S".to_string(), "s".to_string());
    app.scroll_offset = 7;
    app.add_message(ChatMessage {
        character_name: "A".to_string(),
        content: "hi".to_string(),
        is_user: false,
        is_system: false,
    });
    assert_eq!(app.scroll_offset, 0);
    assert!(!app.apply_event(AppEvent::StreamDelta { character: "A".to_string(), delta: " there".to_string() }));
    assert_eq!(app.messages[0].content, "hi there");
    assert!(!app.apply_event(AppEvent::StreamDelta { character: "B".to_string(), delta: "x".to_string() }));
    assert_eq!(app.messages.len(), 1);
    assert!(!app.apply_event(AppEvent::SystemMessage("note".to_string())));
    assert_eq!(app.messages[1].character_name, "System");
    assert!(app.messages[1].is_system);
    assert!(!app.apply_event(AppEvent::Loading(true)));
    assert!(app.is_loading);
    assert!(!app.apply_event(AppEvent::SceneChanged("Hall".to_string())));
    assert_eq!(app.scene_name, "Hall");
    assert!(app.apply_event(AppEvent::Quit));
    assert!(app.should_quit);
}

#[test]
fn typing_between_wide_characters() {
    let mut app = App::new("S".to_string(), "s".to_string());
    typed(&mut app, "你好");
    app.handle_key(KeyCode::Left, false);
    app.handle_key(KeyCode::Char('a'), false);
    assert_eq!(app.input, "你a好");
    assert_eq!(app.cursor_position, 2);
    app.handle_key(KeyCode::Right, false);
    app.handle_key(KeyCode::Right, false);
    assert_eq!(app.cursor_position, 3);
    app.handle_key(KeyCode::Backspace, false);
    assert_eq!(app.input, "你a");
    assert_eq!(app.char_to_byte_index(2), 4);
}
