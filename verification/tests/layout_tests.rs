use rust_agent::layout::{add_cjk_wrap_hints, wrapped_line_count};

#[test]
fn wrapped_line_count_respects_word_boundaries() {
    let text = vec!["abcdef ghijkl mnopqr".to_string()];

    assert_eq!(wrapped_line_count(&text, 10), 3);
}

#[test]
fn wrapped_line_count_handles_cjk_width() {
    let text = vec![format!("  {}", add_cjk_wrap_hints("你好世界你好"))];

    assert_eq!(wrapped_line_count(&text, 8), 2);
}

use rust_agent::layout::{
    chat_lines, chat_scroll, input_cursor_column, is_wrappable_wide_char, is_wrappable_whitespace,
    split_lines, story_bar_text, wrapped_symbols_line_count, ChatLineKind,
};
use rust_agent::tui_app::ChatMessage;

#[test]
fn wrapped_line_count_is_zero_without_width() {
    let text = vec!["abc".to_string()];
    assert_eq!(wrapped_line_count(&text, 0), 0);
}

#[test]
fn empty_line_takes_one_row() {
    let text = vec![String::new()];
    assert_eq!(wrapped_line_count(&text, 10), 1);
}

#[test]
fn every_line_takes_a_row() {
    let text = vec!["a".to_string(), "b".to_string(), "c".to_string()];
    assert_eq!(wrapped_line_count(&text, 4), 3);
}

#[test]
fn short_line_fits_one_row() {
    let text = vec!["hello".to_string()];
    assert_eq!(wrapped_line_count(&text, 10), 1);
}

#[test]
fn wide_text_wraps_by_display_width() {
    // Eight wide glyphs with hints are sixteen columns: two rows of eight.
    let text = vec![add_cjk_wrap_hints("你好世界你好世界")];
    assert_eq!(wrapped_line_count(&text, 8), 2);
}

#[test]
fn symbols_line_count_counts_word_rows() {
    let symbols: Vec<String> = "abcdef ghijkl".chars().map(|c| c.to_string()).collect();
    assert_eq!(wrapped_symbols_line_count(&symbols, 10), 2);
    assert_eq!(wrapped_symbols_line_count(&Vec::new(), 10), 1);
}

#[test]
fn unscrolled_panel_shows_last_rows() {
    assert_eq!(chat_scroll(20, 8, 0), 12);
    assert_eq!(chat_scroll(5, 8, 0), 0);
}

#[test]
fn scrolled_panel_moves_up() {
    assert_eq!(chat_scroll(20, 8, 3), 9);
    assert_eq!(chat_scroll(20, 8, 50), 0);
}

#[test]
fn wrap_hints_go_between_wide_glyphs_only() {
    assert_eq!(add_cjk_wrap_hints("你好"), "你\u{200b}好");
    assert_eq!(add_cjk_wrap_hints("a你好b"), "a你\u{200b}好b");
    assert_eq!(add_cjk_wrap_hints("ab"), "ab");
    assert_eq!(add_cjk_wrap_hints(""), "");
}

#[test]
fn wrappable_whitespace_symbols() {
    assert!(is_wrappable_whitespace(" "));
    assert!(is_wrappable_whitespace("\u{200b}"));
    assert!(!is_wrappable_whitespace("\u{a0}"));
    assert!(!is_wrappable_whitespace("a"));
}

#[test]
fn wide_glyphs_are_wrappable() {
    assert!(is_wrappable_wide_char('你'));
    assert!(!is_wrappable_wide_char('a'));
    assert!(!is_wrappable_wide_char(' '));
}

#[test]
fn cursor_column_counts_display_width() {
    assert_eq!(input_cursor_column("你好a", 2), 4);
    assert_eq!(input_cursor_column("abc", 1), 1);
    assert_eq!(input_cursor_column("abc", 10), 3);
}

#[test]
fn split_lines_like_str_lines() {
    assert_eq!(split_lines("a\nb\r\nc\n"), vec!["a", "b", "c"]);
    assert_eq!(split_lines(""), Vec::<String>::new());
    assert_eq!(split_lines("\n"), vec![""]);
}

#[test]
fn chat_lines_of_a_message() {
    let messages = vec![ChatMessage {
        character_name: "NPC".to_string(),
        content: "你好\nhi".to_string(),
        is_user: false,
        is_system: false,
    }];
    let lines = chat_lines(&messages);
    assert_eq!(lines.len(), 4);
    assert_eq!(lines[0].text, "[NPC]");
    assert!(lines[0].kind == ChatLineKind::Header);
    assert_eq!(lines[1].text, "  你\u{200b}好");
    assert_eq!(lines[2].text, "  hi");
    assert!(lines[3].kind == ChatLineKind::Separator);
    assert_eq!(lines[3].text, "");
    assert!(lines.iter().all(|l| l.message_index == 0));
}

#[test]
fn chat_lines_of_an_empty_message() {
    let messages = vec![ChatMessage {
        character_name: "System".to_string(),
        content: String::new(),
        is_user: false,
        is_system: true,
    }];
    let lines = chat_lines(&messages);
    assert_eq!(lines.len(), 3);
    assert_eq!(lines[1].text, "  ");
}

#[test]
fn story_bar_shows_counts_and_loading() {
    assert_eq!(story_bar_text("Tale", "Inn", 3, false), " Tale | Scene: Inn | Messages: 3");
    assert_eq!(
        story_bar_text("Tale", "Inn", 12, true),
        " Tale | Scene: Inn | Messages: 12 | Thinking..."
    );
}

#[test]
fn display_width_of_latin_and_cjk() {
    assert_eq!(input_cursor_column("hello", 5), 5);
    assert_eq!(input_cursor_column("你好世界", 4), 8);
    assert_eq!(input_cursor_column("你好abc", 5), 7);
}

#[test]
fn long_cjk_line_takes_several_rows() {
    // Forty wide glyphs are eighty columns: two rows of a sixty-column panel.
    let text = vec![add_cjk_wrap_hints(&"你".repeat(40))];
    assert_eq!(wrapped_line_count(&text, 60), 2);
}
