use rust_agent::config::{default_max_npc_turns, default_max_tokens, default_reasoning_effort, RuntimeConfig};
use rust_agent::logging::{agent_slug, log_file_name, request_preview};
use rust_agent::message::{Message, Role};
use rust_agent::persistence::MemoryStore;
use rust_agent::sliding_window::SlidingWindowContext;
use rust_agent::text::{trim_str, usize_to_decimal};
use rust_agent::types::TurnStrategy;

fn contents(ms: &[Message]) -> Vec<String> {
    ms.iter().map(|m| m.content.clone()).collect()
}

#[test]
fn window_keeps_system_messages_and_the_latest() {
    let w = SlidingWindowContext::new(2, 1000);
    let ms = vec![
        Message::system("rules".to_string()),
        Message::user("1".to_string()),
        Message::user("2".to_string()),
        Message::system("more".to_string()),
        Message::user("3".to_string()),
    ];
    assert_eq!(contents(&w.apply(&ms)), vec!["rules", "more", "2", "3"]);
}

#[test]
fn window_respects_the_character_budget() {
    let w = SlidingWindowContext::new(10, 6);
    let ms = vec![
        Message::system("sys".to_string()),
        Message::user("aaa".to_string()),
        Message::user("bbb".to_string()),
        Message::user("cc".to_string()),
    ];
    // 3 + 3 + 3 + 2 characters: the oldest others go until 3 + 2 fits.
    assert_eq!(contents(&w.apply(&ms)), vec!["sys", "cc"]);
}

#[test]
fn window_counts_characters_not_bytes() {
    let w = SlidingWindowContext::new(10, 4);
    let ms = vec![Message::user("你".to_string()), Message::user("好".to_string())];
    assert_eq!(contents(&w.apply(&ms)), vec!["你", "好"]);
    let tight = SlidingWindowContext::new(10, 3);
    let longer = vec![Message::user("你好".to_string()), Message::user("世界".to_string())];
    assert_eq!(contents(&tight.apply(&longer)), vec!["世界"]);
}

#[test]
fn window_keeps_one_message_over_budget() {
    let w = SlidingWindowContext::new(10, 2);
    let ms = vec![Message::user("toolong".to_string())];
    assert_eq!(contents(&w.apply(&ms)), vec!["toolong"]);
}

#[test]
fn window_without_preserving_system_counts_everything() {
    let w = SlidingWindowContext { max_messages: 2, max_chars: 1000, preserve_system: false };
    let ms = vec![
        Message::system("s".to_string()),
        Message::user("1".to_string()),
        Message::user("2".to_string()),
    ];
    assert_eq!(contents(&w.apply(&ms)), vec!["1", "2"]);
}

#[test]
fn default_window() {
    let w = SlidingWindowContext::default();
    assert_eq!(w.max_messages, 50);
    assert_eq!(w.max_chars, 32000);
    assert!(w.preserve_system);
}

#[test]
fn log_names_and_previews() {
    assert_eq!(request_preview("short"), "short");
    assert_eq!(request_preview(&"你".repeat(250)), "你".repeat(200));
    assert_eq!(agent_slug("old man"), "old_man");
    assert_eq!(log_file_name("20240101_120000", "a b", 123456), "20240101_120000_a_b_3456.json");
    assert_eq!(log_file_name("s", "x", -123456), "s_x_-3456.json");
    assert_eq!(log_file_name("s", "x", 7), "s_x_7.json");
}

#[test]
fn save_files_and_names() {
    let store = MemoryStore::new("saves".to_string());
    assert_eq!(store.path(), "saves");
    assert_eq!(store.save_path("slot1"), "saves/slot1.json");
    let names = store.save_names(&vec![
        "saves/a.json".to_string(),
        "saves/b.txt".to_string(),
        "saves/c.d.json".to_string(),
        "saves/noext".to_string(),
    ]);
    assert_eq!(names, vec!["a".to_string(), "c.d".to_string()]);
}

#[test]
fn message_builders() {
    let m = Message::user("hi".to_string()).with_character("P".to_string());
    assert!(m.role == Role::User);
    assert_eq!(m.character_name.as_deref(), Some("P"));
    assert!(m.tool_calls.is_empty());
    assert!(m.timestamp > 0);
    assert_ne!(Message::user("a".to_string()).id, Message::user("a".to_string()).id);
    let t = Message::new(Role::Tool, "out".to_string()).with_tool_call_id("c".to_string());
    assert_eq!(t.tool_call_id.as_deref(), Some("c"));
    let c = t.clone();
    assert_eq!(c.id, t.id);
    assert_eq!(c.content, "out");
}

#[test]
fn configuration_defaults() {
    assert_eq!(default_max_tokens(), 4096);
    assert_eq!(default_max_npc_turns(), 3);
    assert_eq!(default_reasoning_effort(), "high");
    assert_eq!(RuntimeConfig::default().max_npc_turns, 3);
    assert!(TurnStrategy::default() == TurnStrategy::DirectorControlled);
}

#[test]
fn text_helpers() {
    assert_eq!(trim_str("  a b \n"), "a b");
    assert_eq!(trim_str("\u{3000}你\u{3000}"), "你");
    assert_eq!(usize_to_decimal(0), "0");
    assert_eq!(usize_to_decimal(907), "907");
}

#[test]
fn window_applied_twice_is_applied_once() {
    let w = SlidingWindowContext::new(3, 7);
    let ms = vec![
        Message::system("rules".to_string()),
        Message::user("one".to_string()),
        Message::system("note".to_string()),
        Message::user("two".to_string()),
        Message::user("three".to_string()),
    ];
    let once = w.apply(&ms);
    let twice = w.apply(&once);
    assert_eq!(contents(&once), contents(&twice));
    assert!(once.len() <= ms.len());
    assert!(w.apply(&[]).is_empty());
}

#[test]
fn fresh_ids_are_random_uuids() {
    let ids = [
        Message::user("hi".to_string()).id,
        Message::new(Role::Assistant, "yo".to_string()).id,
        rust_agent::types::Character::new("A".to_string(), "p".to_string(), "b".to_string()).id,
        rust_agent::types::Scene::new("S".to_string(), "d".to_string()).id,
    ];
    for id in ids {
        assert_eq!((id >> 76) & 0xf, 4);
        assert_eq!((id >> 62) & 0x3, 2);
    }
    assert_ne!(ids[0], ids[1]);
}
