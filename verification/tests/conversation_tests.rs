use rust_agent::conversation::{stable_character_scope_id, ConversationMemory};
use rust_agent::error::AgentError;
use rust_agent::message::{Message, Role};
use rust_agent::store::estimate_tokens;

fn k_one() -> serde_json::Value {
    let mut m = serde_json::Map::new();
    m.insert("k".to_string(), serde_json::Value::from(1));
    serde_json::Value::Object(m)
}

fn said(name: &str, text: &str) -> Message {
    Message::assistant(text.to_string()).with_character(name.to_string())
}

#[test]
fn added_message_is_most_recent() {
    let mut m = ConversationMemory::with_session("s1".to_string());
    m.add_message(said("A", "one"), None);
    m.add_message(said("B", "two"), None);
    let last = m.last_n(1);
    assert_eq!(last.len(), 1);
    assert_eq!(last[0].content, "two");
    assert_eq!(m.last_n(5).len(), 2);
    assert_eq!(m.last_n(0).len(), 0);
    assert_eq!(m.len(), 2);
    assert!(!m.is_empty());
}

#[test]
fn character_entries_follow_given_ids() {
    let mut m = ConversationMemory::with_session("s1".to_string());
    m.add_message(said("A", "one"), Some(7));
    m.add_message(said("B", "two"), Some(9));
    m.add_message(said("A", "three"), Some(7));
    m.add_message(Message::user("four".to_string()), None);
    let a = m.character_messages(7);
    assert_eq!(a.len(), 2);
    assert_eq!(a[0].content, "one");
    assert_eq!(a[1].content, "three");
    assert_eq!(m.character_messages(9).len(), 1);
    assert_eq!(m.character_messages(1).len(), 0);
    assert_eq!(m.history().len(), 4);
}

#[test]
fn failed_persistence_leaves_memory_unchanged() {
    let mut m = ConversationMemory::with_session("s1".to_string());
    let r = m.add_message_result(said("A", "x"), Some(1), Err(AgentError::Other("disk".to_string())));
    assert!(matches!(r, Err(AgentError::Other(ref s)) if s == "disk"));
    assert!(m.is_empty());
    assert_eq!(m.character_messages(1).len(), 0);
    assert!(m.add_message_result(said("A", "x"), Some(1), Ok(3)).is_ok());
    assert_eq!(m.len(), 1);
    assert_eq!(m.character_messages(1).len(), 1);
}

#[test]
fn clear_forgets_everything_but_the_session() {
    let mut m = ConversationMemory::with_session("keep".to_string());
    m.add_message(said("A", "one"), Some(1));
    m.clear();
    assert!(m.is_empty());
    assert_eq!(m.character_messages(1).len(), 0);
    assert_eq!(m.session_id, "keep");
}

#[test]
fn estimated_tokens_sum_per_message() {
    let mut m = ConversationMemory::with_session("s".to_string());
    m.add_message(said("A", "abcdef"), None);
    m.add_message(said("A", ""), None);
    m.add_message(said("A", "你好世界你好世界你"), None);
    assert_eq!(m.estimated_tokens(), 2 + 1 + 3);
    assert_eq!(estimate_tokens("ab"), 1);
    assert_eq!(estimate_tokens("abcdefghi"), 3);
}

#[test]
fn scope_id_mixes_name_bytes() {
    assert_eq!(stable_character_scope_id(""), 0);
    assert_eq!(stable_character_scope_id("A"), 130u128 << 120);
    assert_eq!(stable_character_scope_id("老板娘"), stable_character_scope_id("老板娘"));
    assert_ne!(stable_character_scope_id("A"), stable_character_scope_id("B"));
}

#[test]
fn compaction_keeps_recent_messages_under_a_summary() {
    let mut m = ConversationMemory::with_session("s9".to_string());
    for (i, name) in ["A", "B", "A", "B", "A"].iter().enumerate() {
        m.add_message(said(name, &format!("m{}", i)), None);
    }
    let (stats, record) =
        m.compact_with_summary("S".to_string(), k_one(), 2, "gpt".to_string());
    assert_eq!(stats.before_messages, 5);
    assert_eq!(stats.after_messages, 3);
    let h = m.history();
    assert_eq!(h.len(), 3);
    assert!(h[0].role == Role::System);
    assert_eq!(h[0].content, "Conversation summary for compacted older context:\nS");
    assert_eq!(h[1].content, "m3");
    assert_eq!(h[2].content, "m4");
    assert_eq!(stats.after_tokens, estimate_tokens(&h[0].content) + 1 + 1);
    let rec = record.expect("a compaction happened");
    assert_eq!(rec.session_id, "s9");
    assert_eq!(rec.scope_type, "global");
    assert_eq!(rec.from_sequence, 1);
    assert_eq!(rec.to_sequence, 3);
    assert_eq!(rec.summary_text, "S");
    assert_eq!(rec.model, "gpt");
    assert_eq!(rec.summary_json, k_one());
    assert_eq!(
        h[0].metadata.as_ref().unwrap()["compacted_message_count"],
        serde_json::Value::from(3)
    );
    // The per-character index is rebuilt from the names in the new history.
    assert_eq!(m.character_messages(stable_character_scope_id("B")).len(), 1);
    assert_eq!(m.character_messages(stable_character_scope_id("A")).len(), 1);
}

#[test]
fn compaction_of_a_short_history_changes_nothing() {
    let mut m = ConversationMemory::with_session("s".to_string());
    m.add_message(said("A", "one"), Some(4));
    let (stats, record) =
        m.compact_with_summary("S".to_string(), serde_json::Value::Null, 3, "x".to_string());
    assert!(record.is_none());
    assert_eq!(stats.before_messages, 1);
    assert_eq!(stats.after_messages, 1);
    assert_eq!(m.character_messages(4).len(), 1);
}

#[test]
fn fallback_compaction_keeps_eight() {
    let mut m = ConversationMemory::with_session("s".to_string());
    for i in 0..10 {
        m.add_message(said("A", &format!("m{}", i)), None);
    }
    m.compact();
    let h = m.history();
    assert_eq!(h.len(), 9);
    assert_eq!(
        h[0].content,
        "Conversation summary for compacted older context:\nEarlier context was compacted without an LLM summary. Compacted messages: 2."
    );
    assert_eq!(h[1].content, "m2");
    let meta = h[0].metadata.as_ref().unwrap();
    assert_eq!(meta["compacted_message_count"], serde_json::Value::from(2));
    assert_eq!(meta["kind"], serde_json::Value::from("structured_compact_summary"));
    assert_eq!(meta["summary"]["fallback"], serde_json::Value::Bool(true));
}

#[test]
fn new_memory_has_a_uuid_session() {
    let m = ConversationMemory::new();
    assert!(m.is_empty());
    assert_eq!(m.session_id.len(), 36);
    assert_eq!(m.session_id.matches('-').count(), 4);
    assert_ne!(ConversationMemory::new().session_id, m.session_id);
    let chars: Vec<char> = m.session_id.chars().collect();
    for (i, c) in chars.iter().enumerate() {
        if [8, 13, 18, 23].contains(&i) {
            assert_eq!(*c, '-');
        } else {
            assert!(c.is_ascii_digit() || ('a'..='f').contains(c), "{}", m.session_id);
        }
    }
    assert_eq!(chars[14], '4');
    assert!(['8', '9', 'a', 'b'].contains(&chars[19]));
}
