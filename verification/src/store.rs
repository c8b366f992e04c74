//! Records kept by the persistent memory store, and the token estimate it
//! attaches to every text.

use vstd::prelude::*;

verus! {

/// A generated artifact attached to a session.
#[derive(Debug)]
pub struct ArtifactRecord {
    /// The 128 bits of the artifact's UUID.
    pub id: u128,
    pub session_id: String,
    pub source_message_id: Option<u128>,
    pub kind: String,
    pub title: String,
    pub mime_type: String,
    pub content: String,
    pub summary: Option<String>,
    pub token_estimate: usize,
}

/// A summary that replaced a range of older messages.
#[derive(Debug)]
pub struct SummaryRecord {
    /// The 128 bits of the summary's UUID.
    pub id: u128,
    pub session_id: String,
    pub scope_type: String,
    pub scope_id: Option<String>,
    pub from_sequence: i64,
    pub to_sequence: i64,
    pub summary_json: serde_json::Value,
    pub summary_text: String,
    pub token_estimate: usize,
    pub model: String,
}

/// Rough token count of a text: a third of its characters, at least one.
pub open spec fn token_estimate(s: Seq<char>) -> nat {
    if s.len() / 3 >= 1 {
        s.len() / 3
    } else {
        1
    }
}

/// Rough token count of a text: a third of its characters, at least one.
pub fn estimate_tokens(text: &str) -> (n: usize)
    ensures
        n == token_estimate(text@),
{
    let chars = text.unicode_len();
    let third = chars / 3;
    if third >= 1 {
        third
    } else {
        1
    }
}

} // verus!
