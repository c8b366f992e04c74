//! Data exchanged with model clients and tools.

use vstd::prelude::*;

verus! {

/// Provider-neutral description of a tool offered to a model.
#[derive(Debug)]
pub struct ToolSpec {
    pub name: String,
    pub description: String,
    /// JSON schema of the tool's arguments.
    pub parameters: serde_json::Value,
}

impl Clone for ToolSpec {
    fn clone(&self) -> (res: Self)
        ensures
            res == *self,
    {
        ToolSpec {
            name: self.name.clone(),
            description: self.description.clone(),
            parameters: self.parameters.clone(),
        }
    }
}

/// One piece of a streamed model answer.
#[derive(Debug)]
pub enum StreamChunk {
    /// A piece of text.
    Delta(String),
    /// The answer is complete.
    Done {
        /// The whole text.
        content: String,
        /// Token counts, when known.
        usage: Option<TokenUsage>,
    },
    /// The stream failed.
    Error(String),
}

/// Token counts of a model call.
#[derive(Debug, Clone, Copy)]
pub struct TokenUsage {
    pub prompt_tokens: usize,
    pub completion_tokens: usize,
    pub total_tokens: usize,
}

impl Default for TokenUsage {
    fn default() -> (u: Self)
        ensures
            u.prompt_tokens == 0,
            u.completion_tokens == 0,
            u.total_tokens == 0,
    {
        TokenUsage { prompt_tokens: 0, completion_tokens: 0, total_tokens: 0 }
    }
}

} // verus!
