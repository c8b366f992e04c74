//! Error values produced by the library.

use vstd::prelude::*;

verus! {

#[verifier::external_type_specification]
#[verifier::external_body]
pub struct ExIoError(std::io::Error);

#[verifier::external_type_specification]
#[verifier::external_body]
pub struct ExJsonError(serde_json::Error);

/// Top-level error of the roleplay engine.
#[derive(Debug)]
pub enum AgentError {
    Llm(LlmError),
    Memory(MemoryError),
    Config(String),
    Roleplay(String),
    Io(std::io::Error),
    Serialization(serde_json::Error),
    Other(String),
}

/// Errors of model calls.
#[derive(Debug)]
pub enum LlmError {
    Request(String),
    Api { status: u16, message: String },
    Stream(String),
    RateLimited { retry_after_secs: u64 },
    TokenLimit { used: usize, limit: usize },
    InvalidResponse(String),
}

/// Errors of memory storage.
#[derive(Debug)]
pub enum MemoryError {
    Storage(String),
    NotFound(String),
    Serialization(String),
}

} // verus!
