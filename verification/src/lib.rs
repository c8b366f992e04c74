//! A multi-character roleplay chat engine: conversation memory, context
//! windows, turn planning, director decisions, stream decoding and the
//! terminal front end's editing and layout logic, with their contracts.

pub mod text;
pub mod error;
pub mod message;
pub mod sliding_window;
pub mod store;
pub mod conversation;
pub mod command;
pub mod tui_app;
pub mod layout;
pub mod types;
pub mod config;
pub mod director;
pub mod scene_manager;
pub mod turn_manager;
pub mod traits;
pub mod llm;
pub mod sse;
pub mod character_agent;
pub mod tools;
pub mod persistence;
pub mod logging;
pub mod graph;
pub mod tool_registry;
pub mod laws;
pub mod session;
pub mod demo;
pub mod json;
