//! Story, director, character, tool and runtime settings.

use vstd::prelude::*;
use crate::types::TurnStrategy;

verus! {

/// Which local tools may be offered to characters.
#[derive(Debug)]
pub struct ToolConfig {
    /// Whether local tools may be exposed at all.
    pub enabled: bool,
    /// Tool names allowed globally; empty allows none.
    pub allowed: Vec<String>,
}

impl Default for ToolConfig {
    /// Tools disabled, none allowed.
    fn default() -> (c: Self)
        ensures
            !c.enabled,
            c.allowed@.len() == 0,
    {
        ToolConfig { enabled: false, allowed: Vec::new() }
    }
}

/// The story being played.
#[derive(Debug)]
pub struct StoryConfig {
    pub title: String,
    pub description: String,
    /// Name of the player's character.
    pub protagonist_name: String,
    pub turn_strategy: TurnStrategy,
    /// Character definition files, relative to the configuration.
    pub character_files: Vec<String>,
    /// Scene definition files.
    pub scene_files: Vec<String>,
    pub characters: Vec<CharacterConfig>,
    /// Goals of the scene.
    pub scene_goals: Vec<String>,
    /// Context of the scene.
    pub scene_context: Option<String>,
    pub director: DirectorConfig,
}

/// How the director is prompted.
#[derive(Debug)]
pub struct DirectorConfig {
    /// System prompt of the director.
    pub system_prompt: String,
    /// How many recent messages the director sees.
    pub recent_message_count: usize,
}

/// A character defined in the configuration.
#[derive(Debug)]
pub struct CharacterConfig {
    pub name: String,
    pub personality: String,
    pub backstory: String,
    pub system_prompt: String,
    pub short_description: Option<String>,
    pub model: Option<String>,
    pub allowed_tools: Vec<String>,
}

/// Runtime limits.
#[derive(Debug, Clone, Copy)]
pub struct RuntimeConfig {
    /// Most consecutive character turns before the player must speak.
    pub max_npc_turns: usize,
}

impl Default for RuntimeConfig {
    /// Three consecutive character turns at most.
    fn default() -> (c: Self)
        ensures
            c.max_npc_turns == 3,
    {
        RuntimeConfig { max_npc_turns: default_max_npc_turns() }
    }
}

/// Default completion budget of a model call.
pub fn default_max_tokens() -> (n: usize)
    ensures
        n == 4096,
{
    4096
}

/// Default number of consecutive character turns.
pub fn default_max_npc_turns() -> (n: usize)
    ensures
        n == 3,
{
    3
}

/// Default reasoning effort of thinking models.
pub fn default_reasoning_effort() -> (s: String)
    ensures
        s@ == "high"@,
{
    String::from_str("high")
}

} // verus!
