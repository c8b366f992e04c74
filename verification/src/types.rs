//! Characters, scenes, turn strategies and turn decisions of a story.

use vstd::prelude::*;
use crate::message::{is_random_uuid, random_uuid};

verus! {

/// A character of the story.
#[derive(Debug)]
pub struct Character {
    /// The 128 bits of the character's UUID.
    pub id: u128,
    pub name: String,
    pub personality: String,
    pub backstory: String,
    pub system_prompt: String,
    /// Short description for the sidebar.
    pub short_description: Option<String>,
    /// Model used for this character instead of the default one.
    pub model: Option<String>,
    /// Local tools the character may use.
    pub allowed_tools: Vec<String>,
}

/// A scene of the story.
#[derive(Debug)]
pub struct Scene {
    /// The 128 bits of the scene's UUID.
    pub id: u128,
    pub name: String,
    pub description: String,
    /// Ids of the characters acting in the scene.
    pub active_characters: Vec<u128>,
    /// Goals of the scene.
    pub goals: Vec<String>,
    /// Context added to prompts during the scene.
    pub context: Option<String>,
}

/// How the next speakers are chosen.
#[derive(Debug, Clone, Copy, PartialEq, Eq, Structural)]
pub enum TurnStrategy {
    /// Characters speak in a fixed rotation.
    RoundRobin,
    /// A director model decides.
    DirectorControlled,
    /// A character is picked at random.
    Random,
}

impl Default for TurnStrategy {
    /// The director decides by default.
    fn default() -> (s: Self)
        ensures
            s == TurnStrategy::DirectorControlled,
    {
        TurnStrategy::DirectorControlled
    }
}

/// What happens next in a scene.
#[derive(Debug)]
pub enum TurnDecision {
    /// Characters speak one after another; each sees the previous reply.
    Sequential(Vec<String>),
    /// Characters speak on the same snapshot of the conversation.
    Parallel(Vec<String>),
    /// The player speaks.
    Player,
    /// The scene ends.
    EndScene,
}

/// The mathematical content of a turn decision.
pub enum TurnDecisionView {
    Sequential(Seq<Seq<char>>),
    Parallel(Seq<Seq<char>>),
    Player,
    EndScene,
}

/// The characters of each string of a list.
pub open spec fn strs_view(v: Seq<String>) -> Seq<Seq<char>> {
    v.map_values(|s: String| s@)
}

impl View for TurnDecision {
    type V = TurnDecisionView;

    open spec fn view(&self) -> TurnDecisionView {
        match self {
            TurnDecision::Sequential(v) => TurnDecisionView::Sequential(strs_view(v@)),
            TurnDecision::Parallel(v) => TurnDecisionView::Parallel(strs_view(v@)),
            TurnDecision::Player => TurnDecisionView::Player,
            TurnDecision::EndScene => TurnDecisionView::EndScene,
        }
    }
}

/// The default prompt of a character.
pub open spec fn character_prompt(name: Seq<char>, personality: Seq<char>, backstory: Seq<char>) -> Seq<
    char,
> {
    "You are "@ + name + ". Your personality: "@ + personality + "\n\nBackstory: "@ + backstory
        + "\n\nStay in character at all times. Respond naturally as this character would."@
}


/// Copies a list of strings.
fn clone_strings(v: &Vec<String>) -> (res: Vec<String>)
    ensures
        res@ == v@,
{
    let mut out: Vec<String> = Vec::new();
    for i in 0..v.len()
        invariant
            out@ == v@.take(i as int),
    {
        out.push(v[i].clone());
        assert(out@ =~= v@.take(i + 1));
    }
    assert(v@.take(v.len() as int) =~= v@);
    out
}

impl Clone for Character {
    fn clone(&self) -> (res: Self)
        ensures
            res.id == self.id,
            res.name == self.name,
            res.personality == self.personality,
            res.backstory == self.backstory,
            res.system_prompt == self.system_prompt,
            res.short_description == self.short_description,
            res.model == self.model,
            res.allowed_tools@ == self.allowed_tools@,
    {
        Character {
            id: self.id,
            name: self.name.clone(),
            personality: self.personality.clone(),
            backstory: self.backstory.clone(),
            system_prompt: self.system_prompt.clone(),
            short_description: crate::message::clone_opt_string(&self.short_description),
            model: crate::message::clone_opt_string(&self.model),
            allowed_tools: clone_strings(&self.allowed_tools),
        }
    }
}

impl Character {
    /// A character with a fresh random id and the default prompt built from its
    /// name, personality and backstory.
    pub fn new(name: String, personality: String, backstory: String) -> (c: Character)
        ensures
            c.name == name,
            c.personality == personality,
            c.backstory == backstory,
            c.system_prompt@ == character_prompt(name@, personality@, backstory@),
            c.short_description is None,
            c.model is None,
            c.allowed_tools@.len() == 0,
            is_random_uuid(c.id),
    {
        let mut prompt = String::from_str("You are ");
        prompt.append(name.as_str());
        prompt.append(". Your personality: ");
        prompt.append(personality.as_str());
        prompt.append("\n\nBackstory: ");
        prompt.append(backstory.as_str());
        prompt.append(
            "\n\nStay in character at all times. Respond naturally as this character would.",
        );
        Character {
            id: random_uuid(),
            name,
            personality,
            backstory,
            system_prompt: prompt,
            short_description: None,
            model: None,
            allowed_tools: Vec::new(),
        }
    }

    pub fn with_system_prompt(self, prompt: String) -> (c: Character)
        ensures
            c == (Character { system_prompt: prompt, ..self }),
    {
        Character { system_prompt: prompt, ..self }
    }

    pub fn with_description(self, desc: String) -> (c: Character)
        ensures
            c == (Character { short_description: Some(desc), ..self }),
    {
        Character { short_description: Some(desc), ..self }
    }

    pub fn with_model(self, model: String) -> (c: Character)
        ensures
            c == (Character { model: Some(model), ..self }),
    {
        Character { model: Some(model), ..self }
    }

    pub fn with_allowed_tools(self, tools: Vec<String>) -> (c: Character)
        ensures
            c == (Character { allowed_tools: tools, ..self }),
    {
        Character { allowed_tools: tools, ..self }
    }
}

impl Scene {
    /// A scene with a fresh random id, no characters, goals or context.
    pub fn new(name: String, description: String) -> (s: Scene)
        ensures
            s.name == name,
            s.description == description,
            s.active_characters@.len() == 0,
            s.goals@.len() == 0,
            s.context is None,
            is_random_uuid(s.id),
    {
        Scene {
            id: random_uuid(),
            name,
            description,
            active_characters: Vec::new(),
            goals: Vec::new(),
            context: None,
        }
    }

    pub fn with_characters(self, characters: Vec<u128>) -> (s: Scene)
        ensures
            s == (Scene { active_characters: characters, ..self }),
    {
        Scene { active_characters: characters, ..self }
    }

    pub fn with_goals(self, goals: Vec<String>) -> (s: Scene)
        ensures
            s == (Scene { goals, ..self }),
    {
        Scene { goals, ..self }
    }

    pub fn with_context(self, context: String) -> (s: Scene)
        ensures
            s == (Scene { context: Some(context), ..self }),
    {
        Scene { context: Some(context), ..self }
    }
}

} // verus!
