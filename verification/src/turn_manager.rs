//! Turn order: who speaks next under each strategy. The director's model
//! call is made by the caller when the plan asks for it.

use vstd::prelude::*;
use crate::config::StoryConfig;
use crate::director::{Director, names_of};
use crate::error::AgentError;
use crate::types::{Character, TurnDecision, TurnDecisionView, TurnStrategy};

verus! {

/// Chooses who speaks next.
#[derive(Debug)]
pub struct TurnManager {
    pub strategy: TurnStrategy,
    pub director: Option<Director>,
    /// Count of round-robin turns given so far.
    pub round_robin_index: usize,
}

/// What the turn manager settles on.
#[derive(Debug)]
pub enum TurnStep {
    /// The decision is made.
    Decided(TurnDecision),
    /// The director's model must be consulted (with the director's request
    /// messages) and its answer parsed by the director.
    ConsultDirector,
    /// The strategy cannot be followed.
    Failed(AgentError),
}

/// The error message of a director strategy without a director.
pub open spec fn missing_director_message() -> Seq<char> {
    "DirectorControlled strategy requires story.director configuration"@
}

/// The sub-second nanoseconds of the current time: `SystemTime::now` taken
/// since `UNIX_EPOCH` (zero when the clock is before it), read with
/// `Duration::subsec_nanos`, which is always under one second.
#[verifier::external_body]
fn clock_subsec_nanos() -> (n: u32)
    ensures
        n < 1_000_000_000,
{
    std::time::SystemTime::now().duration_since(std::time::UNIX_EPOCH).unwrap_or_default().subsec_nanos()
}

/// The step a turn manager takes, and the manager after it, given the
/// characters available and the sub-second nanoseconds of the clock.
pub open spec fn next_action_spec(
    before: TurnManager,
    after: TurnManager,
    available_characters: Seq<Character>,
    clock_nanos: u32,
    step: TurnStep,
) -> bool {
    let n = available_characters.len();
    let names = names_of(available_characters);
    if n == 0 {
        &&& step matches TurnStep::Decided(d) && d@ == TurnDecisionView::Player
        &&& after == before
    } else {
        match before.strategy {
            TurnStrategy::RoundRobin => {
                &&& step matches TurnStep::Decided(d) && d@
                    == TurnDecisionView::Sequential(seq![names[(before.round_robin_index as int) % (n as int)]])
                &&& after.round_robin_index == before.round_robin_index + 1
                &&& after.strategy == before.strategy
                &&& after.director == before.director
            },
            TurnStrategy::DirectorControlled => {
                &&& after == before
                &&& if before.director is Some {
                    step is ConsultDirector
                } else {
                    step matches TurnStep::Failed(AgentError::Config(m)) && m@ == missing_director_message()
                }
            },
            TurnStrategy::Random => {
                &&& step matches TurnStep::Decided(d) && d@
                    == TurnDecisionView::Sequential(seq![names[(clock_nanos as int) % (n as int)]])
                &&& after == before
            },
        }
    }
}

impl TurnManager {
    /// A turn manager with the strategy, no director, at the first turn.
    pub fn new(strategy: TurnStrategy) -> (t: Self)
        ensures
            t.strategy == strategy,
            t.director is None,
            t.round_robin_index == 0,
    {
        TurnManager { strategy, director: None, round_robin_index: 0 }
    }

    /// The same turn manager with a director for the story.
    pub fn with_director_config(self, story: &StoryConfig) -> (t: Self)
        ensures
            t.strategy == self.strategy,
            t.round_robin_index == self.round_robin_index,
            t.director matches Some(d) && d.story_title == story.title
                && d.protagonist_name == story.protagonist_name
                && d.system_prompt == story.director.system_prompt
                && d.story_description == story.description
                && d.scene_goals@ == story.scene_goals@
                && d.scene_context == story.scene_context
                && d.recent_message_count == (if story.director.recent_message_count >= 1 {
                    story.director.recent_message_count
                } else {
                    1
                }),
    {
        TurnManager { director: Some(Director::from_story_config(story)), ..self }
    }

    /// The next step. With no character available the player speaks.
    /// Round robin gives the turn to the character at the turn count
    /// (modulo their number) and counts it; the random strategy picks the
    /// character at `clock_nanos` modulo their number (the caller passes the
    /// sub-second nanoseconds of the current time); the director strategy
    /// asks for the director, or fails without one.
    pub fn next_action(&mut self, available_characters: &[Character], clock_nanos: u32) -> (step: TurnStep)
        requires
            old(self).strategy is RoundRobin && available_characters@.len() > 0
                ==> old(self).round_robin_index < usize::MAX,
        ensures
            next_action_spec(*old(self), *final(self), available_characters@, clock_nanos, step),
    {
        let n = available_characters.len();
        if n == 0 {
            return TurnStep::Decided(TurnDecision::Player);
        }
        match self.strategy {
            TurnStrategy::RoundRobin => {
                let idx = self.round_robin_index % n;
                self.round_robin_index = self.round_robin_index + 1;
                let mut v: Vec<String> = Vec::new();
                v.push(available_characters[idx].name.clone());
                assert(crate::types::strs_view(v@) =~= seq![names_of(available_characters@)[idx as int]]);
                TurnStep::Decided(TurnDecision::Sequential(v))
            },
            TurnStrategy::DirectorControlled => {
                if self.director.is_some() {
                    TurnStep::ConsultDirector
                } else {
                    TurnStep::Failed(
                        AgentError::Config(
                            String::from_str(
                                "DirectorControlled strategy requires story.director configuration",
                            ),
                        ),
                    )
                }
            },
            TurnStrategy::Random => {
                let idx = (clock_nanos as usize) % n;
                let mut v: Vec<String> = Vec::new();
                v.push(available_characters[idx].name.clone());
                assert(crate::types::strs_view(v@) =~= seq![names_of(available_characters@)[idx as int]]);
                TurnStep::Decided(TurnDecision::Sequential(v))
            },
        }
    }

    /// The next step, with the clock read now for the random strategy.
    pub fn next_action_now(&mut self, available_characters: &[Character]) -> (step: TurnStep)
        requires
            old(self).strategy is RoundRobin && available_characters@.len() > 0
                ==> old(self).round_robin_index < usize::MAX,
        ensures
            exists|nanos: u32|
                nanos < 1_000_000_000 && next_action_spec(
                    *old(self),
                    *final(self),
                    available_characters@,
                    nanos,
                    step,
                ),
    {
        let nanos = clock_subsec_nanos();
        self.next_action(available_characters, nanos)
    }

    /// Starts the round-robin count again.
    pub fn reset(&mut self)
        ensures
            *final(self) == (TurnManager { round_robin_index: 0, ..*old(self) }),
    {
        self.round_robin_index = 0;
    }
}

} // verus!
