//! A character played by a model: its prompt and context window, and the
//! rounds of tool calls within one turn. The model calls and tool runs are
//! made by the caller between the steps.

use vstd::prelude::*;
use crate::message::{Message, MessageView, Role, ToolCall};
use crate::sliding_window::{SlidingWindowContext, views, lemma_views_push};
use crate::types::Character;

verus! {

/// Most model calls answered by tool calls within one turn.
pub const MAX_TOOL_ROUNDS: usize = 4;

/// A character and the window of conversation it is shown.
#[derive(Debug)]
pub struct CharacterAgent {
    pub character: Character,
    pub context_window: SlidingWindowContext,
}

/// One turn of a character in progress.
#[derive(Debug)]
pub struct CharacterTurn {
    /// Messages sent with the next model call.
    pub prepared: Vec<Message>,
    /// Model calls answered by tool calls so far.
    pub rounds: usize,
}

/// Which client call a turn's request goes through.
#[derive(Debug)]
pub enum ModelRoute {
    /// The character's own model, with the tools (possibly none).
    ModelWithTools(String),
    /// The default model, with the tools.
    WithTools,
    /// The default model, without tools.
    Plain,
}

/// How running a requested tool went.
#[derive(Debug)]
pub enum ToolOutcome {
    /// The tool's output.
    Output(String),
    /// The tool failed with this message.
    Failed(String),
    /// The arguments were not valid JSON; the parser's message.
    BadArguments(String),
}

/// The text of the message that answers a tool call.
pub open spec fn tool_content(o: ToolOutcome) -> Seq<char> {
    match o {
        ToolOutcome::Output(s) => s@,
        ToolOutcome::Failed(e) => "Tool error: "@ + e@,
        ToolOutcome::BadArguments(e) => "Tool error: invalid JSON arguments: "@ + e@,
    }
}

/// The reply given when the tool rounds run out.
pub open spec fn too_many_rounds_text() -> Seq<char> {
    "工具调用轮次过多，已停止继续调用工具。"@
}

impl CharacterAgent {
    /// An agent for the character with the default window.
    pub fn new(character: Character) -> (a: Self)
        ensures
            a.character == character,
            a.context_window.max_messages == 50,
            a.context_window.max_chars == 32_000,
            a.context_window.preserve_system,
    {
        CharacterAgent { character, context_window: SlidingWindowContext::default() }
    }

    /// The same agent with another window.
    pub fn with_context_window(self, window: SlidingWindowContext) -> (a: Self)
        ensures
            a.character == self.character,
            a.context_window == window,
    {
        CharacterAgent { context_window: window, ..self }
    }

    /// The character's name.
    pub fn name(&self) -> (s: &str)
        ensures
            s@ == self.character.name@,
    {
        self.character.name.as_str()
    }

    /// The messages of a model call: the character's prompt as a system
    /// message, then the windowed conversation.
    pub fn build_messages(&self, conversation: &[Message]) -> (ms: Vec<Message>)
        ensures
            ms@.len() >= 1,
            ms@[0]@.role == Role::System,
            ms@[0]@.content == self.character.system_prompt@,
            views(ms@).drop_first() == self.context_window.window(views(conversation@)),
    {
        let system = Message::system(self.character.system_prompt.clone());
        let mut messages: Vec<Message> = Vec::new();
        messages.push(system);
        let ghost head = views(messages@);
        let windowed = self.context_window.apply(conversation);
        let ghost w = views(windowed@);
        let mut i: usize = 0;
        while i < windowed.len()
            invariant
                i <= windowed@.len(),
                w == views(windowed@),
                head.len() == 1,
                views(messages@) == head + w.take(i as int),
            decreases windowed@.len() - i,
        {
            let c = windowed[i].clone();
            assert(c@ == w[i as int]);
            proof {
                lemma_views_push(messages@, c);
            }
            messages.push(c);
            assert(views(messages@) =~= head + w.take(i + 1));
            i = i + 1;
        }
        assert(w.take(windowed@.len() as int) =~= w);
        assert(views(messages@).drop_first() =~= w);
        assert(views(messages@)[0] == head[0]);
        messages
    }

    /// A turn on the conversation, before any model call.
    pub fn start_turn(&self, conversation: &[Message]) -> (t: CharacterTurn)
        ensures
            t.rounds == 0,
            t.prepared@.len() >= 1,
            t.prepared@[0]@.role == Role::System,
            t.prepared@[0]@.content == self.character.system_prompt@,
            views(t.prepared@).drop_first() == self.context_window.window(views(conversation@)),
    {
        CharacterTurn { prepared: self.build_messages(conversation), rounds: 0 }
    }

    /// The client call of the next request: the character's model when it
    /// has one, else the default model with tools when there are some.
    pub fn route(&self, has_tools: bool) -> (r: ModelRoute)
        ensures
            match self.character.model {
                Some(m) => r matches ModelRoute::ModelWithTools(x) && x == m,
                None => if has_tools {
                    r is WithTools
                } else {
                    r is Plain
                },
            },
    {
        match &self.character.model {
            Some(m) => ModelRoute::ModelWithTools(m.clone()),
            None => if has_tools {
                ModelRoute::WithTools
            } else {
                ModelRoute::Plain
            },
        }
    }

    /// Goes on after a model answer. Without tool messages (no tools, or no
    /// tool call in the answer) the answer, attributed to the character, is
    /// the reply. With them, the answer and the tool messages join the
    /// request; the turn then asks for another call, unless the tool rounds
    /// have run out, in which case it replies that it stopped.
    pub fn after_response(
        &self,
        turn: &mut CharacterTurn,
        response: Message,
        tool_messages: Option<Vec<Message>>,
    ) -> (reply: Option<Message>)
        requires
            old(turn).rounds < MAX_TOOL_ROUNDS,
        ensures
            match tool_messages {
                None => {
                    &&& reply matches Some(m) && m@ == (MessageView {
                        character_name: Some(self.character.name@),
                        ..response@
                    })
                    &&& final(turn).prepared@ == old(turn).prepared@
                    &&& final(turn).rounds == old(turn).rounds
                },
                Some(tms) => {
                    &&& views(final(turn).prepared@) == views(old(turn).prepared@).push(response@)
                        + views(tms@)
                    &&& final(turn).rounds == old(turn).rounds + 1
                    &&& if final(turn).rounds >= MAX_TOOL_ROUNDS {
                        reply matches Some(m) && m@.role == Role::Assistant && m@.content
                            == too_many_rounds_text() && m@.character_name == Some(self.character.name@)
                            && m@.tool_calls.len() == 0
                    } else {
                        reply is None
                    }
                },
            },
    {
        match tool_messages {
            None => Some(response.with_character(self.character.name.clone())),
            Some(tms) => {
                let ghost before = views(turn.prepared@);
                proof {
                    lemma_views_push(turn.prepared@, response);
                }
                turn.prepared.push(response);
                let ghost mid = views(turn.prepared@);
                let mut i: usize = 0;
                while i < tms.len()
                    invariant
                        i <= tms@.len(),
                        turn.rounds == old(turn).rounds,
                        turn.rounds < MAX_TOOL_ROUNDS,
                        views(turn.prepared@) == mid + views(tms@).take(i as int),
                    decreases tms@.len() - i,
                {
                    let c = tms[i].clone();
                    assert(c@ == views(tms@)[i as int]);
                    proof {
                        lemma_views_push(turn.prepared@, c);
                    }
                    turn.prepared.push(c);
                    assert(views(turn.prepared@) =~= mid + views(tms@).take(i + 1));
                    i = i + 1;
                }
                assert(views(tms@).take(tms@.len() as int) =~= views(tms@));
                turn.rounds = turn.rounds + 1;
                if turn.rounds >= MAX_TOOL_ROUNDS {
                    Some(
                        Message::assistant(
                            String::from_str("工具调用轮次过多，已停止继续调用工具。"),
                        ).with_character(self.character.name.clone()),
                    )
                } else {
                    None
                }
            },
        }
    }
}

/// The message answering a tool call with the outcome of running it.
pub fn tool_result_message(call: &ToolCall, outcome: ToolOutcome) -> (m: Message)
    ensures
        m@.role == Role::Tool,
        m@.content == tool_content(outcome),
        m@.tool_call_id == Some(call.id@),
        m@.character_name is None,
        m@.tool_calls.len() == 0,
{
    let content = match outcome {
        ToolOutcome::Output(s) => s,
        ToolOutcome::Failed(e) => {
            let mut s = String::from_str("Tool error: ");
            s.append(e.as_str());
            s
        },
        ToolOutcome::BadArguments(e) => {
            let mut s = String::from_str("Tool error: invalid JSON arguments: ");
            s.append(e.as_str());
            s
        },
    };
    Message::new(Role::Tool, content).with_tool_call_id(call.id.clone())
}

} // verus!
