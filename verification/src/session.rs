//! The story loop's decisions between model calls and player input: when
//! the player must speak, which agent answers for a name, how answers are
//! shown, what a player command leads to, and the texts the loop shows.

use vstd::prelude::*;
use crate::character_agent::CharacterAgent;
use crate::command::{Command, CommandView, help_text_spec, strs_equal};
use crate::director::{join, join_strings};
use crate::error::AgentError;
use crate::message::Message;
use crate::tui_app::{CharacterInfo, ChatMessage};
use crate::types::{Character, TurnDecision, strs_view};

verus! {

/// Most consecutive character turns in the story loop before the player is
/// asked again.
pub const MAX_NPC_TURNS: usize = 3;

/// Counts consecutive character turns so that the player gets to speak.
#[derive(Debug, Clone, Copy)]
pub struct SceneLoop {
    /// Character turns since the player last spoke.
    pub consecutive_npc_turns: usize,
    /// Most consecutive character turns before the player must speak.
    pub max_npc_turns: usize,
}

/// How a round of the loop starts.
#[derive(Debug)]
pub enum LoopStep {
    /// The player must speak.
    PlayerTurn,
    /// The turn manager decides who speaks.
    AskTurnManager,
}

impl SceneLoop {
    /// A loop where no character has spoken yet.
    pub fn new(max_npc_turns: usize) -> (l: Self)
        ensures
            l.consecutive_npc_turns == 0,
            l.max_npc_turns == max_npc_turns,
    {
        SceneLoop { consecutive_npc_turns: 0, max_npc_turns }
    }

    /// Starts a round: once the characters have had the most turns in a row,
    /// the player must speak and the count starts again; otherwise the turn
    /// manager decides.
    pub fn begin_round(&mut self) -> (s: LoopStep)
        ensures
            old(self).consecutive_npc_turns >= old(self).max_npc_turns ==> s is PlayerTurn
                && *final(self) == (SceneLoop { consecutive_npc_turns: 0, ..*old(self) }),
            old(self).consecutive_npc_turns < old(self).max_npc_turns ==> s is AskTurnManager
                && *final(self) == *old(self),
    {
        if self.consecutive_npc_turns >= self.max_npc_turns {
            self.consecutive_npc_turns = 0;
            LoopStep::PlayerTurn
        } else {
            LoopStep::AskTurnManager
        }
    }

    /// Counts a decision: a turn of characters adds one, the player's turn
    /// starts the count again, the end of the scene leaves it.
    pub fn record(&mut self, decision: &TurnDecision)
        requires
            old(self).consecutive_npc_turns < usize::MAX,
        ensures
            final(self).max_npc_turns == old(self).max_npc_turns,
            final(self).consecutive_npc_turns == match decision {
                TurnDecision::Sequential(_) => old(self).consecutive_npc_turns + 1,
                TurnDecision::Parallel(_) => old(self).consecutive_npc_turns + 1,
                TurnDecision::Player => 0,
                TurnDecision::EndScene => old(self).consecutive_npc_turns as int,
            },
    {
        match decision {
            TurnDecision::Sequential(_) => {
                self.consecutive_npc_turns = self.consecutive_npc_turns + 1;
            },
            TurnDecision::Parallel(_) => {
                self.consecutive_npc_turns = self.consecutive_npc_turns + 1;
            },
            TurnDecision::Player => {
                self.consecutive_npc_turns = 0;
            },
            TurnDecision::EndScene => {},
        }
    }
}

/// The decision the loop acts on: the turn manager's, or the player's turn
/// when deciding failed.
pub fn decision_or_player(decided: Result<TurnDecision, AgentError>) -> (d: TurnDecision)
    ensures
        match decided {
            Ok(x) => d == x,
            Err(_) => d is Player,
        },
{
    match decided {
        Ok(x) => x,
        Err(_) => TurnDecision::Player,
    }
}

/// The first agent whose character has the given name.
pub fn find_agent(agents: &[CharacterAgent], name: &str) -> (i: Option<usize>)
    ensures
        match i {
            Some(k) => k < agents@.len() && agents@[k as int].character.name@ == name@ && forall|j: int|
                0 <= j < k ==> agents@[j].character.name@ != name@,
            None => forall|j: int| 0 <= j < agents@.len() ==> agents@[j].character.name@ != name@,
        },
{
    let mut k: usize = 0;
    while k < agents.len()
        invariant
            k <= agents@.len(),
            forall|j: int| 0 <= j < k ==> agents@[j].character.name@ != name@,
        decreases agents@.len() - k,
    {
        if strs_equal(agents[k].character.name.as_str(), name) {
            return Some(k);
        }
        k = k + 1;
    }
    None
}

/// The name shown for a character's answer: the answer's own character
/// name, else `fallback`.
pub fn shown_name(response: &Message, fallback: &str) -> (s: String)
    ensures
        s@ == match response.character_name {
            Some(n) => n@,
            None => fallback@,
        },
{
    match &response.character_name {
        Some(n) => String::from_str(n.as_str()),
        None => String::from_str(fallback),
    }
}

/// The chat-panel entry of a character's answer under the shown name.
pub fn answer_entry(response: &Message, name: String) -> (m: ChatMessage)
    ensures
        m.character_name == name,
        m.content@ == response.content@,
        !m.is_user,
        !m.is_system,
{
    ChatMessage {
        character_name: name,
        content: String::from_str(response.content.as_str()),
        is_user: false,
        is_system: false,
    }
}

/// The chat-panel entry of the player's own message.
pub fn player_entry(protagonist_name: &str, text: &str) -> (m: ChatMessage)
    ensures
        m.character_name@ == protagonist_name@,
        m.content@ == text@,
        m.is_user,
        !m.is_system,
{
    ChatMessage {
        character_name: String::from_str(protagonist_name),
        content: String::from_str(text),
        is_user: true,
        is_system: false,
    }
}

/// What a command of the player leads to while the loop waits for them.
#[derive(Debug)]
pub enum PlayerAction {
    /// The player says this; the loop goes on.
    Say(String),
    /// Show this notice and keep waiting.
    Show(String),
    /// Clear the conversation, show the notice and keep waiting.
    Clear(String),
    /// Show the model settings and keep waiting.
    ShowModelInfo,
    /// Leave the application.
    Quit,
}

/// One line of the character list: `- name (personality)`.
pub open spec fn character_line(c: Character) -> Seq<char> {
    "- "@ + c.name@ + " ("@ + c.personality@ + ")"@
}

/// The notice listing the active characters, one per line.
pub open spec fn characters_text(cs: Seq<Character>) -> Seq<char> {
    "Active characters:\n"@ + join(cs.map_values(|c: Character| character_line(c)), "\n"@)
}

/// The notice listing the active characters.
pub fn characters_notice(active: &[Character]) -> (s: String)
    ensures
        s@ == characters_text(active@),
{
    let mut lines: Vec<String> = Vec::new();
    let mut i: usize = 0;
    while i < active.len()
        invariant
            i <= active@.len(),
            strs_view(lines@) == active@.take(i as int).map_values(|c: Character| character_line(c)),
        decreases active@.len() - i,
    {
        let c = &active[i];
        let mut line = String::from_str("- ");
        line.append(c.name.as_str());
        line.append(" (");
        line.append(c.personality.as_str());
        line.append(")");
        let ghost before = lines@;
        lines.push(line);
        proof {
            assert(strs_view(lines@) =~= strs_view(before).push(line@));
            assert(active@.take(i + 1).map_values(|c: Character| character_line(c))
                =~= active@.take(i as int).map_values(|c: Character| character_line(c)).push(
                character_line(active@[i as int]),
            ));
        }
        i = i + 1;
    }
    assert(active@.take(active@.len() as int) =~= active@);
    let body = join_strings(&lines, "\n");
    let mut s = String::from_str("Active characters:\n");
    s.append(body.as_str());
    s
}

/// What a player command leads to: a message is said; help, the character
/// list and notices are shown; clearing, the model settings and quitting
/// are acted on; other commands are not available in the story loop.
pub fn player_action(cmd: Command, active: &[Character]) -> (a: PlayerAction)
    ensures
        match cmd@ {
            CommandView::SendMessage(t) => a matches PlayerAction::Say(s) && s@ == t,
            CommandView::Help => a matches PlayerAction::Show(s) && s@ == help_text_spec(),
            CommandView::Clear => a matches PlayerAction::Clear(s) && s@ == "Chat cleared."@,
            CommandView::Characters => a matches PlayerAction::Show(s) && s@ == characters_text(
                active@,
            ),
            CommandView::Model => a is ShowModelInfo,
            CommandView::Quit => a is Quit,
            _ => a matches PlayerAction::Show(s) && s@ == "Command not yet implemented."@,
        },
{
    match cmd {
        Command::SendMessage(text) => PlayerAction::Say(text),
        Command::Help => PlayerAction::Show(String::from_str(Command::help_text())),
        Command::Clear => PlayerAction::Clear(String::from_str("Chat cleared.")),
        Command::Characters => PlayerAction::Show(characters_notice(active)),
        Command::Model => PlayerAction::ShowModelInfo,
        Command::Quit => PlayerAction::Quit,
        _ => PlayerAction::Show(String::from_str("Command not yet implemented.")),
    }
}

/// The greeting shown when the story starts.
pub fn welcome_text(title: &str, protagonist_name: &str) -> (s: String)
    ensures
        s@ == "Welcome to '"@ + title@ + "'. You are "@ + protagonist_name@
            + ". Type /help for commands."@,
{
    let mut s = String::from_str("Welcome to '");
    s.append(title);
    s.append("'. You are ");
    s.append(protagonist_name);
    s.append(". Type /help for commands.");
    s
}

/// The notice shown when the director ends the scene.
pub fn scene_end_text() -> (s: String)
    ensures
        s@ == "—— 场景结束 ——\n导演判定本场剧情已完结。感谢游玩！输入 /quit 退出。"@,
{
    String::from_str("—— 场景结束 ——\n导演判定本场剧情已完结。感谢游玩！输入 /quit 退出。")
}

/// The sidebar entry of a character: its short description, else the first
/// thirty characters of its personality.
pub fn character_info(c: &Character) -> (info: CharacterInfo)
    ensures
        info.name@ == c.name@,
        info.short_description@ == match c.short_description {
            Some(d) => d@,
            None => c.personality@.take(if c.personality@.len() < 30 {
                c.personality@.len() as int
            } else {
                30
            }),
        },
        info.is_active,
{
    let short = match &c.short_description {
        Some(d) => String::from_str(d.as_str()),
        None => {
            let n = c.personality.as_str().unicode_len();
            let k: usize = if n < 30 {
                n
            } else {
                30
            };
            let t = c.personality.as_str().substring_char(0, k);
            assert(t@ =~= c.personality@.take(k as int));
            String::from_str(t)
        },
    };
    CharacterInfo { name: String::from_str(c.name.as_str()), short_description: short, is_active: true }
}

} // verus!
