use rust_agent::character_agent::{tool_result_message, CharacterAgent, ModelRoute, ToolOutcome, MAX_TOOL_ROUNDS};
use rust_agent::command::Command;
use rust_agent::demo::demo_characters;
use rust_agent::message::{Message, Role, ToolCall};
use rust_agent::scene_manager::SceneManager;
use rust_agent::session::{
    answer_entry, character_info, characters_notice, decision_or_player, find_agent, player_action,
    player_entry, scene_end_text, shown_name, welcome_text, LoopStep, PlayerAction, SceneLoop,
};
use rust_agent::sliding_window::SlidingWindowContext;
use rust_agent::types::{Character, Scene, TurnDecision};
use rust_agent::error::AgentError;

fn ch(name: &str) -> Character {
    Character::new(name.to_string(), format!("{} personality", name), "past".to_string())
}

#[test]
fn character_default_prompt() {
    let c = ch("Ann");
    assert_eq!(
        c.system_prompt,
        "You are Ann. Your personality: Ann personality\n\nBackstory: past\n\nStay in character at all times. Respond naturally as this character would."
    );
    assert!(c.short_description.is_none());
    let c = c.with_model("m".to_string()).with_description("d".to_string());
    assert_eq!(c.model.as_deref(), Some("m"));
    assert_eq!(c.short_description.as_deref(), Some("d"));
    assert_ne!(ch("Ann").id, ch("Ann").id);
}

#[test]
fn scenes_advance_and_stop_at_the_last() {
    let mut m = SceneManager::new();
    assert!(m.current_scene().is_none());
    assert!(m.next_scene().is_none());
    m.add_scene(Scene::new("one".to_string(), "d".to_string()));
    m.add_scene(Scene::new("two".to_string(), "d".to_string()));
    assert_eq!(m.scene_count(), 2);
    assert_eq!(m.next_scene().unwrap().name, "one");
    assert_eq!(m.next_scene().unwrap().name, "two");
    assert!(m.next_scene().is_none());
    assert_eq!(m.current_scene().unwrap().name, "two");
    assert!(m.set_scene(5).is_none());
    assert_eq!(m.current_scene().unwrap().name, "two");
    assert_eq!(m.set_scene(0).unwrap().name, "one");
}

#[test]
fn active_characters_follow_the_scene() {
    let a = ch("A");
    let b = ch("B");
    let c = ch("C");
    let mut m = SceneManager::default();
    m.add_character(a.clone());
    m.add_character(b.clone());
    m.add_character(c.clone());
    assert_eq!(m.all_characters().len(), 3);
    assert_eq!(m.active_characters().len(), 3);
    m.add_scene(Scene::new("s".to_string(), "d".to_string()).with_characters(vec![c.id, 42, a.id]));
    m.set_scene(0);
    let names: Vec<String> = m.active_characters().iter().map(|c| c.name.clone()).collect();
    assert_eq!(names, vec!["C".to_string(), "A".to_string()]);
    assert_eq!(m.get_character(b.id).unwrap().name, "B");
    assert!(m.get_character(42).is_none());
}

#[test]
fn agent_messages_start_with_the_prompt() {
    let agent = CharacterAgent::new(ch("A")).with_context_window(SlidingWindowContext::new(2, 1000));
    let convo = vec![
        Message::user("1".to_string()),
        Message::user("2".to_string()),
        Message::user("3".to_string()),
    ];
    let ms = agent.build_messages(&convo);
    assert_eq!(ms.len(), 3);
    assert!(ms[0].role == Role::System);
    assert_eq!(ms[0].content, agent.character.system_prompt);
    assert_eq!(ms[1].content, "2");
    assert_eq!(ms[2].content, "3");
    assert_eq!(agent.name(), "A");
}

#[test]
fn agent_routes_by_model_and_tools() {
    let plain = CharacterAgent::new(ch("A"));
    assert!(matches!(plain.route(false), ModelRoute::Plain));
    assert!(matches!(plain.route(true), ModelRoute::WithTools));
    let own = CharacterAgent::new(ch("B").with_model("m1".to_string()));
    assert!(matches!(own.route(false), ModelRoute::ModelWithTools(ref m) if m == "m1"));
}

#[test]
fn tool_rounds_run_out() {
    let agent = CharacterAgent::new(ch("A"));
    let mut turn = agent.start_turn(&[Message::user("q".to_string())]);
    assert_eq!(turn.rounds, 0);
    assert_eq!(turn.prepared.len(), 2);
    let reply = agent.after_response(&mut turn, Message::assistant("call".to_string()), Some(vec![Message::user("t".to_string())]));
    assert!(reply.is_none());
    assert_eq!(turn.rounds, 1);
    assert_eq!(turn.prepared.len(), 4);
    for _ in 1..(MAX_TOOL_ROUNDS - 1) {
        assert!(agent.after_response(&mut turn, Message::assistant("c".to_string()), Some(vec![])).is_none());
    }
    let last = agent
        .after_response(&mut turn, Message::assistant("c".to_string()), Some(vec![]))
        .expect("rounds ran out");
    assert_eq!(last.content, "工具调用轮次过多，已停止继续调用工具。");
    assert_eq!(last.character_name.as_deref(), Some("A"));
    let mut fresh = agent.start_turn(&[]);
    let reply = agent.after_response(&mut fresh, Message::assistant("done".to_string()), None).unwrap();
    assert_eq!(reply.content, "done");
    assert_eq!(reply.character_name.as_deref(), Some("A"));
}

#[test]
fn tool_results_answer_the_call() {
    let call = ToolCall { id: "c9".to_string(), name: "zsh".to_string(), arguments: "{}".to_string() };
    let ok = tool_result_message(&call, ToolOutcome::Output("out".to_string()));
    assert!(ok.role == Role::Tool);
    assert_eq!(ok.content, "out");
    assert_eq!(ok.tool_call_id.as_deref(), Some("c9"));
    let failed = tool_result_message(&call, ToolOutcome::Failed("boom".to_string()));
    assert_eq!(failed.content, "Tool error: boom");
    let bad = tool_result_message(&call, ToolOutcome::BadArguments("eof".to_string()));
    assert_eq!(bad.content, "Tool error: invalid JSON arguments: eof");
}

#[test]
fn player_speaks_after_three_character_turns() {
    let mut l = SceneLoop::new(3);
    for _ in 0..3 {
        assert!(matches!(l.begin_round(), LoopStep::AskTurnManager));
        l.record(&TurnDecision::Sequential(vec!["A".to_string()]));
    }
    assert_eq!(l.consecutive_npc_turns, 3);
    assert!(matches!(l.begin_round(), LoopStep::PlayerTurn));
    assert_eq!(l.consecutive_npc_turns, 0);
    l.record(&TurnDecision::Parallel(vec![]));
    l.record(&TurnDecision::EndScene);
    assert_eq!(l.consecutive_npc_turns, 1);
    l.record(&TurnDecision::Player);
    assert_eq!(l.consecutive_npc_turns, 0);
}

#[test]
fn failed_decisions_become_player_turns() {
    assert!(matches!(decision_or_player(Err(AgentError::Other("x".to_string()))), TurnDecision::Player));
    assert!(matches!(decision_or_player(Ok(TurnDecision::EndScene)), TurnDecision::EndScene));
}

#[test]
fn agents_found_by_name() {
    let agents = vec![CharacterAgent::new(ch("A")), CharacterAgent::new(ch("B")), CharacterAgent::new(ch("B"))];
    assert_eq!(find_agent(&agents, "B"), Some(1));
    assert_eq!(find_agent(&agents, "Z"), None);
}

#[test]
fn answers_are_shown_under_a_name() {
    let named = Message::assistant("hi".to_string()).with_character("书生".to_string());
    assert_eq!(shown_name(&named, "x"), "书生");
    let anon = Message::assistant("hi".to_string());
    assert_eq!(shown_name(&anon, "Unknown"), "Unknown");
    let e = answer_entry(&named, "书生".to_string());
    assert_eq!(e.content, "hi");
    assert!(!e.is_user && !e.is_system);
    let p = player_entry("旅人", "hello");
    assert_eq!(p.character_name, "旅人");
    assert!(p.is_user);
}

#[test]
fn player_commands_in_the_story_loop() {
    let cast = vec![ch("A"), ch("B")];
    assert!(matches!(player_action(Command::SendMessage("hi".to_string()), &cast), PlayerAction::Say(ref t) if t == "hi"));
    assert!(matches!(player_action(Command::Help, &cast), PlayerAction::Show(ref t) if t == Command::help_text()));
    assert!(matches!(player_action(Command::Clear, &cast), PlayerAction::Clear(ref t) if t == "Chat cleared."));
    assert!(matches!(player_action(Command::Model, &cast), PlayerAction::ShowModelInfo));
    assert!(matches!(player_action(Command::Quit, &cast), PlayerAction::Quit));
    assert!(matches!(player_action(Command::Save("x".to_string()), &cast), PlayerAction::Show(ref t) if t == "Command not yet implemented."));
    match player_action(Command::Characters, &cast) {
        PlayerAction::Show(t) => assert_eq!(t, "Active characters:\n- A (A personality)\n- B (B personality)"),
        other => panic!("unexpected {:?}", other),
    }
    assert_eq!(characters_notice(&[]), "Active characters:\n");
}

#[test]
fn loop_texts() {
    assert_eq!(welcome_text("Inn", "旅人"), "Welcome to 'Inn'. You are 旅人. Type /help for commands.");
    assert!(scene_end_text().starts_with("—— 场景结束 ——\n"));
}

#[test]
fn sidebar_entries() {
    let long = Character::new("L".to_string(), "x".repeat(40), "b".to_string());
    assert_eq!(character_info(&long).short_description, "x".repeat(30));
    let short = Character::new("S".to_string(), "calm".to_string(), "b".to_string());
    assert_eq!(character_info(&short).short_description, "calm");
    let described = short.with_description("desc".to_string());
    let info = character_info(&described);
    assert_eq!(info.short_description, "desc");
    assert_eq!(info.name, "S");
    assert!(info.is_active);
}

#[test]
fn demo_cast() {
    let cs = demo_characters();
    let names: Vec<&str> = cs.iter().map(|c| c.name.as_str()).collect();
    assert_eq!(names, vec!["老板娘", "书生", "猎人"]);
    assert_eq!(cs[2].short_description.as_deref(), Some("沉默猎人"));
    assert!(cs[0].system_prompt.starts_with("你是「醉仙居」客栈的老板娘。"));
}
