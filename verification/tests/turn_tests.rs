use rust_agent::config::{DirectorConfig, StoryConfig};
use rust_agent::error::AgentError;
use rust_agent::turn_manager::{TurnManager, TurnStep};
use rust_agent::types::{Character, TurnDecision, TurnStrategy};

fn cast() -> Vec<Character> {
    ["A", "B", "C"]
        .iter()
        .map(|n| Character::new(n.to_string(), "p".to_string(), "b".to_string()))
        .collect()
}

fn speaker(step: TurnStep) -> String {
    match step {
        TurnStep::Decided(TurnDecision::Sequential(v)) => {
            assert_eq!(v.len(), 1);
            v[0].clone()
        }
        other => panic!("unexpected {:?}", other),
    }
}

#[test]
fn nobody_available_means_player() {
    for s in [TurnStrategy::RoundRobin, TurnStrategy::DirectorControlled, TurnStrategy::Random] {
        let mut t = TurnManager::new(s);
        assert!(matches!(t.next_action(&[], 5), TurnStep::Decided(TurnDecision::Player)));
        assert_eq!(t.round_robin_index, 0);
    }
}

#[test]
fn round_robin_gives_everyone_a_turn() {
    let mut t = TurnManager::new(TurnStrategy::RoundRobin);
    t.round_robin_index = 4;
    let cs = cast();
    let mut seen: Vec<String> = (0..3).map(|_| speaker(t.next_action(&cs, 0))).collect();
    assert_eq!(seen, vec!["B".to_string(), "C".to_string(), "A".to_string()]);
    seen.sort();
    assert_eq!(seen, vec!["A".to_string(), "B".to_string(), "C".to_string()]);
    assert_eq!(t.round_robin_index, 7);
    t.reset();
    assert_eq!(t.round_robin_index, 0);
    assert_eq!(speaker(t.next_action(&cs, 0)), "A");
}

#[test]
fn random_picks_by_clock() {
    let mut t = TurnManager::new(TurnStrategy::Random);
    assert_eq!(speaker(t.next_action(&cast(), 7)), "B");
    assert_eq!(speaker(t.next_action(&cast(), 9)), "A");
    assert_eq!(t.round_robin_index, 0);
    let name = speaker(t.next_action_now(&cast()));
    assert!(["A", "B", "C"].contains(&name.as_str()));
}

#[test]
fn director_strategy_needs_a_director() {
    let mut t = TurnManager::new(TurnStrategy::DirectorControlled);
    match t.next_action(&cast(), 0) {
        TurnStep::Failed(AgentError::Config(m)) => {
            assert_eq!(m, "DirectorControlled strategy requires story.director configuration")
        }
        other => panic!("unexpected {:?}", other),
    }
    let story = StoryConfig {
        title: "T".to_string(),
        description: "D".to_string(),
        protagonist_name: "P".to_string(),
        turn_strategy: TurnStrategy::DirectorControlled,
        character_files: vec![],
        scene_files: vec![],
        characters: vec![],
        scene_goals: vec![],
        scene_context: None,
        director: DirectorConfig { system_prompt: "S".to_string(), recent_message_count: 3 },
    };
    let mut t = TurnManager::new(TurnStrategy::DirectorControlled).with_director_config(&story);
    assert!(matches!(t.next_action(&cast(), 0), TurnStep::ConsultDirector));
    assert_eq!(t.director.as_ref().unwrap().story_title, "T");
}

#[test]
fn round_robin_follows_the_cast_in_order_from_new() {
    let mut t = TurnManager::new(TurnStrategy::RoundRobin);
    let cs = cast();
    let names: Vec<String> = (0..7).map(|_| speaker(t.next_action(&cs, 0))).collect();
    assert_eq!(names, vec!["A", "B", "C", "A", "B", "C", "A"]);
}
