use rust_agent::config::{DirectorConfig, StoryConfig};
use rust_agent::director::{join_strings, Director, DirectorOutput};
use rust_agent::message::{Message, Role};
use rust_agent::types::{Character, TurnDecision, TurnStrategy};

fn story(recent: usize, goals: Vec<&str>, context: Option<&str>) -> StoryConfig {
    StoryConfig {
        title: "T".to_string(),
        description: "D".to_string(),
        protagonist_name: "P".to_string(),
        turn_strategy: TurnStrategy::DirectorControlled,
        character_files: vec![],
        scene_files: vec![],
        characters: vec![],
        scene_goals: goals.into_iter().map(|g| g.to_string()).collect(),
        scene_context: context.map(|c| c.to_string()),
        director: DirectorConfig { system_prompt: "SYS".to_string(), recent_message_count: recent },
    }
}

fn cast() -> Vec<Character> {
    vec![
        Character::new("书生".to_string(), "p".to_string(), "b".to_string()),
        Character::new("猎人".to_string(), "p".to_string(), "b".to_string()),
    ]
}

fn names(d: &TurnDecision) -> Vec<String> {
    match d {
        TurnDecision::Sequential(v) | TurnDecision::Parallel(v) => v.clone(),
        _ => vec![],
    }
}

#[test]
fn director_sees_at_least_one_message() {
    assert_eq!(Director::from_story_config(&story(0, vec![], None)).recent_message_count, 1);
    assert_eq!(Director::from_story_config(&story(6, vec![], None)).recent_message_count, 6);
}

#[test]
fn context_lists_story_names_and_goals() {
    let d = Director::from_story_config(&story(5, vec!["g1", "g2"], None));
    let ctx = d.build_context(&vec!["A".to_string(), "B".to_string()]);
    assert_eq!(
        ctx,
        "故事标题: T\n故事描述: D\n玩家角色名: P\n可用NPC角色: A、B\n场景目标:\n- g1\n- g2\n场景上下文: 无\n\n根据对话历史，决定接下来发生什么。只输出一个JSON对象。"
    );
    let d2 = Director::from_story_config(&story(5, vec![], Some("inn")));
    let ctx2 = d2.build_context(&vec![]);
    assert!(ctx2.contains("场景目标:\n无\n场景上下文: inn\n"));
}

#[test]
fn request_holds_prompt_context_recent_messages_and_instruction() {
    let d = Director::from_story_config(&story(2, vec![], None));
    let convo = vec![
        Message::user("a".to_string()),
        Message::user("b".to_string()),
        Message::user("c".to_string()),
    ];
    let ms = d.request_messages(&convo, &cast());
    assert_eq!(ms.len(), 5);
    assert!(ms[0].role == Role::System);
    assert_eq!(ms[0].content, "SYS");
    assert!(ms[1].content.contains("可用NPC角色: 书生、猎人"));
    assert_eq!(ms[2].content, "b");
    assert_eq!(ms[3].content, "c");
    assert!(ms[4].role == Role::User);
    assert_eq!(ms[4].content, "输出JSON决定接下来发生什么。");
}

#[test]
fn extract_json_strips_fences_and_noise() {
    assert_eq!(Director::extract_json("```json\n{\"type\":\"player\"}\n```"), "{\"type\":\"player\"}");
    assert_eq!(Director::extract_json("noise {\"a\":1} tail"), "{\"a\":1}");
    assert_eq!(Director::extract_json("  no json here "), "no json here");
    assert_eq!(Director::extract_json("} backwards {"), "} backwards {");
}

#[test]
fn json_decisions_are_followed() {
    let d = Director::from_story_config(&story(5, vec![], None));
    let out = DirectorOutput {
        decision_type: "sequential".to_string(),
        speakers: Some(vec!["书生".to_string(), "X".to_string()]),
    };
    let dec = d.parse_decision("", Some(out), &cast());
    assert!(matches!(dec, TurnDecision::Sequential(_)));
    assert_eq!(names(&dec), vec!["书生".to_string()]);

    let par = DirectorOutput {
        decision_type: "parallel".to_string(),
        speakers: Some(vec!["猎人".to_string(), "书生".to_string()]),
    };
    let dec = d.parse_decision("", Some(par), &cast());
    assert!(matches!(dec, TurnDecision::Parallel(_)));
    assert_eq!(names(&dec), vec!["猎人".to_string(), "书生".to_string()]);

    let player = DirectorOutput { decision_type: "player".to_string(), speakers: None };
    assert!(matches!(d.parse_decision("", Some(player), &cast()), TurnDecision::Player));
    let end = DirectorOutput { decision_type: "end_scene".to_string(), speakers: None };
    assert!(matches!(d.parse_decision("", Some(end), &cast()), TurnDecision::EndScene));
}

#[test]
fn unusable_answers_fall_back_on_the_text() {
    let d = Director::from_story_config(&story(5, vec![], None));
    assert!(matches!(d.parse_decision("Now the PLAYER speaks", None, &cast()), TurnDecision::Player));
    assert!(matches!(d.parse_decision("轮到玩家", None, &cast()), TurnDecision::Player));
    assert!(matches!(d.parse_decision("故事结束", None, &cast()), TurnDecision::EndScene));
    let nobody = DirectorOutput {
        decision_type: "sequential".to_string(),
        speakers: Some(vec!["X".to_string()]),
    };
    let dec = d.parse_decision("hmm", Some(nobody), &cast());
    assert_eq!(names(&dec), vec!["书生".to_string()]);
    let dec = d.parse_decision("hmm", None, &[]);
    assert_eq!(names(&dec), vec![String::new()]);
}

#[test]
fn only_available_names_are_kept() {
    let d = Director::from_story_config(&story(5, vec![], None));
    let kept = d.filter_valid_names(
        &vec!["猎人".to_string(), "nobody".to_string(), "书生".to_string()],
        &cast(),
    );
    assert_eq!(kept, vec!["猎人".to_string(), "书生".to_string()]);
}

#[test]
fn join_puts_separator_between_parts() {
    assert_eq!(join_strings(&vec!["a".to_string(), "b".to_string(), "c".to_string()], ", "), "a, b, c");
    assert_eq!(join_strings(&vec![], ", "), "");
}
