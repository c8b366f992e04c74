use rust_agent::llm::{
    api_message_content, api_tools, bearer_header, completions_url, format_message_content,
    last_message_text, message_from_response, resolve_api_key, role_to_api, thinking_config,
    to_api_messages, tool_choice, ApiToolCall, ApiToolCallFunction, ChatCompletionResponse, Choice,
    ResponseMessage,
};
use rust_agent::message::{Message, Role, ToolCall};
use rust_agent::traits::ToolSpec;

fn call(id: &str) -> ToolCall {
    ToolCall { id: id.to_string(), name: "zsh".to_string(), arguments: "{}".to_string() }
}

#[test]
fn role_names() {
    assert_eq!(role_to_api(Role::System), "system");
    assert_eq!(role_to_api(Role::User), "user");
    assert_eq!(role_to_api(Role::Assistant), "assistant");
    assert_eq!(role_to_api(Role::Tool), "tool");
}

#[test]
fn content_names_its_author() {
    let m = Message::assistant("hi".to_string()).with_character("书生".to_string());
    assert_eq!(format_message_content(&m), "书生: hi");
    let blank = Message::assistant("hi".to_string()).with_character("  ".to_string());
    assert_eq!(format_message_content(&blank), "hi");
    assert_eq!(format_message_content(&Message::user("yo".to_string())), "yo");
}

#[test]
fn tool_call_only_answers_have_no_content() {
    let m = Message::assistant(String::new());
    assert_eq!(api_message_content(&m, true), None);
    assert_eq!(api_message_content(&m, false), Some(String::new()));
    let u = Message::user(String::new());
    assert_eq!(api_message_content(&u, true), Some(String::new()));
}

#[test]
fn api_messages_mirror_the_conversation() {
    let mut a = Message::assistant(String::new());
    a.tool_calls = vec![call("c1")];
    let t = Message::new(Role::Tool, "out".to_string()).with_tool_call_id("c1".to_string());
    let out = to_api_messages(&[Message::system("S".to_string()), a, t]);
    assert_eq!(out.len(), 3);
    assert_eq!(out[0].role, "system");
    assert_eq!(out[0].content.as_deref(), Some("S"));
    assert!(out[0].tool_calls.is_none());
    assert_eq!(out[1].content, None);
    let calls = out[1].tool_calls.as_ref().unwrap();
    assert_eq!(calls.len(), 1);
    assert_eq!(calls[0].id, "c1");
    assert_eq!(calls[0].tool_type, "function");
    assert_eq!(calls[0].function.name, "zsh");
    assert_eq!(out[2].role, "tool");
    assert_eq!(out[2].tool_call_id.as_deref(), Some("c1"));
}

#[test]
fn tool_calls_convert_both_ways() {
    let a = ApiToolCall::from_tool_call(&call("x"));
    let back = a.to_tool_call();
    assert_eq!(back.id, "x");
    assert_eq!(back.name, "zsh");
    assert_eq!(back.arguments, "{}");
}

#[test]
fn tools_and_choice_only_with_tools() {
    assert!(api_tools(&[]).is_none());
    assert_eq!(tool_choice(&[]), None);
    let spec = ToolSpec {
        name: "zsh".to_string(),
        description: "run".to_string(),
        parameters: serde_json::Value::Null,
    };
    let tools = api_tools(&[spec.clone()]).unwrap();
    assert_eq!(tools.len(), 1);
    assert_eq!(tools[0].tool_type, "function");
    assert_eq!(tools[0].function.name, "zsh");
    assert_eq!(tools[0].function.description, "run");
    assert_eq!(tool_choice(&[spec]), Some("auto".to_string()));
}

#[test]
fn thinking_switch() {
    let (t, e) = thinking_config(true, &"high".to_string());
    assert_eq!(t.unwrap().thinking_type, "enabled");
    assert_eq!(e, Some("high".to_string()));
    let (t, e) = thinking_config(false, &"high".to_string());
    assert!(t.is_none() && e.is_none());
}

#[test]
fn reply_message_from_the_first_choice() {
    let resp = ChatCompletionResponse {
        id: "r".to_string(),
        choices: vec![Choice {
            index: 0,
            message: ResponseMessage {
                role: "assistant".to_string(),
                content: Some("answer".to_string()),
                tool_calls: Some(vec![ApiToolCall {
                    id: "k".to_string(),
                    tool_type: "function".to_string(),
                    function: ApiToolCallFunction { name: "zsh".to_string(), arguments: "{\"c\":1}".to_string() },
                }]),
                reasoning_content: Some("why".to_string()),
            },
            finish_reason: Some("stop".to_string()),
        }],
        usage: None,
    };
    let m = message_from_response(&resp);
    assert!(m.role == Role::Assistant);
    assert_eq!(m.content, "answer");
    assert_eq!(m.reasoning_content.as_deref(), Some("why"));
    assert_eq!(m.tool_calls.len(), 1);
    assert_eq!(m.tool_calls[0].arguments, "{\"c\":1}");
    let empty = ChatCompletionResponse { id: "e".to_string(), choices: vec![], usage: None };
    let m = message_from_response(&empty);
    assert_eq!(m.content, "");
    assert!(m.tool_calls.is_empty());
}

#[test]
fn request_addressing() {
    assert_eq!(completions_url("https://api.x/v1"), "https://api.x/v1/chat/completions");
    assert_eq!(bearer_header("k"), "Bearer k");
    assert_eq!(resolve_api_key(Some("a".to_string()), Some("b".to_string())), "a");
    assert_eq!(resolve_api_key(None, Some("b".to_string())), "b");
    assert_eq!(resolve_api_key(None, None), "");
}

#[test]
fn last_message_preview_source() {
    assert_eq!(last_message_text(&[]), "");
    assert_eq!(last_message_text(&[Message::user("a".to_string()), Message::user("b".to_string())]), "b");
}
