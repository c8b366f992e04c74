//! The OpenAI-compatible wire format: messages and tools as the API takes
//! them, answers as it returns them, and the conversions between those and
//! the library's messages. The HTTP exchange itself is made by the caller.

use vstd::prelude::*;
use crate::message::{Message, MessageView, Role, ToolCall, clone_opt_string};
use crate::sliding_window::views;
use crate::text::trim;
use crate::traits::ToolSpec;

verus! {

/// Thinking-mode switch of reasoning models.
#[derive(Debug)]
pub struct ThinkingConfig {
    /// `enabled` or `disabled`.
    pub thinking_type: String,
}

/// A message as the API takes it.
#[derive(Debug)]
pub struct ApiMessage {
    pub role: String,
    pub content: Option<String>,
    pub tool_call_id: Option<String>,
    pub tool_calls: Option<Vec<ApiToolCall>>,
}

/// A tool as the API takes it.
#[derive(Debug)]
pub struct ApiTool {
    pub tool_type: String,
    pub function: ApiToolFunction,
}

/// The function a tool exposes.
#[derive(Debug)]
pub struct ApiToolFunction {
    pub name: String,
    pub description: String,
    pub parameters: serde_json::Value,
}

/// A tool call requested by the model.
#[derive(Debug)]
pub struct ApiToolCall {
    pub id: String,
    pub tool_type: String,
    pub function: ApiToolCallFunction,
}

/// The function and arguments of a tool call.
#[derive(Debug)]
pub struct ApiToolCallFunction {
    pub name: String,
    pub arguments: String,
}

/// A complete answer.
#[derive(Debug)]
pub struct ChatCompletionResponse {
    pub id: String,
    pub choices: Vec<Choice>,
    pub usage: Option<Usage>,
}

/// One choice of an answer.
#[derive(Debug)]
pub struct Choice {
    pub index: usize,
    pub message: ResponseMessage,
    pub finish_reason: Option<String>,
}

/// The message of a choice.
#[derive(Debug)]
pub struct ResponseMessage {
    pub role: String,
    pub content: Option<String>,
    pub tool_calls: Option<Vec<ApiToolCall>>,
    /// Reasoning text of thinking models.
    pub reasoning_content: Option<String>,
}

/// Token counts reported by the API.
#[derive(Debug, Clone, Copy)]
pub struct Usage {
    pub prompt_tokens: usize,
    pub completion_tokens: usize,
    pub total_tokens: usize,
}

/// One event of a streamed answer.
#[derive(Debug)]
pub struct StreamChatCompletionChunk {
    pub id: String,
    pub choices: Vec<StreamChoice>,
}

/// One choice of a streamed event.
#[derive(Debug)]
pub struct StreamChoice {
    pub index: usize,
    pub delta: Delta,
    pub finish_reason: Option<String>,
}

/// The new text of a streamed event.
#[derive(Debug)]
pub struct Delta {
    pub role: Option<String>,
    pub content: Option<String>,
    pub reasoning_content: Option<String>,
}

/// The API's name of a role.
pub open spec fn role_name(r: Role) -> Seq<char> {
    match r {
        Role::System => "system"@,
        Role::User => "user"@,
        Role::Assistant => "assistant"@,
        Role::Tool => "tool"@,
    }
}

/// The API's name of a role.
pub fn role_to_api(r: Role) -> (s: String)
    ensures
        s@ == role_name(r),
{
    match r {
        Role::System => String::from_str("system"),
        Role::User => String::from_str("user"),
        Role::Assistant => String::from_str("assistant"),
        Role::Tool => String::from_str("tool"),
    }
}

/// The text sent for a message: `name: content` when it has an author
/// whose name is not blank, else its content.
pub open spec fn formatted_content(m: MessageView) -> Seq<char> {
    match m.character_name {
        Some(name) => if trim(name).len() > 0 {
            name + ": "@ + m.content
        } else {
            m.content
        },
        None => m.content,
    }
}

/// Whatever its role, a message whose author has a name that is not blank
/// is sent as the name, a colon and a space, then its content; any other
/// message is sent as its content. The role never changes the text.
pub proof fn law_named_messages_carry_their_author(m: MessageView, role: Role)
    ensures
        m.character_name matches Some(name) ==> (trim(name).len() > 0 ==> formatted_content(m)
            == name + seq![':', ' '] + m.content),
        m.character_name matches Some(name) ==> (trim(name).len() == 0 ==> formatted_content(m)
            == m.content),
        m.character_name is None ==> formatted_content(m) == m.content,
        formatted_content(MessageView { role, ..m }) == formatted_content(m),
{
    reveal_strlit(": ");
    assert(": "@ =~= seq![':', ' ']);
}

/// The text sent for a message: `name: content` when it has an author
/// whose name is not blank, else its content.
pub fn format_message_content(message: &Message) -> (s: String)
    ensures
        s@ == formatted_content(message@),
{
    match &message.character_name {
        Some(name) => {
            if crate::text::trim_str(name.as_str()).unicode_len() > 0 {
                let mut s = name.clone();
                s.append(": ");
                s.append(message.content.as_str());
                s
            } else {
                message.content.clone()
            }
        },
        None => message.content.clone(),
    }
}

/// The content field of a message: none for an assistant message that only
/// carries tool calls, else the formatted text.
pub open spec fn api_content(m: MessageView, has_tool_calls: bool) -> Option<Seq<char>> {
    if m.role == Role::Assistant && has_tool_calls && m.content.len() == 0 {
        None
    } else {
        Some(formatted_content(m))
    }
}

/// The content field of a message.
pub fn api_message_content(message: &Message, has_tool_calls: bool) -> (c: Option<String>)
    ensures
        match c {
            Some(s) => api_content(message@, has_tool_calls) == Some(s@),
            None => api_content(message@, has_tool_calls) is None,
        },
{
    if message.role == Role::Assistant && has_tool_calls && message.content.as_str().unicode_len() == 0 {
        None
    } else {
        Some(format_message_content(message))
    }
}

/// Whether an API tool call carries the given call.
pub open spec fn api_call_of(a: ApiToolCall, c: ToolCall) -> bool {
    a.id == c.id && a.tool_type@ == "function"@ && a.function.name == c.name
        && a.function.arguments == c.arguments
}

impl ApiToolCall {
    /// The API form of a tool call.
    pub fn from_tool_call(call: &ToolCall) -> (a: ApiToolCall)
        ensures
            api_call_of(a, *call),
    {
        ApiToolCall {
            id: call.id.clone(),
            tool_type: String::from_str("function"),
            function: ApiToolCallFunction { name: call.name.clone(), arguments: call.arguments.clone() },
        }
    }

    /// The tool call an API tool call carries.
    pub fn to_tool_call(&self) -> (c: ToolCall)
        ensures
            c.id == self.id,
            c.name == self.function.name,
            c.arguments == self.function.arguments,
    {
        ToolCall {
            id: self.id.clone(),
            name: self.function.name.clone(),
            arguments: self.function.arguments.clone(),
        }
    }
}

impl ApiTool {
    /// The API form of a tool description.
    pub fn from_tool_spec(spec: ToolSpec) -> (t: ApiTool)
        ensures
            t.tool_type@ == "function"@,
            t.function.name == spec.name,
            t.function.description == spec.description,
            t.function.parameters == spec.parameters,
    {
        ApiTool {
            tool_type: String::from_str("function"),
            function: ApiToolFunction {
                name: spec.name,
                description: spec.description,
                parameters: spec.parameters,
            },
        }
    }
}

/// Whether an API message renders a message.
pub open spec fn api_message_of(a: ApiMessage, m: MessageView) -> bool {
    &&& a.role@ == role_name(m.role)
    &&& crate::message::opt_str_view(a.tool_call_id) == m.tool_call_id
    &&& (m.tool_calls.len() == 0 <==> a.tool_calls is None)
    &&& (a.tool_calls matches Some(v) ==> v@.len() == m.tool_calls.len() && forall|i: int|
        0 <= i < v@.len() ==> #[trigger] api_call_of(v@[i], m.tool_calls[i]))
    &&& match a.content {
        Some(s) => api_content(m, m.tool_calls.len() > 0) == Some(s@),
        None => api_content(m, m.tool_calls.len() > 0) is None,
    }
}

/// In a request, a message with text whose author has a name that is not
/// blank, of any role, reads as the name, a colon and a space, then the
/// text; only an assistant message that carries nothing but tool calls has
/// no content.
pub proof fn law_request_names_each_author(a: ApiMessage, m: MessageView)
    requires
        api_message_of(a, m),
    ensures
        m.content.len() > 0 || m.role != Role::Assistant || m.tool_calls.len() == 0 ==> (
        m.character_name matches Some(name) ==> (trim(name).len() > 0 ==> (a.content matches Some(
            s,
        ) && s@ == name + seq![':', ' '] + m.content))),
        m.content.len() > 0 || m.role != Role::Assistant || m.tool_calls.len() == 0 ==> (
        m.character_name is None ==> (a.content matches Some(s) && s@ == m.content)),
{
    law_named_messages_carry_their_author(m, m.role);
}

/// The API messages for a conversation, in order.
pub fn to_api_messages(messages: &[Message]) -> (out: Vec<ApiMessage>)
    ensures
        out@.len() == messages@.len(),
        forall|i: int| 0 <= i < out@.len() ==> #[trigger] api_message_of(out@[i], messages@[i]@),
{
    let mut out: Vec<ApiMessage> = Vec::new();
    let mut i: usize = 0;
    while i < messages.len()
        invariant
            i <= messages@.len(),
            out@.len() == i,
            forall|j: int| 0 <= j < i ==> #[trigger] api_message_of(out@[j], messages@[j]@),
        decreases messages@.len() - i,
    {
        let m = &messages[i];
        let mut calls: Vec<ApiToolCall> = Vec::new();
        let mut k: usize = 0;
        while k < m.tool_calls.len()
            invariant
                k <= m.tool_calls@.len(),
                calls@.len() == k,
                forall|j: int| 0 <= j < k ==> #[trigger] api_call_of(calls@[j], m.tool_calls@[j]),
            decreases m.tool_calls@.len() - k,
        {
            calls.push(ApiToolCall::from_tool_call(&m.tool_calls[k]));
            k = k + 1;
        }
        let has_calls = calls.len() > 0;
        let content = api_message_content(m, has_calls);
        let tool_calls = if has_calls {
            Some(calls)
        } else {
            None
        };
        let a = ApiMessage {
            role: role_to_api(m.role),
            content,
            tool_call_id: clone_opt_string(&m.tool_call_id),
            tool_calls,
        };
        out.push(a);
        i = i + 1;
    }
    out
}

/// The tools field of a request: none without tools.
pub fn api_tools(tools: &[ToolSpec]) -> (r: Option<Vec<ApiTool>>)
    ensures
        tools@.len() == 0 <==> r is None,
        r matches Some(v) ==> v@.len() == tools@.len() && forall|i: int| 0 <= i < v@.len() ==> {
            &&& (#[trigger] v@[i]).tool_type@ == "function"@
            &&& v@[i].function.name == tools@[i].name
            &&& v@[i].function.description == tools@[i].description
            &&& v@[i].function.parameters == tools@[i].parameters
        },
{
    if tools.len() == 0 {
        return None;
    }
    let mut out: Vec<ApiTool> = Vec::new();
    let mut i: usize = 0;
    while i < tools.len()
        invariant
            i <= tools@.len(),
            out@.len() == i,
            forall|j: int| 0 <= j < i ==> {
                &&& (#[trigger] out@[j]).tool_type@ == "function"@
                &&& out@[j].function.name == tools@[j].name
                &&& out@[j].function.description == tools@[j].description
                &&& out@[j].function.parameters == tools@[j].parameters
            },
        decreases tools@.len() - i,
    {
        out.push(ApiTool::from_tool_spec(tools[i].clone()));
        i = i + 1;
    }
    Some(out)
}

/// The tool choice of a request: `auto` with tools, none without.
pub fn tool_choice(tools: &[ToolSpec]) -> (r: Option<String>)
    ensures
        tools@.len() == 0 ==> r is None,
        tools@.len() > 0 ==> (r matches Some(s) && s@ == "auto"@),
{
    if tools.len() == 0 {
        None
    } else {
        Some(String::from_str("auto"))
    }
}

/// The thinking switch and reasoning effort of a request: both present when
/// thinking is enabled, both absent otherwise.
pub fn thinking_config(thinking_enabled: bool, reasoning_effort: &String) -> (r: (
    Option<ThinkingConfig>,
    Option<String>,
))
    ensures
        thinking_enabled ==> (r.0 matches Some(t) && t.thinking_type@ == "enabled"@),
        thinking_enabled ==> r.1 == Some(*reasoning_effort),
        !thinking_enabled ==> r.0 is None && r.1 is None,
{
    if thinking_enabled {
        (
            Some(ThinkingConfig { thinking_type: String::from_str("enabled") }),
            Some(reasoning_effort.clone()),
        )
    } else {
        (None, None)
    }
}

/// The reply message of an answer: an assistant message with the first
/// choice's text (empty when there is none), its reasoning, and its tool
/// calls.
pub fn message_from_response(resp: &ChatCompletionResponse) -> (m: Message)
    ensures
        m@.role == Role::Assistant,
        m@.character_name is None,
        m@.metadata is None,
        m@.tool_call_id is None,
        resp.choices@.len() == 0 ==> {
            &&& m@.content.len() == 0
            &&& m@.reasoning_content is None
            &&& m@.tool_calls.len() == 0
        },
        resp.choices@.len() > 0 ==> {
            let c = resp.choices@[0].message;
            &&& m@.content == match c.content {
                Some(s) => s@,
                None => Seq::empty(),
            }
            &&& m@.reasoning_content == crate::message::opt_str_view(c.reasoning_content)
            &&& m@.tool_calls.len() == match c.tool_calls {
                Some(v) => v@.len(),
                None => 0,
            }
            &&& c.tool_calls matches Some(v) ==> forall|i: int| 0 <= i < v@.len() ==> {
                &&& (#[trigger] m@.tool_calls[i]).id == v@[i].id
                &&& m@.tool_calls[i].name == v@[i].function.name
                &&& m@.tool_calls[i].arguments == v@[i].function.arguments
            }
        },
{
    if resp.choices.len() == 0 {
        return Message::assistant(String::new());
    }
    let c = &resp.choices[0].message;
    let content = match &c.content {
        Some(s) => s.clone(),
        None => String::new(),
    };
    let mut calls: Vec<ToolCall> = Vec::new();
    match &c.tool_calls {
        Some(v) => {
            let mut i: usize = 0;
            while i < v.len()
                invariant
                    i <= v@.len(),
                    calls@.len() == i,
                    forall|j: int| 0 <= j < i ==> {
                        &&& (#[trigger] calls@[j]).id == v@[j].id
                        &&& calls@[j].name == v@[j].function.name
                        &&& calls@[j].arguments == v@[j].function.arguments
                    },
                decreases v@.len() - i,
            {
                calls.push(v[i].to_tool_call());
                i = i + 1;
            }
        },
        None => {},
    }
    let m = Message::assistant(content);
    Message { reasoning_content: clone_opt_string(&c.reasoning_content), tool_calls: calls, ..m }
}

/// The API key a client uses: the configured one, else the one from the
/// environment, else the empty key.
pub fn resolve_api_key(configured: Option<String>, from_env: Option<String>) -> (k: String)
    ensures
        k@ == match configured {
            Some(c) => c@,
            None => match from_env {
                Some(e) => e@,
                None => Seq::empty(),
            },
        },
{
    match configured {
        Some(c) => c,
        None => match from_env {
            Some(e) => e,
            None => String::new(),
        },
    }
}

/// The address of the chat-completions endpoint under a base URL.
pub fn completions_url(base_url: &str) -> (u: String)
    ensures
        u@ == base_url@ + "/chat/completions"@,
{
    let mut u = String::from_str(base_url);
    u.append("/chat/completions");
    u
}

/// The value of the `Authorization` header for an API key.
pub fn bearer_header(api_key: &str) -> (h: String)
    ensures
        h@ == "Bearer "@ + api_key@,
{
    let mut h = String::from_str("Bearer ");
    h.append(api_key);
    h
}

/// The text of the last message, which the call log previews; empty when
/// there are no messages.
pub fn last_message_text(messages: &[Message]) -> (t: &str)
    ensures
        messages@.len() == 0 ==> t@ == Seq::<char>::empty(),
        messages@.len() > 0 ==> t@ == messages@.last().content@,
{
    if messages.len() == 0 {
        proof {
            reveal_strlit("");
        }
        ""
    } else {
        messages[messages.len() - 1].content.as_str()
    }
}

} // verus!
