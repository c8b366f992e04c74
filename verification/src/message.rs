//! Chat messages exchanged between the player, the characters and the model.

use vstd::prelude::*;

verus! {

#[verifier::external_type_specification]
#[verifier::external_body]
pub struct ExJsonValue(serde_json::Value);

/// `serde_json::Value::clone` gives back an equal value.
pub assume_specification[ <serde_json::Value as Clone>::clone ](v: &serde_json::Value) -> (res:
    serde_json::Value)
    ensures
        res == *v,
;

/// Who wrote a message.
#[derive(Debug, Clone, Copy, PartialEq, Eq, Structural)]
pub enum Role {
    System,
    User,
    Assistant,
    Tool,
}

/// A tool invocation requested by the model.
#[derive(Debug)]
pub struct ToolCall {
    pub id: String,
    pub name: String,
    pub arguments: String,
}

impl Clone for ToolCall {
    fn clone(&self) -> (res: Self)
        ensures
            res == *self,
    {
        ToolCall { id: self.id.clone(), name: self.name.clone(), arguments: self.arguments.clone() }
    }
}

/// One message of a conversation.
#[derive(Debug)]
pub struct Message {
    /// Unique id of the message (the 128 bits of a UUID).
    pub id: u128,
    pub role: Role,
    pub content: String,
    /// Name of the character (or player) who wrote the message.
    pub character_name: Option<String>,
    pub metadata: Option<serde_json::Value>,
    pub tool_calls: Vec<ToolCall>,
    pub tool_call_id: Option<String>,
    pub reasoning_content: Option<String>,
    /// Creation time, in milliseconds since the Unix epoch (UTC).
    pub timestamp: i64,
}

/// The mathematical content of a message: its strings as character sequences
/// and its tool calls as a sequence.
pub struct MessageView {
    pub id: u128,
    pub role: Role,
    pub content: Seq<char>,
    pub character_name: Option<Seq<char>>,
    pub metadata: Option<serde_json::Value>,
    pub tool_calls: Seq<ToolCall>,
    pub tool_call_id: Option<Seq<char>>,
    pub reasoning_content: Option<Seq<char>>,
    pub timestamp: i64,
}

/// The characters of an optional string.
pub open spec fn opt_str_view(s: Option<String>) -> Option<Seq<char>> {
    match s {
        Some(x) => Some(x@),
        None => None,
    }
}

impl View for Message {
    type V = MessageView;

    open spec fn view(&self) -> MessageView {
        MessageView {
            id: self.id,
            role: self.role,
            content: self.content@,
            character_name: opt_str_view(self.character_name),
            metadata: self.metadata,
            tool_calls: self.tool_calls@,
            tool_call_id: opt_str_view(self.tool_call_id),
            reasoning_content: opt_str_view(self.reasoning_content),
            timestamp: self.timestamp,
        }
    }
}

impl DeepView for Message {
    type V = MessageView;

    open spec fn deep_view(&self) -> MessageView {
        self@
    }
}

/// Copies an optional string.
pub fn clone_opt_string(s: &Option<String>) -> (res: Option<String>)
    ensures
        res == *s,
{
    match s {
        Some(x) => Some(x.clone()),
        None => None,
    }
}

/// Copies a list of tool calls.
pub fn clone_tool_calls(v: &Vec<ToolCall>) -> (res: Vec<ToolCall>)
    ensures
        res@ == v@,
{
    let mut out: Vec<ToolCall> = Vec::new();
    for i in 0..v.len()
        invariant
            out@ == v@.take(i as int),
    {
        out.push(v[i].clone());
        assert(out@ =~= v@.take(i + 1));
    }
    assert(v@.take(v.len() as int) =~= v@);
    out
}

impl Clone for Message {
    fn clone(&self) -> (res: Self)
        ensures
            res@ == self@,
    {
        let metadata = match &self.metadata {
            Some(v) => Some(v.clone()),
            None => None,
        };
        let tool_calls = clone_tool_calls(&self.tool_calls);
        let res = Message {
            id: self.id,
            role: self.role,
            content: self.content.clone(),
            character_name: clone_opt_string(&self.character_name),
            metadata,
            tool_calls,
            tool_call_id: clone_opt_string(&self.tool_call_id),
            reasoning_content: clone_opt_string(&self.reasoning_content),
            timestamp: self.timestamp,
        };
        assert(res.tool_calls@ =~= self.tool_calls@);
        res
    }
}

/// Whether `bits` are those of a random UUID: version field 4, variant
/// bits `10` (RFC 4122).
pub open spec fn is_random_uuid(bits: u128) -> bool {
    &&& (bits >> 76u128) & 0xfu128 == 4
    &&& (bits >> 62u128) & 0x3u128 == 2
}

/// A fresh random id: `uuid::Uuid::new_v4`, as its 128 bits. The bits come
/// from the system's random source; what holds of every outcome is that the
/// version field reads 4 (random) and the variant bits read `10` (RFC 4122),
/// which `new_v4` sets by masking.
#[verifier::external_body]
pub(crate) fn random_uuid() -> (id: u128)
    ensures
        is_random_uuid(id),
{
    uuid::Uuid::new_v4().as_u128()
}

/// A lower-case hexadecimal digit.
pub open spec fn hex_digit(d: nat) -> char {
    if d < 10 {
        ((48 + d) as u8) as char
    } else {
        ((87 + d) as u8) as char
    }
}

/// The last `n` hexadecimal digits of `v`, most significant first.
pub open spec fn hex_digits(v: nat, n: nat) -> Seq<char>
    decreases n,
{
    if n == 0 {
        Seq::empty()
    } else {
        hex_digits(v / 16, (n - 1) as nat).push(hex_digit(v % 16))
    }
}

/// The hyphenated text of a UUID given by its 128 bits: its 32 lower-case
/// hexadecimal digits in groups of 8, 4, 4, 4 and 12, joined by `-`.
pub open spec fn uuid_text(bits: u128) -> Seq<char> {
    let h = hex_digits(bits as nat, 32);
    h.subrange(0, 8) + seq!['-'] + h.subrange(8, 12) + seq!['-'] + h.subrange(12, 16) + seq!['-']
        + h.subrange(16, 20) + seq!['-'] + h.subrange(20, 32)
}

/// `uuid::Uuid::from_u128`, written out with `to_string`: the hyphenated
/// lower-case text of the UUID with these bits.
#[verifier::external_body]
pub(crate) fn uuid_string(bits: u128) -> (s: String)
    ensures
        s@ == uuid_text(bits),
{
    uuid::Uuid::from_u128(bits).to_string()
}

/// The current time in milliseconds since the Unix epoch
/// (`chrono::Utc::now`, read with `timestamp_millis`).
#[verifier::external_body]
fn now_millis() -> (t: i64) {
    chrono::Utc::now().timestamp_millis()
}

impl Message {
    /// A message of the given role with a fresh random id and the current
    /// time.
    pub fn new(role: Role, content: String) -> (m: Message)
        ensures
            m.role == role,
            m.content == content,
            m.character_name is None,
            m.metadata is None,
            m.tool_calls@.len() == 0,
            m.tool_call_id is None,
            m.reasoning_content is None,
            is_random_uuid(m.id),
    {
        Message {
            id: random_uuid(),
            role,
            content,
            character_name: None,
            metadata: None,
            tool_calls: Vec::new(),
            tool_call_id: None,
            reasoning_content: None,
            timestamp: now_millis(),
        }
    }

    pub fn system(content: String) -> (m: Message)
        ensures
            m.role == Role::System,
            m.content == content,
            m.character_name is None,
            m.metadata is None,
            m.tool_calls@.len() == 0,
            m.tool_call_id is None,
            m.reasoning_content is None,
            is_random_uuid(m.id),
    {
        Message::new(Role::System, content)
    }

    pub fn user(content: String) -> (m: Message)
        ensures
            m.role == Role::User,
            m.content == content,
            m.character_name is None,
            m.metadata is None,
            m.tool_calls@.len() == 0,
            m.tool_call_id is None,
            m.reasoning_content is None,
            is_random_uuid(m.id),
    {
        Message::new(Role::User, content)
    }

    pub fn assistant(content: String) -> (m: Message)
        ensures
            m.role == Role::Assistant,
            m.content == content,
            m.character_name is None,
            m.metadata is None,
            m.tool_calls@.len() == 0,
            m.tool_call_id is None,
            m.reasoning_content is None,
            is_random_uuid(m.id),
    {
        Message::new(Role::Assistant, content)
    }

    /// The same message, attributed to the named character.
    pub fn with_character(self, name: String) -> (m: Message)
        ensures
            m@ == (MessageView { character_name: Some(name@), ..self@ }),
    {
        Message { character_name: Some(name), ..self }
    }

    /// The same message, carrying the given metadata.
    pub fn with_metadata(self, metadata: serde_json::Value) -> (m: Message)
        ensures
            m@ == (MessageView { metadata: Some(metadata), ..self@ }),
    {
        Message { metadata: Some(metadata), ..self }
    }

    /// The same message, answering the tool call with the given id.
    pub fn with_tool_call_id(self, id: String) -> (m: Message)
        ensures
            m@ == (MessageView { tool_call_id: Some(id@), ..self@ }),
    {
        Message { tool_call_id: Some(id), ..self }
    }
}

} // verus!
