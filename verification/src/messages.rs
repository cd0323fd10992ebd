//! Chat messages as the middleware sees them: a role, text content and the
//! metadata that rewriting must carry along unchanged.

use vstd::prelude::*;
use vstd::string::*;

verus! {

/// The role of a message.
#[derive(Debug, Clone, Copy, PartialEq, Eq, Structural)]
pub enum MessageType {
    Human,
    Ai,
    System,
    Tool,
    Function,
    Chat,
    Remove,
}

impl MessageType {
    /// The role's name.
    pub fn as_str(&self) -> (r: &'static str)
        ensures
            r@ == role_name(*self),
    {
        match self {
            MessageType::Human => "human",
            MessageType::Ai => "ai",
            MessageType::System => "system",
            MessageType::Tool => "tool",
            MessageType::Function => "function",
            MessageType::Chat => "chat",
            MessageType::Remove => "remove",
        }
    }
}

/// The role's name.
pub open spec fn role_name(t: MessageType) -> Seq<char> {
    match t {
        MessageType::Human => "human"@,
        MessageType::Ai => "ai"@,
        MessageType::System => "system"@,
        MessageType::Tool => "tool"@,
        MessageType::Function => "function"@,
        MessageType::Chat => "chat"@,
        MessageType::Remove => "remove"@,
    }
}

/// A tool call requested by an AI message.
#[derive(Debug, Clone)]
pub struct ToolCall {
    /// The tool's name.
    pub name: String,
    /// The arguments, as JSON text.
    pub args: String,
    /// The call's id, if any.
    pub id: Option<String>,
}

/// A chat message.
#[derive(Debug, Clone)]
pub struct Message {
    /// The role.
    pub message_type: MessageType,
    /// The text content.
    pub content: String,
    /// Optional message id.
    pub id: Option<String>,
    /// Optional author name.
    pub name: Option<String>,
    /// Tool calls (AI messages only).
    pub tool_calls: Vec<ToolCall>,
    /// The call a tool message answers (tool messages only).
    pub tool_call_id: Option<String>,
}

/// A copy of an optional string.
pub fn copy_opt_string(s: &Option<String>) -> (r: Option<String>)
    ensures
        r == *s,
{
    match s {
        Some(v) => Some(v.clone()),
        None => None,
    }
}

impl ToolCall {
    /// A field-by-field copy.
    pub fn copy(&self) -> (r: ToolCall)
        ensures
            r == *self,
    {
        ToolCall { name: self.name.clone(), args: self.args.clone(), id: copy_opt_string(&self.id) }
    }
}

/// A copy of a list of tool calls.
pub fn copy_tool_calls(v: &Vec<ToolCall>) -> (r: Vec<ToolCall>)
    ensures
        r@ == v@,
{
    let mut out: Vec<ToolCall> = Vec::new();
    let mut i: usize = 0;
    while i < v.len()
        invariant
            i <= v@.len(),
            out@ == v@.subrange(0, i as int),
        decreases v.len() - i,
    {
        out.push(v[i].copy());
        assert(out@ =~= v@.subrange(0, i + 1));
        i = i + 1;
    }
    assert(v@.subrange(0, v@.len() as int) =~= v@);
    out
}

impl Message {
    /// A message with the given role and content and no metadata.
    pub fn new(message_type: MessageType, content: &str) -> (m: Message)
        ensures
            m.message_type == message_type,
            m.content@ == content@,
            m.id is None,
            m.name is None,
            m.tool_calls@.len() == 0,
            m.tool_call_id is None,
    {
        Message {
            message_type,
            content: String::from_str(content),
            id: None,
            name: None,
            tool_calls: Vec::new(),
            tool_call_id: None,
        }
    }

    /// A human message.
    pub fn human(content: &str) -> (m: Message)
        ensures
            m.message_type == MessageType::Human,
            m.content@ == content@,
            m.tool_calls@.len() == 0,
    {
        Message::new(MessageType::Human, content)
    }

    /// An AI message.
    pub fn ai(content: &str) -> (m: Message)
        ensures
            m.message_type == MessageType::Ai,
            m.content@ == content@,
            m.tool_calls@.len() == 0,
    {
        Message::new(MessageType::Ai, content)
    }

    /// A system message.
    pub fn system(content: &str) -> (m: Message)
        ensures
            m.message_type == MessageType::System,
            m.content@ == content@,
            m.tool_calls@.len() == 0,
    {
        Message::new(MessageType::System, content)
    }

    /// A tool message answering the call `tool_call_id`.
    pub fn tool(content: &str, tool_call_id: &str) -> (m: Message)
        ensures
            m.message_type == MessageType::Tool,
            m.content@ == content@,
            m.tool_calls@.len() == 0,
            m.tool_call_id matches Some(id) && id@ == tool_call_id@,
    {
        Message {
            message_type: MessageType::Tool,
            content: String::from_str(content),
            id: None,
            name: None,
            tool_calls: Vec::new(),
            tool_call_id: Some(String::from_str(tool_call_id)),
        }
    }

    /// The text content.
    pub fn text(&self) -> (r: &str)
        ensures
            r@ == self.content@,
    {
        self.content.as_str()
    }

    /// A field-by-field copy.
    pub fn copy(&self) -> (r: Message)
        ensures
            same_message(r, *self),
    {
        Message {
            message_type: self.message_type,
            content: self.content.clone(),
            id: copy_opt_string(&self.id),
            name: copy_opt_string(&self.name),
            tool_calls: copy_tool_calls(&self.tool_calls),
            tool_call_id: copy_opt_string(&self.tool_call_id),
        }
    }

    /// This message with its content replaced and everything else kept.
    pub fn with_content(&self, content: String) -> (r: Message)
        ensures
            same_message(r, Message { content, ..*self }),
    {
        Message {
            message_type: self.message_type,
            content,
            id: copy_opt_string(&self.id),
            name: copy_opt_string(&self.name),
            tool_calls: copy_tool_calls(&self.tool_calls),
            tool_call_id: copy_opt_string(&self.tool_call_id),
        }
    }
}

/// Two messages agree in every field.
pub open spec fn same_message(a: Message, b: Message) -> bool {
    &&& a.message_type == b.message_type
    &&& a.content == b.content
    &&& a.id == b.id
    &&& a.name == b.name
    &&& a.tool_calls@ == b.tool_calls@
    &&& a.tool_call_id == b.tool_call_id
}

/// Two message lists agree message by message.
pub open spec fn same_messages(a: Seq<Message>, b: Seq<Message>) -> bool {
    a.len() == b.len() && forall|k: int| 0 <= k < a.len() ==> same_message(#[trigger] a[k], b[k])
}

/// A copy of a list of messages.
pub fn copy_messages(v: &[Message]) -> (r: Vec<Message>)
    ensures
        same_messages(r@, v@),
{
    let mut out: Vec<Message> = Vec::new();
    let mut i: usize = 0;
    while i < v.len()
        invariant
            i <= v@.len(),
            out@.len() == i,
            forall|k: int| 0 <= k < i ==> same_message(#[trigger] out@[k], v@[k]),
        decreases v.len() - i,
    {
        out.push(v[i].copy());
        i = i + 1;
    }
    out
}

/// Index of the last message with the given role, or -1.
pub open spec fn last_of_type(v: Seq<Message>, t: MessageType) -> int
    decreases v.len(),
{
    if v.len() == 0 {
        -1
    } else if v.last().message_type == t {
        v.len() - 1
    } else {
        last_of_type(v.drop_last(), t)
    }
}

pub proof fn lemma_last_of_type(v: Seq<Message>, t: MessageType)
    ensures
        -1 <= last_of_type(v, t) < v.len(),
        last_of_type(v, t) >= 0 ==> v[last_of_type(v, t)].message_type == t,
        forall|k: int| last_of_type(v, t) < k < v.len() ==> v[k].message_type != t,
    decreases v.len(),
{
    if v.len() > 0 && v.last().message_type != t {
        lemma_last_of_type(v.drop_last(), t);
        assert forall|k: int| last_of_type(v, t) < k < v.len() implies v[k].message_type != t by {
            if k < v.len() - 1 {
                assert(v[k] == v.drop_last()[k]);
            }
        }
    }
}

/// Position of the last message with the given role (`rposition`).
pub fn last_position(v: &[Message], t: MessageType) -> (r: Option<usize>)
    ensures
        r == if last_of_type(v@, t) < 0 {
            None::<usize>
        } else {
            Some(last_of_type(v@, t) as usize)
        },
        r matches Some(k) ==> k < v@.len() && k == last_of_type(v@, t),
{
    proof {
        lemma_last_of_type(v@, t);
    }
    let mut i = v.len();
    assert(v@.subrange(0, i as int) =~= v@);
    while i > 0
        invariant
            i <= v@.len(),
            last_of_type(v@, t) == last_of_type(v@.subrange(0, i as int), t),
        decreases i,
    {
        assert(v@.subrange(0, i as int).drop_last() =~= v@.subrange(0, i - 1));
        if v[i - 1].message_type == t {
            return Some(i - 1);
        }
        i = i - 1;
    }
    None
}

} // verus!
