//! Transcript entries and the messages handed to the model.
use vstd::prelude::*;

use crate::chat::wrap::copy_string;

verus! {

/// One entry of the chat transcript.
///
/// A `ToolCall` is shown as pending until the `ToolResult` with its id
/// follows. `Thinking` holds the model's reasoning text.
#[derive(Debug)]
pub enum ChatEntry {
    User(String),
    Assistant(String),
    Thinking(String),
    ToolCall { id: String, name: String, arguments: String },
    ToolResult { id: String, name: String, output: String, is_error: bool },
    System(String),
}

/// Abstract entry: the same variants over character sequences.
pub enum EntryV {
    User(Seq<char>),
    Assistant(Seq<char>),
    Thinking(Seq<char>),
    ToolCall { id: Seq<char>, name: Seq<char>, arguments: Seq<char> },
    ToolResult { id: Seq<char>, name: Seq<char>, output: Seq<char>, is_error: bool },
    System(Seq<char>),
}

impl View for ChatEntry {
    type V = EntryV;

    open spec fn view(&self) -> EntryV {
        match self {
            ChatEntry::User(c) => EntryV::User(c@),
            ChatEntry::Assistant(c) => EntryV::Assistant(c@),
            ChatEntry::Thinking(c) => EntryV::Thinking(c@),
            ChatEntry::ToolCall { id, name, arguments } => EntryV::ToolCall {
                id: id@,
                name: name@,
                arguments: arguments@,
            },
            ChatEntry::ToolResult { id, name, output, is_error } => EntryV::ToolResult {
                id: id@,
                name: name@,
                output: output@,
                is_error: *is_error,
            },
            ChatEntry::System(c) => EntryV::System(c@),
        }
    }
}

impl ChatEntry {
    /// A copy of this entry.
    pub fn duplicate(&self) -> (r: ChatEntry)
        ensures
            r@ == self@,
    {
        match self {
            ChatEntry::User(c) => ChatEntry::User(copy_string(c)),
            ChatEntry::Assistant(c) => ChatEntry::Assistant(copy_string(c)),
            ChatEntry::Thinking(c) => ChatEntry::Thinking(copy_string(c)),
            ChatEntry::ToolCall { id, name, arguments } => ChatEntry::ToolCall {
                id: copy_string(id),
                name: copy_string(name),
                arguments: copy_string(arguments),
            },
            ChatEntry::ToolResult { id, name, output, is_error } => ChatEntry::ToolResult {
                id: copy_string(id),
                name: copy_string(name),
                output: copy_string(output),
                is_error: *is_error,
            },
            ChatEntry::System(c) => ChatEntry::System(copy_string(c)),
        }
    }
}

/// The abstract value of a list of entries.
pub open spec fn entries_view(v: Seq<ChatEntry>) -> Seq<EntryV> {
    v.map_values(|e: ChatEntry| e@)
}

/// Who a message is from.
#[derive(Debug, Clone, Copy, PartialEq, Eq, Structural)]
pub enum Role {
    System,
    User,
    Assistant,
    Tool,
}

/// A tool invocation requested by the model.
#[derive(Debug)]
pub struct ToolCall {
    pub id: String,
    pub name: String,
    pub arguments: String,
}

/// Abstract tool call: id, name, arguments.
pub type ToolCallV = (Seq<char>, Seq<char>, Seq<char>);

impl View for ToolCall {
    type V = ToolCallV;

    open spec fn view(&self) -> ToolCallV {
        (self.id@, self.name@, self.arguments@)
    }
}

/// A message of the conversation sent to the model.
#[derive(Debug)]
pub struct Message {
    pub role: Role,
    pub content: String,
    /// Tool calls of an assistant message.
    pub tool_calls: Vec<ToolCall>,
    /// For a tool message, the id of the call it answers.
    pub tool_call_id: Option<String>,
}

/// Abstract message.
pub struct MessageV {
    pub role: Role,
    pub content: Seq<char>,
    pub tool_calls: Seq<ToolCallV>,
    pub tool_call_id: Option<Seq<char>>,
}

impl View for Message {
    type V = MessageV;

    open spec fn view(&self) -> MessageV {
        MessageV {
            role: self.role,
            content: self.content@,
            tool_calls: self.tool_calls@.map_values(|t: ToolCall| t@),
            tool_call_id: match self.tool_call_id {
                Some(s) => Some(s@),
                None => None,
            },
        }
    }
}

/// The abstract value of a list of messages.
pub open spec fn messages_view(v: Seq<Message>) -> Seq<MessageV> {
    v.map_values(|m: Message| m@)
}

/// A user message with `content`.
pub open spec fn user_msg(content: Seq<char>) -> MessageV {
    MessageV { role: Role::User, content, tool_calls: Seq::empty(), tool_call_id: None }
}

/// An assistant message with `content` and no tool calls.
pub open spec fn assistant_msg(content: Seq<char>) -> MessageV {
    MessageV { role: Role::Assistant, content, tool_calls: Seq::empty(), tool_call_id: None }
}

/// The answer `content` to tool call `id`.
pub open spec fn tool_msg(id: Seq<char>, content: Seq<char>) -> MessageV {
    MessageV { role: Role::Tool, content, tool_calls: Seq::empty(), tool_call_id: Some(id) }
}

impl Message {
    /// A user message.
    pub fn user(content: String) -> (m: Message)
        ensures
            m@ == user_msg(content@),
    {
        let m = Message { role: Role::User, content, tool_calls: Vec::new(), tool_call_id: None };
        assert(m@.tool_calls =~= Seq::<ToolCallV>::empty());
        m
    }

    /// An assistant message without tool calls.
    pub fn assistant(content: String) -> (m: Message)
        ensures
            m@ == assistant_msg(content@),
    {
        let m = Message {
            role: Role::Assistant,
            content,
            tool_calls: Vec::new(),
            tool_call_id: None,
        };
        assert(m@.tool_calls =~= Seq::<ToolCallV>::empty());
        m
    }

    /// The result of tool call `id`.
    pub fn tool(id: String, content: String) -> (m: Message)
        ensures
            m@ == tool_msg(id@, content@),
    {
        let m = Message { role: Role::Tool, content, tool_calls: Vec::new(), tool_call_id: Some(id) };
        assert(m@.tool_calls =~= Seq::<ToolCallV>::empty());
        m
    }
}

} // verus!
