//! Conversation messages, tool definitions and the request/stream types shared by all providers.
use vstd::prelude::*;
use serde_json::Value;

verus! {

/// Who speaks a message.
#[derive(Clone, Copy, Debug, PartialEq, Eq, Structural)]
pub enum Role {
    System,
    User,
    Assistant,
    Tool,
}

/// One tool invocation requested by the model.
#[derive(Clone, Debug)]
pub struct ToolCall {
    pub id: String,
    pub name: String,
    pub arguments: Value,
}

/// The abstract content of a [`ToolCall`].
pub struct ToolCallView {
    pub id: Seq<char>,
    pub name: Seq<char>,
    pub arguments: Value,
}

impl View for ToolCall {
    type V = ToolCallView;

    open spec fn view(&self) -> ToolCallView {
        ToolCallView { id: self.id@, name: self.name@, arguments: self.arguments }
    }
}

impl ToolCall {
    /// A copy of this call.
    pub fn duplicate(&self) -> (r: ToolCall)
        ensures
            r@ == self@,
    {
        ToolCall { id: self.id.clone(), name: self.name.clone(), arguments: self.arguments.clone() }
    }
}

/// A copy of every call in `calls`, in order.
pub fn duplicate_calls(calls: &Vec<ToolCall>) -> (r: Vec<ToolCall>)
    ensures
        r@.len() == calls@.len(),
        forall|i: int| 0 <= i < calls@.len() ==> #[trigger] r@[i]@ == calls@[i]@,
{
    let mut r: Vec<ToolCall> = Vec::new();
    let mut i: usize = 0;
    while i < calls.len()
        invariant
            i <= calls.len(),
            r@.len() == i,
            forall|j: int| 0 <= j < i ==> #[trigger] r@[j]@ == calls@[j]@,
        decreases calls.len() - i,
    {
        r.push(calls[i].duplicate());
        i += 1;
    }
    r
}

/// The name, description and parameter schema of a tool.
#[derive(Clone, Debug)]
pub struct ToolSpec {
    pub name: String,
    pub description: String,
    pub parameters: Value,
}

/// A tool as offered to a model: a kind (always `"function"` here) and its spec.
#[derive(Clone, Debug)]
pub struct ToolDef {
    pub kind: String,
    pub function: ToolSpec,
}

/// The abstract content of a [`ToolDef`].
pub struct ToolDefView {
    pub kind: Seq<char>,
    pub name: Seq<char>,
    pub description: Seq<char>,
    pub parameters: Value,
}

impl View for ToolDef {
    type V = ToolDefView;

    open spec fn view(&self) -> ToolDefView {
        ToolDefView {
            kind: self.kind@,
            name: self.function.name@,
            description: self.function.description@,
            parameters: self.function.parameters,
        }
    }
}

impl ToolDef {
    /// A copy of this definition.
    pub fn duplicate(&self) -> (r: ToolDef)
        ensures
            r@ == self@,
    {
        ToolDef {
            kind: self.kind.clone(),
            function: ToolSpec {
                name: self.function.name.clone(),
                description: self.function.description.clone(),
                parameters: self.function.parameters.clone(),
            },
        }
    }
}

/// A copy of every definition in `defs`, in order.
pub fn duplicate_defs(defs: &Vec<ToolDef>) -> (r: Vec<ToolDef>)
    ensures
        r@.len() == defs@.len(),
        forall|i: int| 0 <= i < defs@.len() ==> #[trigger] r@[i]@ == defs@[i]@,
{
    let mut r: Vec<ToolDef> = Vec::new();
    let mut i: usize = 0;
    while i < defs.len()
        invariant
            i <= defs.len(),
            r@.len() == i,
            forall|j: int| 0 <= j < i ==> #[trigger] r@[j]@ == defs@[j]@,
        decreases defs.len() - i,
    {
        r.push(defs[i].duplicate());
        i += 1;
    }
    r
}

/// One message of a conversation.
#[derive(Clone, Debug)]
pub struct ChatMessage {
    pub role: Role,
    pub content: String,
    /// For a tool result: the id of the call it answers.
    pub tool_call_id: Option<String>,
    /// For an assistant message that requested tools: the calls.
    pub tool_calls: Option<Vec<ToolCall>>,
}

/// The abstract content of a [`ChatMessage`].
pub struct MessageView {
    pub role: Role,
    pub content: Seq<char>,
    pub tool_call_id: Option<Seq<char>>,
    pub tool_calls: Option<Seq<ToolCallView>>,
}

pub open spec fn opt_text(s: Option<String>) -> Option<Seq<char>> {
    match s {
        Some(t) => Some(t@),
        None => None,
    }
}

pub open spec fn calls_view(calls: Seq<ToolCall>) -> Seq<ToolCallView> {
    calls.map_values(|c: ToolCall| c@)
}

impl View for ChatMessage {
    type V = MessageView;

    open spec fn view(&self) -> MessageView {
        MessageView {
            role: self.role,
            content: self.content@,
            tool_call_id: opt_text(self.tool_call_id),
            tool_calls: match self.tool_calls {
                Some(calls) => Some(calls_view(calls@)),
                None => None,
            },
        }
    }
}

/// A message with the given role and text and nothing else.
pub open spec fn plain_message(role: Role, content: Seq<char>) -> MessageView {
    MessageView { role, content, tool_call_id: None, tool_calls: None }
}

/// A copy of an optional text.
pub fn copy_opt_text(s: &Option<String>) -> (r: Option<String>)
    ensures
        opt_text(r) == opt_text(*s),
{
    match s {
        Some(t) => Some(t.clone()),
        None => None,
    }
}

impl ChatMessage {
    pub fn system(content: &str) -> (m: ChatMessage)
        ensures
            m@ == plain_message(Role::System, content@),
    {
        ChatMessage { role: Role::System, content: content.to_string(), tool_call_id: None, tool_calls: None }
    }

    pub fn user(content: &str) -> (m: ChatMessage)
        ensures
            m@ == plain_message(Role::User, content@),
    {
        ChatMessage { role: Role::User, content: content.to_string(), tool_call_id: None, tool_calls: None }
    }

    pub fn assistant(content: &str) -> (m: ChatMessage)
        ensures
            m@ == plain_message(Role::Assistant, content@),
    {
        ChatMessage { role: Role::Assistant, content: content.to_string(), tool_call_id: None, tool_calls: None }
    }

    /// An assistant message that carries the tool calls it made.
    pub fn assistant_with_calls(content: &str, calls: Vec<ToolCall>) -> (m: ChatMessage)
        ensures
            m@ == (MessageView {
                role: Role::Assistant,
                content: content@,
                tool_call_id: None,
                tool_calls: Some(calls_view(calls@)),
            }),
    {
        ChatMessage { role: Role::Assistant, content: content.to_string(), tool_call_id: None, tool_calls: Some(calls) }
    }

    /// The result of the call `call_id`.
    pub fn tool_result(call_id: &str, content: &str) -> (m: ChatMessage)
        ensures
            m@ == (MessageView {
                role: Role::Tool,
                content: content@,
                tool_call_id: Some(call_id@),
                tool_calls: None,
            }),
    {
        ChatMessage {
            role: Role::Tool,
            content: content.to_string(),
            tool_call_id: Some(call_id.to_string()),
            tool_calls: None,
        }
    }

    /// A copy of this message.
    pub fn duplicate(&self) -> (r: ChatMessage)
        ensures
            r@ == self@,
    {
        let tool_calls = match &self.tool_calls {
            Some(calls) => {
                let c = duplicate_calls(calls);
                assert(calls_view(c@) =~= calls_view(calls@));
                Some(c)
            },
            None => None,
        };
        ChatMessage {
            role: self.role,
            content: self.content.clone(),
            tool_call_id: copy_opt_text(&self.tool_call_id),
            tool_calls,
        }
    }
}

} // verus!

verus! {

/// What the agent loop hands a provider for one round.
pub struct ChatRequest {
    pub model: String,
    pub messages: Vec<ChatMessage>,
    pub tools: Vec<ToolDef>,
}

/// One event of a provider's reply stream.
#[derive(Debug)]
pub enum StreamEvent {
    Text(String),
    ToolCalls(Vec<ToolCall>),
    Done,
}

} // verus!

verus! {

/// The abstract content of a [`StreamEvent`].
pub enum EventView {
    Text(Seq<char>),
    ToolCalls(Seq<ToolCallView>),
    Done,
}

pub open spec fn event_view(e: StreamEvent) -> EventView {
    match e {
        StreamEvent::Text(t) => EventView::Text(t@),
        StreamEvent::ToolCalls(calls) => EventView::ToolCalls(calls_view(calls@)),
        StreamEvent::Done => EventView::Done,
    }
}

pub open spec fn events_view(es: Seq<StreamEvent>) -> Seq<EventView> {
    es.map_values(|e: StreamEvent| event_view(e))
}

} // verus!
