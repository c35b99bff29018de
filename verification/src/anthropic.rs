//! The Anthropic Messages API: the request body built from a [`ChatRequest`], and
//! the reading of its server-sent-event reply into [`StreamEvent`]s.
use vstd::prelude::*;
use serde_json::Value;
use std::collections::HashMap;
use crate::json::{json_empty, json_empty_object, json_parsed, json_value_of};
use crate::message::{
    EventView,
    ChatMessage, ChatRequest, MessageView, Role, StreamEvent, ToolCall, ToolDef, ToolDefView,
    opt_text,
};
use crate::text::{chars_of, occurs_at, slice_chars, string_of, texts};
use crate::tools::{line_views, lines_of, split_lines};

verus! {

broadcast use vstd::std_specs::hash::group_hash_axioms;

/// The `max_tokens` sent with every request.
pub const DEFAULT_MAX_TOKENS: u32 = 8096;

// ---------------------------------------------------------------------------
// Request body
// ---------------------------------------------------------------------------

/// The body of a `POST /v1/messages` request.
pub struct MessagesRequest {
    pub model: String,
    pub max_tokens: u32,
    pub system: Option<String>,
    pub messages: Vec<WireMessage>,
    /// Left out of the JSON body when empty.
    pub tools: Vec<WireTool>,
    pub stream: bool,
}

/// One message as the API takes it; `role` is `"user"` or `"assistant"`.
pub struct WireMessage {
    pub role: String,
    pub content: WireContent,
}

/// Message content: plain text, or a list of blocks (written untagged).
pub enum WireContent {
    Text(String),
    Blocks(Vec<ContentBlock>),
}

/// A content block, tagged by `type` in snake case.
#[derive(Debug, Clone)]
pub enum ContentBlock {
    Text { text: String },
    ToolUse { id: String, name: String, input: Value },
    ToolResult { tool_use_id: String, content: String },
}

/// A tool as the API takes it.
pub struct WireTool {
    pub name: String,
    pub description: String,
    pub input_schema: Value,
}

/// Why a message cannot be sent as one of the API's messages.
#[derive(Debug, Clone, Copy, PartialEq, Eq, Structural)]
pub enum WireError {
    /// System prompts travel in the request's `system` field, not as messages.
    SystemMessage,
}

impl WireError {
    /// The error's text.
    pub fn message(&self) -> (s: String)
        ensures
            s@ == "system メッセージは wire に変換できません"@,
    {
        String::from_str("system メッセージは wire に変換できません")
    }
}

/// The system prompt: the content of the first system message.
pub open spec fn first_system(ms: Seq<MessageView>) -> Option<Seq<char>>
    decreases ms.len(),
{
    if ms.len() == 0 {
        None
    } else if ms[0].role == Role::System {
        Some(ms[0].content)
    } else {
        first_system(ms.skip(1))
    }
}

/// The messages that are not system messages, in order.
pub open spec fn non_system(ms: Seq<MessageView>) -> Seq<MessageView> {
    ms.filter(|m: MessageView| m.role != Role::System)
}

pub open spec fn views(ms: Seq<ChatMessage>) -> Seq<MessageView> {
    ms.map_values(|m: ChatMessage| m@)
}

/// Splits off the system prompt: the content of the first system message, and
/// every other message that is not a system message, in order.
pub fn split_system(messages: &Vec<ChatMessage>) -> (r: (Option<String>, Vec<ChatMessage>))
    ensures
        opt_text(r.0) == first_system(views(messages@)),
        views(r.1@) == non_system(views(messages@)),
{
    let mut system: Option<String> = None;
    let mut rest: Vec<ChatMessage> = Vec::new();
    let mut i: usize = 0;
    assert(views(messages@).skip(0) =~= views(messages@));
    assert(views(messages@).take(0) =~= Seq::<MessageView>::empty());
    assert(views(rest@) =~= Seq::<MessageView>::empty());
    proof {
        reveal_with_fuel(vstd::seq::Seq::filter, 1);
    }
    while i < messages.len()
        invariant
            i <= messages.len(),
            first_system(views(messages@)) == match system {
                Some(s) => Some(s@),
                None => first_system(views(messages@).skip(i as int)),
            },
            views(rest@) == non_system(views(messages@).take(i as int)),
        decreases messages.len() - i,
    {
        let m = &messages[i];
        let ghost vs = views(messages@);
        assert(vs.take(i + 1) =~= vs.take(i as int).push(vs[i as int]));
        reveal_with_fuel(vstd::seq::Seq::filter, 1);
        assert(vs.take(i + 1).drop_last() =~= vs.take(i as int));
        assert(vs.skip(i as int).skip(1) =~= vs.skip(i + 1));
        if m.role == Role::System {
            if system.is_none() {
                system = Some(m.content.clone());
            }
        } else {
            let ghost before = rest@;
            rest.push(m.duplicate());
            assert(views(rest@) =~= views(before).push(m@));
        }
        i += 1;
    }
    assert(views(messages@).take(messages.len() as int) =~= views(messages@));
    (system, rest)
}

/// The API form of the content of `m`.
pub open spec fn wire_content_ok(c: WireContent, m: MessageView) -> bool {
    if m.role == Role::Tool {
        c matches WireContent::Blocks(bs) && bs@.len() == 1 && (bs@[0] matches ContentBlock::ToolResult {
            tool_use_id,
            content,
        } && tool_use_id@ == (match m.tool_call_id {
            Some(id) => id,
            None => Seq::empty(),
        }) && content@ == m.content)
    } else {
        c matches WireContent::Text(t) && t@ == m.content
    }
}

/// The API form of a message: user and tool messages are sent as `"user"` (a tool
/// message as one `tool_result` block answering its call), assistant messages as
/// `"assistant"`. A system message is refused.
pub fn to_wire_message(msg: &ChatMessage) -> (r: Result<WireMessage, WireError>)
    ensures
        msg@.role == Role::System <==> r is Err,
        r matches Ok(w) ==> {
            &&& w.role@ == (if msg@.role == Role::Assistant { "assistant"@ } else { "user"@ })
            &&& wire_content_ok(w.content, msg@)
        },
{
    let role = match msg.role {
        Role::User | Role::Tool => String::from_str("user"),
        Role::Assistant => String::from_str("assistant"),
        Role::System => return Err(WireError::SystemMessage),
    };
    let content = if msg.role == Role::Tool {
        let id = match &msg.tool_call_id {
            Some(id) => id.clone(),
            None => String::new(),
        };
        let block = ContentBlock::ToolResult { tool_use_id: id, content: msg.content.clone() };
        let blocks = vec![block];
        WireContent::Blocks(blocks)
    } else {
        WireContent::Text(msg.content.clone())
    };
    Ok(WireMessage { role, content })
}

/// The API form of a tool definition.
pub fn to_wire_tool(t: &ToolDef) -> (w: WireTool)
    ensures
        w.name@ == t@.name,
        w.description@ == t@.description,
        w.input_schema == t@.parameters,
{
    WireTool {
        name: t.function.name.clone(),
        description: t.function.description.clone(),
        input_schema: t.function.parameters.clone(),
    }
}

/// The streaming request body for `req`: the system prompt split off, every other
/// message in API form, every tool in API form.
pub fn messages_request(req: &ChatRequest) -> (body: MessagesRequest)
    ensures
        body.model@ == req.model@,
        body.max_tokens == DEFAULT_MAX_TOKENS,
        opt_text(body.system) == first_system(views(req.messages@)),
        body.stream,
        body.messages@.len() == non_system(views(req.messages@)).len(),
        forall|i: int| 0 <= i < body.messages@.len() ==> {
            let m = #[trigger] non_system(views(req.messages@))[i];
            &&& body.messages@[i].role@ == (if m.role == Role::Assistant { "assistant"@ } else { "user"@ })
            &&& wire_content_ok(body.messages@[i].content, m)
        },
        body.tools@.len() == req.tools@.len(),
        forall|i: int| 0 <= i < body.tools@.len() ==> {
            &&& (#[trigger] body.tools@[i]).name@ == req.tools@[i]@.name
            &&& body.tools@[i].description@ == req.tools@[i]@.description
            &&& body.tools@[i].input_schema == req.tools@[i]@.parameters
        },
{
    let (system, rest) = split_system(&req.messages);
    let mut messages: Vec<WireMessage> = Vec::new();
    let mut i: usize = 0;
    while i < rest.len()
        invariant
            i <= rest.len(),
            views(rest@) == non_system(views(req.messages@)),
            messages@.len() == i,
            forall|j: int| 0 <= j < i ==> {
                let m = #[trigger] views(rest@)[j];
                &&& messages@[j].role@ == (if m.role == Role::Assistant { "assistant"@ } else { "user"@ })
                &&& wire_content_ok(messages@[j].content, m)
            },
        decreases rest.len() - i,
    {
        proof {
            let vs = views(req.messages@);
            assert(views(rest@)[i as int] == rest@[i as int]@);
            vs.lemma_filter_pred(|m: MessageView| m.role != Role::System, i as int);
        }
        match to_wire_message(&rest[i]) {
            Ok(w) => {
                messages.push(w);
            },
            Err(_) => {
                // `rest` holds no system message.
                return MessagesRequest {
                    model: req.model.clone(),
                    max_tokens: DEFAULT_MAX_TOKENS,
                    system,
                    messages,
                    tools: Vec::new(),
                    stream: true,
                };
            },
        }
        i += 1;
    }
    let mut tools: Vec<WireTool> = Vec::new();
    let mut k: usize = 0;
    while k < req.tools.len()
        invariant
            k <= req.tools.len(),
            tools@.len() == k,
            forall|j: int| 0 <= j < k ==> {
                &&& (#[trigger] tools@[j]).name@ == req.tools@[j]@.name
                &&& tools@[j].description@ == req.tools@[j]@.description
                &&& tools@[j].input_schema == req.tools@[j]@.parameters
            },
        decreases req.tools.len() - k,
    {
        tools.push(to_wire_tool(&req.tools[k]));
        k += 1;
    }
    MessagesRequest { model: req.model.clone(), max_tokens: DEFAULT_MAX_TOKENS, system, messages, tools, stream: true }
}

} // verus!

verus! {

// ---------------------------------------------------------------------------
// Server-sent events
// ---------------------------------------------------------------------------

/// One event of the reply stream, tagged by `type` in snake case. Unknown types
/// read as `Unknown`.
#[derive(Debug)]
pub enum SseEvent {
    MessageStart { message: MessageMeta },
    ContentBlockStart { index: usize, content_block: ContentBlockMeta },
    ContentBlockDelta { index: usize, delta: Delta },
    ContentBlockStop { index: usize },
    MessageDelta { delta: MessageDeltaData },
    MessageStop,
    Unknown,
}

#[derive(Debug)]
pub struct MessageMeta {
    pub id: String,
}

/// How a content block starts.
#[derive(Debug, Clone)]
pub enum ContentBlockMeta {
    Text { text: String },
    ToolUse { id: String, name: String },
}

/// A piece of a content block.
#[derive(Debug)]
pub enum Delta {
    TextDelta { text: String },
    InputJsonDelta { partial_json: String },
}

#[derive(Debug)]
pub struct MessageDeltaData {
    pub stop_reason: Option<String>,
}

pub open spec fn data_prefix() -> Seq<char> {
    seq!['d', 'a', 't', 'a', ':', ' ']
}

pub open spec fn done_marker() -> Seq<char> {
    seq!['[', 'D', 'O', 'N', 'E', ']']
}

/// The JSON payload of an SSE line: what follows `data: `, unless it is the
/// `[DONE]` marker. Other lines carry none.
pub open spec fn sse_payload(line: Seq<char>) -> Option<Seq<char>> {
    if occurs_at(line, data_prefix(), 0) {
        let d = line.skip(6);
        if d == done_marker() {
            None
        } else {
            Some(d)
        }
    } else {
        None
    }
}

/// The JSON payload of one line of the reply, if it carries one.
pub fn sse_data(line: &str) -> (r: Option<String>)
    ensures
        opt_text(r) == sse_payload(line@),
{
    let s = chars_of(line);
    let prefix = vec!['d', 'a', 't', 'a', ':', ' '];
    assert(prefix@ =~= data_prefix());
    if !crate::text::occurs_at_exec(&s, &prefix, 0) {
        return None;
    }
    let len = s.len();
    let d = slice_chars(&s, 6, len);
    assert(d@ =~= line@.skip(6));
    let done = vec!['[', 'D', 'O', 'N', 'E', ']'];
    assert(done@ =~= done_marker());
    if d.len() == 6 && crate::text::occurs_at_exec(&d, &done, 0) {
        assert(d@ =~= done_marker());
        return None;
    }
    proof {
        if d@ == done_marker() {
            assert(d@.subrange(0, 6) =~= d@);
        }
    }
    Some(string_of(&d))
}

/// The payloads of the lines of a reply body, in order.
pub open spec fn payloads(lines: Seq<Seq<char>>) -> Seq<Seq<char>>
    decreases lines.len(),
{
    if lines.len() == 0 {
        Seq::empty()
    } else {
        let prev = payloads(lines.drop_last());
        match sse_payload(lines.last()) {
            Some(d) => prev.push(d),
            None => prev,
        }
    }
}

/// The JSON payloads of the lines of a reply body (as `str::lines` splits it),
/// in order; lines without one are passed over.
pub fn sse_payloads(body: &str) -> (r: Vec<String>)
    ensures
        texts(r@) == payloads(lines_of(body@)),
{
    let chars = chars_of(body);
    let lines = split_lines(&chars);
    let mut r: Vec<String> = Vec::new();
    let mut i: usize = 0;
    let ghost ls = line_views(lines@);
    while i < lines.len()
        invariant
            i <= lines@.len(),
            ls == line_views(lines@),
            ls == lines_of(body@),
            texts(r@) == payloads(ls.take(i as int)),
        decreases lines.len() - i,
    {
        let line = string_of(&lines[i]);
        assert(ls.take(i + 1).drop_last() =~= ls.take(i as int));
        assert(ls.take(i + 1).last() == line@);
        match sse_data(line.as_str()) {
            Some(d) => {
                let ghost before = texts(r@);
                r.push(d);
                assert(texts(r@) =~= before.push(d@));
            },
            None => {},
        }
        i += 1;
    }
    assert(ls.take(lines@.len() as int) =~= ls);
    r
}

/// A tool-use block being received: its id, its name, and its input JSON so far.
pub type ToolBuffer = (String, String, String);

/// The events read so far from a reply, and the tool-use blocks still open,
/// by block index.
pub struct SseCollector {
    tool_buffers: HashMap<usize, ToolBuffer>,
    events: Vec<StreamEvent>,
}

/// The arguments of a finished tool-use block whose input JSON is `json`: that
/// JSON read as a value, an empty object when it does not read.
pub open spec fn block_arguments(json: Seq<char>) -> Value {
    match json_parsed(json) {
        Some(v) => v,
        None => json_empty(),
    }
}

/// `e` is a tool-call event for the single call `id`/`name` with the arguments
/// read from `json`.
pub open spec fn is_call_event(e: EventView, id: Seq<char>, name: Seq<char>, json: Seq<char>) -> bool {
    e matches EventView::ToolCalls(calls) && calls.len() == 1 && calls[0].id == id && calls[0].name == name
        && calls[0].arguments == block_arguments(json)
}

impl SseCollector {
    pub closed spec fn buffers(&self) -> Map<usize, ToolBuffer> {
        self.tool_buffers@
    }

    pub closed spec fn events_so_far(&self) -> Seq<EventView> {
        crate::message::events_view(self.events@)
    }

    pub fn new() -> (c: SseCollector)
        ensures
            c.buffers() == Map::<usize, ToolBuffer>::empty(),
            c.events_so_far() == Seq::<EventView>::empty(),
    {
        let c = SseCollector { tool_buffers: HashMap::new(), events: Vec::new() };
        assert(crate::message::events_view(c.events@) =~= Seq::empty());
        c
    }

    /// Takes one event: text deltas become text events, a tool-use block is
    /// collected from its start to its stop and then becomes one tool-call event
    /// (its input read as JSON, an empty object when it does not read), and the
    /// end of the message becomes `Done`. Everything else is ignored.
    pub fn feed(&mut self, ev: SseEvent)
        ensures
            match ev {
                SseEvent::ContentBlockStart { index, content_block } => match content_block {
                    ContentBlockMeta::ToolUse { id, name } => {
                        &&& final(self).buffers() == old(self).buffers().insert(
                            index,
                            final(self).buffers()[index],
                        )
                        &&& final(self).buffers()[index].0@ == id@
                        &&& final(self).buffers()[index].1@ == name@
                        &&& final(self).buffers()[index].2@ == Seq::<char>::empty()
                        &&& final(self).events_so_far() == old(self).events_so_far()
                    },
                    ContentBlockMeta::Text { .. } => final(self).buffers() == old(self).buffers()
                        && final(self).events_so_far() == old(self).events_so_far(),
                },
                SseEvent::ContentBlockDelta { index, delta } => match delta {
                    Delta::TextDelta { text } => {
                        &&& final(self).buffers() == old(self).buffers()
                        &&& final(self).events_so_far() == old(self).events_so_far().push(
                            EventView::Text(text@),
                        )
                    },
                    Delta::InputJsonDelta { partial_json } => {
                        &&& final(self).events_so_far() == old(self).events_so_far()
                        &&& if old(self).buffers().contains_key(index) {
                            let b = old(self).buffers()[index];
                            let nb = final(self).buffers()[index];
                            &&& final(self).buffers() == old(self).buffers().insert(index, nb)
                            &&& nb.0@ == b.0@
                            &&& nb.1@ == b.1@
                            &&& nb.2@ == b.2@ + partial_json@
                        } else {
                            final(self).buffers() == old(self).buffers()
                        }
                    },
                },
                SseEvent::ContentBlockStop { index } => if old(self).buffers().contains_key(index) {
                    let b = old(self).buffers()[index];
                    &&& final(self).buffers() == old(self).buffers().remove(index)
                    &&& final(self).events_so_far().len() == old(self).events_so_far().len() + 1
                    &&& final(self).events_so_far().drop_last() == old(self).events_so_far()
                    &&& is_call_event(final(self).events_so_far().last(), b.0@, b.1@, b.2@)
                } else {
                    final(self).buffers() == old(self).buffers()
                        && final(self).events_so_far() == old(self).events_so_far()
                },
                SseEvent::MessageStop => {
                    &&& final(self).buffers() == old(self).buffers()
                    &&& final(self).events_so_far() == old(self).events_so_far().push(EventView::Done)
                },
                _ => final(self).buffers() == old(self).buffers()
                    && final(self).events_so_far() == old(self).events_so_far(),
            },
    {
        let ghost old_events = self.events@;
        match ev {
            SseEvent::ContentBlockStart { index, content_block } => {
                if let ContentBlockMeta::ToolUse { id, name } = content_block {
                    self.tool_buffers.insert(index, (id, name, String::new()));
                }
            },
            SseEvent::ContentBlockDelta { index, delta } => match delta {
                Delta::TextDelta { text } => {
                    self.events.push(StreamEvent::Text(text));
                    assert(crate::message::events_view(self.events@) =~= crate::message::events_view(
                        old_events,
                    ).push(EventView::Text(text@)));
                },
                Delta::InputJsonDelta { partial_json } => {
                    if let Some(buf) = self.tool_buffers.remove(&index) {
                        let (id, name, json) = buf;
                        let mut json = json;
                        json.append(partial_json.as_str());
                        self.tool_buffers.insert(index, (id, name, json));
                        assert(self.tool_buffers@ =~= old(self).tool_buffers@.insert(index, self.tool_buffers@[index]));
                    }
                },
            },
            SseEvent::ContentBlockStop { index } => {
                if let Some(buf) = self.tool_buffers.remove(&index) {
                    let (id, name, json) = buf;
                    let arguments = match json_value_of(json.as_str()) {
                        Some(v) => v,
                        None => json_empty_object(),
                    };
                    let call = ToolCall { id, name, arguments };
                    let calls = vec![call];
                    self.events.push(StreamEvent::ToolCalls(calls));
                    assert(crate::message::events_view(self.events@).drop_last() =~= crate::message::events_view(
                        old_events,
                    ));
                }
            },
            SseEvent::MessageStop => {
                self.events.push(StreamEvent::Done);
                assert(crate::message::events_view(self.events@) =~= crate::message::events_view(
                    old_events,
                ).push(EventView::Done));
            },
            _ => {},
        }
    }

    /// The events read so far, in order.
    pub fn into_events(self) -> (es: Vec<StreamEvent>)
        ensures
            crate::message::events_view(es@) == self.events_so_far(),
    {
        self.events
    }
}

} // verus!
