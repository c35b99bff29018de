//! Ollama: which models need XML mode or the OpenAI-compatible endpoint, the
//! request bodies for `/api/chat` and `/v1/chat/completions`, and the reading of
//! one `/api/chat` stream chunk.
use vstd::prelude::*;
use serde_json::Value;
use crate::message::{
    ChatMessage, ChatRequest, EventView, MessageView, Role, StreamEvent, ToolCall, ToolCallView,
    ToolDef, calls_view, event_view, opt_text, copy_opt_text,
};
use crate::json::{json_array_of, json_elements, json_str_at, json_str_under, json_value_at, json_value_under};
use crate::text::{chars_of, occurs_at, occurs_at_exec, push_decimal, string_of, decimal};

verus! {

// ---------------------------------------------------------------------------
// Model families
// ---------------------------------------------------------------------------

/// Model name prefixes whose models read tool definitions from the system prompt.
pub open spec fn xml_mode_prefixes() -> Seq<Seq<char>> {
    seq!["gemma3"@, "phi4"@, "codestral"@, "devstral"@, "deepseek"@]
}

/// Model name prefixes served through the OpenAI-compatible endpoint.
pub open spec fn compat_mode_prefixes() -> Seq<Seq<char>> {
    seq!["codestral"@, "mistral-nemo"@, "deepseek"@]
}

/// `name` starts with one of `prefixes`.
pub open spec fn has_prefix_in(name: Seq<char>, prefixes: Seq<Seq<char>>) -> bool {
    exists|i: int| 0 <= i < prefixes.len() && occurs_at(name, #[trigger] prefixes[i], 0)
}

fn starts_with_any(name: &str, prefixes: &Vec<&str>) -> (r: bool)
    ensures
        r == has_prefix_in(name@, prefixes@.map_values(|p: &str| p@)),
{
    let s = chars_of(name);
    let ghost ps = prefixes@.map_values(|p: &str| p@);
    let mut i: usize = 0;
    while i < prefixes.len()
        invariant
            i <= prefixes.len(),
            s@ == name@,
            ps == prefixes@.map_values(|p: &str| p@),
            forall|j: int| 0 <= j < i ==> !occurs_at(name@, #[trigger] ps[j], 0),
        decreases prefixes.len() - i,
    {
        let p = chars_of(prefixes[i]);
        if occurs_at_exec(&s, &p, 0) {
            assert(occurs_at(name@, ps[i as int], 0));
            return true;
        }
        i += 1;
    }
    false
}

/// Whether `model` runs in XML mode: its name starts with one of
/// `gemma3`, `phi4`, `codestral`, `devstral`, `deepseek`.
pub fn is_xml_mode_model(model: &str) -> (r: bool)
    ensures
        r == has_prefix_in(model@, xml_mode_prefixes()),
{
    let prefixes = vec!["gemma3", "phi4", "codestral", "devstral", "deepseek"];
    let r = starts_with_any(model, &prefixes);
    assert(prefixes@.map_values(|p: &str| p@) =~= xml_mode_prefixes());
    r
}

/// Whether `model` is served through `/v1/chat/completions`: its name starts with
/// one of `codestral`, `mistral-nemo`, `deepseek`.
pub fn is_compat_model(model: &str) -> (r: bool)
    ensures
        r == has_prefix_in(model@, compat_mode_prefixes()),
{
    let prefixes = vec!["codestral", "mistral-nemo", "deepseek"];
    let r = starts_with_any(model, &prefixes);
    assert(prefixes@.map_values(|p: &str| p@) =~= compat_mode_prefixes());
    r
}

// ---------------------------------------------------------------------------
// `/api/chat` request body
// ---------------------------------------------------------------------------

/// The body of a streaming `/api/chat` request.
pub struct OllamaRequest {
    pub model: String,
    pub messages: Vec<WireMessage>,
    pub stream: bool,
    /// Left out of the JSON body when `None`.
    pub tools: Option<Vec<WireToolDef>>,
}

/// One message as `/api/chat` takes it.
pub struct WireMessage {
    pub role: String,
    pub content: String,
    pub tool_call_id: Option<String>,
    pub tool_calls: Option<Vec<WireOutgoingToolCall>>,
}

/// A tool call as `/api/chat` expects it inside an assistant message.
pub struct WireOutgoingToolCall {
    pub function: WireOutgoingFunction,
}

pub struct WireOutgoingFunction {
    pub name: String,
    pub arguments: Value,
}

/// A tool definition as `/api/chat` takes it (`kind` is written as `type`).
pub struct WireToolDef {
    pub kind: String,
    pub function: WireToolSpec,
}

pub struct WireToolSpec {
    pub name: String,
    pub description: String,
    pub parameters: Value,
}

/// The API name of a role.
pub open spec fn role_name(r: Role) -> Seq<char> {
    match r {
        Role::System => "system"@,
        Role::User => "user"@,
        Role::Assistant => "assistant"@,
        Role::Tool => "tool"@,
    }
}

fn role_text(r: Role) -> (s: String)
    ensures
        s@ == role_name(r),
{
    match r {
        Role::System => String::from_str("system"),
        Role::User => String::from_str("user"),
        Role::Assistant => String::from_str("assistant"),
        Role::Tool => String::from_str("tool"),
    }
}

/// The calls a wire message carries are those of the message: none when it has
/// none, else each call's name and arguments, in order.
pub open spec fn calls_sent(w: Option<Vec<WireOutgoingToolCall>>, m: Option<Vec<ToolCall>>) -> bool {
    match (w, m) {
        (None, None) => true,
        (Some(ws), Some(calls)) => {
            &&& ws@.len() == calls@.len()
            &&& forall|i: int|
                0 <= i < calls@.len() ==> {
                    &&& (#[trigger] ws@[i]).function.name@ == calls@[i].name@
                    &&& ws@[i].function.arguments == calls@[i].arguments
                }
        },
        _ => false,
    }
}

impl WireMessage {
    /// The `/api/chat` form of `m`: its role by name, its content, the call it
    /// answers, and the calls it made (name and arguments of each).
    pub fn from_common(m: &ChatMessage) -> (w: WireMessage)
        ensures
            w.role@ == role_name(m.role),
            w.content@ == m.content@,
            opt_text(w.tool_call_id) == opt_text(m.tool_call_id),
            calls_sent(w.tool_calls, m.tool_calls),
    {
        let tool_calls = match &m.tool_calls {
            Some(calls) => {
                let mut ws: Vec<WireOutgoingToolCall> = Vec::new();
                let mut i: usize = 0;
                while i < calls.len()
                    invariant
                        i <= calls.len(),
                        ws@.len() == i,
                        forall|j: int| 0 <= j < i ==> {
                            &&& (#[trigger] ws@[j]).function.name@ == calls@[j].name@
                            &&& ws@[j].function.arguments == calls@[j].arguments
                        },
                    decreases calls.len() - i,
                {
                    ws.push(WireOutgoingToolCall {
                        function: WireOutgoingFunction {
                            name: calls[i].name.clone(),
                            arguments: calls[i].arguments.clone(),
                        },
                    });
                    i += 1;
                }
                Some(ws)
            },
            None => None,
        };
        WireMessage {
            role: role_text(m.role),
            content: m.content.clone(),
            tool_call_id: copy_opt_text(&m.tool_call_id),
            tool_calls,
        }
    }
}

impl WireToolDef {
    pub fn from_common(t: &ToolDef) -> (w: WireToolDef)
        ensures
            w.kind@ == t@.kind,
            w.function.name@ == t@.name,
            w.function.description@ == t@.description,
            w.function.parameters == t@.parameters,
    {
        WireToolDef {
            kind: t.kind.clone(),
            function: WireToolSpec {
                name: t.function.name.clone(),
                description: t.function.description.clone(),
                parameters: t.function.parameters.clone(),
            },
        }
    }
}

/// The `/api/chat` body for `req`: streaming, every message in wire form, and the
/// tools, except in XML mode or when there are none.
pub fn chat_request(req: &ChatRequest, xml_mode: bool) -> (body: OllamaRequest)
    ensures
        body.model@ == req.model@,
        body.stream,
        body.messages@.len() == req.messages@.len(),
        forall|i: int| 0 <= i < req.messages@.len() ==> {
            &&& (#[trigger] body.messages@[i]).role@ == role_name(req.messages@[i].role)
            &&& body.messages@[i].content@ == req.messages@[i].content@
            &&& opt_text(body.messages@[i].tool_call_id) == opt_text(req.messages@[i].tool_call_id)
            &&& calls_sent(body.messages@[i].tool_calls, req.messages@[i].tool_calls)
        },
        (xml_mode || req.tools@.len() == 0) <==> body.tools is None,
        body.tools matches Some(ts) ==> ts@.len() == req.tools@.len()
            && forall|i: int| 0 <= i < ts@.len() ==> {
                &&& (#[trigger] ts@[i]).kind@ == req.tools@[i]@.kind
                &&& ts@[i].function.name@ == req.tools@[i]@.name
                &&& ts@[i].function.description@ == req.tools@[i]@.description
                &&& ts@[i].function.parameters == req.tools@[i]@.parameters
            },
{
    let tools = if xml_mode || req.tools.len() == 0 {
        None
    } else {
        let mut ts: Vec<WireToolDef> = Vec::new();
        let mut i: usize = 0;
        while i < req.tools.len()
            invariant
                i <= req.tools.len(),
                ts@.len() == i,
                forall|j: int| 0 <= j < i ==> {
                    &&& (#[trigger] ts@[j]).kind@ == req.tools@[j]@.kind
                    &&& ts@[j].function.name@ == req.tools@[j]@.name
                    &&& ts@[j].function.description@ == req.tools@[j]@.description
                    &&& ts@[j].function.parameters == req.tools@[j]@.parameters
                },
            decreases req.tools.len() - i,
        {
            ts.push(WireToolDef::from_common(&req.tools[i]));
            i += 1;
        }
        Some(ts)
    };
    let mut messages: Vec<WireMessage> = Vec::new();
    let mut k: usize = 0;
    while k < req.messages.len()
        invariant
            k <= req.messages.len(),
            messages@.len() == k,
            forall|i: int| 0 <= i < k ==> {
                &&& (#[trigger] messages@[i]).role@ == role_name(req.messages@[i].role)
                &&& messages@[i].content@ == req.messages@[i].content@
                &&& opt_text(messages@[i].tool_call_id) == opt_text(req.messages@[i].tool_call_id)
                &&& calls_sent(messages@[i].tool_calls, req.messages@[i].tool_calls)
            },
        decreases req.messages.len() - k,
    {
        messages.push(WireMessage::from_common(&req.messages[k]));
        k += 1;
    }
    OllamaRequest { model: req.model.clone(), messages, stream: true, tools }
}

// ---------------------------------------------------------------------------
// One `/api/chat` stream chunk
// ---------------------------------------------------------------------------

/// One chunk of the `/api/chat` reply stream.
#[derive(Debug)]
pub struct ChatResponse {
    pub message: MessageDelta,
    pub done: bool,
}

#[derive(Debug)]
pub struct MessageDelta {
    pub content: Option<String>,
    pub tool_calls: Option<Vec<WireToolCall>>,
}

#[derive(Debug)]
pub struct WireToolCall {
    pub function: WireFunction,
}

#[derive(Debug)]
pub struct WireFunction {
    pub name: String,
    pub arguments: Value,
}

/// The id the loop gives the `i`-th call (from zero) of one chunk.
pub open spec fn chunk_call_id(i: nat) -> Seq<char> {
    seq!['c', 'a', 'l', 'l', '_'] + decimal(i)
}

/// The calls of one chunk, numbered `call_0`, `call_1`, ... in order.
pub fn wire_calls_to_common(calls: Vec<WireToolCall>) -> (r: Vec<ToolCall>)
    ensures
        r@.len() == calls@.len(),
        forall|i: int| 0 <= i < calls@.len() ==> {
            &&& (#[trigger] r@[i]).id@ == chunk_call_id(i as nat)
            &&& r@[i].name@ == calls@[i].function.name@
            &&& r@[i].arguments == calls@[i].function.arguments
        },
{
    let mut r: Vec<ToolCall> = Vec::new();
    let mut i: usize = 0;
    while i < calls.len()
        invariant
            i <= calls.len(),
            r@.len() == i,
            forall|j: int| 0 <= j < i ==> {
                &&& (#[trigger] r@[j]).id@ == chunk_call_id(j as nat)
                &&& r@[j].name@ == calls@[j].function.name@
                &&& r@[j].arguments == calls@[j].function.arguments
            },
        decreases calls.len() - i,
    {
        let mut id: Vec<char> = vec!['c', 'a', 'l', 'l', '_'];
        assert(id@ =~= seq!['c', 'a', 'l', 'l', '_']);
        push_decimal(&mut id, i);
        r.push(ToolCall {
            id: string_of(&id),
            name: calls[i].function.name.clone(),
            arguments: calls[i].function.arguments.clone(),
        });
        i += 1;
    }
    r
}

/// The event one chunk stands for: its tool calls when it carries any (checked
/// before `done`, since the final chunk may carry calls), else `Done` when it
/// ends the reply, else its text (empty when it has none).
pub fn chunk_event(resp: ChatResponse) -> (e: StreamEvent)
    ensures
        match resp.message.tool_calls {
            Some(calls) if calls@.len() > 0 => e matches StreamEvent::ToolCalls(cs)
                && cs@.len() == calls@.len()
                && forall|i: int| 0 <= i < calls@.len() ==> {
                    &&& (#[trigger] cs@[i]).id@ == chunk_call_id(i as nat)
                    &&& cs@[i].name@ == calls@[i].function.name@
                    &&& cs@[i].arguments == calls@[i].function.arguments
                },
            _ => if resp.done {
                e is Done
            } else {
                e matches StreamEvent::Text(t) && t@ == (match resp.message.content {
                    Some(c) => c@,
                    None => Seq::empty(),
                })
            },
        },
{
    let ChatResponse { message, done } = resp;
    let MessageDelta { content, tool_calls } = message;
    if let Some(calls) = tool_calls {
        if calls.len() > 0 {
            return StreamEvent::ToolCalls(wire_calls_to_common(calls));
        }
    }
    if done {
        return StreamEvent::Done;
    }
    match content {
        Some(c) => StreamEvent::Text(c),
        None => StreamEvent::Text(String::new()),
    }
}

// ---------------------------------------------------------------------------
// The OpenAI-compatible endpoint
// ---------------------------------------------------------------------------

/// The body of a non-streaming `/v1/chat/completions` request.
pub struct OaiRequest {
    pub model: String,
    pub messages: Vec<OaiMessage>,
    pub stream: bool,
}

pub struct OaiMessage {
    pub role: String,
    pub content: String,
}

/// The role name this endpoint is sent: tool results go as `user`.
pub open spec fn compat_role_name(r: Role) -> Seq<char> {
    match r {
        Role::Tool => "user"@,
        _ => role_name(r),
    }
}

/// The `/v1/chat/completions` body for `req`: not streaming, every message's role
/// and content, no tools.
pub fn compat_request(req: &ChatRequest) -> (body: OaiRequest)
    ensures
        body.model@ == req.model@,
        !body.stream,
        body.messages@.len() == req.messages@.len(),
        forall|i: int| 0 <= i < req.messages@.len() ==> {
            &&& (#[trigger] body.messages@[i]).role@ == compat_role_name(req.messages@[i].role)
            &&& body.messages@[i].content@ == req.messages@[i].content@
        },
{
    let mut messages: Vec<OaiMessage> = Vec::new();
    let mut k: usize = 0;
    while k < req.messages.len()
        invariant
            k <= req.messages.len(),
            messages@.len() == k,
            forall|i: int| 0 <= i < k ==> {
                &&& (#[trigger] messages@[i]).role@ == compat_role_name(req.messages@[i].role)
                &&& messages@[i].content@ == req.messages@[i].content@
            },
        decreases req.messages.len() - k,
    {
        let m = &req.messages[k];
        let role = match m.role {
            Role::Tool => String::from_str("user"),
            _ => role_text(m.role),
        };
        messages.push(OaiMessage { role, content: m.content.clone() });
        k += 1;
    }
    OaiRequest { model: req.model.clone(), messages, stream: false }
}

/// The reply of the compatible endpoint as stream events: the first choice's
/// content (empty when there is no choice), then `Done`.
pub fn compat_events(first_choice: Option<String>) -> (es: Vec<StreamEvent>)
    ensures
        es@.len() == 2,
        event_view(es@[0]) == EventView::Text(match first_choice {
            Some(c) => c@,
            None => Seq::empty(),
        }),
        event_view(es@[1]) == EventView::Done,
{
    let content = match first_choice {
        Some(c) => c,
        None => String::new(),
    };
    vec![StreamEvent::Text(content), StreamEvent::Done]
}

} // verus!

verus! {

/// The `name` of each entry that has one, in order.
pub open spec fn entry_names(es: Seq<Value>) -> Seq<Seq<char>>
    decreases es.len(),
{
    if es.len() == 0 {
        Seq::empty()
    } else {
        let prev = entry_names(es.drop_last());
        match json_str_under(es.last(), "name"@) {
            Some(n) => prev.push(n),
            None => prev,
        }
    }
}

/// The entries of an `/api/tags` reply: the list `models`, none where there is
/// no such list.
pub open spec fn tag_entries(reply: Value) -> Seq<Value> {
    match json_elements(json_value_under(reply, "models"@)) {
        Some(es) => es,
        None => Seq::empty(),
    }
}

/// The names of the models that an `/api/tags` reply lists, in order.
pub fn listed_models(reply: &Value) -> (names: Vec<String>)
    ensures
        crate::text::texts(names@) == entry_names(tag_entries(*reply)),
{
    let models = json_value_at(reply, "models");
    let entries = match json_array_of(&models) {
        Some(es) => es,
        None => Vec::new(),
    };
    let mut names: Vec<String> = Vec::new();
    let mut i: usize = 0;
    while i < entries.len()
        invariant
            entries@ == tag_entries(*reply),
            i <= entries@.len(),
            crate::text::texts(names@) == entry_names(entries@.take(i as int)),
        decreases entries.len() - i,
    {
        assert(entries@.take(i + 1).drop_last() =~= entries@.take(i as int));
        assert(entries@.take(i + 1).last() == entries@[i as int]);
        let ghost before = names@;
        match json_str_at(&entries[i], "name") {
            Some(n) => {
                let ghost nv = n@;
                names.push(n);
                assert(crate::text::texts(names@) =~= crate::text::texts(before).push(nv));
            },
            None => {},
        }
        i += 1;
    }
    assert(entries@.take(entries@.len() as int) =~= entries@);
    names
}

} // verus!

verus! {

/// Each role travels under its own name: distinct roles get distinct wire
/// names, a message is sent as `"assistant"` exactly when the model wrote it and
/// as `"user"` exactly when the user did; on the completions endpoint, which has
/// no tool role, tool results go as `"user"` and the other roles keep their
/// names.
pub proof fn lemma_roles_keep_their_names(r: Role, q: Role)
    ensures
        role_name(r) == role_name(q) ==> r == q,
        role_name(r) == "assistant"@ <==> r == Role::Assistant,
        role_name(r) == "user"@ <==> r == Role::User,
        role_name(r) == "system"@ <==> r == Role::System,
        role_name(r) == "tool"@ <==> r == Role::Tool,
        compat_role_name(r) == "assistant"@ <==> r == Role::Assistant,
        compat_role_name(r) == "system"@ <==> r == Role::System,
        compat_role_name(r) == "user"@ <==> (r == Role::User || r == Role::Tool),
{
    reveal_strlit("system");
    reveal_strlit("user");
    reveal_strlit("assistant");
    reveal_strlit("tool");
    assert("system"@.len() == 6 && "user"@.len() == 4 && "assistant"@.len() == 9 && "tool"@.len() == 4);
    assert("user"@[0] != "tool"@[0]);
}

} // verus!
