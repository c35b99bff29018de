//! The decisions of one agent turn, as a state machine. The caller performs the
//! outside work (streaming from a provider, running tools, showing text) and hands
//! back what happened; this module decides what comes next and keeps the history.
use vstd::prelude::*;
use serde_json::Value;
use crate::history::{History, HistoryView, built_messages, messages_view};
use crate::message::{
    ChatMessage, ChatRequest, MessageView, Role, StreamEvent, ToolCall, ToolCallView, ToolDef,
    ToolDefView, calls_view, duplicate_calls, duplicate_defs, plain_message,
};
use crate::text::{decimal, push_decimal, string_of, trim_text, trimmed};
use crate::tool::ToolResult;
use crate::toolcall::{
    args_of, build_xml_tool_prompt, extract_xml_tool_calls, first_json_call_from,
    lemma_xml_call_names_len, names_of, parse_json_tool_call, strip_tool_calls, stripped,
    tool_prompt_head, tool_prompt_tail, xml_call_args, xml_call_names,
};

verus! {

/// After this many executed tool calls, a turn starts no further round.
pub const MAX_TOOL_CALLS: usize = 25;

/// What one turn came to.
#[derive(Debug)]
pub struct TurnOutcome {
    pub text: String,
    pub tool_calls_executed: usize,
}

/// The model, the tools offered to it, and how they are offered.
pub struct LoopConfig {
    pub model: String,
    pub tools: Vec<ToolDef>,
    /// The model reads tool definitions from its system prompt and writes calls
    /// as text, instead of using a native tools API.
    pub xml_mode: bool,
    /// In XML mode: the tool prompt appended to the system prompt.
    pub xml_system_suffix: Option<String>,
}

impl LoopConfig {
    /// `tools_json` is the JSON rendering of `tools`; it is used only in XML mode.
    pub fn new(model: &str, tools: Vec<ToolDef>, xml_mode: bool, tools_json: &str) -> (c: LoopConfig)
        ensures
            c.model@ == model@,
            c.tools@ == tools@,
            c.xml_mode == xml_mode,
            xml_mode ==> (c.xml_system_suffix matches Some(s) && s@ == tool_prompt_head() + tools_json@
                + tool_prompt_tail()),
            !xml_mode ==> c.xml_system_suffix is None,
    {
        let xml_system_suffix = if xml_mode {
            Some(build_xml_tool_prompt(tools_json))
        } else {
            None
        };
        LoopConfig { model: model.to_string(), tools, xml_mode, xml_system_suffix }
    }

    pub open spec fn suffix_view(&self) -> Option<Seq<char>> {
        match self.xml_system_suffix {
            Some(s) => Some(s@),
            None => None,
        }
    }

    pub open spec fn tools_view(&self) -> Seq<ToolDefView> {
        self.tools@.map_values(|t: ToolDef| t@)
    }
}

/// The id given to the `n`-th call that the loop itself numbers in a turn.
pub open spec fn call_id(n: nat) -> Seq<char> {
    seq!['c', 'a', 'l', 'l', '_'] + decimal(n)
}

/// Two numbered calls of a turn never share an id.
pub proof fn lemma_call_ids_distinct(a: nat, b: nat)
    requires
        a != b,
    ensures
        call_id(a) != call_id(b),
{
    if call_id(a) == call_id(b) {
        assert(decimal(a) =~= call_id(a).skip(5));
        assert(decimal(b) =~= call_id(b).skip(5));
        crate::text::lemma_decimal_injective(a, b);
    }
}

fn call_id_text(n: usize) -> (s: String)
    ensures
        s@ == call_id(n as nat),
{
    let mut v: Vec<char> = vec!['c', 'a', 'l', 'l', '_'];
    assert(v@ =~= seq!['c', 'a', 'l', 'l', '_']);
    push_decimal(&mut v, n);
    string_of(&v)
}

/// Where a turn stands between events.
pub struct TurnState {
    total_tool_calls: usize,
    call_counter: usize,
    text_buf: String,
    pending: Vec<ToolCall>,
}

/// The abstract content of a [`TurnState`]: the tool calls executed so far in
/// the turn, the last number given to a call, the text of the current reply, and
/// the calls waiting to run.
pub struct TurnView {
    pub total: nat,
    pub counter: nat,
    pub text: Seq<char>,
    pub pending: Seq<ToolCallView>,
}

impl View for TurnState {
    type V = TurnView;

    closed spec fn view(&self) -> TurnView {
        TurnView {
            total: self.total_tool_calls as nat,
            counter: self.call_counter as nat,
            text: self.text_buf@,
            pending: calls_view(self.pending@),
        }
    }
}

/// How a round begins.
pub enum RoundStart {
    /// Send this request to the provider and stream its reply.
    Request(ChatRequest),
    /// The tool call limit was reached: the turn ends with this outcome.
    LimitReached(TurnOutcome),
}

/// What to do with one stream event.
pub struct EventReply {
    /// Text to show the user now.
    pub emit: Option<String>,
    /// The reply is complete: stop reading the stream.
    pub stop: bool,
}

/// How a round continues once the reply has been read.
pub enum RoundNext {
    /// The turn ends with this outcome.
    Finished(TurnOutcome),
    /// Run these calls, in order, and report each result.
    Execute(Vec<ToolCall>),
}

/// What to do once the reply has been read.
pub struct RoundClose {
    /// Text to show the user first.
    pub shown: Option<String>,
    pub next: RoundNext,
}

/// The calls found in the reply text `text` at the end of a round (names only):
/// in XML mode, its `<tool_call>` or fenced blocks, else one bare JSON call; in
/// native mode, one bare JSON call when the provider sent no structured calls.
pub open spec fn found_names(xml: bool, text: Seq<char>, no_pending: bool) -> Seq<Seq<char>> {
    if xml && xml_call_names(text).len() > 0 {
        xml_call_names(text)
    } else if xml || no_pending {
        match first_json_call_from(text, 0) {
            Some(c) => seq![c.0],
            None => Seq::empty(),
        }
    } else {
        Seq::empty()
    }
}

/// The arguments of the calls found at the end of a round, alongside
/// [`found_names`].
pub open spec fn found_args(xml: bool, text: Seq<char>, no_pending: bool) -> Seq<Value> {
    if xml && xml_call_names(text).len() > 0 {
        xml_call_args(text)
    } else if xml || no_pending {
        match first_json_call_from(text, 0) {
            Some(c) => seq![c.1],
            None => Seq::empty(),
        }
    } else {
        Seq::empty()
    }
}

/// The text shown to the user at the end of a round (in native mode everything
/// was shown as it streamed): in XML mode, the reply without its call blocks when
/// blocks were found and something besides white space is left, nothing when the
/// reply was a bare JSON call, else the whole reply.
pub open spec fn shown_at_close(xml: bool, text: Seq<char>) -> Option<Seq<char>> {
    if !xml {
        None
    } else if xml_call_names(text).len() > 0 {
        if trimmed(stripped(text)).len() == 0 {
            None
        } else {
            Some(stripped(text))
        }
    } else if first_json_call_from(text, 0) is Some {
        None
    } else {
        Some(text)
    }
}

/// The reply text kept for the history: in native mode a bare JSON call taken
/// from the text clears it.
pub open spec fn kept_text(xml: bool, text: Seq<char>, no_pending: bool) -> Seq<char> {
    if !xml && no_pending && first_json_call_from(text, 0) is Some {
        Seq::empty()
    } else {
        text
    }
}

/// The calls waiting after the round's own calls were added: each found name
/// with its arguments, numbered on from `counter`.
pub open spec fn numbered_calls_ok(
    pending: Seq<ToolCallView>,
    before: Seq<ToolCallView>,
    names: Seq<Seq<char>>,
    args: Seq<Value>,
    counter: nat,
) -> bool {
    &&& pending.len() == before.len() + names.len()
    &&& pending.take(before.len() as int) == before
    &&& forall|j: int|
        0 <= j < names.len() ==> {
            &&& (#[trigger] pending[before.len() + j]).id == call_id((counter + 1 + j) as nat)
            &&& pending[before.len() + j].name == names[j]
            &&& pending[before.len() + j].arguments == args[j]
        }
}

/// The assistant message recorded for a round that calls tools.
pub open spec fn calling_message(xml: bool, text: Seq<char>, pending: Seq<ToolCallView>) -> MessageView {
    if xml {
        plain_message(Role::Assistant, text)
    } else {
        MessageView { role: Role::Assistant, content: text, tool_call_id: None, tool_calls: Some(pending) }
    }
}

/// The message recorded for a tool's result: in XML mode a user message naming
/// the tool, else a tool message answering the call.
pub open spec fn result_message(xml: bool, name: Seq<char>, call_id: Seq<char>, output: Seq<char>) -> MessageView {
    if xml {
        plain_message(Role::User, "[Tool result for "@ + name + "]:\n"@ + output)
    } else {
        MessageView { role: Role::Tool, content: output, tool_call_id: Some(call_id), tool_calls: None }
    }
}

impl TurnState {
    /// The state at the start of a turn.
    pub fn new() -> (s: TurnState)
        ensures
            s@.total == 0,
            s@.counter == 0,
            s@.text == Seq::<char>::empty(),
            s@.pending == Seq::<ToolCallView>::empty(),
    {
        let s = TurnState { total_tool_calls: 0, call_counter: 0, text_buf: String::new(), pending: Vec::new() };
        assert(calls_view(s.pending@) =~= Seq::empty());
        s
    }

    /// Whether the round can be closed: the calls it may number still fit the
    /// call counter.
    pub fn can_close(&self) -> (r: bool)
        ensures
            r == (self@.counter + self@.text.len() < usize::MAX),
    {
        let n = crate::text::chars_of(self.text_buf.as_str()).len();
        n < usize::MAX && self.call_counter < usize::MAX - n
    }

    /// The number of tool calls executed so far in this turn.
    pub fn tool_calls_executed(&self) -> (n: usize)
        ensures
            n == self@.total,
    {
        self.total_tool_calls
    }

    /// Begins a round. Once `MAX_TOOL_CALLS` calls have run, no request is made
    /// and the turn ends with no text. Otherwise the request carries the model,
    /// the history's messages (with the XML tool prompt in XML mode) and the
    /// tools, and the round starts with no text and no waiting calls.
    pub fn start_round(&mut self, cfg: &LoopConfig, history: &History) -> (r: RoundStart)
        ensures
            old(self)@.total >= MAX_TOOL_CALLS ==> (r matches RoundStart::LimitReached(o)
                && o.text@ == Seq::<char>::empty() && o.tool_calls_executed == old(self)@.total
                && final(self)@ == old(self)@),
            old(self)@.total < MAX_TOOL_CALLS ==> (r matches RoundStart::Request(req)
                && req.model@ == cfg.model@
                && messages_view(req.messages@) == built_messages(history@, cfg.suffix_view())
                && req.tools@.map_values(|t: ToolDef| t@) == cfg.tools_view()
                && final(self)@ == (TurnView {
                    total: old(self)@.total,
                    counter: old(self)@.counter,
                    text: Seq::empty(),
                    pending: Seq::empty(),
                })),
    {
        if self.total_tool_calls >= MAX_TOOL_CALLS {
            return RoundStart::LimitReached(
                TurnOutcome { text: String::new(), tool_calls_executed: self.total_tool_calls },
            );
        }
        let suffix = match &cfg.xml_system_suffix {
            Some(s) => Some(s.as_str()),
            None => None,
        };
        let messages = history.build_messages_with_suffix(suffix);
        let tools = duplicate_defs(&cfg.tools);
        assert(tools@.map_values(|t: ToolDef| t@) =~= cfg.tools_view());
        self.text_buf = String::new();
        self.pending = Vec::new();
        assert(calls_view(self.pending@) =~= Seq::empty());
        RoundStart::Request(ChatRequest { model: cfg.model.clone(), messages, tools })
    }

    /// Takes one event of the reply stream. Text is collected (and in native
    /// mode shown at once); structured calls wait to run; `Done` ends the reply.
    pub fn on_event(&mut self, cfg: &LoopConfig, ev: StreamEvent) -> (r: EventReply)
        ensures
            match ev {
                StreamEvent::Text(chunk) => {
                    &&& final(self)@ == (TurnView { text: old(self)@.text + chunk@, ..old(self)@ })
                    &&& !r.stop
                    &&& cfg.xml_mode ==> r.emit is None
                    &&& !cfg.xml_mode ==> (r.emit matches Some(e) && e@ == chunk@)
                },
                StreamEvent::ToolCalls(calls) => {
                    &&& final(self)@ == (TurnView {
                        pending: old(self)@.pending + calls_view(calls@),
                        ..old(self)@
                    })
                    &&& !r.stop
                    &&& r.emit is None
                },
                StreamEvent::Done => {
                    &&& final(self)@ == old(self)@
                    &&& r.stop
                    &&& r.emit is None
                },
            },
    {
        match ev {
            StreamEvent::Text(chunk) => {
                self.text_buf.append(chunk.as_str());
                if cfg.xml_mode {
                    EventReply { emit: None, stop: false }
                } else {
                    EventReply { emit: Some(chunk), stop: false }
                }
            },
            StreamEvent::ToolCalls(calls) => {
                let mut calls = calls;
                let ghost before = self.pending@;
                let ghost added = calls@;
                self.pending.append(&mut calls);
                assert(calls_view(self.pending@) =~= calls_view(before) + calls_view(added));
                EventReply { emit: None, stop: false }
            },
            StreamEvent::Done => EventReply { emit: None, stop: true },
        }
    }

    /// Appends the calls in `found`, numbering them on from the call counter.
    fn add_numbered(&mut self, found: &Vec<(String, Value)>)
        requires
            old(self).call_counter + found@.len() <= usize::MAX,
        ensures
            final(self)@.total == old(self)@.total,
            final(self)@.text == old(self)@.text,
            final(self)@.counter == old(self)@.counter + found@.len(),
            numbered_calls_ok(
                final(self)@.pending,
                old(self)@.pending,
                names_of(found@),
                args_of(found@),
                old(self)@.counter,
            ),
    {
        let mut k: usize = 0;
        assert(calls_view(self.pending@).take(calls_view(self.pending@).len() as int) =~= calls_view(self.pending@));
        assert(names_of(found@).take(0) =~= Seq::<Seq<char>>::empty());
        assert(args_of(found@).take(0) =~= Seq::<Value>::empty());
        while k < found.len()
            invariant
                k <= found.len(),
                old(self).call_counter + found@.len() <= usize::MAX,
                self.call_counter == old(self).call_counter + k,
                self.total_tool_calls == old(self).total_tool_calls,
                self.text_buf@ == old(self).text_buf@,
                numbered_calls_ok(calls_view(self.pending@), calls_view(old(self).pending@),
                    names_of(found@).take(k as int), args_of(found@).take(k as int), old(self)@.counter),
            decreases found.len() - k,
        {
            self.call_counter = self.call_counter + 1;
            let id = call_id_text(self.call_counter);
            let call = ToolCall { id, name: found[k].0.clone(), arguments: found[k].1.clone() };
            let ghost before = calls_view(self.pending@);
            self.pending.push(call);
            assert(calls_view(self.pending@) =~= before.push(call@));
            assert(names_of(found@).take(k + 1) =~= names_of(found@).take(k as int).push(found@[k as int].0@));
            assert(args_of(found@).take(k + 1) =~= args_of(found@).take(k as int).push(found@[k as int].1));
            assert(calls_view(self.pending@).take(calls_view(old(self).pending@).len() as int)
                =~= before.take(calls_view(old(self).pending@).len() as int));
            k += 1;
        }
        assert(names_of(found@).take(found@.len() as int) =~= names_of(found@));
        assert(args_of(found@).take(found@.len() as int) =~= args_of(found@));
    }

    /// Ends a round once the reply has been read: finds the calls written in the
    /// text, records the assistant message, and either ends the turn (no call to
    /// run) or hands out the calls to run.
    pub fn end_stream(&mut self, cfg: &LoopConfig, history: &mut History) -> (r: RoundClose)
        requires
            old(self)@.counter + old(self)@.text.len() < usize::MAX,
        ensures
            ({
                let xml = cfg.xml_mode;
                let text = old(self)@.text;
                let no_pending = old(self)@.pending.len() == 0;
                let names = found_names(xml, text, no_pending);
                let args = found_args(xml, text, no_pending);
                let kept = kept_text(xml, text, no_pending);
                let pending = final(self)@.pending;
                &&& final(self)@.total == old(self)@.total
                &&& final(self)@.counter == old(self)@.counter + names.len()
                &&& final(self)@.text == kept
                &&& numbered_calls_ok(pending, old(self)@.pending, names, args, old(self)@.counter)
                &&& match r.shown {
                    Some(s) => shown_at_close(xml, text) == Some(s@),
                    None => shown_at_close(xml, text) is None,
                }
                &&& final(history)@.system == old(history)@.system
                &&& if pending.len() == 0 {
                    &&& r.next matches RoundNext::Finished(o) && o.text@ == kept
                        && o.tool_calls_executed == old(self)@.total
                    &&& final(history)@.messages == if kept.len() > 0 {
                        old(history)@.messages.push(plain_message(Role::Assistant, kept))
                    } else {
                        old(history)@.messages
                    }
                } else {
                    &&& r.next matches RoundNext::Execute(calls) && calls_view(calls@) == pending
                    &&& final(history)@.messages == old(history)@.messages.push(
                        calling_message(xml, kept, pending),
                    )
                }
            }),
    {
        proof {
            lemma_xml_call_names_len(self.text_buf@);
        }
        let ghost no_pending = self.pending@.len() == 0;
        let mut shown: Option<String> = None;
        if cfg.xml_mode {
            let xml_calls = extract_xml_tool_calls(self.text_buf.as_str());
            if xml_calls.len() > 0 {
                let display = strip_tool_calls(self.text_buf.as_str());
                let t = trim_text(display.as_str());
                if !t.as_str().is_empty() {
                    shown = Some(display);
                }
                self.add_numbered(&xml_calls);
            } else {
                match parse_json_tool_call(self.text_buf.as_str()) {
                    Some(call) => {
                        let one = vec![call];
                        assert(names_of(one@) =~= seq![call.0@]);
                        assert(args_of(one@) =~= seq![call.1]);
                        self.add_numbered(&one);
                    },
                    None => {
                        let empty: Vec<(String, Value)> = Vec::new();
                        assert(names_of(empty@) =~= Seq::empty());
                        assert(args_of(empty@) =~= Seq::empty());
                        self.add_numbered(&empty);
                        shown = Some(self.text_buf.clone());
                    },
                }
            }
        } else if self.pending.len() == 0 {
            match parse_json_tool_call(self.text_buf.as_str()) {
                Some(call) => {
                    let one = vec![call];
                    assert(names_of(one@) =~= seq![call.0@]);
                    assert(args_of(one@) =~= seq![call.1]);
                    self.add_numbered(&one);
                    self.text_buf = String::new();
                },
                None => {
                    let empty: Vec<(String, Value)> = Vec::new();
                    assert(names_of(empty@) =~= Seq::empty());
                    assert(args_of(empty@) =~= Seq::empty());
                    self.add_numbered(&empty);
                },
            }
        } else {
            let empty: Vec<(String, Value)> = Vec::new();
            assert(names_of(empty@) =~= Seq::empty());
            assert(args_of(empty@) =~= Seq::empty());
            self.add_numbered(&empty);
        }
        if self.pending.len() == 0 {
            if !self.text_buf.as_str().is_empty() {
                history.push(ChatMessage::assistant(self.text_buf.as_str()));
            }
            return RoundClose {
                shown,
                next: RoundNext::Finished(
                    TurnOutcome { text: self.text_buf.clone(), tool_calls_executed: self.total_tool_calls },
                ),
            };
        }
        if cfg.xml_mode {
            history.push(ChatMessage::assistant(self.text_buf.as_str()));
        } else {
            let calls = duplicate_calls(&self.pending);
            assert(calls_view(calls@) =~= calls_view(self.pending@));
            history.push(ChatMessage::assistant_with_calls(self.text_buf.as_str(), calls));
        }
        let out = duplicate_calls(&self.pending);
        assert(calls_view(out@) =~= calls_view(self.pending@));
        RoundClose { shown, next: RoundNext::Execute(out) }
    }

    /// Records the result of the call to tool `name` and counts it as executed.
    pub fn on_tool_result(&mut self, cfg: &LoopConfig, history: &mut History, name: &str, result: &ToolResult)
        requires
            old(self)@.total < usize::MAX,
        ensures
            final(self)@ == (TurnView { total: old(self)@.total + 1, ..old(self)@ }),
            final(history)@.system == old(history)@.system,
            final(history)@.messages == old(history)@.messages.push(
                result_message(cfg.xml_mode, name@, result.call_id@, result.output@),
            ),
    {
        if cfg.xml_mode {
            let mut content = String::from_str("[Tool result for ");
            content.append(name);
            content.append("]:\n");
            content.append(result.output.as_str());
            history.push(ChatMessage::user(content.as_str()));
        } else {
            history.push(ChatMessage::tool_result(result.call_id.as_str(), result.output.as_str()));
        }
        self.total_tool_calls = self.total_tool_calls + 1;
    }
}

} // verus!
