//! The conversation kept across turns: an optional system prompt and the messages so far.
use vstd::prelude::*;
use crate::message::{ChatMessage, MessageView, Role, opt_text, plain_message};

verus! {

pub struct History {
    system: Option<String>,
    messages: Vec<ChatMessage>,
}

/// The abstract content of a [`History`].
pub struct HistoryView {
    pub system: Option<Seq<char>>,
    pub messages: Seq<MessageView>,
}

pub open spec fn messages_view(ms: Seq<ChatMessage>) -> Seq<MessageView> {
    ms.map_values(|m: ChatMessage| m@)
}

impl View for History {
    type V = HistoryView;

    closed spec fn view(&self) -> HistoryView {
        HistoryView { system: opt_text(self.system), messages: messages_view(self.messages@) }
    }
}

/// The messages sent to a model for history `h`: the system prompt first (with
/// `suffix` appended to it when there is one), then every message in order.
pub open spec fn built_messages(h: HistoryView, suffix: Option<Seq<char>>) -> Seq<MessageView> {
    match h.system {
        Some(sys) => {
            let content = match suffix {
                Some(s) => sys + s,
                None => sys,
            };
            seq![plain_message(Role::System, content)] + h.messages
        },
        None => h.messages,
    }
}

impl History {
    pub fn new(system: &str) -> (h: History)
        ensures
            h@ == (HistoryView { system: Some(system@), messages: Seq::empty() }),
    {
        let h = History { system: Some(system.to_string()), messages: Vec::new() };
        assert(messages_view(h.messages@) =~= Seq::empty());
        h
    }

    /// Appends `msg` to the conversation.
    pub fn push(&mut self, msg: ChatMessage)
        ensures
            final(self)@ == (HistoryView {
                system: old(self)@.system,
                messages: old(self)@.messages.push(msg@),
            }),
    {
        self.messages.push(msg);
        assert(messages_view(self.messages@) =~= messages_view(old(self).messages@).push(msg@));
    }

    pub fn build_messages(&self) -> (out: Vec<ChatMessage>)
        ensures
            messages_view(out@) == built_messages(self@, None),
    {
        self.build_messages_with_suffix(None)
    }

    /// For models that take tool definitions in the prompt: the system prompt
    /// gets `suffix` appended.
    pub fn build_messages_with_suffix(&self, suffix: Option<&str>) -> (out: Vec<ChatMessage>)
        ensures
            messages_view(out@) == built_messages(self@, match suffix {
                Some(s) => Some(s@),
                None => None,
            }),
    {
        let mut out: Vec<ChatMessage> = Vec::new();
        if let Some(sys) = &self.system {
            let content = match suffix {
                Some(s) => {
                    let mut c = sys.clone();
                    c.append(s);
                    c
                },
                None => sys.clone(),
            };
            out.push(ChatMessage::system(content.as_str()));
        }
        let start = out.len();
        let mut i: usize = 0;
        while i < self.messages.len()
            invariant
                i <= self.messages.len(),
                start <= 1,
                out@.len() == start + i,
                messages_view(out@).take(start as int) =~= built_messages(self@, match suffix {
                    Some(s) => Some(s@),
                    None => None,
                }).take(start as int),
                start == (if self.system is Some { 1int } else { 0int }),
                forall|j: int| 0 <= j < i ==> #[trigger] out@[start + j]@ == self.messages@[j]@,
            decreases self.messages.len() - i,
        {
            out.push(self.messages[i].duplicate());
            i += 1;
        }
        let ghost target = built_messages(self@, match suffix {
            Some(s) => Some(s@),
            None => None,
        });
        assert forall|k: int| 0 <= k < out@.len() implies #[trigger] messages_view(out@)[k] == target[k] by {
            if k < start {
                assert(messages_view(out@).take(start as int)[k] == target.take(start as int)[k]);
            } else {
                assert(out@[start + (k - start)]@ == self.messages@[k - start]@);
            }
        }
        assert(messages_view(out@) =~= target);
        out
    }
}

} // verus!

verus! {

/// A message pushed onto the history is sent last, after everything that was
/// sent before it; the system prompt stays first.
pub proof fn lemma_push_is_sent_last(h: HistoryView, m: MessageView, suffix: Option<Seq<char>>)
    ensures
        built_messages(HistoryView { system: h.system, messages: h.messages.push(m) }, suffix)
            == built_messages(h, suffix).push(m),
{
    let h2 = HistoryView { system: h.system, messages: h.messages.push(m) };
    match h.system {
        Some(sys) => {
            let content = match suffix {
                Some(s) => sys + s,
                None => sys,
            };
            assert(seq![plain_message(Role::System, content)] + h.messages.push(m) =~= (seq![
                plain_message(Role::System, content),
            ] + h.messages).push(m));
        },
        None => {},
    }
}

} // verus!
