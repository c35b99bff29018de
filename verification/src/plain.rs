//! The line protocol spoken with the editor extension: one JSON object per line
//! on standard output. This module decides which events are sent; writing them
//! as JSON and reading standard input are left to the caller.
use vstd::prelude::*;
use crate::tool::ToolResult;

verus! {

/// One line of output.
pub enum PlainEvent {
    /// A piece of the model's text (`{"type":"text","delta":...}`).
    Text(String),
    /// A tool is about to run (`{"type":"tool_start","name":...,"args":...}`).
    ToolStart { name: String, args: serde_json::Value },
    /// A tool has run (`{"type":"tool_done","name":...,"ok":...}`).
    ToolDone { name: String, ok: bool },
    /// The turn is over and the next input is awaited (`{"type":"ready"}`).
    Ready,
    /// The turn failed (`{"type":"error","message":...}`).
    Error(String),
}

/// The executor of plain mode: it runs the local tools and reports each run
/// before and after.
pub struct PlainExecutor;

impl PlainExecutor {
    /// The event sent before the tool `name` runs with `args`.
    pub fn start_event(&self, name: &str, args: &serde_json::Value) -> (r: PlainEvent)
        ensures
            r matches PlainEvent::ToolStart { name: n, args: a } && n@ == name@ && a == *args,
    {
        PlainEvent::ToolStart { name: name.to_string(), args: args.clone() }
    }

    /// The event sent after the tool `name` ran: whether it succeeded.
    pub fn done_event(&self, name: &str, result: &ToolResult) -> (r: PlainEvent)
        ensures
            r matches PlainEvent::ToolDone { name: n, ok } && n@ == name@ && ok == !result.is_error,
    {
        PlainEvent::ToolDone { name: name.to_string(), ok: !result.is_error }
    }
}

/// The event for a piece of the model's text.
pub fn text_event(chunk: &str) -> (r: PlainEvent)
    ensures
        r matches PlainEvent::Text(t) && t@ == chunk@,
{
    PlainEvent::Text(chunk.to_string())
}

/// The events that close a turn: `ready`, after an `error` carrying the failure's
/// message when the turn failed.
pub fn turn_end_events(outcome: Result<(), String>) -> (r: Vec<PlainEvent>)
    ensures
        match outcome {
            Ok(()) => r@.len() == 1 && r@[0] is Ready,
            Err(m) => r@.len() == 2 && (r@[0] matches PlainEvent::Error(e) && e@ == m@) && r@[1] is Ready,
        },
{
    match outcome {
        Ok(()) => vec![PlainEvent::Ready],
        Err(m) => vec![PlainEvent::Error(m), PlainEvent::Ready],
    }
}

} // verus!
