//! What a tool execution reports back to the agent loop.
use vstd::prelude::*;

verus! {

#[derive(Debug, Clone)]
pub struct ToolResult {
    pub call_id: String,
    pub output: String,
    pub is_error: bool,
}

impl ToolResult {
    /// A successful result of the call `call_id`.
    pub fn ok(call_id: &str, output: &str) -> (r: ToolResult)
        ensures
            r.call_id@ == call_id@,
            r.output@ == output@,
            !r.is_error,
    {
        ToolResult { call_id: call_id.to_string(), output: output.to_string(), is_error: false }
    }

    /// A failed result of the call `call_id`, carrying `message`.
    pub fn err(call_id: &str, message: &str) -> (r: ToolResult)
        ensures
            r.call_id@ == call_id@,
            r.output@ == message@,
            r.is_error,
    {
        ToolResult { call_id: call_id.to_string(), output: message.to_string(), is_error: true }
    }
}

} // verus!
