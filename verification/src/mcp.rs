//! The Model Context Protocol client's logic: server configuration, the tools a
//! server offers, which server a tool call goes to, request ids, and what a tool
//! call's reply comes to. Spawning the servers and the JSON-RPC traffic over
//! their standard streams are left to the caller.
use vstd::prelude::*;
use crate::json::{
    json_array_of, json_elements, json_get_at, json_get_under, json_str_at, json_str_under,
    json_text, json_text_of, json_value_at, json_value_under,
};
use crate::message::{ToolDef, ToolSpec};
use crate::text::{chars_of, join, slice_chars, string_of, texts};

verus! {

broadcast use vstd::string::group_string_axioms;

// ---------------------------------------------------------------------------
// Configuration
// ---------------------------------------------------------------------------

/// How to start one server: the program, its arguments, and the environment
/// variables set for it (a value `${NAME}` stands for the variable `NAME` of this
/// process).
pub struct McpServerConfig {
    pub command: String,
    pub args: Vec<String>,
    pub env: Vec<(String, String)>,
}

/// The servers to start, by name (the `servers` key of `mcp.json`, or
/// `mcpServers`).
pub struct McpConfig {
    pub servers: Vec<(String, McpServerConfig)>,
}

/// Whether the value `v` names an environment variable: `${`, then the name,
/// then `}`.
pub open spec fn is_env_reference(v: Seq<char>) -> bool {
    &&& v.len() >= 3
    &&& v[0] == '$'
    &&& v[1] == '{'
    &&& v[v.len() - 1] == '}'
}

/// The variable that the value `v` names, if it names one.
pub fn env_reference(v: &str) -> (r: Option<String>)
    ensures
        match r {
            Some(name) => is_env_reference(v@) && name@ == v@.subrange(2, v@.len() - 1),
            None => !is_env_reference(v@),
        },
{
    let c = chars_of(v);
    let n = c.len();
    if n >= 3 && c[0] == '$' && c[1] == '{' && c[n - 1] == '}' {
        Some(string_of(&slice_chars(&c, 2, n - 1)))
    } else {
        None
    }
}

/// The value set for a server's variable: for a reference, the referenced
/// variable's value in this process (`looked_up`, empty when unset); else the
/// value as written.
pub open spec fn expanded(v: Seq<char>, looked_up: Option<Seq<char>>) -> Seq<char> {
    if is_env_reference(v) {
        match looked_up {
            Some(x) => x,
            None => Seq::empty(),
        }
    } else {
        v
    }
}

/// The value set for a server's variable whose configured value is `v`;
/// `looked_up` is the value of the variable that `v` references, where it is set.
pub fn expand_value(v: &str, looked_up: Option<String>) -> (r: String)
    ensures
        r@ == expanded(
            v@,
            match looked_up {
                Some(x) => Some(x@),
                None => None,
            },
        ),
{
    match env_reference(v) {
        Some(_) => match looked_up {
            Some(x) => x,
            None => String::new(),
        },
        None => v.to_string(),
    }
}

// ---------------------------------------------------------------------------
// The tools a server offers
// ---------------------------------------------------------------------------

/// A tool that a server listed.
#[derive(Clone, Debug)]
pub struct McpToolDef {
    pub name: String,
    pub description: String,
    pub input_schema: serde_json::Value,
    pub server_name: String,
}

/// A text that may be missing, empty where it is.
pub open spec fn text_or_empty(t: Option<Seq<char>>) -> Seq<char> {
    match t {
        Some(x) => x,
        None => Seq::empty(),
    }
}

/// `d` is the tool that the listing entry `t` of the server `server` describes:
/// its `name` and `description` (empty where missing), its `inputSchema`.
pub open spec fn listed_as(d: McpToolDef, t: serde_json::Value, server: Seq<char>) -> bool {
    &&& d.name@ == text_or_empty(json_str_under(t, "name"@))
    &&& d.description@ == text_or_empty(json_str_under(t, "description"@))
    &&& d.input_schema == json_value_under(t, "inputSchema"@)
    &&& d.server_name@ == server
}

/// The entries of a `tools/list` reply: the list `result.tools`, none where
/// there is no such list.
pub open spec fn listing_entries(reply: serde_json::Value) -> Seq<serde_json::Value> {
    match json_elements(json_value_under(json_value_under(reply, "result"@), "tools"@)) {
        Some(es) => es,
        None => Seq::empty(),
    }
}

/// The tools that a server's `tools/list` reply lists, in order.
pub fn listed_tools(reply: &serde_json::Value, server: &str) -> (r: Vec<McpToolDef>)
    ensures
        r@.len() == listing_entries(*reply).len(),
        forall|i: int| 0 <= i < r@.len() ==> listed_as(#[trigger] r@[i], listing_entries(*reply)[i], server@),
{
    let result = json_value_at(reply, "result");
    let tools = json_value_at(&result, "tools");
    let entries = match json_array_of(&tools) {
        Some(es) => es,
        None => Vec::new(),
    };
    let mut r: Vec<McpToolDef> = Vec::new();
    let mut i: usize = 0;
    while i < entries.len()
        invariant
            entries@ == listing_entries(*reply),
            i <= entries@.len(),
            r@.len() == i,
            forall|j: int| 0 <= j < i ==> listed_as(#[trigger] r@[j], entries@[j], server@),
        decreases entries.len() - i,
    {
        r.push(McpToolDef::from_listing(&entries[i], server));
        i += 1;
    }
    r
}

impl McpToolDef {
    /// A tool of the server `server`, from one entry of its `tools/list` reply:
    /// its `name` and `description` (empty where missing) and its `inputSchema`.
    pub fn from_listing(t: &serde_json::Value, server: &str) -> (r: McpToolDef)
        ensures
            listed_as(r, *t, server@),
    {
        let name = match json_str_at(t, "name") {
            Some(n) => n,
            None => String::new(),
        };
        let description = match json_str_at(t, "description") {
            Some(d) => d,
            None => String::new(),
        };
        McpToolDef {
            name,
            description,
            input_schema: json_value_at(t, "inputSchema"),
            server_name: server.to_string(),
        }
    }

    /// The tool as offered to the model: a `function` with the server's name,
    /// description and input schema.
    pub fn to_tool_def(&self) -> (r: ToolDef)
        ensures
            r@.kind == "function"@,
            r@.name == self.name@,
            r@.description == self.description@,
            r@.parameters == self.input_schema,
    {
        ToolDef {
            kind: "function".to_string(),
            function: ToolSpec {
                name: self.name.clone(),
                description: self.description.clone(),
                parameters: self.input_schema.clone(),
            },
        }
    }
}

// ---------------------------------------------------------------------------
// Routing tool calls
// ---------------------------------------------------------------------------

/// The last server, by position, whose tools include `name`: the server that a
/// call of `name` goes to (a later server's tool takes the name over).
pub open spec fn route_upto(lists: Seq<Seq<Seq<char>>>, name: Seq<char>, k: int) -> Option<int>
    decreases k,
{
    if k <= 0 {
        None
    } else if lists[k - 1].contains(name) {
        Some(k - 1)
    } else {
        route_upto(lists, name, k - 1)
    }
}

pub open spec fn route_of(lists: Seq<Seq<Seq<char>>>, name: Seq<char>) -> Option<int> {
    route_upto(lists, name, lists.len() as int)
}

pub open spec fn name_lists(v: Seq<Vec<String>>) -> Seq<Seq<Seq<char>>> {
    v.map_values(|l: Vec<String>| texts(l@))
}

/// Sends each tool call to the MCP server that offers the tool, and any other
/// call to the local tools. Instead of a map from tool name to server, the
/// routes are the tool names of each server by position, searched from the last
/// server back: the same answer as a map filled server by server, where a later
/// server's tool takes a name over.
pub struct CombinedExecutor {
    /// The names of the tools of each server, by the server's position.
    routes: Vec<Vec<String>>,
}

impl View for CombinedExecutor {
    type V = Seq<Seq<Seq<char>>>;

    closed spec fn view(&self) -> Seq<Seq<Seq<char>>> {
        name_lists(self.routes@)
    }
}

fn contains_name(names: &Vec<String>, name: &str) -> (r: bool)
    ensures
        r == texts(names@).contains(name@),
{
    let mut i: usize = 0;
    while i < names.len()
        invariant
            i <= names@.len(),
            forall|j: int| 0 <= j < i ==> texts(names@)[j] != name@,
        decreases names.len() - i,
    {
        if crate::text::text_equals(names[i].as_str(), name) {
            assert(texts(names@)[i as int] == name@);
            return true;
        }
        i += 1;
    }
    false
}

impl CombinedExecutor {
    /// Routes over the servers whose tools are `tools`, by server position.
    pub fn new(tools: Vec<Vec<String>>) -> (r: CombinedExecutor)
        ensures
            r@ == name_lists(tools@),
    {
        CombinedExecutor { routes: tools }
    }

    /// The position of the server that a call of `name` goes to, or `None` for
    /// a local tool.
    pub fn route(&self, name: &str) -> (r: Option<usize>)
        ensures
            match r {
                Some(i) => route_of(self@, name@) == Some(i as int),
                None => route_of(self@, name@) is None,
            },
    {
        let mut k = self.routes.len();
        loop
            invariant
                k <= self.routes@.len(),
                route_of(self@, name@) == route_upto(self@, name@, k as int),
            decreases k,
        {
            if k == 0 {
                return None;
            }
            if contains_name(&self.routes[k - 1], name) {
                return Some(k - 1);
            }
            k -= 1;
        }
    }
}

// ---------------------------------------------------------------------------
// Requests and replies
// ---------------------------------------------------------------------------

/// The ids of the requests sent to one server: 1, 2, 3, ... in order.
pub struct RequestIds {
    next_id: u64,
}

impl View for RequestIds {
    type V = u64;

    closed spec fn view(&self) -> u64 {
        self.next_id
    }
}

impl RequestIds {
    pub fn new() -> (r: RequestIds)
        ensures
            r@ == 1,
    {
        RequestIds { next_id: 1 }
    }

    /// Whether another id can be issued.
    pub fn can_issue(&self) -> (r: bool)
        ensures
            r == (self@ < u64::MAX),
    {
        self.next_id < u64::MAX
    }

    /// The id of the next request.
    pub fn next(&mut self) -> (id: u64)
        requires
            old(self)@ < u64::MAX,
        ensures
            id == old(self)@,
            final(self)@ == old(self)@ + 1,
    {
        let id = self.next_id;
        self.next_id = id + 1;
        id
    }
}

/// Whether a line that the server sent answers the request `id`: its `id` is
/// that number. Notifications (with no id) and answers to other requests are
/// passed over.
pub fn answers(line_id: Option<u64>, id: u64) -> (r: bool)
    ensures
        r == (line_id == Some(id)),
{
    match line_id {
        Some(x) => x == id,
        None => false,
    }
}

/// The `text` of each entry that has one, in order.
pub open spec fn entry_texts(es: Seq<serde_json::Value>) -> Seq<Seq<char>>
    decreases es.len(),
{
    if es.len() == 0 {
        Seq::empty()
    } else {
        let prev = entry_texts(es.drop_last());
        match json_str_under(es.last(), "text"@) {
            Some(t) => prev.push(t),
            None => prev,
        }
    }
}

/// The reply's error as JSON text, where it has one.
pub open spec fn reply_error(reply: serde_json::Value) -> Option<Seq<char>> {
    match json_get_under(reply, "error"@) {
        Some(e) => Some(json_text_of(e)),
        None => None,
    }
}

/// The texts of `result.content`, where that is a list.
pub open spec fn reply_texts(reply: serde_json::Value) -> Option<Seq<Seq<char>>> {
    match json_elements(json_value_under(json_value_under(reply, "result"@), "content"@)) {
        Some(es) => Some(entry_texts(es)),
        None => None,
    }
}

/// What the `tools/call` reply `reply` of the server `server` comes to.
pub fn call_reply(server: &str, reply: &serde_json::Value) -> (r: Result<String, String>)
    ensures
        match r {
            Ok(t) => call_outcome(
                server@,
                reply_error(*reply),
                reply_texts(*reply),
                json_text_of(json_value_under(*reply, "result"@)),
            ) == Ok::<Seq<char>, Seq<char>>(t@),
            Err(m) => call_outcome(
                server@,
                reply_error(*reply),
                reply_texts(*reply),
                json_text_of(json_value_under(*reply, "result"@)),
            ) == Err::<Seq<char>, Seq<char>>(m@),
        },
{
    let error = match json_get_at(reply, "error") {
        Some(e) => Some(json_text(&e)),
        None => None,
    };
    let result = json_value_at(reply, "result");
    let content = json_value_at(&result, "content");
    let texts = match json_array_of(&content) {
        Some(es) => {
            let mut ts: Vec<String> = Vec::new();
            let mut i: usize = 0;
            while i < es.len()
                invariant
                    i <= es@.len(),
                    crate::text::texts(ts@) == entry_texts(es@.take(i as int)),
                decreases es.len() - i,
            {
                assert(es@.take(i + 1).drop_last() =~= es@.take(i as int));
                assert(es@.take(i + 1).last() == es@[i as int]);
                let ghost before = ts@;
                match json_str_at(&es[i], "text") {
                    Some(t) => {
                        let ghost tv = t@;
                        ts.push(t);
                        assert(crate::text::texts(ts@) =~= crate::text::texts(before).push(tv));
                    },
                    None => {},
                }
                i += 1;
            }
            assert(es@.take(es@.len() as int) =~= es@);
            Some(ts)
        },
        None => None,
    };
    let result_text = json_text(&result);
    call_result(server, error, texts, result_text)
}

/// What a `tools/call` reply comes to: the server's error, reported with its
/// name; else the texts of the reply's content joined by newlines; else, when
/// the result has no content list, the result as JSON text.
pub open spec fn call_outcome(
    server: Seq<char>,
    error: Option<Seq<char>>,
    content_texts: Option<Seq<Seq<char>>>,
    result_text: Seq<char>,
) -> Result<Seq<char>, Seq<char>> {
    match error {
        Some(e) => Err("MCP error from "@ + server + ": "@ + e),
        None => match content_texts {
            Some(ts) => Ok(join(ts, seq!['\n'])),
            None => Ok(result_text),
        },
    }
}

/// The outcome of a `tools/call` to the server `server`: `error` is the reply's
/// `error` as JSON text where it has one, `content_texts` the `text` of each
/// entry of `result.content` that has one where that is a list, `result_text` the
/// `result` as JSON text.
pub fn call_result(
    server: &str,
    error: Option<String>,
    content_texts: Option<Vec<String>>,
    result_text: String,
) -> (r: Result<String, String>)
    ensures
        match r {
            Ok(t) => call_outcome(
                server@,
                match error { Some(e) => Some(e@), None => None },
                match content_texts { Some(ts) => Some(texts(ts@)), None => None },
                result_text@,
            ) == Ok::<Seq<char>, Seq<char>>(t@),
            Err(m) => call_outcome(
                server@,
                match error { Some(e) => Some(e@), None => None },
                match content_texts { Some(ts) => Some(texts(ts@)), None => None },
                result_text@,
            ) == Err::<Seq<char>, Seq<char>>(m@),
        },
{
    match error {
        Some(e) => Err("MCP error from ".to_string().concat(server).concat(": ").concat(e.as_str())),
        None => match content_texts {
            Some(ts) => Ok(join_texts(&ts)),
            None => Ok(result_text),
        },
    }
}

/// The texts joined by newlines.
pub fn join_texts(ts: &Vec<String>) -> (r: String)
    ensures
        r@ == join(texts(ts@), seq!['\n']),
{
    let mut out = String::new();
    let mut i: usize = 0;
    let ghost all = texts(ts@);
    while i < ts.len()
        invariant
            i <= ts@.len(),
            all == texts(ts@),
            out@ == join(all.take(i as int), seq!['\n']),
        decreases ts.len() - i,
    {
        if i > 0 {
            out.append("\n");
            proof {
                reveal_strlit("\n");
            }
        }
        out.append(ts[i].as_str());
        assert(all.take(i + 1).drop_last() =~= all.take(i as int));
        assert(all.take(i + 1).last() == ts@[i as int]@);
        if i == 0 {
            assert(all.take(1) =~= seq![ts@[0]@]);
        }
        i += 1;
    }
    assert(all.take(ts@.len() as int) =~= all);
    out
}

} // verus!

verus! {

/// A tool of the last server that offers it is routed to that server: when two
/// servers offer the same name, the later one takes it.
pub proof fn lemma_later_server_wins(lists: Seq<Seq<Seq<char>>>, name: Seq<char>, i: int)
    requires
        0 <= i < lists.len(),
        lists[i].contains(name),
        forall|j: int| i < j < lists.len() ==> !lists[j].contains(name),
    ensures
        route_of(lists, name) == Some(i),
{
    lemma_route_upto(lists, name, i, lists.len() as int);
}

proof fn lemma_route_upto(lists: Seq<Seq<Seq<char>>>, name: Seq<char>, i: int, k: int)
    requires
        0 <= i < k <= lists.len(),
        lists[i].contains(name),
        forall|j: int| i < j < k ==> !lists[j].contains(name),
    ensures
        route_upto(lists, name, k) == Some(i),
    decreases k,
{
    if k - 1 > i {
        lemma_route_upto(lists, name, i, k - 1);
    }
}

/// A name that no server offers is left to the local tools.
pub proof fn lemma_unoffered_name_is_local(lists: Seq<Seq<Seq<char>>>, name: Seq<char>)
    requires
        forall|j: int| 0 <= j < lists.len() ==> !lists[j].contains(name),
    ensures
        route_of(lists, name) is None,
{
    lemma_route_none(lists, name, lists.len() as int);
}

proof fn lemma_route_none(lists: Seq<Seq<Seq<char>>>, name: Seq<char>, k: int)
    requires
        k <= lists.len(),
        forall|j: int| 0 <= j < lists.len() ==> !lists[j].contains(name),
    ensures
        route_upto(lists, name, k) is None,
    decreases k,
{
    if k > 0 {
        lemma_route_none(lists, name, k - 1);
    }
}

} // verus!
