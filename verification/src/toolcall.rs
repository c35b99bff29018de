//! Finding tool calls that a model wrote into its text: `<tool_call>` blocks,
//! ```` ```tool_call ```` fences, and bare `{"name": ..., "arguments": ...}` objects.
use vstd::prelude::*;
use serde_json::Value;
use crate::json::{
    json_empty, json_empty_object, json_get_at, json_get_under, json_parsed, json_str_at,
    json_str_under, json_value_at, json_value_of, json_value_under,
};
use crate::text::{
    is_subsequence, lemma_subsequence_concat, lemma_subsequence_len, lemma_subsequence_of_suffix,
    lemma_subsequence_refl, lemma_subsequence_trans,
    chars_of, contains, extend_chars, find, find_from, find_in, lemma_find_from, lemma_rfind_upto, occurs_at, rfind,
    rfind_in, slice_chars, string_of, trim_text, trimmed,
};

verus! {

// ---------------------------------------------------------------------------
// The end of a JSON object
// ---------------------------------------------------------------------------

/// The lexical state after reading `c` in the state `st`: the brace depth,
/// whether the text is inside a string literal, and whether the previous
/// character was a backslash inside a string. Braces inside strings do not
/// count; a backslash inside a string escapes the next character.
pub open spec fn scan_step(st: (int, bool, bool), c: char) -> (int, bool, bool) {
    let depth = st.0;
    let in_str = st.1;
    if st.2 {
        (depth, in_str, false)
    } else if c == '\\' && in_str {
        (depth, in_str, true)
    } else if c == '"' {
        (depth, !in_str, false)
    } else if in_str {
        (depth, in_str, false)
    } else if c == '{' {
        (depth + 1, in_str, false)
    } else if c == '}' {
        (depth - 1, in_str, false)
    } else {
        (depth, in_str, false)
    }
}

/// The lexical state just before index `i`, reading from `start`.
pub open spec fn state_before(s: Seq<char>, start: int, i: int) -> (int, bool, bool)
    decreases i - start,
{
    if i <= start {
        (0, false, false)
    } else {
        scan_step(state_before(s, start, i - 1), s[i - 1])
    }
}

/// `s[e]` is a `}`, outside any string and escape, that brings the depth counted
/// from `start` back to zero.
pub open spec fn closes_object(s: Seq<char>, start: int, e: int) -> bool {
    let st = state_before(s, start, e);
    &&& start <= e < s.len()
    &&& !st.1
    &&& !st.2
    &&& s[e] == '}'
    &&& st.0 == 1
}

/// The least index at or after `i` at which the object started at `start`
/// closes.
pub open spec fn first_close_from(s: Seq<char>, start: int, i: int) -> Option<int>
    decreases s.len() - i,
{
    if i < start || i >= s.len() {
        None
    } else if closes_object(s, start, i) {
        Some(i)
    } else {
        first_close_from(s, start, i + 1)
    }
}

/// The index of the `}` that closes the JSON object starting at `start`: the
/// least index where the depth returns to zero.
pub open spec fn object_end(s: Seq<char>, start: int) -> Option<int> {
    first_close_from(s, start, start)
}

proof fn lemma_first_close_from(s: Seq<char>, start: int, i: int)
    requires
        start <= i,
    ensures
        first_close_from(s, start, i) matches Some(e) ==> i <= e && closes_object(s, start, e)
            && forall|j: int| i <= j < e ==> !closes_object(s, start, j),
        first_close_from(s, start, i) is None ==> forall|j: int| i <= j ==> !closes_object(s, start, j),
    decreases s.len() - i,
{
    if i < s.len() && !closes_object(s, start, i) {
        lemma_first_close_from(s, start, i + 1);
    }
}

/// The object started at `start` ends at the least index where the depth counted
/// from `start` returns to zero, outside strings; it has no end where there is no
/// such index.
pub proof fn lemma_object_end_is_least_close(s: Seq<char>, start: int)
    ensures
        object_end(s, start) matches Some(e) ==> closes_object(s, start, e)
            && forall|j: int| start <= j < e ==> !closes_object(s, start, j),
        object_end(s, start) is None ==> forall|j: int| !closes_object(s, start, j),
{
    lemma_first_close_from(s, start, start);
}

/// The index of the `}` that closes the JSON object starting at `start`: braces
/// inside string literals are skipped, and so is any character after a backslash
/// inside a string.
pub fn find_json_object_end(s: &Vec<char>, start: usize) -> (r: Option<usize>)
    ensures
        match r {
            Some(e) => object_end(s@, start as int) == Some(e as int),
            None => object_end(s@, start as int) is None,
        },
{
    // The depth is `opens - closes`; each count stays below the length of `s`.
    let mut opens: usize = 0;
    let mut closes: usize = 0;
    let mut in_string = false;
    let mut escape = false;
    let mut i = start;
    while i < s.len()
        invariant
            start <= i,
            opens <= i - start,
            closes <= i - start,
            state_before(s@, start as int, i as int) == (opens - closes, in_string, escape),
            object_end(s@, start as int) == first_close_from(s@, start as int, i as int),
        decreases s.len() - i,
    {
        let c = s[i];
        assert(state_before(s@, start as int, i + 1) == scan_step(
            state_before(s@, start as int, i as int),
            c,
        ));
        if escape {
            escape = false;
        } else if c == '\\' && in_string {
            escape = true;
        } else if c == '"' {
            in_string = !in_string;
        } else if in_string {
        } else if c == '{' {
            opens = opens + 1;
        } else if c == '}' {
            closes = closes + 1;
            if opens == closes {
                return Some(i);
            }
        }
        i += 1;
    }
    None
}

// ---------------------------------------------------------------------------
// Escaping raw control characters inside JSON strings
// ---------------------------------------------------------------------------

/// What one character becomes, given whether the scan is inside a string literal
/// (`in_str`) and right after a backslash (`esc`); and the state after it.
pub open spec fn sanitize_step(in_str: bool, esc: bool, c: char) -> (bool, bool, Seq<char>) {
    if esc {
        (in_str, false, seq![c])
    } else if c == '\\' && in_str {
        (in_str, true, seq![c])
    } else if c == '"' {
        (!in_str, false, seq![c])
    } else if in_str && c == '\n' {
        (in_str, false, seq!['\\', 'n'])
    } else if in_str && c == '\r' {
        (in_str, false, seq!['\\', 'r'])
    } else if in_str && c == '\t' {
        (in_str, false, seq!['\\', 't'])
    } else {
        (in_str, false, seq![c])
    }
}

/// The scan state after `s`, and what `s` becomes.
pub open spec fn sanitize_run(s: Seq<char>) -> (bool, bool, Seq<char>)
    decreases s.len(),
{
    if s.len() == 0 {
        (false, false, Seq::empty())
    } else {
        let prev = sanitize_run(s.drop_last());
        let step = sanitize_step(prev.0, prev.1, s.last());
        (step.0, step.1, prev.2 + step.2)
    }
}

/// `s` with every raw newline, carriage return and tab that stands inside a JSON
/// string literal replaced by its escape (`\n`, `\r`, `\t`).
pub open spec fn sanitized(s: Seq<char>) -> Seq<char> {
    sanitize_run(s).2
}

pub fn sanitize_chars(s: &Vec<char>) -> (out: Vec<char>)
    ensures
        out@ == sanitized(s@),
{
    let mut out: Vec<char> = Vec::new();
    let mut in_string = false;
    let mut escape = false;
    let mut i: usize = 0;
    while i < s.len()
        invariant
            i <= s.len(),
            sanitize_run(s@.take(i as int)) == (in_string, escape, out@),
        decreases s.len() - i,
    {
        let ch = s[i];
        assert(s@.take(i + 1).drop_last() =~= s@.take(i as int));
        if escape {
            escape = false;
            out.push(ch);
        } else if ch == '\\' && in_string {
            escape = true;
            out.push(ch);
        } else if ch == '"' {
            in_string = !in_string;
            out.push(ch);
        } else if in_string && ch == '\n' {
            out.push('\\');
            out.push('n');
        } else if in_string && ch == '\r' {
            out.push('\\');
            out.push('r');
        } else if in_string && ch == '\t' {
            out.push('\\');
            out.push('t');
        } else {
            out.push(ch);
        }
        i += 1;
    }
    assert(s@.take(s.len() as int) =~= s@);
    out
}

/// Replaces raw newlines, carriage returns and tabs inside JSON string literals by
/// their escapes, so that a model's slightly malformed JSON can still be read.
pub fn sanitize_json_string(s: &str) -> (out: String)
    ensures
        out@ == sanitized(s@),
{
    let v = chars_of(s);
    let o = sanitize_chars(&v);
    string_of(&o)
}

// ---------------------------------------------------------------------------
// Reading one call
// ---------------------------------------------------------------------------

/// The string under `"name"` in the JSON document `text`.
pub open spec fn call_name_in(text: Seq<char>) -> Option<Seq<char>> {
    match json_parsed(text) {
        Some(v) => json_str_under(v, "name"@),
        None => None,
    }
}

/// The tool name that `raw` names, read as JSON after trimming and sanitizing.
pub open spec fn tool_call_name(raw: Seq<char>) -> Option<Seq<char>> {
    call_name_in(sanitized(trimmed(raw)))
}

/// The arguments of the call that `raw` holds: the value under `"arguments"`,
/// JSON `null` when there is none.
pub open spec fn tool_call_args(raw: Seq<char>) -> Value {
    json_value_under(json_parsed(sanitized(trimmed(raw)))->0, "arguments"@)
}

/// Reads one `{"name": ..., "arguments": ...}` object. The arguments are JSON
/// `null` when the object has none.
pub fn parse_tool_call_json(raw: &str) -> (r: Option<(String, Value)>)
    ensures
        r is Some <==> tool_call_name(raw@) is Some,
        r matches Some(p) ==> p.0@ == tool_call_name(raw@)->0 && p.1 == tool_call_args(raw@),
{
    let t = trim_text(raw);
    let sanitized_text = sanitize_json_string(t.as_str());
    match json_value_of(sanitized_text.as_str()) {
        None => None,
        Some(v) => match json_str_at(&v, "name") {
            None => None,
            Some(name) => Some((name, json_value_at(&v, "arguments"))),
        },
    }
}

// ---------------------------------------------------------------------------
// A bare JSON call inside prose
// ---------------------------------------------------------------------------

/// The text of the JSON object that starts at `i`, if `s[i]` opens one that closes.
pub open spec fn object_at(s: Seq<char>, i: int) -> Option<Seq<char>> {
    if 0 <= i < s.len() && s[i] == '{' {
        match object_end(s, i) {
            Some(e) => Some(s.subrange(i, e + 1)),
            None => None,
        }
    } else {
        None
    }
}

/// The arguments of a bare call read from the JSON document `text`: the value
/// under `"arguments"`, an empty object when the key is absent.
pub open spec fn bare_call_args(text: Seq<char>) -> Value {
    match json_get_under(json_parsed(text)->0, "arguments"@) {
        Some(a) => a,
        None => json_empty(),
    }
}

/// The first object at or after `i` that reads as a call: its tool name and its
/// arguments.
pub open spec fn first_json_call_from(s: Seq<char>, i: int) -> Option<(Seq<char>, Value)>
    decreases s.len() - i,
{
    if i < 0 || i >= s.len() {
        None
    } else {
        match object_at(s, i) {
            Some(obj) => match call_name_in(sanitized(obj)) {
                Some(name) => Some((name, bare_call_args(sanitized(obj)))),
                None => first_json_call_from(s, i + 1),
            },
            None => first_json_call_from(s, i + 1),
        }
    }
}

/// For models that write a call as plain text: the first `{...}` object in `text`
/// that reads as `{"name": ..., "arguments": ...}`, with prose around it ignored.
/// The arguments are an empty object when the call has none.
pub fn parse_json_tool_call(text: &str) -> (r: Option<(String, Value)>)
    ensures
        r is Some <==> first_json_call_from(text@, 0) is Some,
        r matches Some(p) ==> Some((p.0@, p.1)) == first_json_call_from(text@, 0),
{
    let s = chars_of(text);
    let mut i: usize = 0;
    while i < s.len()
        invariant
            s@ == text@,
            first_json_call_from(s@, 0) == first_json_call_from(s@, i as int),
        decreases s.len() - i,
    {
        if s[i] == '{' {
            if let Some(end) = find_json_object_end(&s, i) {
                proof {
                    lemma_object_end_is_least_close(s@, i as int);
                }
                let candidate = slice_chars(&s, i, end + 1);
                let clean = sanitize_chars(&candidate);
                let clean_text = string_of(&clean);
                if let Some(v) = json_value_of(clean_text.as_str()) {
                    if let Some(name) = json_str_at(&v, "name") {
                        let arguments = match json_get_at(&v, "arguments") {
                            Some(a) => a,
                            None => json_empty_object(),
                        };
                        return Some((name, arguments));
                    }
                }
            }
        }
        i += 1;
    }
    None
}

} // verus!

verus! {

// ---------------------------------------------------------------------------
// Tool-call blocks
// ---------------------------------------------------------------------------

pub open spec fn open_tag() -> Seq<char> {
    seq!['<', 't', 'o', 'o', 'l', '_', 'c', 'a', 'l', 'l', '>']
}

pub open spec fn close_tag() -> Seq<char> {
    seq!['<', '/', 't', 'o', 'o', 'l', '_', 'c', 'a', 'l', 'l', '>']
}

pub open spec fn fence_open() -> Seq<char> {
    seq!['`', '`', '`', 't', 'o', 'o', 'l', '_', 'c', 'a', 'l', 'l']
}

pub open spec fn fence() -> Seq<char> {
    seq!['`', '`', '`']
}

pub open spec fn fence_newline() -> Seq<char> {
    seq!['`', '`', '`', '\n']
}

fn open_tag_exec() -> (v: Vec<char>)
    ensures
        v@ == open_tag(),
{
    let v = vec!['<', 't', 'o', 'o', 'l', '_', 'c', 'a', 'l', 'l', '>'];
    assert(v@ =~= open_tag());
    v
}

fn close_tag_exec() -> (v: Vec<char>)
    ensures
        v@ == close_tag(),
{
    let v = vec!['<', '/', 't', 'o', 'o', 'l', '_', 'c', 'a', 'l', 'l', '>'];
    assert(v@ =~= close_tag());
    v
}

fn fence_open_exec() -> (v: Vec<char>)
    ensures
        v@ == fence_open(),
{
    let v = vec!['`', '`', '`', 't', 'o', 'o', 'l', '_', 'c', 'a', 'l', 'l'];
    assert(v@ =~= fence_open());
    v
}

fn fence_exec() -> (v: Vec<char>)
    ensures
        v@ == fence(),
{
    let v = vec!['`', '`', '`'];
    assert(v@ =~= fence());
    v
}

fn fence_newline_exec() -> (v: Vec<char>)
    ensures
        v@ == fence_newline(),
{
    let v = vec!['`', '`', '`', '\n'];
    assert(v@ =~= fence_newline());
    v
}

/// The call that one block holds, as a sequence of at most one tool name.
pub open spec fn block_call(block: Seq<char>) -> Seq<Seq<char>> {
    match tool_call_name(trimmed(block)) {
        Some(n) => seq![n],
        None => Seq::empty(),
    }
}

/// The arguments of the call that one block holds, as a sequence of at most one
/// value (alongside [`block_call`]).
pub open spec fn block_args(block: Seq<char>) -> Seq<Value> {
    match tool_call_name(trimmed(block)) {
        Some(_) => seq![tool_call_args(trimmed(block))],
        None => Seq::empty(),
    }
}

/// The arguments of the calls of the `<tool_call>` blocks of `rest`, in order
/// (alongside [`xml_names`]).
pub open spec fn xml_args(rest: Seq<char>) -> Seq<Value>
    decreases rest.len(),
{
    match find(rest, open_tag()) {
        None => Seq::empty(),
        Some(st) => {
            let r1 = rest.skip(st + open_tag().len());
            match find(r1, close_tag()) {
                None => Seq::empty(),
                Some(e) => {
                    proof {
                        lemma_find_from(rest, open_tag(), 0);
                        lemma_find_from(r1, close_tag(), 0);
                    }
                    block_args(r1.take(e)) + xml_args(r1.skip(e + close_tag().len()))
                },
            }
        },
    }
}

/// The arguments of the calls of the fenced blocks of `rest`, in order
/// (alongside [`fenced_names`]).
pub open spec fn fenced_args(rest: Seq<char>) -> Seq<Value>
    decreases rest.len(),
{
    match find(rest, fence_open()) {
        None => Seq::empty(),
        Some(st) => {
            let r1 = rest.skip(st + fence_open().len());
            let r2 = after_fence_line(r1);
            match find(r2, fence()) {
                None => Seq::empty(),
                Some(e) => {
                    proof {
                        lemma_find_from(rest, fence_open(), 0);
                        lemma_find_from(r1, seq!['\n'], 0);
                        lemma_find_from(r2, fence(), 0);
                    }
                    block_args(r2.take(e)) + fenced_args(r2.skip(e + fence().len()))
                },
            }
        },
    }
}

/// The arguments of the calls in `text`, alongside [`xml_call_names`].
pub open spec fn xml_call_args(text: Seq<char>) -> Seq<Value> {
    if xml_names(text).len() > 0 {
        xml_args(text)
    } else {
        fenced_args(text)
    }
}

/// The arguments of a list of parsed calls.
pub open spec fn args_of(calls: Seq<(String, Value)>) -> Seq<Value> {
    calls.map_values(|p: (String, Value)| p.1)
}

/// The tool names of the `<tool_call>...</tool_call>` blocks of `rest`, in order.
/// Scanning stops at an opening tag with no closing tag after it.
pub open spec fn xml_names(rest: Seq<char>) -> Seq<Seq<char>>
    decreases rest.len(),
{
    match find(rest, open_tag()) {
        None => Seq::empty(),
        Some(st) => {
            let r1 = rest.skip(st + open_tag().len());
            match find(r1, close_tag()) {
                None => Seq::empty(),
                Some(e) => {
                    proof {
                        lemma_find_from(rest, open_tag(), 0);
                        lemma_find_from(r1, close_tag(), 0);
                    }
                    block_call(r1.take(e)) + xml_names(r1.skip(e + close_tag().len()))
                },
            }
        },
    }
}

/// After a ```` ```tool_call ```` opening: the text from the line after it (when a
/// newline follows anywhere), as the scan reads it.
pub open spec fn after_fence_line(r1: Seq<char>) -> Seq<char> {
    match find(r1, seq!['\n']) {
        Some(nl) => r1.skip(nl + 1),
        None => r1,
    }
}

/// The tool names of the ```` ```tool_call ... ``` ```` blocks of `rest`, in order.
pub open spec fn fenced_names(rest: Seq<char>) -> Seq<Seq<char>>
    decreases rest.len(),
{
    match find(rest, fence_open()) {
        None => Seq::empty(),
        Some(st) => {
            let r1 = rest.skip(st + fence_open().len());
            let r2 = after_fence_line(r1);
            match find(r2, fence()) {
                None => Seq::empty(),
                Some(e) => {
                    proof {
                        lemma_find_from(rest, fence_open(), 0);
                        lemma_find_from(r1, seq!['\n'], 0);
                        lemma_find_from(r2, fence(), 0);
                    }
                    block_call(r2.take(e)) + fenced_names(r2.skip(e + fence().len()))
                },
            }
        },
    }
}

/// The tool names of the calls in `text`: those of its `<tool_call>` blocks, or,
/// when these give none, those of its ```` ```tool_call ```` blocks.
pub open spec fn xml_call_names(text: Seq<char>) -> Seq<Seq<char>> {
    if xml_names(text).len() > 0 {
        xml_names(text)
    } else {
        fenced_names(text)
    }
}

/// The names of a list of parsed calls.
pub open spec fn names_of(calls: Seq<(String, Value)>) -> Seq<Seq<char>> {
    calls.map_values(|p: (String, Value)| p.0@)
}

proof fn lemma_names_push(calls: Seq<(String, Value)>, c: (String, Value))
    ensures
        names_of(calls.push(c)) == names_of(calls).push(c.0@),
{
    assert(names_of(calls.push(c)) =~= names_of(calls).push(c.0@));
}

/// Reads one block and, when it holds a call, appends it to `out`.
fn collect_block(block: &Vec<char>, out: &mut Vec<(String, Value)>)
    ensures
        names_of(final(out)@) == names_of(old(out)@) + block_call(block@),
        args_of(final(out)@) == args_of(old(out)@) + block_args(block@),
{
    let inner = trim_text(string_of(block).as_str());
    match parse_tool_call_json(inner.as_str()) {
        Some(call) => {
            proof {
                lemma_names_push(out@, call);
            }
            out.push(call);
            assert(names_of(out@) =~= names_of(old(out)@) + block_call(block@));
            assert(args_of(out@) =~= args_of(old(out)@) + block_args(block@));
        },
        None => {
            assert(names_of(out@) =~= names_of(old(out)@) + block_call(block@));
            assert(args_of(out@) =~= args_of(old(out)@) + block_args(block@));
        },
    }
}

fn collect_xml(rest: &Vec<char>, out: &mut Vec<(String, Value)>)
    ensures
        names_of(final(out)@) == names_of(old(out)@) + xml_names(rest@),
        args_of(final(out)@) == args_of(old(out)@) + xml_args(rest@),
    decreases rest@.len(),
{
    let open = open_tag_exec();
    let close = close_tag_exec();
    match find_in(rest, &open, 0) {
        None => {
            assert(names_of(out@) =~= names_of(old(out)@) + xml_names(rest@));
            assert(args_of(out@) =~= args_of(old(out)@) + xml_args(rest@));
        },
        Some(st) => {
            proof {
                lemma_find_from(rest@, open_tag(), 0);
                assert(open_tag().len() == 11);
                assert(occurs_at(rest@, open_tag(), st as int));
                assert(st + 11 <= rest@.len());
            }
            let len = rest.len();
            let r1 = slice_chars(rest, st + 11, len);
            assert(r1@ =~= rest@.skip(st + open_tag().len()));
            match find_in(&r1, &close, 0) {
                None => {
                    assert(names_of(out@) =~= names_of(old(out)@) + xml_names(rest@));
                    assert(args_of(out@) =~= args_of(old(out)@) + xml_args(rest@));
                },
                Some(e) => {
                    proof {
                        lemma_find_from(r1@, close_tag(), 0);
                    }
                    let block = slice_chars(&r1, 0, e);
                    assert(block@ =~= r1@.take(e as int));
                    collect_block(&block, out);
                    let next = slice_chars(&r1, e + 12, r1.len());
                    assert(next@ =~= r1@.skip(e + close_tag().len()));
                    collect_xml(&next, out);
                    assert(names_of(out@) =~= names_of(old(out)@) + xml_names(rest@));
                    assert(args_of(out@) =~= args_of(old(out)@) + xml_args(rest@));
                },
            }
        },
    }
}

fn collect_fenced(rest: &Vec<char>, out: &mut Vec<(String, Value)>)
    ensures
        names_of(final(out)@) == names_of(old(out)@) + fenced_names(rest@),
        args_of(final(out)@) == args_of(old(out)@) + fenced_args(rest@),
    decreases rest@.len(),
{
    let open = fence_open_exec();
    let close = fence_exec();
    match find_in(rest, &open, 0) {
        None => {
            assert(names_of(out@) =~= names_of(old(out)@) + fenced_names(rest@));
            assert(args_of(out@) =~= args_of(old(out)@) + fenced_args(rest@));
        },
        Some(st) => {
            proof {
                lemma_find_from(rest@, fence_open(), 0);
                assert(fence_open().len() == 12);
                assert(occurs_at(rest@, fence_open(), st as int));
                assert(st + 12 <= rest@.len());
            }
            let len = rest.len();
            let r1 = slice_chars(rest, st + 12, len);
            assert(r1@ =~= rest@.skip(st + fence_open().len()));
            let newline = vec!['\n'];
            assert(newline@ =~= seq!['\n']);
            let r2 = match find_in(&r1, &newline, 0) {
                Some(nl) => {
                    proof {
                        lemma_find_from(r1@, seq!['\n'], 0);
                    }
                    let r = slice_chars(&r1, nl + 1, r1.len());
                    assert(r@ =~= r1@.skip(nl + 1));
                    r
                },
                None => r1,
            };
            assert(r2@ == after_fence_line(rest@.skip(st + fence_open().len())));
            match find_in(&r2, &close, 0) {
                None => {
                    assert(names_of(out@) =~= names_of(old(out)@) + fenced_names(rest@));
                    assert(args_of(out@) =~= args_of(old(out)@) + fenced_args(rest@));
                },
                Some(e) => {
                    proof {
                        lemma_find_from(r2@, fence(), 0);
                    }
                    let block = slice_chars(&r2, 0, e);
                    assert(block@ =~= r2@.take(e as int));
                    collect_block(&block, out);
                    let next = slice_chars(&r2, e + 3, r2.len());
                    assert(next@ =~= r2@.skip(e + fence().len()));
                    collect_fenced(&next, out);
                    assert(names_of(out@) =~= names_of(old(out)@) + fenced_names(rest@));
                    assert(args_of(out@) =~= args_of(old(out)@) + fenced_args(rest@));
                },
            }
        },
    }
}

/// The calls written as `<tool_call>{...}</tool_call>` blocks or, when there are
/// none, as ```` ```tool_call ```` fenced blocks, in order. Blocks that do not read
/// as a call are skipped.
pub fn extract_xml_tool_calls(text: &str) -> (r: Vec<(String, Value)>)
    ensures
        names_of(r@) == xml_call_names(text@),
        args_of(r@) == xml_call_args(text@),
{
    let s = chars_of(text);
    let mut out: Vec<(String, Value)> = Vec::new();
    assert(names_of(out@) =~= Seq::empty());
    assert(args_of(out@) =~= Seq::empty());
    collect_xml(&s, &mut out);
    assert(names_of(out@) =~= xml_names(text@));
    assert(args_of(out@) =~= xml_args(text@));
    if out.len() == 0 {
        collect_fenced(&s, &mut out);
        assert(names_of(out@) =~= fenced_names(text@));
        assert(args_of(out@) =~= fenced_args(text@));
    }
    out
}

} // verus!

verus! {

// ---------------------------------------------------------------------------
// Removing tool-call blocks from displayed text
// ---------------------------------------------------------------------------

/// `rest` with its `<tool_call>...</tool_call>` blocks cut out. Each cut runs from
/// an opening tag to the end of the first closing tag after it; an opening tag
/// with no closing tag after it stops the scan, and the rest of the text is kept.
pub open spec fn strip_xml(rest: Seq<char>) -> Seq<char>
    decreases rest.len(),
{
    match find(rest, open_tag()) {
        None => rest,
        Some(st) => {
            let after = rest.skip(st + open_tag().len());
            match find(after, close_tag()) {
                None => rest,
                Some(e) => {
                    proof {
                        lemma_find_from(rest, open_tag(), 0);
                        lemma_find_from(after, close_tag(), 0);
                    }
                    rest.take(st) + strip_xml(after.skip(e + close_tag().len()))
                },
            }
        },
    }
}

/// Where a fenced block ends, in the text after its opening fence: the first
/// ```` ```\n ````, else the last ```` ``` ````.
pub open spec fn fence_end(after: Seq<char>) -> Option<int> {
    match find(after, fence_newline()) {
        Some(e) => Some(e),
        None => rfind(after, fence()),
    }
}

/// `r` without one leading newline.
pub open spec fn drop_newline(r: Seq<char>) -> Seq<char> {
    if r.len() > 0 && r[0] == '\n' {
        r.skip(1)
    } else {
        r
    }
}

/// `rest` with its ```` ```tool_call ```` fenced blocks cut out, each from its
/// opening fence to the `fence_end` after it and one newline after that; an
/// opening fence with no end after it stops the scan, and the rest is kept.
pub open spec fn strip_fenced(rest: Seq<char>) -> Seq<char>
    decreases rest.len(),
{
    match find(rest, fence_open()) {
        None => rest,
        Some(st) => {
            let after = rest.skip(st + fence_open().len());
            match fence_end(after) {
                None => rest,
                Some(e) => {
                    proof {
                        lemma_find_from(rest, fence_open(), 0);
                        lemma_find_from(after, fence_newline(), 0);
                        lemma_rfind_upto(after, fence(), after.len() - fence().len());
                    }
                    rest.take(st) + strip_fenced(drop_newline(after.skip(e + fence().len())))
                },
            }
        },
    }
}

/// The text shown to the user: `text` without its tool-call blocks.
pub open spec fn stripped(text: Seq<char>) -> Seq<char> {
    strip_fenced(strip_xml(text))
}

fn strip_xml_into(rest: &Vec<char>, out: &mut Vec<char>)
    ensures
        final(out)@ == old(out)@ + strip_xml(rest@),
    decreases rest@.len(),
{
    let open = open_tag_exec();
    let close = close_tag_exec();
    match find_in(rest, &open, 0) {
        None => {
            extend_chars(out, rest);
        },
        Some(st) => {
            proof {
                lemma_find_from(rest@, open_tag(), 0);
                assert(st + 11 <= rest@.len());
            }
            let len = rest.len();
            let after = slice_chars(rest, st + 11, len);
            assert(after@ =~= rest@.skip(st + open_tag().len()));
            match find_in(&after, &close, 0) {
                None => {
                    extend_chars(out, rest);
                },
                Some(e) => {
                    proof {
                        lemma_find_from(after@, close_tag(), 0);
                        assert(e + 12 <= after@.len());
                    }
                    let before = slice_chars(rest, 0, st);
                    assert(before@ =~= rest@.take(st as int));
                    extend_chars(out, &before);
                    let alen = after.len();
                    let next = slice_chars(&after, e + 12, alen);
                    assert(next@ =~= after@.skip(e + close_tag().len()));
                    strip_xml_into(&next, out);
                    assert(out@ =~= old(out)@ + strip_xml(rest@));
                },
            }
        },
    }
}

fn strip_fenced_into(rest: &Vec<char>, out: &mut Vec<char>)
    ensures
        final(out)@ == old(out)@ + strip_fenced(rest@),
    decreases rest@.len(),
{
    let open = fence_open_exec();
    match find_in(rest, &open, 0) {
        None => {
            extend_chars(out, rest);
        },
        Some(st) => {
            proof {
                lemma_find_from(rest@, fence_open(), 0);
                assert(st + 12 <= rest@.len());
            }
            let len = rest.len();
            let after = slice_chars(rest, st + 12, len);
            assert(after@ =~= rest@.skip(st + fence_open().len()));
            let fnl = fence_newline_exec();
            let fen = fence_exec();
            let end = match find_in(&after, &fnl, 0) {
                Some(e) => Some(e),
                None => rfind_in(&after, &fen),
            };
            assert(end matches Some(e) ==> fence_end(after@) == Some(e as int));
            assert(end is None ==> fence_end(after@) is None);
            match end {
                None => {
                    extend_chars(out, rest);
                },
                Some(e) => {
                    proof {
                        lemma_find_from(after@, fence_newline(), 0);
                        lemma_rfind_upto(after@, fence(), after@.len() - fence().len());
                        assert(e + 3 <= after@.len());
                    }
                    let before = slice_chars(rest, 0, st);
                    assert(before@ =~= rest@.take(st as int));
                    extend_chars(out, &before);
                    let alen = after.len();
                    let r = slice_chars(&after, e + 3, alen);
                    assert(r@ =~= after@.skip(e + fence().len()));
                    let next = if r.len() > 0 && r[0] == '\n' {
                        let rl = r.len();
                        let n = slice_chars(&r, 1, rl);
                        assert(n@ =~= r@.skip(1));
                        n
                    } else {
                        r
                    };
                    assert(next@ == drop_newline(after@.skip(e + fence().len())));
                    strip_fenced_into(&next, out);
                    assert(out@ =~= old(out)@ + strip_fenced(rest@));
                },
            }
        },
    }
}

/// `text` without its `<tool_call>` blocks and then without its
/// ```` ```tool_call ```` fenced blocks: what is left to show the user.
pub fn strip_tool_calls(text: &str) -> (r: String)
    ensures
        r@ == stripped(text@),
{
    let s = chars_of(text);
    let mut first: Vec<char> = Vec::new();
    strip_xml_into(&s, &mut first);
    assert(first@ =~= strip_xml(text@));
    let mut second: Vec<char> = Vec::new();
    strip_fenced_into(&first, &mut second);
    assert(second@ =~= strip_fenced(first@));
    string_of(&second)
}

} // verus!

verus! {

// ---------------------------------------------------------------------------
// The tool prompt for models without a native tools API
// ---------------------------------------------------------------------------

pub open spec fn tool_prompt_head() -> Seq<char> {
    "\n\n## Available tools\n"@
}

pub open spec fn tool_prompt_tail() -> Seq<char> {
    "\n\nTo call a tool, output ONLY a tool call block — no other text before it:\n<tool_call>{\"name\": \"tool_name\", \"arguments\": {...}}</tool_call>\n\nCritical rules for tool use:\n- ALWAYS read the file before modifying it — never assume its contents.\n- NEVER output code or file content in your text response. Use write_file to write it.\n- After reading a file, immediately call write_file with the complete updated content.\n- After a tool result: if the task is not yet complete, call the next tool immediately.\n- Only write a final text response when the task is fully and verifiably done."@
}

/// The system-prompt suffix that lists the tools (`tools_json`, their JSON
/// rendering) and tells the model how to write a `<tool_call>` block.
pub fn build_xml_tool_prompt(tools_json: &str) -> (r: String)
    ensures
        r@ == tool_prompt_head() + tools_json@ + tool_prompt_tail(),
{
    let mut r = String::from_str("\n\n## Available tools\n");
    r.append(tools_json);
    r.append("\n\nTo call a tool, output ONLY a tool call block — no other text before it:\n<tool_call>{\"name\": \"tool_name\", \"arguments\": {...}}</tool_call>\n\nCritical rules for tool use:\n- ALWAYS read the file before modifying it — never assume its contents.\n- NEVER output code or file content in your text response. Use write_file to write it.\n- After reading a file, immediately call write_file with the complete updated content.\n- After a tool result: if the task is not yet complete, call the next tool immediately.\n- Only write a final text response when the task is fully and verifiably done.");
    r
}

} // verus!

verus! {

proof fn lemma_xml_names_len(rest: Seq<char>)
    ensures
        xml_names(rest).len() <= rest.len(),
    decreases rest.len(),
{
    match find(rest, open_tag()) {
        None => {},
        Some(st) => {
            lemma_find_from(rest, open_tag(), 0);
            let r1 = rest.skip(st + open_tag().len());
            lemma_find_from(r1, close_tag(), 0);
            match find(r1, close_tag()) {
                None => {},
                Some(e) => {
                    lemma_xml_names_len(r1.skip(e + close_tag().len()));
                },
            }
        },
    }
}

proof fn lemma_fenced_names_len(rest: Seq<char>)
    ensures
        fenced_names(rest).len() <= rest.len(),
    decreases rest.len(),
{
    match find(rest, fence_open()) {
        None => {},
        Some(st) => {
            lemma_find_from(rest, fence_open(), 0);
            let r1 = rest.skip(st + fence_open().len());
            lemma_find_from(r1, seq!['\n'], 0);
            let r2 = after_fence_line(r1);
            lemma_find_from(r2, fence(), 0);
            match find(r2, fence()) {
                None => {},
                Some(e) => {
                    lemma_fenced_names_len(r2.skip(e + fence().len()));
                },
            }
        },
    }
}

/// A text holds at most as many calls as it has characters.
pub proof fn lemma_xml_call_names_len(text: Seq<char>)
    ensures
        xml_call_names(text).len() <= text.len(),
{
    lemma_xml_names_len(text);
    lemma_fenced_names_len(text);
}

} // verus!

verus! {

/// The first occurrence of `n` in `h` is at `k` when it occurs there and nowhere
/// before.
proof fn lemma_first_occurrence(h: Seq<char>, n: Seq<char>, k: int, from: int)
    requires
        0 <= from <= k,
        occurs_at(h, n, k),
        forall|j: int| from <= j < k ==> !occurs_at(h, n, j),
    ensures
        find_from(h, n, from) == Some(k),
    decreases k - from,
{
    if from < k {
        lemma_first_occurrence(h, n, k, from + 1);
    }
}

/// A text with no `<` holds no opening or closing tag.
proof fn lemma_no_tag_in(b: Seq<char>, h: Seq<char>, n: Seq<char>, j: int)
    requires
        0 <= j < b.len(),
        b.len() <= h.len(),
        h.take(b.len() as int) == b,
        n.len() > 0,
        n[0] == '<',
        forall|i: int| 0 <= i < b.len() ==> b[i] != '<',
    ensures
        !occurs_at(h, n, j),
{
    if occurs_at(h, n, j) {
        assert(h.subrange(j, j + n.len())[0] == h[j]);
        assert(h[j] == b[j]);
    }
}

/// Text without tool-call markup holds no calls and is shown unchanged.
pub proof fn lemma_plain_text_has_no_calls(t: Seq<char>)
    requires
        !contains(t, open_tag()),
        !contains(t, fence_open()),
    ensures
        xml_call_names(t) == Seq::<Seq<char>>::empty(),
        stripped(t) == t,
{
    assert(xml_names(t) =~= Seq::<Seq<char>>::empty());
    assert(fenced_names(t) =~= Seq::<Seq<char>>::empty());
    assert(strip_xml(t) == t);
    assert(strip_fenced(t) == t);
}

/// The characters of a one-block reply, region by region.
proof fn lemma_block_chars(b: Seq<char>, j: int)
    requires
        0 <= j < open_tag().len() + b.len() + close_tag().len(),
    ensures
        ({
            let text = open_tag() + b + close_tag();
            let ol = open_tag().len() as int;
            &&& j < ol ==> text[j] == open_tag()[j]
            &&& ol <= j < ol + b.len() ==> text[j] == b[j - ol]
            &&& ol + b.len() <= j ==> text[j] == close_tag()[j - ol - b.len()]
        }),
{
}

proof fn lemma_block_names(b: Seq<char>)
    requires
        forall|i: int| 0 <= i < b.len() ==> b[i] != '<',
    ensures
        xml_names(open_tag() + b + close_tag()) == block_call(b),
{
    let text = open_tag() + b + close_tag();
    let ol = open_tag().len() as int;
    let cl = close_tag().len() as int;
    assert(text.subrange(0, ol) =~= open_tag());
    lemma_first_occurrence(text, open_tag(), 0, 0);
    let r1 = text.skip(ol);
    assert(r1 =~= b + close_tag());
    assert(r1.subrange(b.len() as int, b.len() + cl) =~= close_tag());
    assert(r1.take(b.len() as int) =~= b);
    assert forall|j: int| 0 <= j < b.len() implies !occurs_at(r1, close_tag(), j) by {
        lemma_no_tag_in(b, r1, close_tag(), j);
    }
    lemma_first_occurrence(r1, close_tag(), b.len() as int, 0);
    let rest = r1.skip(b.len() + cl);
    assert(rest =~= Seq::<char>::empty());
    assert(xml_names(rest) =~= Seq::<Seq<char>>::empty());
    assert(block_call(b) + xml_names(rest) =~= block_call(b));
}

proof fn lemma_block_has_no_fence(b: Seq<char>)
    requires
        forall|i: int| 0 <= i < b.len() ==> b[i] != '`',
    ensures
        !contains(open_tag() + b + close_tag(), fence_open()),
{
    let text = open_tag() + b + close_tag();
    assert forall|j: int| !occurs_at(text, fence_open(), j) by {
        if occurs_at(text, fence_open(), j) {
            assert(text.subrange(j, j + 12)[0] == text[j]);
            lemma_block_chars(b, j);
        }
    }
    lemma_find_from(text, fence_open(), 0);
}

proof fn lemma_block_stripped(b: Seq<char>)
    requires
        forall|i: int| 0 <= i < b.len() ==> b[i] != '<',
    ensures
        strip_xml(open_tag() + b + close_tag()) == Seq::<char>::empty(),
{
    let text = open_tag() + b + close_tag();
    let ol = open_tag().len() as int;
    let cl = close_tag().len() as int;
    assert(text.subrange(0, ol) =~= open_tag());
    lemma_first_occurrence(text, open_tag(), 0, 0);
    let r1 = text.skip(ol);
    assert(r1 =~= b + close_tag());
    assert(r1.subrange(b.len() as int, b.len() + cl) =~= close_tag());
    assert(r1.take(b.len() as int) =~= b);
    assert forall|j: int| 0 <= j < b.len() implies !occurs_at(r1, close_tag(), j) by {
        lemma_no_tag_in(b, r1, close_tag(), j);
    }
    lemma_first_occurrence(r1, close_tag(), b.len() as int, 0);
    let rest = r1.skip(b.len() + cl);
    assert(rest =~= Seq::<char>::empty());
    assert(find(rest, open_tag()) is None);
    assert(strip_xml(rest) == rest);
    assert(text.take(0) + strip_xml(rest) =~= Seq::<char>::empty());
}

/// A reply that is one `<tool_call>` block holds exactly the call that the block
/// holds, and shows nothing (the block's text has no `<` and no backquote).
pub proof fn lemma_single_block(b: Seq<char>)
    requires
        forall|i: int| 0 <= i < b.len() ==> b[i] != '<' && b[i] != '`',
    ensures
        xml_call_names(open_tag() + b + close_tag()) == block_call(b),
        stripped(open_tag() + b + close_tag()) == Seq::<char>::empty(),
{
    let text = open_tag() + b + close_tag();
    lemma_block_names(b);
    lemma_block_has_no_fence(b);
    assert(fenced_names(text) =~= Seq::<Seq<char>>::empty());
    lemma_block_stripped(b);
    assert(strip_fenced(Seq::<char>::empty()) == Seq::<char>::empty());
}

/// The end that is found for an object is a closing brace at or after its start.
pub proof fn lemma_object_end_is_closing_brace(s: Seq<char>, start: int)
    ensures
        object_end(s, start) matches Some(e) ==> start <= e < s.len() && s[e] == '}',
{
    lemma_object_end_is_least_close(s, start);
}

/// A text without double quotes is left as it is by the sanitizer: it never
/// enters a string.
pub proof fn lemma_sanitize_without_quotes(s: Seq<char>)
    requires
        forall|i: int| 0 <= i < s.len() ==> s[i] != '"',
    ensures
        sanitized(s) == s,
        !sanitize_run(s).0,
        !sanitize_run(s).1,
    decreases s.len(),
{
    if s.len() > 0 {
        lemma_sanitize_without_quotes(s.drop_last());
        assert(s.drop_last().push(s.last()) =~= s);
    }
}

} // verus!

verus! {

/// The sanitizer's scan of `s` started in the state `st` (inside a string,
/// right after a backslash): the state after it and what `s` becomes.
pub open spec fn sanitize_from(st: (bool, bool), s: Seq<char>) -> (bool, bool, Seq<char>)
    decreases s.len(),
{
    if s.len() == 0 {
        (st.0, st.1, Seq::empty())
    } else {
        let prev = sanitize_from(st, s.drop_last());
        let step = sanitize_step(prev.0, prev.1, s.last());
        (step.0, step.1, prev.2 + step.2)
    }
}

proof fn lemma_sanitize_from_start(s: Seq<char>)
    ensures
        sanitize_from((false, false), s) == sanitize_run(s),
    decreases s.len(),
{
    if s.len() > 0 {
        lemma_sanitize_from_start(s.drop_last());
    }
}

proof fn lemma_sanitize_from_append(st: (bool, bool), a: Seq<char>, b: Seq<char>)
    ensures
        ({
            let r = sanitize_from(st, a);
            let q = sanitize_from((r.0, r.1), b);
            sanitize_from(st, a + b) == (q.0, q.1, r.2 + q.2)
        }),
    decreases b.len(),
{
    if b.len() == 0 {
        assert(a + b =~= a);
        let r = sanitize_from(st, a);
        assert(r.2 + Seq::<char>::empty() =~= r.2);
    } else {
        lemma_sanitize_from_append(st, a, b.drop_last());
        assert((a + b).drop_last() =~= a + b.drop_last());
        assert((a + b).last() == b.last());
        let r = sanitize_from(st, a);
        let q0 = sanitize_from((r.0, r.1), b.drop_last());
        let step = sanitize_step(q0.0, q0.1, b.last());
        assert(r.2 + q0.2 + step.2 =~= r.2 + (q0.2 + step.2));
    }
}

/// Scanning what one character became, from the state it was read in, gives
/// the same again.
proof fn lemma_step_stable(in_str: bool, esc: bool, c: char)
    ensures
        ({
            let step = sanitize_step(in_str, esc, c);
            sanitize_from((in_str, esc), step.2) == step
        }),
{
    let step = sanitize_step(in_str, esc, c);
    let o = step.2;
    let st = (in_str, esc);
    assert(sanitize_from(st, Seq::<char>::empty()) == (in_str, esc, Seq::<char>::empty()));
    if o.len() == 1 {
        assert(o == seq![c]);
        assert(o.drop_last() =~= Seq::<char>::empty());
        assert(o.last() == c);
        assert(Seq::<char>::empty() + step.2 =~= step.2);
    } else {
        assert(in_str && !esc);
        let x = o.last();
        assert(o.drop_last() =~= seq!['\\']);
        assert(seq!['\\'].drop_last() =~= Seq::<char>::empty());
        assert(seq!['\\'].last() == '\\');
        assert(sanitize_step(in_str, false, '\\') == (in_str, true, seq!['\\']));
        assert(Seq::<char>::empty() + seq!['\\'] =~= seq!['\\']);
        assert(sanitize_from(st, seq!['\\']) == (in_str, true, seq!['\\']));
        assert(sanitize_step(in_str, true, x) == (in_str, false, seq![x]));
        assert(seq!['\\'] + seq![x] =~= o);
    }
}

proof fn lemma_sanitize_run_again(s: Seq<char>)
    ensures
        sanitize_from((false, false), sanitized(s)) == sanitize_run(s),
    decreases s.len(),
{
    if s.len() == 0 {
        assert(sanitized(s) =~= Seq::<char>::empty());
    } else {
        let prev = sanitize_run(s.drop_last());
        let step = sanitize_step(prev.0, prev.1, s.last());
        lemma_sanitize_run_again(s.drop_last());
        lemma_sanitize_from_append((false, false), prev.2, step.2);
        lemma_step_stable(prev.0, prev.1, s.last());
    }
}

/// Sanitizing twice gives what sanitizing once gives.
pub proof fn lemma_sanitize_idempotent(s: Seq<char>)
    ensures
        sanitized(sanitized(s)) == sanitized(s),
{
    lemma_sanitize_run_again(s);
    lemma_sanitize_from_start(sanitized(s));
}

} // verus!

verus! {

proof fn lemma_strip_xml_subsequence(rest: Seq<char>)
    ensures
        is_subsequence(strip_xml(rest), rest),
    decreases rest.len(),
{
    lemma_subsequence_refl(rest);
    match find(rest, open_tag()) {
        None => {},
        Some(st) => {
            lemma_find_from(rest, open_tag(), 0);
            let ol = open_tag().len() as int;
            let after = rest.skip(st + ol);
            match find(after, close_tag()) {
                None => {},
                Some(e) => {
                    lemma_find_from(after, close_tag(), 0);
                    let next = after.skip(e + close_tag().len());
                    lemma_strip_xml_subsequence(next);
                    let tail = rest.skip(st);
                    assert(next =~= tail.skip(ol + e + close_tag().len()));
                    lemma_subsequence_of_suffix(strip_xml(next), tail, ol + e + close_tag().len());
                    lemma_subsequence_refl(rest.take(st));
                    lemma_subsequence_concat(rest.take(st), rest.take(st), strip_xml(next), tail);
                    assert(rest.take(st) + tail =~= rest);
                },
            }
        },
    }
}

proof fn lemma_strip_fenced_subsequence(rest: Seq<char>)
    ensures
        is_subsequence(strip_fenced(rest), rest),
    decreases rest.len(),
{
    lemma_subsequence_refl(rest);
    match find(rest, fence_open()) {
        None => {},
        Some(st) => {
            lemma_find_from(rest, fence_open(), 0);
            let fl = fence_open().len() as int;
            let after = rest.skip(st + fl);
            match fence_end(after) {
                None => {},
                Some(e) => {
                    lemma_find_from(after, fence_newline(), 0);
                    lemma_rfind_upto(after, fence(), after.len() - fence().len());
                    let r = after.skip(e + fence().len());
                    let next = drop_newline(r);
                    let k: int = if r.len() > 0 && r[0] == '\n' { 1 } else { 0 };
                    assert(next =~= r.skip(k));
                    lemma_strip_fenced_subsequence(next);
                    let tail = rest.skip(st);
                    let m = fl + e + fence().len() + k;
                    assert(next =~= tail.skip(m));
                    lemma_subsequence_of_suffix(strip_fenced(next), tail, m);
                    lemma_subsequence_refl(rest.take(st));
                    lemma_subsequence_concat(rest.take(st), rest.take(st), strip_fenced(next), tail);
                    assert(rest.take(st) + tail =~= rest);
                },
            }
        },
    }
}

/// The text shown to the user is the reply with parts left out: nothing is
/// added or repeated, so it is never longer than the reply.
pub proof fn lemma_stripped_is_subsequence(t: Seq<char>)
    ensures
        is_subsequence(stripped(t), t),
        stripped(t).len() <= t.len(),
{
    lemma_strip_xml_subsequence(t);
    lemma_strip_fenced_subsequence(strip_xml(t));
    lemma_subsequence_trans(stripped(t), strip_xml(t), t);
    lemma_subsequence_len(stripped(t), t);
}

} // verus!

verus! {

proof fn lemma_no_occurrence_before(x: Seq<char>, h: Seq<char>, n: Seq<char>, j: int)
    requires
        0 <= j < x.len(),
        x.len() <= h.len(),
        h.take(x.len() as int) == x,
        n.len() > 0,
        forall|i: int| 0 <= i < x.len() ==> x[i] != n[0],
    ensures
        !occurs_at(h, n, j),
{
    if occurs_at(h, n, j) {
        assert(h.subrange(j, j + n.len())[0] == h[j]);
        assert(h[j] == x[j]);
    }
}

/// One complete fenced block: the opening fence, a newline, the block's text
/// `x`, the closing fence.
pub open spec fn fenced_block(x: Seq<char>) -> Seq<char> {
    fence_open() + seq!['\n'] + x + fence()
}

/// Reading the fenced blocks of a complete block followed by more text gives
/// the block's call followed by the calls of the rest: every readable fenced
/// block yields its call, in order, and the scan goes on after each block.
pub proof fn lemma_fenced_block_then_rest(x: Seq<char>, b: Seq<char>)
    requires
        forall|i: int| 0 <= i < x.len() ==> x[i] != '`',
    ensures
        fenced_names(fenced_block(x) + b) == block_call(x) + fenced_names(b),
        fenced_args(fenced_block(x) + b) == block_args(x) + fenced_args(b),
{
    let t = fenced_block(x) + b;
    let fl = fence_open().len() as int;
    assert(t.subrange(0, fl) =~= fence_open());
    lemma_first_occurrence(t, fence_open(), 0, 0);
    let r1 = t.skip(fl);
    assert(r1 =~= seq!['\n'] + (x + fence() + b));
    assert(r1.subrange(0, 1) =~= seq!['\n']);
    lemma_first_occurrence(r1, seq!['\n'], 0, 0);
    let r2 = r1.skip(1);
    assert(r2 =~= x + fence() + b);
    assert(after_fence_line(r1) == r2);
    assert(r2.take(x.len() as int) =~= x);
    assert(r2.subrange(x.len() as int, x.len() + 3int) =~= fence());
    assert forall|j: int| 0 <= j < x.len() implies !occurs_at(r2, fence(), j) by {
        lemma_no_occurrence_before(x, r2, fence(), j);
    }
    lemma_first_occurrence(r2, fence(), x.len() as int, 0);
    assert(r2.skip(x.len() + 3int) =~= b);
}

/// The same for all the calls of a text without `<tool_call>` blocks.
pub proof fn lemma_fenced_calls_in_order(x: Seq<char>, b: Seq<char>)
    requires
        forall|i: int| 0 <= i < x.len() ==> x[i] != '`',
        !contains(fenced_block(x) + b, open_tag()),
    ensures
        xml_call_names(fenced_block(x) + b) == block_call(x) + xml_call_names(b),
        xml_call_args(fenced_block(x) + b) == block_args(x) + xml_call_args(b),
{
    lemma_fenced_block_then_rest(x, b);
    let t = fenced_block(x) + b;
    assert(xml_names(t) =~= Seq::<Seq<char>>::empty());
    // `b` is a suffix of `t`, so it holds no opening tag either.
    assert(find(b, open_tag()) is None) by {
        lemma_find_from(b, open_tag(), 0);
        lemma_find_from(t, open_tag(), 0);
        let k = fenced_block(x).len() as int;
        if find(b, open_tag()) is Some {
            let j = find(b, open_tag())->0;
            assert(t.subrange(k + j, k + j + open_tag().len()) =~= b.subrange(j, j + open_tag().len()));
            assert(occurs_at(t, open_tag(), k + j));
        }
    }
    assert(xml_names(b) =~= Seq::<Seq<char>>::empty());
}

} // verus!
