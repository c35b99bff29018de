//! The local tools: which tool a call names, what it needs from its arguments,
//! which paths and commands are refused, and how results are reported. Touching
//! the disk and running processes is left to the caller.
use vstd::prelude::*;
use crate::json::{
    json_bool_at, json_bool_under, json_null, json_null_value, json_parsed, json_str_at,
    json_str_under, json_value_of,
};
use crate::message::{opt_text, ToolDef, ToolSpec};
use crate::tool::ToolResult;
use crate::text::{
    chars_of, contains, contains_text, decimal, extend_chars, find, find_from, find_in, join,
    lemma_find_from, occurs_at, push_decimal, slice_chars, text_le, text_le_exec, text_order,
    lemma_text_order_total, lemma_text_le_total,
    string_of, text_equals, texts,
};

verus! {

broadcast use vstd::string::group_string_axioms;

// ---------------------------------------------------------------------------
// Paths
// ---------------------------------------------------------------------------

/// `s` has the segment `..` starting at index `i`: two dots, with the start of
/// the text or a `/` before them and the end of the text or a `/` after them.
pub open spec fn parent_segment_at(s: Seq<char>, i: int) -> bool {
    &&& 0 <= i
    &&& i + 2 <= s.len()
    &&& s[i] == '.'
    &&& s[i + 1] == '.'
    &&& (i == 0 || s[i - 1] == '/')
    &&& (i + 2 == s.len() || s[i + 2] == '/')
}

/// Whether the path `s` climbs to a parent directory (has a `..` component).
pub open spec fn climbs_up(s: Seq<char>) -> bool {
    exists|i: int| parent_segment_at(s, i)
}

pub open spec fn traversal_message(raw: Seq<char>) -> Seq<char> {
    "パストラバーサルは許可されていません: "@ + raw
}

fn parent_segment_at_exec(s: &Vec<char>, i: usize) -> (r: bool)
    ensures
        r == parent_segment_at(s@, i as int),
{
    if i > s.len() || s.len() - i < 2 {
        return false;
    }
    s[i] == '.' && s[i + 1] == '.' && (i == 0 || s[i - 1] == '/') && (i + 2 == s.len() || s[i
        + 2] == '/')
}

/// Refuses a path with a `..` component; hands back any other path unchanged.
pub fn safe_path(raw: &str) -> (r: Result<&str, String>)
    ensures
        match r {
            Ok(p) => !climbs_up(raw@) && p@ == raw@,
            Err(m) => climbs_up(raw@) && m@ == traversal_message(raw@),
        },
{
    let s = chars_of(raw);
    let mut i: usize = 0;
    while i < s.len()
        invariant
            i <= s@.len(),
            s@ == raw@,
            forall|j: int| 0 <= j < i ==> !parent_segment_at(s@, j),
        decreases s.len() - i,
    {
        if parent_segment_at_exec(&s, i) {
            return Err("パストラバーサルは許可されていません: ".to_string().concat(raw));
        }
        i += 1;
    }
    Ok(raw)
}

// ---------------------------------------------------------------------------
// Commands
// ---------------------------------------------------------------------------

/// The command patterns that `bash` refuses, in the order they are checked.
pub open spec fn banned_patterns() -> Seq<Seq<char>> {
    seq!["rm -rf /"@, ":(){ :|:& };:"@, "dd if=/dev/"@]
}

/// The first refused pattern, in the order of [`banned_patterns`], that occurs in
/// `cmd`.
pub open spec fn first_banned_from(cmd: Seq<char>, k: int) -> Option<Seq<char>>
    decreases banned_patterns().len() - k,
{
    if k < 0 || k >= banned_patterns().len() {
        None
    } else if contains(cmd, banned_patterns()[k]) {
        Some(banned_patterns()[k])
    } else {
        first_banned_from(cmd, k + 1)
    }
}

pub open spec fn first_banned(cmd: Seq<char>) -> Option<Seq<char>> {
    first_banned_from(cmd, 0)
}

pub open spec fn refused_message(pattern: Seq<char>) -> Seq<char> {
    "拒否されたコマンドパターンです: "@ + pattern
}

/// The first refused pattern that occurs in `cmd`, if any.
pub fn banned_pattern_in(cmd: &str) -> (r: Option<&'static str>)
    ensures
        match r {
            Some(p) => first_banned(cmd@) == Some(p@),
            None => first_banned(cmd@) is None,
        },
{
    let patterns = vec!["rm -rf /", ":(){ :|:& };:", "dd if=/dev/"];
    assert(patterns@.map_values(|p: &str| p@) =~= banned_patterns());
    let mut k: usize = 0;
    while k < patterns.len()
        invariant
            k <= patterns@.len(),
            patterns@.len() == banned_patterns().len(),
            patterns@.map_values(|p: &str| p@) == banned_patterns(),
            first_banned(cmd@) == first_banned_from(cmd@, k as int),
        decreases patterns.len() - k,
    {
        let p = patterns[k];
        assert(p@ == banned_patterns()[k as int]);
        if contains_text(cmd, p) {
            return Some(p);
        }
        k += 1;
    }
    None
}

} // verus!

verus! {

// ---------------------------------------------------------------------------
// Tool calls
// ---------------------------------------------------------------------------

/// The arguments of a tool call that the tools read: each string (or flag) that
/// the call's JSON object holds under the key of the same name (for
/// `file_pattern`, the key named after grep's file-name filter option), `None`
/// where the key is absent or holds another kind of value.
pub struct ToolArgs {
    pub path: Option<String>,
    pub content: Option<String>,
    pub command: Option<String>,
    pub pattern: Option<String>,
    pub file_pattern: Option<String>,
    pub case_insensitive: Option<bool>,
    pub old_string: Option<String>,
    pub new_string: Option<String>,
}

/// The abstract content of [`ToolArgs`].
pub struct ArgsView {
    pub path: Option<Seq<char>>,
    pub content: Option<Seq<char>>,
    pub command: Option<Seq<char>>,
    pub pattern: Option<Seq<char>>,
    pub file_pattern: Option<Seq<char>>,
    pub case_insensitive: Option<bool>,
    pub old_string: Option<Seq<char>>,
    pub new_string: Option<Seq<char>>,
}

impl View for ToolArgs {
    type V = ArgsView;

    open spec fn view(&self) -> ArgsView {
        ArgsView {
            path: opt_text(self.path),
            content: opt_text(self.content),
            command: opt_text(self.command),
            pattern: opt_text(self.pattern),
            file_pattern: opt_text(self.file_pattern),
            case_insensitive: self.case_insensitive,
            old_string: opt_text(self.old_string),
            new_string: opt_text(self.new_string),
        }
    }
}

/// The tool arguments that the JSON value `v` holds: each string (or flag) under
/// the key of the same name.
pub open spec fn args_in(v: serde_json::Value) -> ArgsView {
    ArgsView {
        path: json_str_under(v, "path"@),
        content: json_str_under(v, "content"@),
        command: json_str_under(v, "command"@),
        pattern: json_str_under(v, "pattern"@),
        file_pattern: json_str_under(v, "\u{69}nclude"@),
        case_insensitive: json_bool_under(v, "case_insensitive"@),
        old_string: json_str_under(v, "old_string"@),
        new_string: json_str_under(v, "new_string"@),
    }
}

impl ToolArgs {
    /// Reads the tools' argument keys out of a call's JSON arguments.
    pub fn from_json(v: &serde_json::Value) -> (r: ToolArgs)
        ensures
            r@ == args_in(*v),
    {
        ToolArgs {
            path: json_str_at(v, "path"),
            content: json_str_at(v, "content"),
            command: json_str_at(v, "command"),
            pattern: json_str_at(v, "pattern"),
            file_pattern: json_str_at(v, "\u{69}nclude"),
            case_insensitive: json_bool_at(v, "case_insensitive"),
            old_string: json_str_at(v, "old_string"),
            new_string: json_str_at(v, "new_string"),
        }
    }
}

/// What a local tool call comes to once its arguments are checked.
pub enum ToolPlan {
    /// Run `command` with `bash -c`.
    Bash { command: String },
    /// Read the file at `path`.
    ReadFile { path: String },
    /// Write `content` to `path`, creating the parent directories.
    WriteFile { path: String, content: String },
    /// List the directory at `path`.
    ListFiles { path: String },
    /// Run `grep` with these arguments.
    GrepSearch { args: Vec<String> },
    /// Run `find` with these arguments.
    GlobSearch { args: Vec<String> },
    /// Replace the one occurrence of `old_string` in the file at `path`.
    EditFile { path: String, old_string: String, new_string: String },
}

/// The abstract content of a [`ToolPlan`].
pub enum PlanView {
    Bash { command: Seq<char> },
    ReadFile { path: Seq<char> },
    WriteFile { path: Seq<char>, content: Seq<char> },
    ListFiles { path: Seq<char> },
    GrepSearch { args: Seq<Seq<char>> },
    GlobSearch { args: Seq<Seq<char>> },
    EditFile { path: Seq<char>, old_string: Seq<char>, new_string: Seq<char> },
}

impl View for ToolPlan {
    type V = PlanView;

    open spec fn view(&self) -> PlanView {
        match self {
            ToolPlan::Bash { command } => PlanView::Bash { command: command@ },
            ToolPlan::ReadFile { path } => PlanView::ReadFile { path: path@ },
            ToolPlan::WriteFile { path, content } => PlanView::WriteFile {
                path: path@,
                content: content@,
            },
            ToolPlan::ListFiles { path } => PlanView::ListFiles { path: path@ },
            ToolPlan::GrepSearch { args } => PlanView::GrepSearch { args: texts(args@) },
            ToolPlan::GlobSearch { args } => PlanView::GlobSearch { args: texts(args@) },
            ToolPlan::EditFile { path, old_string, new_string } => PlanView::EditFile {
                path: path@,
                old_string: old_string@,
                new_string: new_string@,
            },
        }
    }
}

pub open spec fn plan_result(r: Result<ToolPlan, String>) -> Result<PlanView, Seq<char>> {
    match r {
        Ok(p) => Ok(p@),
        Err(m) => Err(m@),
    }
}

/// The message for a missing argument.
pub open spec fn missing(key: Seq<char>) -> Seq<char> {
    key + " が必要です"@
}

pub open spec fn unknown_tool_message(name: Seq<char>) -> Seq<char> {
    "未知のツール: "@ + name
}

/// The directory searched or listed: the given path, else the current one.
pub open spec fn dir_or_current(path: Option<Seq<char>>) -> Seq<char> {
    match path {
        Some(p) => p,
        None => "."@,
    }
}

/// `grep`'s arguments: recursive with line numbers and no colour, `-i` when the
/// case is ignored, grep's file-name filter option with the file pattern when one
/// is given, then the pattern and the path.
pub open spec fn grep_args(
    pattern: Seq<char>,
    path: Seq<char>,
    case_insensitive: bool,
    file_pattern: Option<Seq<char>>,
) -> Seq<Seq<char>> {
    seq!["-rn"@, "--color=never"@] + (if case_insensitive {
        seq!["-i"@]
    } else {
        Seq::empty()
    }) + (match file_pattern {
        Some(fp) => seq!["--\u{69}nclude="@ + fp],
        None => Seq::empty(),
    }) + seq![pattern, path]
}

/// `find`'s arguments: the files under `path` whose name matches `pattern`,
/// leaving out what lies under hidden directories.
pub open spec fn find_args(pattern: Seq<char>, path: Seq<char>) -> Seq<Seq<char>> {
    seq![path, "-name"@, pattern, "-not"@, "-path"@, "*/.*/*"@]
}

/// What the call of the local tool `name` with the arguments `a` comes to: the
/// first missing argument, refused path or refused command is an error, checked
/// in the order the tool reads them; an unknown name is an error too.
pub open spec fn tool_plan(name: Seq<char>, a: ArgsView) -> Result<PlanView, Seq<char>> {
    if name == "bash"@ {
        match a.command {
            None => Err(missing("command"@)),
            Some(c) => match first_banned(c) {
                Some(p) => Err(refused_message(p)),
                None => Ok(PlanView::Bash { command: c }),
            },
        }
    } else if name == "read_file"@ {
        match a.path {
            None => Err(missing("path"@)),
            Some(p) => if climbs_up(p) {
                Err(traversal_message(p))
            } else {
                Ok(PlanView::ReadFile { path: p })
            },
        }
    } else if name == "write_file"@ {
        match (a.path, a.content) {
            (None, _) => Err(missing("path"@)),
            (Some(_), None) => Err(missing("content"@)),
            (Some(p), Some(c)) => if climbs_up(p) {
                Err(traversal_message(p))
            } else {
                Ok(PlanView::WriteFile { path: p, content: c })
            },
        }
    } else if name == "list_files"@ {
        let p = dir_or_current(a.path);
        if climbs_up(p) {
            Err(traversal_message(p))
        } else {
            Ok(PlanView::ListFiles { path: p })
        }
    } else if name == "grep_search"@ {
        match a.pattern {
            None => Err(missing("pattern"@)),
            Some(pat) => {
                let p = dir_or_current(a.path);
                if climbs_up(p) {
                    Err(traversal_message(p))
                } else {
                    let ci = match a.case_insensitive {
                        Some(b) => b,
                        None => false,
                    };
                    Ok(PlanView::GrepSearch { args: grep_args(pat, p, ci, a.file_pattern) })
                }
            },
        }
    } else if name == "glob_search"@ {
        match a.pattern {
            None => Err(missing("pattern"@)),
            Some(pat) => {
                let p = dir_or_current(a.path);
                if climbs_up(p) {
                    Err(traversal_message(p))
                } else {
                    Ok(PlanView::GlobSearch { args: find_args(pat, p) })
                }
            },
        }
    } else if name == "edit_file"@ {
        match (a.path, a.old_string, a.new_string) {
            (None, _, _) => Err(missing("path"@)),
            (Some(_), None, _) => Err(missing("old_string"@)),
            (Some(_), Some(_), None) => Err(missing("new_string"@)),
            (Some(p), Some(o), Some(n)) => if climbs_up(p) {
                Err(traversal_message(p))
            } else {
                Ok(PlanView::EditFile { path: p, old_string: o, new_string: n })
            },
        }
    } else {
        Err(unknown_tool_message(name))
    }
}

fn missing_message(key: &str) -> (r: String)
    ensures
        r@ == missing(key@),
{
    key.to_string().concat(" が必要です")
}

fn text_of(s: &str) -> (r: String)
    ensures
        r@ == s@,
{
    s.to_string()
}

fn checked_path(p: &str) -> (r: Result<String, String>)
    ensures
        match r {
            Ok(q) => !climbs_up(p@) && q@ == p@,
            Err(m) => climbs_up(p@) && m@ == traversal_message(p@),
        },
{
    match safe_path(p) {
        Ok(q) => Ok(q.to_string()),
        Err(m) => Err(m),
    }
}

fn grep_arg_list(pattern: &str, path: &str, case_insensitive: bool, file_pattern: &Option<String>) -> (r:
    Vec<String>)
    ensures
        texts(r@) == grep_args(pattern@, path@, case_insensitive, opt_text(*file_pattern)),
{
    let mut v: Vec<String> = Vec::new();
    v.push(text_of("-rn"));
    v.push(text_of("--color=never"));
    if case_insensitive {
        v.push(text_of("-i"));
    }
    match file_pattern {
        Some(fp) => v.push(text_of("--\u{69}nclude=").concat(fp.as_str())),
        None => {},
    }
    v.push(text_of(pattern));
    v.push(text_of(path));
    assert(texts(v@) =~= grep_args(pattern@, path@, case_insensitive, opt_text(*file_pattern)));
    v
}

fn find_arg_list(pattern: &str, path: &str) -> (r: Vec<String>)
    ensures
        texts(r@) == find_args(pattern@, path@),
{
    let v = vec![
        text_of(path),
        text_of("-name"),
        text_of(pattern),
        text_of("-not"),
        text_of("-path"),
        text_of("*/.*/*"),
    ];
    assert(texts(v@) =~= find_args(pattern@, path@));
    v
}

/// Checks the call of the local tool `name` with the arguments `args`.
pub fn plan_tool(name: &str, args: &ToolArgs) -> (r: Result<ToolPlan, String>)
    ensures
        plan_result(r) == tool_plan(name@, args@),
{
    if text_equals(name, "bash") {
        match &args.command {
            None => Err(missing_message("command")),
            Some(c) => match banned_pattern_in(c.as_str()) {
                Some(p) => Err(text_of("拒否されたコマンドパターンです: ").concat(p)),
                None => Ok(ToolPlan::Bash { command: c.clone() }),
            },
        }
    } else if text_equals(name, "read_file") {
        match &args.path {
            None => Err(missing_message("path")),
            Some(p) => match checked_path(p.as_str()) {
                Ok(q) => Ok(ToolPlan::ReadFile { path: q }),
                Err(m) => Err(m),
            },
        }
    } else if text_equals(name, "write_file") {
        match (&args.path, &args.content) {
            (None, _) => Err(missing_message("path")),
            (Some(_), None) => Err(missing_message("content")),
            (Some(p), Some(c)) => match checked_path(p.as_str()) {
                Ok(q) => Ok(ToolPlan::WriteFile { path: q, content: c.clone() }),
                Err(m) => Err(m),
            },
        }
    } else if text_equals(name, "list_files") {
        let p = match &args.path {
            Some(p) => p.as_str(),
            None => ".",
        };
        match checked_path(p) {
            Ok(q) => Ok(ToolPlan::ListFiles { path: q }),
            Err(m) => Err(m),
        }
    } else if text_equals(name, "grep_search") {
        match &args.pattern {
            None => Err(missing_message("pattern")),
            Some(pat) => {
                let p = match &args.path {
                    Some(p) => p.as_str(),
                    None => ".",
                };
                match checked_path(p) {
                    Err(m) => Err(m),
                    Ok(_) => {
                        let ci = match args.case_insensitive {
                            Some(b) => b,
                            None => false,
                        };
                        Ok(
                            ToolPlan::GrepSearch {
                                args: grep_arg_list(pat.as_str(), p, ci, &args.file_pattern),
                            },
                        )
                    },
                }
            },
        }
    } else if text_equals(name, "glob_search") {
        match &args.pattern {
            None => Err(missing_message("pattern")),
            Some(pat) => {
                let p = match &args.path {
                    Some(p) => p.as_str(),
                    None => ".",
                };
                match checked_path(p) {
                    Err(m) => Err(m),
                    Ok(_) => Ok(ToolPlan::GlobSearch { args: find_arg_list(pat.as_str(), p) }),
                }
            },
        }
    } else if text_equals(name, "edit_file") {
        match (&args.path, &args.old_string, &args.new_string) {
            (None, _, _) => Err(missing_message("path")),
            (Some(_), None, _) => Err(missing_message("old_string")),
            (Some(_), Some(_), None) => Err(missing_message("new_string")),
            (Some(p), Some(o), Some(n)) => match checked_path(p.as_str()) {
                Ok(q) => Ok(
                    ToolPlan::EditFile { path: q, old_string: o.clone(), new_string: n.clone() },
                ),
                Err(m) => Err(m),
            },
        }
    } else {
        Err(text_of("未知のツール: ").concat(name))
    }
}

} // verus!

verus! {

// ---------------------------------------------------------------------------
// Results
// ---------------------------------------------------------------------------

/// The text that `String::from_utf8_lossy` makes of `bytes`.
pub uninterp spec fn utf8_lossy(bytes: Seq<u8>) -> Seq<char>;

/// std's `String::from_utf8_lossy`. Claimed: the result is `utf8_lossy(bytes)`,
/// and ASCII bytes come out as the same characters (ASCII is valid UTF-8, which
/// the function decodes unchanged). How invalid sequences are replaced is not
/// stated.
#[verifier::external_body]
pub(crate) fn lossy_text(bytes: &Vec<u8>) -> (r: String)
    ensures
        r@ == utf8_lossy(bytes@),
        (forall|i: int| 0 <= i < bytes@.len() ==> bytes@[i] < 128) ==> r@ == bytes@.map_values(
            |b: u8| b as char,
        ),
{
    String::from_utf8_lossy(bytes.as_slice()).into_owned()
}

/// A number in decimal, with a leading `-` when it is negative.
pub open spec fn signed_decimal(n: int) -> Seq<char> {
    if n < 0 {
        seq!['-'] + decimal((-n) as nat)
    } else {
        decimal(n as nat)
    }
}

/// What `bash` reports: its standard output when it succeeded, else `exit`, the
/// exit code (`-1` when a signal ended it), a newline and its standard error.
pub open spec fn bash_report(
    success: bool,
    code: Option<i32>,
    stdout: Seq<u8>,
    stderr: Seq<u8>,
) -> Seq<char> {
    if success {
        utf8_lossy(stdout)
    } else {
        let c: int = match code {
            Some(c) => c as int,
            None => -1,
        };
        "exit "@ + signed_decimal(c) + seq!['\n'] + utf8_lossy(stderr)
    }
}

/// The report of a finished `bash` command.
pub fn bash_output(success: bool, code: Option<i32>, stdout: &Vec<u8>, stderr: &Vec<u8>) -> (r:
    String)
    ensures
        r@ == bash_report(success, code, stdout@, stderr@),
{
    if success {
        return lossy_text(stdout);
    }
    let c: i64 = match code {
        Some(c) => c as i64,
        None => -1,
    };
    let mut digits: Vec<char> = Vec::new();
    if c < 0 {
        digits.push('-');
        push_decimal(&mut digits, (-c) as usize);
    } else {
        push_decimal(&mut digits, c as usize);
    }
    digits.push('\n');
    assert(digits@ == signed_decimal(c as int) + seq!['\n']);
    text_of("exit ").concat(string_of(&digits).as_str()).concat(lossy_text(stderr).as_str())
}

/// The written-file message.
pub open spec fn written_message(path: Seq<char>) -> Seq<char> {
    "書き込み完了: "@ + path
}

pub fn write_report(path: &str) -> (r: String)
    ensures
        r@ == written_message(path@),
{
    text_of("書き込み完了: ").concat(path)
}

// ---------------------------------------------------------------------------
// Lines
// ---------------------------------------------------------------------------

/// The index of the first newline at or after `i`, or the length of `s`.
pub open spec fn line_end(s: Seq<char>, i: int) -> int
    decreases s.len() - i,
{
    if i < 0 || i >= s.len() {
        s.len() as int
    } else if s[i] == '\n' {
        i
    } else {
        line_end(s, i + 1)
    }
}

pub proof fn lemma_line_end(s: Seq<char>, i: int)
    requires
        0 <= i <= s.len(),
    ensures
        i <= line_end(s, i) <= s.len(),
        line_end(s, i) < s.len() ==> s[line_end(s, i)] == '\n',
        forall|j: int| i <= j < line_end(s, i) ==> s[j] != '\n',
    decreases s.len() - i,
{
    if i < s.len() && s[i] != '\n' {
        lemma_line_end(s, i + 1);
    }
}

/// A line that a newline ended loses a carriage return before that newline.
pub open spec fn line_text(s: Seq<char>, i: int, e: int) -> Seq<char> {
    let l = s.subrange(i, e);
    if e < s.len() && l.len() > 0 && l.last() == '\r' {
        l.drop_last()
    } else {
        l
    }
}

/// The lines of `s` from index `i` on, as std's `str::lines` gives them: split at
/// each newline, without the newline and a carriage return just before it, and
/// with no empty line after a final newline.
pub open spec fn lines_from(s: Seq<char>, i: int) -> Seq<Seq<char>>
    decreases s.len() - i,
{
    if i < 0 || i >= s.len() {
        Seq::empty()
    } else {
        let e = line_end(s, i);
        proof {
            lemma_line_end(s, i);
        }
        if e < s.len() {
            seq![line_text(s, i, e)] + lines_from(s, e + 1)
        } else {
            seq![line_text(s, i, e)]
        }
    }
}

pub open spec fn lines_of(s: Seq<char>) -> Seq<Seq<char>> {
    lines_from(s, 0)
}

pub open spec fn line_views(v: Seq<Vec<char>>) -> Seq<Seq<char>> {
    v.map_values(|l: Vec<char>| l@)
}

/// Splits `s` into its lines.
pub fn split_lines(s: &Vec<char>) -> (r: Vec<Vec<char>>)
    ensures
        line_views(r@) == lines_of(s@),
{
    let mut r: Vec<Vec<char>> = Vec::new();
    let mut i: usize = 0;
    while i < s.len()
        invariant
            i <= s@.len(),
            line_views(r@) + lines_from(s@, i as int) == lines_of(s@),
        decreases s.len() - i,
    {
        let mut e = i;
        while e < s.len() && s[e] != '\n'
            invariant
                i <= e <= s@.len(),
                line_end(s@, i as int) == line_end(s@, e as int),
            decreases s.len() - e,
        {
            e += 1;
        }
        proof {
            lemma_line_end(s@, i as int);
        }
        let mut stop = e;
        if e < s.len() && e > i && s[e - 1] == '\r' {
            stop = e - 1;
        }
        let line = slice_chars(s, i, stop);
        assert(line@ == line_text(s@, i as int, e as int));
        let ghost before = line_views(r@);
        r.push(line);
        assert(line_views(r@) == before.push(line@));
        if e < s.len() {
            assert(lines_from(s@, i as int) == seq![line_text(s@, i as int, e as int)]
                + lines_from(s@, e + 1));
            assert(before.push(line@) + lines_from(s@, e + 1) =~= before + lines_from(
                s@,
                i as int,
            ));
            i = e + 1;
        } else {
            assert(before.push(line@) + lines_from(s@, e as int) =~= before + lines_from(
                s@,
                i as int,
            ));
            i = e;
        }
    }
    assert(line_views(r@) + lines_from(s@, i as int) =~= line_views(r@));
    r
}

/// The parts joined with newlines.
fn join_lines(parts: &Vec<Vec<char>>, count: usize) -> (r: Vec<char>)
    requires
        count <= parts@.len(),
    ensures
        r@ == join(line_views(parts@).take(count as int), seq!['\n']),
{
    let mut out: Vec<char> = Vec::new();
    let mut i: usize = 0;
    let ghost all = line_views(parts@);
    while i < count
        invariant
            i <= count <= parts@.len(),
            all == line_views(parts@),
            out@ == join(all.take(i as int), seq!['\n']),
        decreases count - i,
    {
        if i > 0 {
            out.push('\n');
        }
        extend_chars(&mut out, &parts[i]);
        assert(all.take(i + 1).drop_last() =~= all.take(i as int));
        assert(all.take(i + 1).last() == parts@[i as int]@);
        if i == 0 {
            assert(all.take(1) =~= seq![parts@[0]@]);
        }
        i += 1;
    }
    out
}

/// The number of lines a search reports at most.
pub const MAX_LINES: usize = 200;

/// Which search a report is for; they differ in the note on cut-off output.
pub enum SearchKind {
    Grep,
    Glob,
}

pub open spec fn cut_off_note(kind: SearchKind) -> Seq<char> {
    match kind {
        SearchKind::Grep => "\n... (200行以上のため打ち切り)"@,
        SearchKind::Glob => "\n... (200件以上のため打ち切り)"@,
    }
}

/// What a search reports of its output: the first [`MAX_LINES`] lines joined by
/// newlines, a note when there were more, and `マッチなし` when that comes to
/// nothing.
pub open spec fn search_report(output: Seq<char>, kind: SearchKind) -> Seq<char> {
    let ls = lines_of(output);
    let shown = if ls.len() > MAX_LINES { ls.take(MAX_LINES as int) } else { ls };
    let body = join(shown, seq!['\n']);
    let r = if ls.len() > MAX_LINES { body + cut_off_note(kind) } else { body };
    if r.len() == 0 {
        "マッチなし"@
    } else {
        r
    }
}

/// The report of a search whose standard output was `stdout`.
pub fn search_output(stdout: &Vec<u8>, kind: SearchKind) -> (r: String)
    ensures
        r@ == search_report(utf8_lossy(stdout@), kind),
{
    let text = lossy_text(stdout);
    let chars = chars_of(text.as_str());
    let lines = split_lines(&chars);
    let n = lines.len();
    let count = if n > MAX_LINES { MAX_LINES } else { n };
    assert(line_views(lines@).take(n as int) =~= line_views(lines@));
    let mut out = join_lines(&lines, count);
    if n > MAX_LINES {
        let note = match kind {
            SearchKind::Grep => "\n... (200行以上のため打ち切り)",
            SearchKind::Glob => "\n... (200件以上のため打ち切り)",
        };
        extend_chars(&mut out, &chars_of(note));
    }
    if out.len() == 0 {
        text_of("マッチなし")
    } else {
        string_of(&out)
    }
}

} // verus!

verus! {

// ---------------------------------------------------------------------------
// Editing
// ---------------------------------------------------------------------------

/// The number of non-overlapping occurrences of the non-empty `n` in `h` at or
/// after `i`, found from the left.
pub open spec fn count_from(h: Seq<char>, n: Seq<char>, i: int) -> nat
    decreases h.len() - i,
{
    if i < 0 || n.len() == 0 {
        0
    } else {
        match find_from(h, n, i) {
            None => 0,
            Some(k) => {
                proof {
                    lemma_find_from(h, n, i);
                }
                if k + n.len() > h.len() || k < i {
                    0
                } else {
                    1 + count_from(h, n, k + n.len())
                }
            },
        }
    }
}

/// The number of matches std's `str::matches(n).count()` gives: the
/// non-overlapping occurrences found from the left, and for an empty `n` one at
/// each place between (and around) the characters.
pub open spec fn count_matches(h: Seq<char>, n: Seq<char>) -> nat {
    if n.len() == 0 {
        h.len() + 1
    } else {
        count_from(h, n, 0)
    }
}

pub open spec fn not_found_message(path: Seq<char>) -> Seq<char> {
    "old_string がファイル内に見つかりません: "@ + path
}

pub open spec fn ambiguous_message(count: nat) -> Seq<char> {
    "old_string が"@ + decimal(count) + "箇所に存在します。一意になるよう前後の文脈を含めてください"@
}

/// What editing `content` comes to: an error unless `old` occurs exactly once,
/// else the content with that occurrence replaced by `new`.
pub open spec fn edit_outcome(content: Seq<char>, old: Seq<char>, new: Seq<char>, path: Seq<char>) -> Result<Seq<char>, Seq<char>> {
    let c = count_matches(content, old);
    if c == 0 {
        Err(not_found_message(path))
    } else if c > 1 {
        Err(ambiguous_message(c))
    } else {
        let k = find(content, old)->0;
        Ok(content.take(k) + new + content.skip(k + old.len()))
    }
}

pub open spec fn edited_message(path: Seq<char>) -> Seq<char> {
    "編集完了: "@ + path
}

/// The number of matches of `n` in `h`.
pub fn count_occurrences(h: &Vec<char>, n: &Vec<char>) -> (r: usize)
    requires
        h@.len() < usize::MAX,
    ensures
        r == count_matches(h@, n@),
{
    if n.len() == 0 {
        return h.len() + 1;
    }
    let mut count: usize = 0;
    let mut i: usize = 0;
    loop
        invariant
            n@.len() > 0,
            h@.len() < usize::MAX,
            i <= h@.len(),
            count <= i,
            count + count_from(h@, n@, i as int) == count_from(h@, n@, 0),
        decreases h.len() - i,
    {
        match find_in(h, n, i) {
            None => {
                return count;
            },
            Some(k) => {
                proof {
                    lemma_find_from(h@, n@, i as int);
                }
                count += 1;
                i = k + n.len();
            },
        }
    }
}

/// Replaces the one occurrence of `old` in `content` with `new`; refuses when
/// `old` does not occur, or occurs more than once (`path` goes into the
/// message).
pub fn apply_edit(content: &str, old: &str, new: &str, path: &str) -> (r: Result<String, String>)
    requires
        content@.len() < usize::MAX,
    ensures
        match r {
            Ok(t) => edit_outcome(content@, old@, new@, path@) == Ok::<Seq<char>, Seq<char>>(t@),
            Err(m) => edit_outcome(content@, old@, new@, path@) == Err::<Seq<char>, Seq<char>>(m@),
        },
{
    let h = chars_of(content);
    let n = chars_of(old);
    let count = count_occurrences(&h, &n);
    if count == 0 {
        return Err(text_of("old_string がファイル内に見つかりません: ").concat(path));
    }
    if count > 1 {
        let mut digits: Vec<char> = Vec::new();
        push_decimal(&mut digits, count);
        return Err(
            text_of("old_string が").concat(string_of(&digits).as_str()).concat(
                "箇所に存在します。一意になるよう前後の文脈を含めてください",
            ),
        );
    }
    let k = match find_in(&h, &n, 0) {
        Some(k) => k,
        None => {
            proof {
                lemma_find_from(h@, n@, 0);
                if n@.len() == 0 {
                    assert(occurs_at(h@, n@, 0)) by {
                        assert(h@.subrange(0, 0) =~= n@);
                    }
                } else {
                    assert(count_from(h@, n@, 0) == 0);
                }
            }
            return Err(text_of("old_string がファイル内に見つかりません: ").concat(path));
        },
    };
    proof {
        lemma_find_from(h@, n@, 0);
    }
    let mut out = slice_chars(&h, 0, k);
    extend_chars(&mut out, &chars_of(new));
    let rest = slice_chars(&h, k + n.len(), h.len());
    extend_chars(&mut out, &rest);
    Ok(string_of(&out))
}

} // verus!

verus! {

// ---------------------------------------------------------------------------
// The local tools offered to a model
// ---------------------------------------------------------------------------

/// The names of the local tools, in the order they are offered.
pub open spec fn local_tool_names() -> Seq<Seq<char>> {
    seq![
        "bash"@,
        "read_file"@,
        "write_file"@,
        "list_files"@,
        "grep_search"@,
        "glob_search"@,
        "edit_file"@,
    ]
}

/// Their descriptions, in the same order.
pub open spec fn local_tool_descriptions() -> Seq<Seq<char>> {
    seq![
        "bash コマンドを実行して stdout/stderr を返す"@,
        "ファイルの内容をテキストとして返す"@,
        "ファイルにテキストを書き込む（上書き）"@,
        "ディレクトリ内のファイル一覧を返す"@,
        "正規表現パターンでファイルを再帰検索し、マッチした行を返す"@,
        "ファイル名の glob パターンでファイルを再帰検索し、パス一覧を返す"@,
        "ファイル内の文字列を1箇所だけ置換する。old_string はファイル内で一意である必要がある"@,
    ]
}

/// Their parameter schemas, as JSON text, in the same order.
pub open spec fn local_tool_schemas() -> Seq<Seq<char>> {
    seq![
        "{\"type\":\"object\",\"properties\":{\"command\":{\"type\":\"string\",\"description\":\"実行するシェルコマンド\"}},\"required\":[\"command\"]}"@,
        "{\"type\":\"object\",\"properties\":{\"path\":{\"type\":\"string\",\"description\":\"読み込むファイルパス\"}},\"required\":[\"path\"]}"@,
        "{\"type\":\"object\",\"properties\":{\"path\":{\"type\":\"string\"},\"content\":{\"type\":\"string\"}},\"required\":[\"path\",\"content\"]}"@,
        "{\"type\":\"object\",\"properties\":{\"path\":{\"type\":\"string\",\"description\":\"対象ディレクトリ（省略時はカレント）\"}}}"@,
        "{\"type\":\"object\",\"properties\":{\"pattern\":{\"type\":\"string\",\"description\":\"検索する正規表現\"},\"path\":{\"type\":\"string\",\"description\":\"検索対象ディレクトリ（省略時はカレント）\"},\"\\u0069nclude\":{\"type\":\"string\",\"description\":\"対象ファイルの glob パターン（例: *.rs）\"},\"case_insensitive\":{\"type\":\"boolean\",\"description\":\"大文字小文字を無視するか（デフォルト false）\"}},\"required\":[\"pattern\"]}"@,
        "{\"type\":\"object\",\"properties\":{\"pattern\":{\"type\":\"string\",\"description\":\"ファイル名の glob パターン（例: *.rs, test_*.py）\"},\"path\":{\"type\":\"string\",\"description\":\"検索対象ディレクトリ（省略時はカレント）\"}},\"required\":[\"pattern\"]}"@,
        "{\"type\":\"object\",\"properties\":{\"path\":{\"type\":\"string\",\"description\":\"編集対象のファイルパス\"},\"old_string\":{\"type\":\"string\",\"description\":\"置換前の文字列（ファイル内で一意であること）\"},\"new_string\":{\"type\":\"string\",\"description\":\"置換後の文字列\"}},\"required\":[\"path\",\"old_string\",\"new_string\"]}"@,
    ]
}

/// The value of a schema's JSON text (JSON `null` should the text not read).
pub open spec fn schema_value(schema: Seq<char>) -> serde_json::Value {
    match json_parsed(schema) {
        Some(v) => v,
        None => json_null_value(),
    }
}

/// A tool definition of kind `function`; its parameters are `schema` read as
/// JSON (JSON `null` should the text not read).
fn local_tool(name: &str, description: &str, schema: &str) -> (r: ToolDef)
    ensures
        r@.kind == "function"@,
        r@.name == name@,
        r@.description == description@,
        r@.parameters == schema_value(schema@),
{
    let parameters = match json_value_of(schema) {
        Some(v) => v,
        None => json_null(),
    };
    ToolDef {
        kind: text_of("function"),
        function: ToolSpec {
            name: text_of(name),
            description: text_of(description),
            parameters,
        },
    }
}

/// The definitions of the seven local tools: each of kind `function`, with the
/// names and descriptions above and the schema that goes with it.
pub fn all_tool_defs() -> (r: Vec<ToolDef>)
    ensures
        r@.len() == local_tool_names().len(),
        forall|i: int|
            0 <= i < r@.len() ==> {
                &&& (#[trigger] r@[i])@.kind == "function"@
                &&& r@[i]@.name == local_tool_names()[i]
                &&& r@[i]@.description == local_tool_descriptions()[i]
                &&& r@[i]@.parameters == schema_value(local_tool_schemas()[i])
            },
{
    let names = vec![
        "bash",
        "read_file",
        "write_file",
        "list_files",
        "grep_search",
        "glob_search",
        "edit_file",
    ];
    let descriptions = vec![
        "bash コマンドを実行して stdout/stderr を返す",
        "ファイルの内容をテキストとして返す",
        "ファイルにテキストを書き込む（上書き）",
        "ディレクトリ内のファイル一覧を返す",
        "正規表現パターンでファイルを再帰検索し、マッチした行を返す",
        "ファイル名の glob パターンでファイルを再帰検索し、パス一覧を返す",
        "ファイル内の文字列を1箇所だけ置換する。old_string はファイル内で一意である必要がある",
    ];
    let schemas = vec![
        "{\"type\":\"object\",\"properties\":{\"command\":{\"type\":\"string\",\"description\":\"実行するシェルコマンド\"}},\"required\":[\"command\"]}",
        "{\"type\":\"object\",\"properties\":{\"path\":{\"type\":\"string\",\"description\":\"読み込むファイルパス\"}},\"required\":[\"path\"]}",
        "{\"type\":\"object\",\"properties\":{\"path\":{\"type\":\"string\"},\"content\":{\"type\":\"string\"}},\"required\":[\"path\",\"content\"]}",
        "{\"type\":\"object\",\"properties\":{\"path\":{\"type\":\"string\",\"description\":\"対象ディレクトリ（省略時はカレント）\"}}}",
        "{\"type\":\"object\",\"properties\":{\"pattern\":{\"type\":\"string\",\"description\":\"検索する正規表現\"},\"path\":{\"type\":\"string\",\"description\":\"検索対象ディレクトリ（省略時はカレント）\"},\"\\u0069nclude\":{\"type\":\"string\",\"description\":\"対象ファイルの glob パターン（例: *.rs）\"},\"case_insensitive\":{\"type\":\"boolean\",\"description\":\"大文字小文字を無視するか（デフォルト false）\"}},\"required\":[\"pattern\"]}",
        "{\"type\":\"object\",\"properties\":{\"pattern\":{\"type\":\"string\",\"description\":\"ファイル名の glob パターン（例: *.rs, test_*.py）\"},\"path\":{\"type\":\"string\",\"description\":\"検索対象ディレクトリ（省略時はカレント）\"}},\"required\":[\"pattern\"]}",
        "{\"type\":\"object\",\"properties\":{\"path\":{\"type\":\"string\",\"description\":\"編集対象のファイルパス\"},\"old_string\":{\"type\":\"string\",\"description\":\"置換前の文字列（ファイル内で一意であること）\"},\"new_string\":{\"type\":\"string\",\"description\":\"置換後の文字列\"}},\"required\":[\"path\",\"old_string\",\"new_string\"]}",
    ];
    assert(names@.map_values(|s: &str| s@) =~= local_tool_names());
    assert(descriptions@.map_values(|s: &str| s@) =~= local_tool_descriptions());
    assert(schemas@.map_values(|s: &str| s@) =~= local_tool_schemas());
    let mut defs: Vec<ToolDef> = Vec::new();
    let mut i: usize = 0;
    while i < names.len()
        invariant
            names@.len() == 7,
            descriptions@.len() == 7,
            schemas@.len() == 7,
            names@.map_values(|s: &str| s@) == local_tool_names(),
            descriptions@.map_values(|s: &str| s@) == local_tool_descriptions(),
            schemas@.map_values(|s: &str| s@) == local_tool_schemas(),
            i <= 7,
            defs@.len() == i,
            forall|j: int|
                0 <= j < i ==> {
                    &&& (#[trigger] defs@[j])@.kind == "function"@
                    &&& defs@[j]@.name == local_tool_names()[j]
                    &&& defs@[j]@.description == local_tool_descriptions()[j]
                    &&& defs@[j]@.parameters == schema_value(local_tool_schemas()[j])
                },
        decreases 7 - i,
    {
        assert(names@[i as int]@ == local_tool_names()[i as int]);
        assert(descriptions@[i as int]@ == local_tool_descriptions()[i as int]);
        assert(schemas@[i as int]@ == local_tool_schemas()[i as int]);
        defs.push(local_tool(names[i], descriptions[i], schemas[i]));
        i += 1;
    }
    defs
}

/// Runs the local tools; the plan of a call is checked here, its effects are
/// carried out by the caller.
pub struct LocalExecutor;

impl LocalExecutor {
    /// Reads the tool arguments out of `arguments` and checks the call.
    pub fn plan(&self, name: &str, arguments: &serde_json::Value) -> (r: Result<ToolPlan, String>)
        ensures
            plan_result(r) == tool_plan(name@, args_in(*arguments)),
    {
        let args = ToolArgs::from_json(arguments);
        plan_tool(name, &args)
    }

    /// The result reported for the call `call_id`: the output of a tool that
    /// succeeded, or the message of one that failed, marked as an error.
    pub fn report(&self, call_id: &str, outcome: Result<String, String>) -> (r: ToolResult)
        ensures
            r.call_id@ == call_id@,
            match outcome {
                Ok(out) => r.output@ == out@ && !r.is_error,
                Err(m) => r.output@ == m@ && r.is_error,
            },
    {
        match outcome {
            Ok(out) => ToolResult::ok(call_id, out.as_str()),
            Err(m) => ToolResult::err(call_id, m.as_str()),
        }
    }
}

/// The edited-file message.
pub fn edit_report(path: &str) -> (r: String)
    ensures
        r@ == edited_message(path@),
{
    text_of("編集完了: ").concat(path)
}

} // verus!

verus! {

// ---------------------------------------------------------------------------
// Listing a directory
// ---------------------------------------------------------------------------

/// Sorts texts in the order of texts.
pub fn sort_texts(v: Vec<Vec<char>>) -> (r: Vec<Vec<char>>)
    ensures
        line_views(r@) == line_views(v@).sort_by(text_order()),
{
    let ghost input = line_views(v@);
    let mut r: Vec<Vec<char>> = Vec::new();
    let mut i: usize = 0;
    proof {
        lemma_text_order_total();
        assert(line_views(r@) =~= input.take(0));
    }
    while i < v.len()
        invariant
            i <= v@.len(),
            input == line_views(v@),
            vstd::relations::total_ordering(text_order()),
            line_views(r@).to_multiset() == input.take(i as int).to_multiset(),
            vstd::relations::sorted_by(line_views(r@), text_order()),
        decreases v.len() - i,
    {
        let x = v[i].clone();
        // The first place whose text comes after `x`.
        let mut p: usize = 0;
        while p < r.len() && text_le_exec(&r[p], &x)
            invariant
                p <= r@.len(),
                forall|j: int| 0 <= j < p ==> text_le(#[trigger] r@[j]@, x@),
            decreases r.len() - p,
        {
            p += 1;
        }
        let ghost before = line_views(r@);
        proof {
            if p < r@.len() {
                lemma_text_le_total(r@[p as int]@, x@);
            }
        }
        r.insert(p, x);
        proof {
            let after = line_views(r@);
            assert(after =~= before.insert(p as int, x@));
            assert forall|a: int, b: int| 0 <= a < b < after.len() implies #[trigger] text_order()(
                after[a],
                after[b],
            ) by {
                if b == p {
                } else if a == p {
                    assert(text_order()(x@, before[p as int]));
                    assert(text_order()(before[p as int], before[b - 1]) || b - 1 == p);
                } else {
                }
            }
            assert(input.take(i + 1) =~= input.take(i as int).push(input[i as int]));
            assert(x@ == input[i as int]);
            vstd::seq_lib::to_multiset_insert(before, p as int, x@);
            vstd::seq_lib::to_multiset_build(input.take(i as int), input[i as int]);
        }
        i += 1;
    }
    proof {
        assert(input.take(v@.len() as int) =~= input);
        input.lemma_sort_by_ensures(text_order());
        vstd::seq_lib::lemma_sorted_unique(line_views(r@), input.sort_by(text_order()), text_order());
    }
    r
}

/// How a directory entry is listed: its name, with a `/` after a directory's.
pub open spec fn entry_text(name: Seq<char>, is_dir: bool) -> Seq<char> {
    if is_dir {
        name + seq!['/']
    } else {
        name
    }
}

pub open spec fn entry_texts(entries: Seq<(String, bool)>) -> Seq<Seq<char>> {
    entries.map_values(|e: (String, bool)| entry_text(e.0@, e.1))
}

/// A directory's listing: its entries in the order of texts, one per line.
pub open spec fn listing(entries: Seq<(String, bool)>) -> Seq<char> {
    join(entry_texts(entries).sort_by(text_order()), seq!['\n'])
}

/// The listing of the entries `(name, is_dir)` of a directory.
pub fn list_report(entries: &Vec<(String, bool)>) -> (r: String)
    ensures
        r@ == listing(entries@),
{
    let mut texts_v: Vec<Vec<char>> = Vec::new();
    let mut i: usize = 0;
    while i < entries.len()
        invariant
            i <= entries@.len(),
            line_views(texts_v@) == entry_texts(entries@).take(i as int),
        decreases entries.len() - i,
    {
        let mut t = chars_of(entries[i].0.as_str());
        if entries[i].1 {
            t.push('/');
        }
        assert(t@ == entry_text(entries@[i as int].0@, entries@[i as int].1));
        let ghost before = line_views(texts_v@);
        texts_v.push(t);
        assert(line_views(texts_v@) =~= before.push(t@));
        assert(entry_texts(entries@).take(i + 1) =~= entry_texts(entries@).take(i as int).push(
            entry_text(entries@[i as int].0@, entries@[i as int].1),
        ));
        i += 1;
    }
    assert(entry_texts(entries@).take(entries@.len() as int) =~= entry_texts(entries@));
    let sorted = sort_texts(texts_v);
    let n = sorted.len();
    assert(line_views(sorted@).take(n as int) =~= line_views(sorted@));
    string_of(&join_lines(&sorted, n))
}

} // verus!

verus! {

/// A listing holds each entry once per occurrence, and in order.
pub proof fn lemma_listing_sorted(entries: Seq<(String, bool)>)
    ensures
        entry_texts(entries).sort_by(text_order()).to_multiset() == entry_texts(entries).to_multiset(),
        vstd::relations::sorted_by(entry_texts(entries).sort_by(text_order()), text_order()),
{
    lemma_text_order_total();
    entry_texts(entries).lemma_sort_by_ensures(text_order());
}

/// A path without `..` components is accepted; one with such a component is
/// refused whatever else it holds.
pub proof fn lemma_dotless_path_accepted(s: Seq<char>)
    requires
        forall|i: int| 0 <= i < s.len() ==> s[i] != '.',
    ensures
        !climbs_up(s),
{
}

/// An edit that succeeds replaced the one occurrence of the old text: the result
/// is the content with the new text in its place.
pub proof fn lemma_edit_replaces_once(content: Seq<char>, old: Seq<char>, new: Seq<char>, path: Seq<char>)
    requires
        edit_outcome(content, old, new, path) is Ok,
    ensures
        count_matches(content, old) == 1,
        ({
            let k = find(content, old)->0;
            &&& 0 <= k && k + old.len() <= content.len()
            &&& content.subrange(k, k + old.len()) == old
            &&& edit_outcome(content, old, new, path)->Ok_0 == content.take(k) + new + content.skip(
                k + old.len(),
            )
        }),
{
    lemma_find_from(content, old, 0);
    if old.len() > 0 {
        if find(content, old) is None {
            assert(count_from(content, old, 0) == 0);
        }
    } else {
        assert(content.subrange(0, 0) =~= old);
    }
}

} // verus!

verus! {

/// A `grep_search` call with a pattern and an allowed path plans a `grep` whose
/// arguments are the two fixed options, `-i` exactly when the call's
/// `case_insensitive` flag is present and true, the file-name filter exactly when
/// a file pattern is given, then the pattern and the directory (the current one
/// when none is given).
pub proof fn lemma_grep_case_flag(a: ArgsView, pat: Seq<char>)
    requires
        a.pattern == Some(pat),
        !climbs_up(dir_or_current(a.path)),
    ensures
        ({
            let ci = a.case_insensitive == Some(true);
            let extra: int = (if ci { 1int } else { 0int }) + (if a.file_pattern is Some { 1int } else { 0int });
            tool_plan("grep_search"@, a) matches Ok(PlanView::GrepSearch { args }) && {
                &&& args.len() == 4 + extra
                &&& args[0] == "-rn"@
                &&& args[1] == "--color=never"@
                &&& ci ==> args[2] == "-i"@
                &&& !ci && a.file_pattern is None ==> args[2] == pat
                &&& args[args.len() - 2] == pat
                &&& args[args.len() - 1] == dir_or_current(a.path)
            }
        }),
{
    reveal_strlit("grep_search");
    reveal_strlit("bash");
    reveal_strlit("read_file");
    reveal_strlit("write_file");
    reveal_strlit("list_files");
    assert("grep_search"@.len() == 11);
    assert("grep_search"@ != "bash"@ && "grep_search"@ != "read_file"@);
    assert("grep_search"@ != "write_file"@ && "grep_search"@ != "list_files"@);
    let p = dir_or_current(a.path);
    let ci = match a.case_insensitive {
        Some(b) => b,
        None => false,
    };
    assert(ci == (a.case_insensitive == Some(true)));
    let args = grep_args(pat, p, ci, a.file_pattern);
    assert(tool_plan("grep_search"@, a) == Ok::<PlanView, Seq<char>>(PlanView::GrepSearch { args }));
}

} // verus!

verus! {

/// A path with a `..` component anywhere is refused: at the start, between two
/// slashes, or at the end.
pub proof fn lemma_parent_component_refused(x: Seq<char>, y: Seq<char>)
    ensures
        (y.len() == 0 || y[0] == '/') ==> climbs_up(seq!['.', '.'] + y),
        climbs_up(x + seq!['/', '.', '.', '/'] + y),
        climbs_up(x + seq!['/', '.', '.']),
{
    let p1 = seq!['.', '.'] + y;
    if y.len() == 0 || y[0] == '/' {
        assert(parent_segment_at(p1, 0));
    }
    let p2 = x + seq!['/', '.', '.', '/'] + y;
    assert(parent_segment_at(p2, x.len() + 1int));
    let p3 = x + seq!['/', '.', '.'];
    assert(parent_segment_at(p3, x.len() + 1int));
}

/// A command holding a refused pattern anywhere is refused.
pub proof fn lemma_banned_anywhere(c: Seq<char>)
    ensures
        (exists|k: int| 0 <= k < banned_patterns().len() && contains(c, #[trigger] banned_patterns()[k]))
            <==> first_banned(c) is Some,
        first_banned(c) matches Some(p) ==> contains(c, p) && banned_patterns().contains(p),
{
    reveal_with_fuel(first_banned_from, 4);
    let ps = banned_patterns();
    assert(ps.len() == 3);
    if contains(c, ps[0]) {
        assert(first_banned(c) == Some(ps[0]));
    } else if contains(c, ps[1]) {
        assert(first_banned(c) == Some(ps[1]));
    } else if contains(c, ps[2]) {
        assert(first_banned(c) == Some(ps[2]));
    } else {
        assert(first_banned(c) is None);
        assert forall|k: int| 0 <= k < ps.len() implies !contains(c, #[trigger] ps[k]) by {
            if k == 0 {} else if k == 1 {} else {}
        }
    }
}

} // verus!
