//! The command line: arguments, the model chosen for a task, and the rule-based
//! guess of the task from the prompt.
use vstd::prelude::*;
use crate::message::{opt_text, ToolDef, ToolDefView};
use crate::ollama::{compat_mode_prefixes, has_prefix_in, is_compat_model, is_xml_mode_model, xml_mode_prefixes};
use crate::text::{
    chars_of, contains, contains_text, join, join_from, lowercase, slice_chars, string_of, text_equals,
    texts, to_lowercase_text, trim_text, trimmed,
};

verus! {

// ---------------------------------------------------------------------------
// Tasks
// ---------------------------------------------------------------------------

/// The model recommended for a task, by the evaluation: `gemma3:12b` for
/// docstrings, type annotations and tests, `qwen3:8b-nothink` for commit messages,
/// `qwen3:14b` for bug fixes.
pub open spec fn default_model_for(task: Seq<char>) -> Option<Seq<char>> {
    if task == "docstring"@ || task == "type-annotate"@ || task == "test"@ {
        Some("gemma3:12b"@)
    } else if task == "commit-msg"@ {
        Some("qwen3:8b-nothink"@)
    } else if task == "bugfix"@ {
        Some("qwen3:14b"@)
    } else {
        None
    }
}

/// The default model for `task`, if it is a known task.
pub fn task_default_model(task: &str) -> (r: Option<&'static str>)
    ensures
        match r {
            Some(m) => default_model_for(task@) == Some(m@),
            None => default_model_for(task@) is None,
        },
{
    if text_equals(task, "docstring") || text_equals(task, "type-annotate") || text_equals(
        task,
        "test",
    ) {
        Some("gemma3:12b")
    } else if text_equals(task, "commit-msg") {
        Some("qwen3:8b-nothink")
    } else if text_equals(task, "bugfix") {
        Some("qwen3:14b")
    } else {
        None
    }
}

/// Whether `text` contains one of `keywords`.
pub open spec fn contains_any_spec(text: Seq<char>, keywords: Seq<Seq<char>>) -> bool {
    exists|i: int| 0 <= i < keywords.len() && contains(text, #[trigger] keywords[i])
}

pub fn contains_any(text: &str, keywords: &Vec<&str>) -> (r: bool)
    ensures
        r == contains_any_spec(text@, keywords@.map_values(|k: &str| k@)),
{
    let ghost ks = keywords@.map_values(|k: &str| k@);
    let mut i: usize = 0;
    while i < keywords.len()
        invariant
            i <= keywords.len(),
            ks == keywords@.map_values(|k: &str| k@),
            forall|j: int| 0 <= j < i ==> !contains(text@, #[trigger] ks[j]),
        decreases keywords.len() - i,
    {
        if contains_text(text, keywords[i]) {
            assert(contains(text@, ks[i as int]));
            return true;
        }
        i += 1;
    }
    false
}

pub open spec fn type_annotate_keywords() -> Seq<Seq<char>> {
    seq!["type hint"@, "type annotation"@, "型アノテーション"@, "型ヒント"@, "型を付"@]
}

pub open spec fn docstring_keywords() -> Seq<Seq<char>> {
    seq!["docstring"@, "ドキュメント"@, "説明を書"@, "document"@]
}

pub open spec fn commit_keywords() -> Seq<Seq<char>> {
    seq!["commit message"@, "コミットメッセージ"@, "コミットメッセ"@, "commit msg"@]
}

pub open spec fn test_keywords() -> Seq<Seq<char>> {
    seq![
        "pytest"@,
        "unittest"@,
        "テストコード"@,
        "テストを書"@,
        "テストを生成"@,
        "test case"@,
        "write test"@,
        "generate test"@,
    ]
}

pub open spec fn bugfix_keywords() -> Seq<Seq<char>> {
    seq!["バグ"@, "bug"@, "エラー"@, "error"@, "修正して"@, "直して"@, "fix"@]
}

/// The task that a prompt asks for, by keywords in its lowercase form, the more
/// specific tasks first.
pub open spec fn classify_task_spec(prompt: Seq<char>) -> Option<Seq<char>> {
    let lower = lowercase(prompt);
    if contains_any_spec(lower, type_annotate_keywords()) {
        Some("type-annotate"@)
    } else if contains_any_spec(lower, docstring_keywords()) {
        Some("docstring"@)
    } else if contains_any_spec(lower, commit_keywords()) {
        Some("commit-msg"@)
    } else if contains_any_spec(lower, test_keywords()) {
        Some("test"@)
    } else if contains_any_spec(lower, bugfix_keywords()) {
        Some("bugfix"@)
    } else {
        None
    }
}

/// Guesses the task from the prompt's keywords; `None` when no rule applies.
pub fn classify_task(prompt: &str) -> (r: Option<&'static str>)
    ensures
        match r {
            Some(t) => classify_task_spec(prompt@) == Some(t@),
            None => classify_task_spec(prompt@) is None,
        },
{
    let lower = to_lowercase_text(prompt);
    let l = lower.as_str();
    let k1 = vec!["type hint", "type annotation", "型アノテーション", "型ヒント", "型を付"];
    assert(k1@.map_values(|k: &str| k@) =~= type_annotate_keywords());
    if contains_any(l, &k1) {
        return Some("type-annotate");
    }
    let k2 = vec!["docstring", "ドキュメント", "説明を書", "document"];
    assert(k2@.map_values(|k: &str| k@) =~= docstring_keywords());
    if contains_any(l, &k2) {
        return Some("docstring");
    }
    let k3 = vec!["commit message", "コミットメッセージ", "コミットメッセ", "commit msg"];
    assert(k3@.map_values(|k: &str| k@) =~= commit_keywords());
    if contains_any(l, &k3) {
        return Some("commit-msg");
    }
    let k4 = vec![
        "pytest",
        "unittest",
        "テストコード",
        "テストを書",
        "テストを生成",
        "test case",
        "write test",
        "generate test",
    ];
    assert(k4@.map_values(|k: &str| k@) =~= test_keywords());
    if contains_any(l, &k4) {
        return Some("test");
    }
    let k5 = vec!["バグ", "bug", "エラー", "error", "修正して", "直して", "fix"];
    assert(k5@.map_values(|k: &str| k@) =~= bugfix_keywords());
    if contains_any(l, &k5) {
        return Some("bugfix");
    }
    None
}

} // verus!

verus! {

// ---------------------------------------------------------------------------
// Arguments
// ---------------------------------------------------------------------------

/// What the scan of the arguments has gathered so far.
pub struct ArgState {
    pub model: Seq<char>,
    pub model_explicit: bool,
    pub provider: Seq<char>,
    pub base_url: Seq<char>,
    pub plain_output: bool,
    pub prompt: Option<Seq<char>>,
    pub cwd: Option<Seq<char>>,
    pub allowed_tools: Option<Seq<char>>,
    pub vision_model: Option<Seq<char>>,
    pub task: Option<Seq<char>>,
}

/// The state before any argument is read: the model, provider and server
/// address from the environment where it set them, else the defaults.
pub open spec fn initial_args(
    env_model: Option<Seq<char>>,
    env_provider: Option<Seq<char>>,
    env_base_url: Option<Seq<char>>,
) -> ArgState {
    ArgState {
        model: match env_model { Some(m) => m, None => "gemma3:12b"@ },
        model_explicit: false,
        provider: match env_provider { Some(p) => p, None => "ollama"@ },
        base_url: match env_base_url { Some(u) => u, None => "http://localhost:11434"@ },
        plain_output: false,
        prompt: None,
        cwd: None,
        allowed_tools: None,
        vision_model: None,
        task: None,
    }
}

/// A flag that takes the next argument as its value.
pub open spec fn with_value(s: ArgState, flag: Seq<char>, v: Seq<char>) -> ArgState {
    if flag == "--model"@ {
        ArgState { model: v, model_explicit: true, ..s }
    } else if flag == "--task"@ {
        ArgState { task: Some(v), ..s }
    } else if flag == "--provider"@ {
        ArgState { provider: v, ..s }
    } else if flag == "--base-url"@ {
        ArgState { base_url: v, ..s }
    } else if flag == "--cwd"@ {
        ArgState { cwd: Some(v), ..s }
    } else if flag == "--allowed-tools"@ || flag == "--allowedTools"@ {
        ArgState { allowed_tools: Some(v), ..s }
    } else if flag == "--vision-model"@ {
        ArgState { vision_model: Some(v), ..s }
    } else {
        s
    }
}

/// Whether `a` is a flag that takes a value (`--permission-mode` takes one and
/// ignores it).
pub open spec fn takes_value(a: Seq<char>) -> bool {
    a == "--model"@ || a == "--task"@ || a == "--provider"@ || a == "--base-url"@
        || a == "--cwd"@ || a == "--allowed-tools"@ || a == "--allowedTools"@
        || a == "--vision-model"@ || a == "--permission-mode"@
}

/// Reads `raw` from index `i` on: `--plain-output`/`--plain` switch plain output
/// on; a flag with a value takes the next argument (and nothing when there is
/// none); `prompt` takes all the remaining arguments joined by spaces and ends the
/// scan; anything else is skipped.
pub open spec fn scan_args(raw: Seq<Seq<char>>, i: int, s: ArgState) -> ArgState
    decreases raw.len() - i,
{
    if i < 0 || i >= raw.len() {
        s
    } else if raw[i] == "--plain-output"@ || raw[i] == "--plain"@ {
        scan_args(raw, i + 1, ArgState { plain_output: true, ..s })
    } else if takes_value(raw[i]) {
        if i + 1 < raw.len() {
            scan_args(raw, i + 2, with_value(s, raw[i], raw[i + 1]))
        } else {
            s
        }
    } else if raw[i] == "prompt"@ {
        ArgState { prompt: Some(join(raw.skip(i + 1), " "@)), ..s }
    } else {
        scan_args(raw, i + 1, s)
    }
}

/// The abstract content of a [`Cli`].
pub struct CliView {
    pub model: Seq<char>,
    pub provider: Seq<char>,
    pub base_url: Seq<char>,
    pub plain_output: bool,
    pub prompt: Option<Seq<char>>,
    pub cwd: Option<Seq<char>>,
    pub allowed_tools: Option<Seq<char>>,
    pub vision_model: Option<Seq<char>>,
    pub task: Option<Seq<char>>,
    pub model_from_task: bool,
    pub task_auto_detected: bool,
}

/// Whether the task is guessed from the prompt: no `--task`, no `--model`, and a
/// prompt whose keywords name a task.
pub open spec fn task_guessed(s: ArgState) -> bool {
    &&& s.task is None
    &&& !s.model_explicit
    &&& s.prompt is Some
    &&& classify_task_spec(s.prompt->0) is Some
}

/// The task in force after the guess.
pub open spec fn final_task(s: ArgState) -> Option<Seq<char>> {
    if task_guessed(s) {
        classify_task_spec(s.prompt->0)
    } else {
        s.task
    }
}

/// Whether the task picks the model: a task is in force, it has a recommended
/// model, and no `--model` was given.
pub open spec fn model_chosen_by_task(s: ArgState) -> bool {
    &&& final_task(s) matches Some(t)
    &&& !s.model_explicit
    &&& default_model_for(t) is Some
}

/// The model in force: the task's model when the task has one and no `--model`
/// was given, else the scanned model.
pub open spec fn final_model(s: ArgState) -> Seq<char> {
    match final_task(s) {
        Some(t) => if !s.model_explicit && default_model_for(t) is Some {
            default_model_for(t)->0
        } else {
            s.model
        },
        None => s.model,
    }
}

/// The settings that `raw` (the arguments after the program name) and the three
/// environment values give.
pub open spec fn parsed_cli(
    raw: Seq<Seq<char>>,
    env_model: Option<Seq<char>>,
    env_provider: Option<Seq<char>>,
    env_base_url: Option<Seq<char>>,
) -> CliView {
    let s = scan_args(raw, 0, initial_args(env_model, env_provider, env_base_url));
    CliView {
        model: final_model(s),
        provider: s.provider,
        base_url: s.base_url,
        plain_output: s.plain_output,
        prompt: s.prompt,
        cwd: s.cwd,
        allowed_tools: s.allowed_tools,
        vision_model: s.vision_model,
        task: final_task(s),
        model_from_task: model_chosen_by_task(s),
        task_auto_detected: task_guessed(s),
    }
}

/// The settings of one run of the program.
pub struct Cli {
    pub model: String,
    pub provider: String,
    pub base_url: String,
    pub plain_output: bool,
    pub prompt: Option<String>,
    pub cwd: Option<String>,
    /// Tool names separated by commas.
    pub allowed_tools: Option<String>,
    pub vision_model: Option<String>,
    /// The task given with `--task`, or guessed from the prompt.
    pub task: Option<String>,
    /// Whether the task's recommended model was chosen.
    pub model_from_task: bool,
    /// Whether the task was guessed from the prompt.
    pub task_auto_detected: bool,
}

impl View for Cli {
    type V = CliView;

    open spec fn view(&self) -> CliView {
        CliView {
            model: self.model@,
            provider: self.provider@,
            base_url: self.base_url@,
            plain_output: self.plain_output,
            prompt: opt_text(self.prompt),
            cwd: opt_text(self.cwd),
            allowed_tools: opt_text(self.allowed_tools),
            vision_model: opt_text(self.vision_model),
            task: opt_text(self.task),
            model_from_task: self.model_from_task,
            task_auto_detected: self.task_auto_detected,
        }
    }
}

proof fn lemma_prompt_is_no_flag()
    ensures
        !takes_value("prompt"@),
        "prompt"@ != "--plain-output"@,
        "prompt"@ != "--plain"@,
{
    reveal_strlit("prompt");
    reveal_strlit("--plain-output");
    reveal_strlit("--plain");
    reveal_strlit("--model");
    reveal_strlit("--task");
    reveal_strlit("--provider");
    reveal_strlit("--base-url");
    reveal_strlit("--cwd");
    reveal_strlit("--allowed-tools");
    reveal_strlit("--allowedTools");
    reveal_strlit("--vision-model");
    reveal_strlit("--permission-mode");
    assert("prompt"@[0] != "--model"@[0]);
}

fn text_or(v: Option<String>, default: &str) -> (r: String)
    ensures
        r@ == (match v { Some(t) => t@, None => default@ }),
{
    match v {
        Some(t) => t,
        None => default.to_string(),
    }
}

impl Cli {
    /// Reads the arguments `raw` (without the program name); `env_model`,
    /// `env_provider` and `env_base_url` are the values of `SOVEREIGN_MODEL`,
    /// `SOVEREIGN_PROVIDER` and `OLLAMA_BASE_URL` where they are set.
    pub fn from_raw(
        raw: &Vec<String>,
        env_model: Option<String>,
        env_provider: Option<String>,
        env_base_url: Option<String>,
    ) -> (r: Cli)
        ensures
            r@ == parsed_cli(texts(raw@), opt_text(env_model), opt_text(env_provider), opt_text(env_base_url)),
    {
        let ghost rs = texts(raw@);
        let ghost init = initial_args(opt_text(env_model), opt_text(env_provider), opt_text(env_base_url));
        let mut model = text_or(env_model, "gemma3:12b");
        let mut provider = text_or(env_provider, "ollama");
        let mut base_url = text_or(env_base_url, "http://localhost:11434");
        let mut plain_output = false;
        let mut prompt: Option<String> = None;
        let mut cwd: Option<String> = None;
        let mut allowed_tools: Option<String> = None;
        let mut vision_model: Option<String> = None;
        let mut task: Option<String> = None;
        let mut model_explicit = false;
        let len = raw.len();
        let mut i: usize = 0;
        while i < len
            invariant_except_break
                i <= len,
                prompt is None,
                scan_args(rs, i as int, ArgState {
                    model: model@,
                    model_explicit,
                    provider: provider@,
                    base_url: base_url@,
                    plain_output,
                    prompt: opt_text(prompt),
                    cwd: opt_text(cwd),
                    allowed_tools: opt_text(allowed_tools),
                    vision_model: opt_text(vision_model),
                    task: opt_text(task),
                }) == scan_args(rs, 0, init),
            invariant
                len == raw@.len(),
                rs == texts(raw@),
                rs.len() == raw@.len(),
            ensures
                (ArgState {
                    model: model@,
                    model_explicit,
                    provider: provider@,
                    base_url: base_url@,
                    plain_output,
                    prompt: opt_text(prompt),
                    cwd: opt_text(cwd),
                    allowed_tools: opt_text(allowed_tools),
                    vision_model: opt_text(vision_model),
                    task: opt_text(task),
                }) == scan_args(rs, 0, init),
            decreases len - i,
        {
            let a = raw[i].as_str();
            assert(rs[i as int] == a@);
            if text_equals(a, "--plain-output") || text_equals(a, "--plain") {
                plain_output = true;
                i += 1;
            } else if text_equals(a, "prompt") {
                prompt = Some(join_from(raw, i + 1, " "));
                proof {
                    lemma_prompt_is_no_flag();
                }
                break;
            } else if text_equals(a, "--model") || text_equals(a, "--task")
                || text_equals(a, "--provider") || text_equals(a, "--base-url")
                || text_equals(a, "--cwd") || text_equals(a, "--allowed-tools")
                || text_equals(a, "--allowedTools") || text_equals(a, "--vision-model")
                || text_equals(a, "--permission-mode") {
                if i + 1 >= len {
                    i = len;
                    break;
                }
                let v = raw[i + 1].clone();
                assert(rs[i + 1] == v@);
                if text_equals(a, "--model") {
                    model = v;
                    model_explicit = true;
                } else if text_equals(a, "--task") {
                    task = Some(v);
                } else if text_equals(a, "--provider") {
                    provider = v;
                } else if text_equals(a, "--base-url") {
                    base_url = v;
                } else if text_equals(a, "--cwd") {
                    cwd = Some(v);
                } else if text_equals(a, "--allowed-tools") || text_equals(a, "--allowedTools") {
                    allowed_tools = Some(v);
                } else if text_equals(a, "--vision-model") {
                    vision_model = Some(v);
                }
                i += 2;
            } else {
                i += 1;
            }
        }
        let ghost scanned = ArgState {
            model: model@,
            model_explicit,
            provider: provider@,
            base_url: base_url@,
            plain_output,
            prompt: opt_text(prompt),
            cwd: opt_text(cwd),
            allowed_tools: opt_text(allowed_tools),
            vision_model: opt_text(vision_model),
            task: opt_text(task),
        };
        // With no `--task` and no `--model`, guess the task from the prompt.
        let mut task_auto_detected = false;
        if task.is_none() && !model_explicit {
            if let Some(p) = &prompt {
                if let Some(detected) = classify_task(p.as_str()) {
                    task = Some(detected.to_string());
                    task_auto_detected = true;
                }
            }
        }
        assert(opt_text(task) == final_task(scanned));
        assert(task_auto_detected == task_guessed(scanned));
        // A known task picks the model unless `--model` was given.
        let mut model_from_task = false;
        if let Some(t) = &task {
            if !model_explicit {
                if let Some(m) = task_default_model(t.as_str()) {
                    model = m.to_string();
                    model_from_task = true;
                }
            }
        }
        assert(model@ == final_model(scanned));
        assert(model_from_task == model_chosen_by_task(scanned));
        Cli {
            model,
            provider,
            base_url,
            plain_output,
            prompt,
            cwd,
            allowed_tools,
            vision_model,
            task,
            model_from_task,
            task_auto_detected,
        }
    }
}

} // verus!

verus! {

// ---------------------------------------------------------------------------
// The provider
// ---------------------------------------------------------------------------

/// Which client serves the model.
#[derive(PartialEq, Eq, Structural, Clone, Copy, Debug)]
pub enum ProviderKind {
    /// Anthropic's Messages API.
    Anthropic,
    /// Ollama's `/v1/chat/completions`, without streaming, tools in the prompt.
    OllamaCompat,
    /// Ollama's `/api/chat`.
    Ollama,
}

/// `anthropic` picks Anthropic; for any other provider, a model served through
/// the completions endpoint picks that, and the rest go to `/api/chat`.
pub open spec fn provider_kind(provider: Seq<char>, model: Seq<char>) -> ProviderKind {
    if provider == "anthropic"@ {
        ProviderKind::Anthropic
    } else if has_prefix_in(model, compat_mode_prefixes()) {
        ProviderKind::OllamaCompat
    } else {
        ProviderKind::Ollama
    }
}

/// Whether the chosen client offers tools in the system prompt rather than
/// through its API: never for Anthropic, always for the completions endpoint, and
/// for `/api/chat` by the model's name.
pub open spec fn provider_xml_mode(kind: ProviderKind, model: Seq<char>) -> bool {
    match kind {
        ProviderKind::Anthropic => false,
        ProviderKind::OllamaCompat => true,
        ProviderKind::Ollama => has_prefix_in(model, xml_mode_prefixes()),
    }
}

/// The client for `provider` and `model`, and whether it works in XML mode.
pub fn choose_provider(provider: &str, model: &str) -> (r: (ProviderKind, bool))
    ensures
        r.0 == provider_kind(provider@, model@),
        r.1 == provider_xml_mode(r.0, model@),
{
    if text_equals(provider, "anthropic") {
        (ProviderKind::Anthropic, false)
    } else if is_compat_model(model) {
        (ProviderKind::OllamaCompat, true)
    } else {
        (ProviderKind::Ollama, is_xml_mode_model(model))
    }
}

// ---------------------------------------------------------------------------
// Allowed tools
// ---------------------------------------------------------------------------

/// The index of the first `c` at or after `i` in `s`, or the length of `s`.
pub open spec fn char_end(s: Seq<char>, c: char, i: int) -> int
    decreases s.len() - i,
{
    if i < 0 || i >= s.len() {
        s.len() as int
    } else if s[i] == c {
        i
    } else {
        char_end(s, c, i + 1)
    }
}

pub proof fn lemma_char_end(s: Seq<char>, c: char, i: int)
    requires
        0 <= i <= s.len(),
    ensures
        i <= char_end(s, c, i) <= s.len(),
        char_end(s, c, i) < s.len() ==> s[char_end(s, c, i)] == c,
        forall|j: int| i <= j < char_end(s, c, i) ==> s[j] != c,
    decreases s.len() - i,
{
    if i < s.len() && s[i] != c {
        lemma_char_end(s, c, i + 1);
    }
}

/// The pieces of `s` from `i` on between the separators `c`, as std's
/// `str::split(c)` gives them (empty pieces included).
pub open spec fn pieces_from(s: Seq<char>, c: char, i: int) -> Seq<Seq<char>>
    decreases s.len() - i,
{
    if i < 0 || i > s.len() {
        Seq::empty()
    } else {
        let e = char_end(s, c, i);
        proof {
            lemma_char_end(s, c, i);
        }
        if e < s.len() {
            seq![s.subrange(i, e)] + pieces_from(s, c, e + 1)
        } else {
            seq![s.subrange(i, s.len() as int)]
        }
    }
}

/// The tool names that `--allowed-tools` lists: its comma-separated pieces,
/// trimmed.
pub open spec fn allowed_names(list: Seq<char>) -> Seq<Seq<char>> {
    pieces_from(list, ',', 0).map_values(|p: Seq<char>| trimmed(p))
}

/// The definitions whose name is one of `names`, in order.
pub open spec fn kept_tools(defs: Seq<ToolDefView>, names: Seq<Seq<char>>) -> Seq<ToolDefView>
    decreases defs.len(),
{
    if defs.len() == 0 {
        Seq::empty()
    } else {
        let rest = kept_tools(defs.drop_last(), names);
        if names.contains(defs.last().name) {
            rest.push(defs.last())
        } else {
            rest
        }
    }
}

pub open spec fn def_views(defs: Seq<ToolDef>) -> Seq<ToolDefView> {
    defs.map_values(|d: ToolDef| d@)
}

/// The names listed in `list`.
pub fn allowed_tool_names(list: &str) -> (r: Vec<String>)
    ensures
        texts(r@) == allowed_names(list@),
{
    let s = chars_of(list);
    let mut r: Vec<String> = Vec::new();
    let mut i: usize = 0;
    loop
        invariant
            i <= s@.len(),
            s@ == list@,
            texts(r@) + allowed_names_from(s@, i as int) == allowed_names(list@),
        decreases s@.len() - i,
    {
        let mut e = i;
        while e < s.len() && s[e] != ','
            invariant
                i <= e <= s@.len(),
                char_end(s@, ',', i as int) == char_end(s@, ',', e as int),
            decreases s.len() - e,
        {
            e += 1;
        }
        proof {
            lemma_char_end(s@, ',', i as int);
        }
        let piece = string_of(&slice_chars(&s, i, e));
        let name = trim_text(piece.as_str());
        let ghost before = texts(r@);
        r.push(name);
        assert(texts(r@) =~= before.push(trimmed(s@.subrange(i as int, e as int))));
        if e < s.len() {
            assert(allowed_names_from(s@, i as int) =~= seq![trimmed(s@.subrange(i as int, e as int))]
                + allowed_names_from(s@, e + 1));
            assert(before.push(trimmed(s@.subrange(i as int, e as int))) + allowed_names_from(s@, e + 1)
                =~= before + allowed_names_from(s@, i as int));
            i = e + 1;
        } else {
            assert(allowed_names_from(s@, i as int) =~= seq![trimmed(s@.subrange(i as int, e as int))]);
            assert(before.push(trimmed(s@.subrange(i as int, e as int))) =~= before + allowed_names_from(
                s@,
                i as int,
            ));
            return r;
        }
    }
}

/// The trimmed pieces from `i` on.
pub open spec fn allowed_names_from(s: Seq<char>, i: int) -> Seq<Seq<char>> {
    pieces_from(s, ',', i).map_values(|p: Seq<char>| trimmed(p))
}

fn names_contain(names: &Vec<String>, name: &str) -> (r: bool)
    ensures
        r == texts(names@).contains(name@),
{
    let mut i: usize = 0;
    while i < names.len()
        invariant
            i <= names@.len(),
            forall|j: int| 0 <= j < i ==> texts(names@)[j] != name@,
        decreases names.len() - i,
    {
        if text_equals(names[i].as_str(), name) {
            assert(texts(names@)[i as int] == name@);
            return true;
        }
        i += 1;
    }
    false
}

/// The definitions among `defs` whose name `--allowed-tools` lists, in order.
pub fn filter_allowed(defs: Vec<ToolDef>, list: &str) -> (r: Vec<ToolDef>)
    ensures
        def_views(r@) == kept_tools(def_views(defs@), allowed_names(list@)),
{
    let names = allowed_tool_names(list);
    let mut r: Vec<ToolDef> = Vec::new();
    let mut i: usize = 0;
    while i < defs.len()
        invariant
            i <= defs@.len(),
            texts(names@) == allowed_names(list@),
            def_views(r@) == kept_tools(def_views(defs@).take(i as int), allowed_names(list@)),
        decreases defs.len() - i,
    {
        let d = &defs[i];
        let ghost dv = def_views(defs@);
        assert(dv.take(i + 1).drop_last() =~= dv.take(i as int));
        assert(dv.take(i + 1).last() == d@);
        if names_contain(&names, d.function.name.as_str()) {
            let ghost before = def_views(r@);
            r.push(d.duplicate());
            assert(def_views(r@) =~= before.push(d@));
        }
        i += 1;
    }
    assert(def_views(defs@).take(defs@.len() as int) =~= def_views(defs@));
    r
}

// ---------------------------------------------------------------------------
// Input lines
// ---------------------------------------------------------------------------

/// What an input line asks for.
pub enum InputAction {
    /// A blank line: wait for the next one.
    Skip,
    /// `/exit`: stop.
    Exit,
    /// A message for the model: the trimmed line.
    Send(String),
}

/// Reads one input line: trimmed, a blank line is skipped, `/exit` stops, and
/// anything else is sent.
pub fn read_input(line: &str) -> (r: InputAction)
    ensures
        match r {
            InputAction::Skip => trimmed(line@).len() == 0,
            InputAction::Exit => trimmed(line@) == "/exit"@,
            InputAction::Send(t) => t@ == trimmed(line@) && t@.len() > 0 && t@ != "/exit"@,
        },
{
    let t = trim_text(line);
    let c = chars_of(t.as_str());
    if c.len() == 0 {
        InputAction::Skip
    } else if text_equals(t.as_str(), "/exit") {
        InputAction::Exit
    } else {
        InputAction::Send(t)
    }
}

} // verus!

verus! {

/// A model given with `--model` is the model used: no task overrides it, and no
/// task is guessed.
pub proof fn lemma_explicit_model_kept(s: ArgState)
    requires
        s.model_explicit,
    ensures
        final_model(s) == s.model,
        !model_chosen_by_task(s),
        !task_guessed(s),
        final_task(s) == s.task,
{
}

/// A task guessed from a prompt always has a recommended model, so a guess
/// always picks the model.
pub proof fn lemma_guessed_task_has_model(prompt: Seq<char>)
    ensures
        classify_task_spec(prompt) matches Some(t) ==> default_model_for(t) is Some,
{
    reveal_strlit("type-annotate");
    reveal_strlit("docstring");
    reveal_strlit("commit-msg");
    reveal_strlit("test");
    reveal_strlit("bugfix");
}

} // verus!

verus! {

/// A model whose name starts with one of the XML-mode prefixes (`gemma3`, `phi4`,
/// `codestral`, `devstral`, `deepseek`) is offered its tools in the system prompt,
/// whichever Ollama endpoint serves it.
pub proof fn lemma_xml_models_get_xml_mode(provider: Seq<char>, model: Seq<char>)
    requires
        provider != "anthropic"@,
        has_prefix_in(model, xml_mode_prefixes()),
    ensures
        provider_xml_mode(provider_kind(provider, model), model),
{
}

} // verus!

verus! {

/// The tasks are tried from the most specific: a prompt with a test keyword
/// (and no type-annotation, docstring or commit-message keyword) is a test task
/// whatever bug words it also holds; a prompt is a bug fix only when it holds a
/// bug keyword and no keyword of any other task; and a prompt with no keyword of
/// any task is not classified.
pub proof fn lemma_task_priority(prompt: Seq<char>)
    ensures
        ({
            let l = lowercase(prompt);
            let earlier = contains_any_spec(l, type_annotate_keywords()) || contains_any_spec(
                l,
                docstring_keywords(),
            ) || contains_any_spec(l, commit_keywords());
            &&& !earlier && contains_any_spec(l, test_keywords()) ==> classify_task_spec(prompt)
                == Some("test"@)
            &&& classify_task_spec(prompt) == Some("bugfix"@) <==> (!earlier && !contains_any_spec(
                l,
                test_keywords(),
            ) && contains_any_spec(l, bugfix_keywords()))
            &&& classify_task_spec(prompt) is None <==> (!earlier && !contains_any_spec(
                l,
                test_keywords(),
            ) && !contains_any_spec(l, bugfix_keywords()))
        }),
{
    reveal_strlit("type-annotate");
    reveal_strlit("docstring");
    reveal_strlit("commit-msg");
    reveal_strlit("test");
    reveal_strlit("bugfix");
    assert("bugfix"@.len() == 6 && "type-annotate"@.len() == 13 && "docstring"@.len() == 9);
    assert("commit-msg"@.len() == 10 && "test"@.len() == 4);
    assert("bugfix"@ != "type-annotate"@ && "bugfix"@ != "docstring"@);
    assert("bugfix"@ != "commit-msg"@ && "bugfix"@ != "test"@);
}

} // verus!

verus! {

/// Everything after `prompt` is the prompt, flags included: the words are
/// joined by spaces, and no flag after it changes any setting.
pub proof fn lemma_prompt_takes_the_rest(raw: Seq<Seq<char>>, i: int, s: ArgState)
    requires
        0 <= i < raw.len(),
        raw[i] == "prompt"@,
    ensures
        scan_args(raw, i, s) == (ArgState { prompt: Some(join(raw.skip(i + 1), " "@)), ..s }),
{
    lemma_prompt_is_no_flag();
}

} // verus!
