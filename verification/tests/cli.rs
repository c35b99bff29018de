use sovereign::cli::{
    allowed_tool_names, choose_provider, classify_task, contains_any, filter_allowed,
    read_input, task_default_model, Cli, InputAction, ProviderKind,
};
use sovereign::tools::all_tool_defs;

fn args(v: &[&str]) -> Vec<String> {
    v.iter().map(|s| s.to_string()).collect()
}

#[test]
fn task_models_follow_the_evaluation() {
    assert_eq!(task_default_model("docstring"), Some("gemma3:12b"));
    assert_eq!(task_default_model("type-annotate"), Some("gemma3:12b"));
    assert_eq!(task_default_model("test"), Some("gemma3:12b"));
    assert_eq!(task_default_model("commit-msg"), Some("qwen3:8b-nothink"));
    assert_eq!(task_default_model("bugfix"), Some("qwen3:14b"));
    assert_eq!(task_default_model("refactor"), None);
    assert_eq!(task_default_model(""), None);
}

#[test]
fn classify_task_by_keywords() {
    assert_eq!(classify_task("Add type hints to foo"), Some("type-annotate"));
    assert_eq!(classify_task("型アノテーションを追加"), Some("type-annotate"));
    assert_eq!(classify_task("Write a DOCSTRING"), Some("docstring"));
    assert_eq!(classify_task("generate the Commit Message"), Some("commit-msg"));
    assert_eq!(classify_task("please use pytest"), Some("test"));
    assert_eq!(classify_task("テストを書いて"), Some("test"));
    assert_eq!(classify_task("Fix the bug"), Some("bugfix"));
    assert_eq!(classify_task("バグを直して"), Some("bugfix"));
    assert_eq!(classify_task("hello there"), None);
}

#[test]
fn classify_task_prefers_the_more_specific_task() {
    // Both a type annotation and a bug: type annotation comes first.
    assert_eq!(classify_task("fix the type annotation bug"), Some("type-annotate"));
    // "document" is a docstring keyword, checked before bug fixes.
    assert_eq!(classify_task("fix the error in the documentation"), Some("docstring"));
}

#[test]
fn guessed_task_always_has_a_model() {
    for p in ["type hint", "docstring", "commit msg", "write test", "error"] {
        let t = classify_task(p).unwrap();
        assert!(task_default_model(t).is_some());
    }
}

#[test]
fn contains_any_finds_a_keyword() {
    assert!(contains_any("hello world", &vec!["xyz", "wor"]));
    assert!(!contains_any("hello world", &vec!["xyz"]));
    assert!(!contains_any("hello", &vec![]));
}

#[test]
fn defaults_without_arguments() {
    let cli = Cli::from_raw(&args(&[]), None, None, None);
    assert_eq!(cli.model, "gemma3:12b");
    assert_eq!(cli.provider, "ollama");
    assert_eq!(cli.base_url, "http://localhost:11434");
    assert!(!cli.plain_output);
    assert_eq!(cli.prompt, None);
    assert_eq!(cli.task, None);
    assert!(!cli.model_from_task);
    assert!(!cli.task_auto_detected);
}

#[test]
fn environment_sets_model_provider_and_url() {
    let cli = Cli::from_raw(
        &args(&[]),
        Some("qwen3:8b".to_string()),
        Some("anthropic".to_string()),
        Some("http://h:1".to_string()),
    );
    assert_eq!(cli.model, "qwen3:8b");
    assert_eq!(cli.provider, "anthropic");
    assert_eq!(cli.base_url, "http://h:1");
}

#[test]
fn explicit_model_is_kept() {
    let cli = Cli::from_raw(&args(&["--model", "m1", "prompt", "fix", "the", "bug"]), None, None, None);
    assert_eq!(cli.model, "m1");
    assert_eq!(cli.task, None);
    assert!(!cli.model_from_task);
    assert!(!cli.task_auto_detected);
    assert_eq!(cli.prompt.as_deref(), Some("fix the bug"));
}

#[test]
fn prompt_task_is_guessed_and_picks_the_model() {
    let cli = Cli::from_raw(&args(&["prompt", "fix", "the", "bug"]), None, None, None);
    assert_eq!(cli.task.as_deref(), Some("bugfix"));
    assert!(cli.task_auto_detected);
    assert!(cli.model_from_task);
    assert_eq!(cli.model, "qwen3:14b");
}

#[test]
fn task_flag_picks_the_model() {
    let cli = Cli::from_raw(&args(&["--task", "docstring", "--plain"]), Some("x".to_string()), None, None);
    assert_eq!(cli.model, "gemma3:12b");
    assert!(cli.plain_output);
    assert_eq!(cli.task.as_deref(), Some("docstring"));
    assert!(!cli.task_auto_detected);
    assert!(cli.model_from_task);
    let cli = Cli::from_raw(&args(&["--task", "unknown"]), Some("x".to_string()), None, None);
    assert_eq!(cli.model, "x");
    assert!(!cli.model_from_task);
    assert_eq!(cli.task.as_deref(), Some("unknown"));
}

#[test]
fn flag_without_value_is_ignored() {
    let cli = Cli::from_raw(&args(&["--plain-output", "--model"]), None, None, None);
    assert_eq!(cli.model, "gemma3:12b");
    assert!(cli.plain_output);
    assert!(!cli.model_from_task);
}

#[test]
fn permission_mode_takes_its_value() {
    let cli = Cli::from_raw(&args(&["--permission-mode", "--plain", "--cwd", "/tmp"]), None, None, None);
    assert!(!cli.plain_output);
    assert_eq!(cli.cwd.as_deref(), Some("/tmp"));
}

#[test]
fn other_flags_are_read() {
    let cli = Cli::from_raw(
        &args(&[
            "--allowedTools",
            "bash, read_file",
            "--vision-model",
            "llava",
            "--provider",
            "anthropic",
            "--base-url",
            "http://h",
            "--unknown",
            "prompt",
        ]),
        None,
        None,
        None,
    );
    assert_eq!(cli.allowed_tools.as_deref(), Some("bash, read_file"));
    assert_eq!(cli.vision_model.as_deref(), Some("llava"));
    assert_eq!(cli.provider, "anthropic");
    assert_eq!(cli.base_url, "http://h");
    assert_eq!(cli.prompt.as_deref(), Some(""));
}

#[test]
fn provider_choice() {
    assert_eq!(choose_provider("anthropic", "codestral"), (ProviderKind::Anthropic, false));
    assert_eq!(choose_provider("ollama", "codestral:22b"), (ProviderKind::OllamaCompat, true));
    assert_eq!(choose_provider("ollama", "deepseek-coder"), (ProviderKind::OllamaCompat, true));
    assert_eq!(choose_provider("ollama", "gemma3:12b"), (ProviderKind::Ollama, true));
    assert_eq!(choose_provider("ollama", "qwen3:8b"), (ProviderKind::Ollama, false));
    assert_eq!(choose_provider("other", "phi4:14b"), (ProviderKind::Ollama, true));
}

#[test]
fn allowed_names_are_trimmed_pieces() {
    assert_eq!(allowed_tool_names(" a ,b,,c"), vec!["a", "b", "", "c"]);
    assert_eq!(allowed_tool_names(""), vec![""]);
}

#[test]
fn filter_keeps_listed_tools_in_order() {
    let kept = filter_allowed(all_tool_defs(), "read_file, bash,unknown");
    let names: Vec<&str> = kept.iter().map(|d| d.function.name.as_str()).collect();
    assert_eq!(names, vec!["bash", "read_file"]);
    assert!(filter_allowed(all_tool_defs(), "").is_empty());
}

#[test]
fn input_lines() {
    assert!(matches!(read_input("  hi  \n"), InputAction::Send(ref t) if t == "hi"));
    assert!(matches!(read_input("   "), InputAction::Skip));
    assert!(matches!(read_input(""), InputAction::Skip));
    assert!(matches!(read_input(" /exit\n"), InputAction::Exit));
    assert!(matches!(read_input("/exit now"), InputAction::Send(_)));
}
