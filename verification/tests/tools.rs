use sovereign::tools::{
    all_tool_defs, apply_edit, banned_pattern_in, bash_output, edit_report, list_report,
    plan_tool, safe_path, search_output, write_report, LocalExecutor, SearchKind,
    ToolArgs, ToolPlan,
};

fn no_args() -> ToolArgs {
    ToolArgs {
        path: None,
        content: None,
        command: None,
        pattern: None,
        file_pattern: None,
        case_insensitive: None,
        old_string: None,
        new_string: None,
    }
}

fn err_of(r: Result<ToolPlan, String>) -> String {
    match r {
        Ok(_) => panic!("expected an error"),
        Err(m) => m,
    }
}

#[test]
fn safe_path_refuses_parent_components() {
    assert_eq!(safe_path("../etc"), Err("パストラバーサルは許可されていません: ../etc".to_string()));
    assert!(safe_path("a/../b").is_err());
    assert!(safe_path("a/..").is_err());
    assert!(safe_path("..").is_err());
    assert!(safe_path("/x/../y").is_err());
    assert_eq!(safe_path("a..b/c"), Ok("a..b/c"));
    assert_eq!(safe_path("./a/.../b"), Ok("./a/.../b"));
    assert_eq!(safe_path("/abs/path"), Ok("/abs/path"));
    assert_eq!(safe_path(""), Ok(""));
}

#[test]
fn dangerous_commands_are_found() {
    assert_eq!(banned_pattern_in("sudo rm -rf / --no-preserve-root"), Some("rm -rf /"));
    assert_eq!(banned_pattern_in(":(){ :|:& };:"), Some(":(){ :|:& };:"));
    assert_eq!(banned_pattern_in("dd if=/dev/zero of=x"), Some("dd if=/dev/"));
    assert_eq!(banned_pattern_in("ls -la"), None);
}

#[test]
fn bash_plan() {
    let mut a = no_args();
    assert_eq!(err_of(plan_tool("bash", &a)), "command が必要です");
    a.command = Some("rm -rf / now".to_string());
    assert_eq!(err_of(plan_tool("bash", &a)), "拒否されたコマンドパターンです: rm -rf /");
    a.command = Some("ls".to_string());
    match plan_tool("bash", &a) {
        Ok(ToolPlan::Bash { command }) => assert_eq!(command, "ls"),
        _ => panic!("expected a bash plan"),
    }
}

#[test]
fn unknown_tool_is_refused() {
    assert_eq!(err_of(plan_tool("rm", &no_args())), "未知のツール: rm");
}

#[test]
fn file_plans_need_their_arguments() {
    let mut a = no_args();
    assert_eq!(err_of(plan_tool("read_file", &a)), "path が必要です");
    assert_eq!(err_of(plan_tool("write_file", &a)), "path が必要です");
    assert_eq!(err_of(plan_tool("edit_file", &a)), "path が必要です");
    assert_eq!(err_of(plan_tool("grep_search", &a)), "pattern が必要です");
    assert_eq!(err_of(plan_tool("glob_search", &a)), "pattern が必要です");
    a.path = Some("f.txt".to_string());
    assert_eq!(err_of(plan_tool("write_file", &a)), "content が必要です");
    assert_eq!(err_of(plan_tool("edit_file", &a)), "old_string が必要です");
    a.old_string = Some("x".to_string());
    assert_eq!(err_of(plan_tool("edit_file", &a)), "new_string が必要です");
    a.new_string = Some("y".to_string());
    match plan_tool("edit_file", &a) {
        Ok(ToolPlan::EditFile { path, old_string, new_string }) => {
            assert_eq!((path.as_str(), old_string.as_str(), new_string.as_str()), ("f.txt", "x", "y"));
        }
        _ => panic!("expected an edit plan"),
    }
    a.path = Some("../f.txt".to_string());
    assert_eq!(err_of(plan_tool("edit_file", &a)), "パストラバーサルは許可されていません: ../f.txt");
    assert_eq!(err_of(plan_tool("read_file", &a)), "パストラバーサルは許可されていません: ../f.txt");
}

#[test]
fn list_plan_defaults_to_current_directory() {
    match plan_tool("list_files", &no_args()) {
        Ok(ToolPlan::ListFiles { path }) => assert_eq!(path, "."),
        _ => panic!("expected a listing plan"),
    }
}

#[test]
fn grep_arguments() {
    let mut a = no_args();
    a.pattern = Some("foo".to_string());
    match plan_tool("grep_search", &a) {
        Ok(ToolPlan::GrepSearch { args }) => assert_eq!(args, vec!["-rn", "--color=never", "foo", "."]),
        _ => panic!("expected a grep plan"),
    }
    a.case_insensitive = Some(true);
    a.file_pattern = Some("*.rs".to_string());
    a.path = Some("src".to_string());
    match plan_tool("grep_search", &a) {
        Ok(ToolPlan::GrepSearch { args }) => assert_eq!(
            args,
            vec!["-rn", "--color=never", "-i", "--\u{69}nclude=*.rs", "foo", "src"]
        ),
        _ => panic!("expected a grep plan"),
    }
}

#[test]
fn find_arguments() {
    let mut a = no_args();
    a.pattern = Some("*.rs".to_string());
    a.path = Some("src".to_string());
    match plan_tool("glob_search", &a) {
        Ok(ToolPlan::GlobSearch { args }) => {
            assert_eq!(args, vec!["src", "-name", "*.rs", "-not", "-path", "*/.*/*"])
        }
        _ => panic!("expected a find plan"),
    }
}

#[test]
fn arguments_from_json() {
    let v: serde_json::Value =
        serde_json::from_str(r#"{"path":"a.txt","case_insensitive":true,"content":3}"#).unwrap();
    let a = ToolArgs::from_json(&v);
    assert_eq!(a.path.as_deref(), Some("a.txt"));
    assert_eq!(a.case_insensitive, Some(true));
    assert_eq!(a.content, None);
    assert_eq!(a.command, None);
    let exec = LocalExecutor;
    match exec.plan("read_file", &v) {
        Ok(ToolPlan::ReadFile { path }) => assert_eq!(path, "a.txt"),
        _ => panic!("expected a read plan"),
    }
}

#[test]
fn bash_reports() {
    assert_eq!(bash_output(true, Some(0), &b"out\n".to_vec(), &b"ignored".to_vec()), "out\n");
    assert_eq!(bash_output(false, Some(2), &vec![], &b"err".to_vec()), "exit 2\nerr");
    assert_eq!(bash_output(false, None, &vec![], &b"killed".to_vec()), "exit -1\nkilled");
    assert_eq!(bash_output(false, Some(-3), &vec![], &vec![]), "exit -3\n");
    assert_eq!(bash_output(false, Some(127), &vec![], &vec![]), "exit 127\n");
}

#[test]
fn output_bytes_are_read_lossily() {
    assert_eq!(bash_output(true, Some(0), &vec![0x66, 0xff], &vec![]), "f\u{FFFD}");
    assert_eq!(bash_output(true, Some(0), &"日本".as_bytes().to_vec(), &vec![]), "日本");
    assert_eq!(search_output(&vec![0x66, 0xff, b'\n'], SearchKind::Grep), "f\u{FFFD}");
}

#[test]
fn search_reports() {
    assert_eq!(search_output(&b"a\nb\n".to_vec(), SearchKind::Grep), "a\nb");
    assert_eq!(search_output(&b"a\r\nb".to_vec(), SearchKind::Grep), "a\nb");
    assert_eq!(search_output(&vec![], SearchKind::Grep), "マッチなし");
    assert_eq!(search_output(&b"\n".to_vec(), SearchKind::Glob), "マッチなし");
    assert_eq!(search_output(&b"\n\nx".to_vec(), SearchKind::Glob), "\n\nx");
}

#[test]
fn search_reports_are_cut_at_200_lines() {
    let mut out = String::new();
    for i in 0..250 {
        out.push_str(&format!("l{i}\n"));
    }
    let expected: Vec<String> = (0..200).map(|i| format!("l{i}")).collect();
    assert_eq!(
        search_output(&out.as_bytes().to_vec(), SearchKind::Grep),
        format!("{}\n... (200行以上のため打ち切り)", expected.join("\n"))
    );
    assert_eq!(
        search_output(&out.as_bytes().to_vec(), SearchKind::Glob),
        format!("{}\n... (200件以上のため打ち切り)", expected.join("\n"))
    );
    let mut exact = String::new();
    for i in 0..200 {
        exact.push_str(&format!("l{i}\n"));
    }
    assert_eq!(search_output(&exact.as_bytes().to_vec(), SearchKind::Grep), expected.join("\n"));
}

#[test]
fn edits() {
    assert_eq!(apply_edit("hello world", "world", "there", "f.txt"), Ok("hello there".to_string()));
    assert_eq!(
        apply_edit("aaa", "b", "x", "f.txt"),
        Err("old_string がファイル内に見つかりません: f.txt".to_string())
    );
    assert_eq!(
        apply_edit("abab", "ab", "x", "f"),
        Err("old_string が2箇所に存在します。一意になるよう前後の文脈を含めてください".to_string())
    );
    // Matches do not overlap: "aa" occurs once in "aaa".
    assert_eq!(apply_edit("aaa", "aa", "x", "f"), Ok("xa".to_string()));
    // An empty old text matches between every character.
    assert_eq!(apply_edit("", "", "new", "f"), Ok("new".to_string()));
    assert_eq!(
        apply_edit("ab", "", "x", "f"),
        Err("old_string が3箇所に存在します。一意になるよう前後の文脈を含めてください".to_string())
    );
}

#[test]
fn edit_then_reverse_edit_restores() {
    let once = apply_edit("let x = 1;", "1", "2", "f").unwrap();
    assert_eq!(once, "let x = 2;");
    assert_eq!(apply_edit(&once, "2", "1", "f"), Ok("let x = 1;".to_string()));
}

#[test]
fn messages() {
    assert_eq!(write_report("a/b.txt"), "書き込み完了: a/b.txt");
    assert_eq!(edit_report("a/b.txt"), "編集完了: a/b.txt");
}

#[test]
fn listing_is_sorted_with_dirs_marked() {
    let entries = vec![
        ("b".to_string(), false),
        ("a".to_string(), true),
        ("C".to_string(), false),
        ("ab".to_string(), false),
    ];
    assert_eq!(list_report(&entries), "C\na/\nab\nb");
    assert_eq!(list_report(&vec![]), "");
}

#[test]
fn tool_definitions() {
    let defs = all_tool_defs();
    let names: Vec<&str> = defs.iter().map(|d| d.function.name.as_str()).collect();
    assert_eq!(
        names,
        vec!["bash", "read_file", "write_file", "list_files", "grep_search", "glob_search", "edit_file"]
    );
    assert!(defs.iter().all(|d| d.kind == "function"));
    assert_eq!(defs[0].function.description, "bash コマンドを実行して stdout/stderr を返す");
    assert_eq!(defs[0].function.parameters["required"][0], "command");
    assert_eq!(defs[2].function.parameters["required"][1], "content");
    assert!(defs[3].function.parameters.get("required").is_none());
    assert!(defs[4].function.parameters["properties"].get("\u{69}nclude").is_some());
    assert_eq!(defs[4].function.parameters["properties"]["case_insensitive"]["type"], "boolean");
    assert_eq!(defs[6].function.parameters["required"][2], "new_string");
}

#[test]
fn executor_reports() {
    let exec = LocalExecutor;
    let r = exec.report("c1", Ok("done".to_string()));
    assert_eq!((r.call_id.as_str(), r.output.as_str(), r.is_error), ("c1", "done", false));
    let r = exec.report("c2", Err("bad".to_string()));
    assert_eq!((r.call_id.as_str(), r.output.as_str(), r.is_error), ("c2", "bad", true));
}
