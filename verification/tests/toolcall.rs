use sovereign::text::chars_of;
use sovereign::toolcall::{
    build_xml_tool_prompt, extract_xml_tool_calls, find_json_object_end, parse_json_tool_call,
    parse_tool_call_json, sanitize_json_string, strip_tool_calls,
};

fn json(text: &str) -> serde_json::Value {
    serde_json::from_str(text).unwrap()
}

#[test]
fn object_end_skips_nested_objects_and_strings() {
    let s = chars_of(r#"{"a":{"b":1}} tail"#);
    assert_eq!(find_json_object_end(&s, 0), Some(12));
    let s = chars_of(r#"{"a":"}{"} x"#);
    assert_eq!(find_json_object_end(&s, 0), Some(9));
    let s = chars_of(r#"{"a":"\"}"}"#);
    assert_eq!(find_json_object_end(&s, 0), Some(10));
    let s = chars_of(r#"{"a":1"#);
    assert_eq!(find_json_object_end(&s, 0), None);
    let s = chars_of(r#"x {"a":1}"#);
    assert_eq!(find_json_object_end(&s, 2), Some(8));
}

#[test]
fn sanitize_escapes_raw_controls_inside_strings() {
    assert_eq!(sanitize_json_string("{\"a\":\"x\ny\"}"), "{\"a\":\"x\\ny\"}");
    assert_eq!(sanitize_json_string("{\"a\":\"x\ty\r\"}"), "{\"a\":\"x\\ty\\r\"}");
    // Outside strings nothing changes.
    assert_eq!(sanitize_json_string("{\n\"a\": 1\n}"), "{\n\"a\": 1\n}");
    // An escaped quote does not end the string.
    assert_eq!(sanitize_json_string("\"a\\\"\nb\""), "\"a\\\"\\nb\"");
}

#[test]
fn sanitizing_twice_is_sanitizing_once() {
    for t in ["{\"a\":\"x\ny\"}", "\"a\\\"\nb\"", "\"\\\n\"", "plain\ttext", "\"open\n"] {
        let once = sanitize_json_string(t);
        assert_eq!(sanitize_json_string(&once), once);
    }
}

#[test]
fn text_without_quotes_is_not_changed_by_sanitizing() {
    let t = "line one\nline\ttwo {x: 1}";
    assert_eq!(sanitize_json_string(t), t);
}

#[test]
fn parse_one_call() {
    let (name, args) = parse_tool_call_json("  {\"name\":\"bash\",\"arguments\":{\"command\":\"ls\"}}  ").unwrap();
    assert_eq!(name, "bash");
    assert_eq!(args, json(r#"{"command":"ls"}"#));
    let (name, args) = parse_tool_call_json("{\"name\":\"bash\"}").unwrap();
    assert_eq!(name, "bash");
    assert_eq!(args, serde_json::Value::Null);
    assert!(parse_tool_call_json("{\"arguments\":{}}").is_none());
    assert!(parse_tool_call_json("not json").is_none());
    // A raw newline inside a string is repaired before reading.
    let (_, args) = parse_tool_call_json("{\"name\":\"write_file\",\"arguments\":{\"content\":\"a\nb\"}}").unwrap();
    assert_eq!(args["content"], "a\nb");
}

#[test]
fn bare_json_call_in_prose() {
    let (name, args) =
        parse_json_tool_call("Sure: {\"name\":\"bash\",\"arguments\":{\"command\":\"ls\"}} done").unwrap();
    assert_eq!(name, "bash");
    assert_eq!(args, json(r#"{"command":"ls"}"#));
    let (name, args) = parse_json_tool_call("{\"name\":\"list_files\"}").unwrap();
    assert_eq!(name, "list_files");
    assert_eq!(args, json("{}"));
    assert!(parse_json_tool_call("no json here").is_none());
    assert!(parse_json_tool_call("{\"x\":1}").is_none());
    // The first object that reads as a call wins.
    let (name, _) = parse_json_tool_call("{\"x\":1} {\"name\":\"a\"} {\"name\":\"b\"}").unwrap();
    assert_eq!(name, "a");
}

#[test]
fn xml_block_from_the_readme() {
    let calls = extract_xml_tool_calls(
        "<tool_call>{\"name\":\"read_file\",\"arguments\":{\"path\":\"src/main.rs\"}}</tool_call>",
    );
    assert_eq!(calls.len(), 1);
    assert_eq!(calls[0].0, "read_file");
    assert_eq!(calls[0].1, json(r#"{"path":"src/main.rs"}"#));
}

#[test]
fn several_blocks_in_order() {
    let text = "a <tool_call>{\"name\":\"x\",\"arguments\":{}}</tool_call> b \
                <tool_call>broken</tool_call> <tool_call> {\"name\":\"y\",\"arguments\":{}} </tool_call>";
    let names: Vec<String> = extract_xml_tool_calls(text).into_iter().map(|c| c.0).collect();
    assert_eq!(names, vec!["x", "y"]);
}

#[test]
fn fenced_blocks_when_no_xml_block() {
    let calls = extract_xml_tool_calls("```tool_call\n{\"name\":\"bash\",\"arguments\":{\"command\":\"ls\"}}\n```");
    assert_eq!(calls.len(), 1);
    assert_eq!(calls[0].0, "bash");
    assert_eq!(calls[0].1, json(r#"{"command":"ls"}"#));
    let calls = extract_xml_tool_calls(
        "<tool_call>{\"name\":\"a\",\"arguments\":{}}</tool_call>\n```tool_call\n{\"name\":\"b\"}\n```",
    );
    assert_eq!(calls.len(), 1);
    assert_eq!(calls[0].0, "a");
}

#[test]
fn unclosed_block_stops_the_scan() {
    assert!(extract_xml_tool_calls("<tool_call>{\"name\":\"a\"}").is_empty());
}

#[test]
fn plain_text_has_no_calls_and_is_kept() {
    let t = "Just an answer, with `code` and <b>tags</b>.";
    assert!(extract_xml_tool_calls(t).is_empty());
    assert_eq!(strip_tool_calls(t), t);
}

#[test]
fn single_block_shows_nothing() {
    let t = "<tool_call>{\"name\":\"bash\",\"arguments\":{}}</tool_call>";
    assert_eq!(strip_tool_calls(t), "");
}

#[test]
fn strip_removes_blocks() {
    assert_eq!(
        strip_tool_calls("before <tool_call>{\"name\":\"x\"}</tool_call> after"),
        "before  after"
    );
    assert_eq!(
        strip_tool_calls("intro\n```tool_call\n{\"name\":\"x\"}\n```\nrest"),
        "intro\nrest"
    );
}

#[test]
fn unclosed_block_is_kept_once() {
    assert_eq!(strip_tool_calls("ab<tool_call>x"), "ab<tool_call>x");
    assert_eq!(strip_tool_calls("ab\n```tool_call\nx"), "ab\n```tool_call\nx");
}

#[test]
fn closing_tag_is_looked_for_after_the_opening() {
    assert_eq!(strip_tool_calls("</tool_call>a<tool_call>b</tool_call>c"), "</tool_call>ac");
    assert_eq!(strip_tool_calls("```\nx ```tool_call\n{}\n```\ny"), "```\nx y");
}

#[test]
fn stripped_text_is_never_longer() {
    for t in ["a<tool_call>b", "<tool_call></tool_call><tool_call>", "```tool_call```tool_call\n```", "x```\n```tool_call"] {
        assert!(strip_tool_calls(t).chars().count() <= t.chars().count());
    }
}

#[test]
fn tool_prompt_lists_the_tools() {
    let p = build_xml_tool_prompt("[{\"name\":\"bash\"}]");
    assert!(p.starts_with("\n\n## Available tools\n[{\"name\":\"bash\"}]\n\nTo call a tool"));
    assert!(p.ends_with("Only write a final text response when the task is fully and verifiably done."));
}
