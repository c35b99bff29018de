use sovereign::mcp::{
    answers, call_reply, call_result, env_reference, expand_value, join_texts, listed_tools,
    CombinedExecutor, McpToolDef, RequestIds,
};

fn json(text: &str) -> serde_json::Value {
    serde_json::from_str(text).unwrap()
}

#[test]
fn environment_references() {
    assert_eq!(env_reference("${HOME}").as_deref(), Some("HOME"));
    assert_eq!(env_reference("${}").as_deref(), Some(""));
    assert_eq!(env_reference("$HOME"), None);
    assert_eq!(env_reference("${HOME"), None);
    assert_eq!(env_reference("plain"), None);
    assert_eq!(expand_value("${X}", Some("v".to_string())), "v");
    assert_eq!(expand_value("${X}", None), "");
    assert_eq!(expand_value("plain", Some("v".to_string())), "plain");
}

#[test]
fn later_server_takes_a_shared_name() {
    let ex = CombinedExecutor::new(vec![
        vec!["a".to_string(), "b".to_string()],
        vec!["b".to_string()],
    ]);
    assert_eq!(ex.route("b"), Some(1));
    assert_eq!(ex.route("a"), Some(0));
    assert_eq!(ex.route("bash"), None);
    assert_eq!(CombinedExecutor::new(vec![]).route("a"), None);
}

#[test]
fn request_ids_count_up() {
    let mut ids = RequestIds::new();
    assert_eq!(ids.next(), 1);
    assert_eq!(ids.next(), 2);
    assert_eq!(ids.next(), 3);
    assert!(answers(Some(3), 3));
    assert!(!answers(Some(2), 3));
    assert!(!answers(None, 3));
}

#[test]
fn call_outcomes() {
    assert_eq!(
        call_result("srv", Some("{\"code\":1}".to_string()), Some(vec!["x".to_string()]), "{}".to_string()),
        Err("MCP error from srv: {\"code\":1}".to_string())
    );
    assert_eq!(
        call_result("srv", None, Some(vec!["a".to_string(), "b".to_string()]), "{}".to_string()),
        Ok("a\nb".to_string())
    );
    assert_eq!(call_result("srv", None, Some(vec![]), "{}".to_string()), Ok(String::new()));
    assert_eq!(call_result("srv", None, None, "{\"k\":1}".to_string()), Ok("{\"k\":1}".to_string()));
    assert_eq!(join_texts(&vec!["one".to_string()]), "one");
}

#[test]
fn one_listed_tool() {
    let t: serde_json::Value =
        serde_json::from_str(r#"{"name":"search","description":"finds","inputSchema":{"type":"object"}}"#).unwrap();
    let d = McpToolDef::from_listing(&t, "web");
    assert_eq!(d.name, "search");
    assert_eq!(d.description, "finds");
    assert_eq!(d.server_name, "web");
    assert_eq!(d.input_schema["type"], "object");
    let def = d.to_tool_def();
    assert_eq!(def.kind, "function");
    assert_eq!(def.function.name, "search");
    assert_eq!(def.function.parameters, d.input_schema);
    let bare: serde_json::Value = serde_json::from_str("{}").unwrap();
    let d = McpToolDef::from_listing(&bare, "web");
    assert_eq!(d.name, "");
    assert_eq!(d.description, "");
    assert!(d.input_schema.is_null());
}

#[test]
fn replies_of_tool_calls() {
    let r = json(r#"{"jsonrpc":"2.0","id":2,"result":{"content":[{"type":"text","text":"a"},{"type":"image"},{"type":"text","text":"b"}]}}"#);
    assert_eq!(call_reply("srv", &r), Ok("a\nb".to_string()));
    let r = json(r#"{"id":2,"error":{"code":-1}}"#);
    assert_eq!(call_reply("srv", &r), Err("MCP error from srv: {\"code\":-1}".to_string()));
    let r = json(r#"{"id":2,"result":{"value":3}}"#);
    assert_eq!(call_reply("srv", &r), Ok("{\"value\":3}".to_string()));
    let r = json(r#"{"id":2}"#);
    assert_eq!(call_reply("srv", &r), Ok("null".to_string()));
}

#[test]
fn tools_listed_by_a_server() {
    let r = json(r#"{"result":{"tools":[{"name":"a","description":"d","inputSchema":{"type":"object"}},{"name":"b"}]}}"#);
    let tools = listed_tools(&r, "srv");
    assert_eq!(tools.len(), 2);
    assert_eq!((tools[0].name.as_str(), tools[0].description.as_str()), ("a", "d"));
    assert_eq!(tools[0].input_schema["type"], "object");
    assert_eq!((tools[1].name.as_str(), tools[1].description.as_str()), ("b", ""));
    assert!(tools[1].input_schema.is_null());
    assert!(tools.iter().all(|t| t.server_name == "srv"));
    assert!(listed_tools(&json(r#"{"result":{}}"#), "srv").is_empty());
}
