use sovereign::message::{ChatMessage, ChatRequest, Role, StreamEvent, ToolCall};
use sovereign::ollama::{
    chat_request, chunk_event, compat_events, compat_request, is_compat_model, is_xml_mode_model,
    listed_models, wire_calls_to_common, ChatResponse, MessageDelta, WireFunction, WireMessage,
    WireToolCall, WireToolDef,
};
use sovereign::tools::all_tool_defs;

fn call(name: &str) -> WireToolCall {
    WireToolCall {
        function: WireFunction { name: name.to_string(), arguments: serde_json::from_str("{}").unwrap() },
    }
}

#[test]
fn model_modes() {
    for m in ["gemma3:12b", "phi4:14b", "codestral", "devstral:24b", "deepseek-coder-v2:16b"] {
        assert!(is_xml_mode_model(m), "{m}");
    }
    assert!(!is_xml_mode_model("qwen3:8b"));
    assert!(is_compat_model("codestral:22b"));
    assert!(is_compat_model("mistral-nemo"));
    assert!(is_compat_model("deepseek-r1"));
    assert!(!is_compat_model("gemma3:12b"));
}

#[test]
fn request_bodies() {
    let req = ChatRequest {
        model: "qwen3:8b".to_string(),
        messages: vec![ChatMessage::system("s"), ChatMessage::tool_result("c1", "out")],
        tools: all_tool_defs(),
    };
    let body = chat_request(&req, false);
    assert!(body.stream);
    assert_eq!(body.messages[0].role, "system");
    assert_eq!(body.messages[1].role, "tool");
    assert_eq!(body.messages[1].tool_call_id.as_deref(), Some("c1"));
    assert_eq!(body.tools.as_ref().map(|t| t.len()), Some(7));
    assert!(chat_request(&req, true).tools.is_none());
    let empty = ChatRequest { model: "m".to_string(), messages: vec![], tools: vec![] };
    assert!(chat_request(&empty, false).tools.is_none());
    let oai = compat_request(&req);
    assert!(!oai.stream);
    assert_eq!(oai.messages[1].role, "user");
    assert_eq!(oai.messages[1].content, "out");
}

#[test]
fn wire_conversions() {
    let m = ChatMessage::assistant_with_calls(
        "x",
        vec![ToolCall { id: "i".to_string(), name: "bash".to_string(), arguments: serde_json::Value::Null }],
    );
    let w = WireMessage::from_common(&m);
    assert_eq!(w.role, "assistant");
    assert_eq!(w.tool_calls.as_ref().unwrap()[0].function.name, "bash");
    let d = WireToolDef::from_common(&all_tool_defs()[0]);
    assert_eq!(d.kind, "function");
    assert_eq!(d.function.name, "bash");
    let _ = Role::User;
}

#[test]
fn chunks() {
    let e = chunk_event(ChatResponse {
        message: MessageDelta { content: Some("hi".to_string()), tool_calls: None },
        done: false,
    });
    assert!(matches!(e, StreamEvent::Text(ref t) if t == "hi"));
    // Calls on the final chunk come before `done`.
    let e = chunk_event(ChatResponse {
        message: MessageDelta { content: None, tool_calls: Some(vec![call("a"), call("b")]) },
        done: true,
    });
    match e {
        StreamEvent::ToolCalls(cs) => {
            assert_eq!(cs.len(), 2);
            assert_eq!((cs[0].id.as_str(), cs[0].name.as_str()), ("call_0", "a"));
            assert_eq!((cs[1].id.as_str(), cs[1].name.as_str()), ("call_1", "b"));
        }
        _ => panic!("expected tool calls"),
    }
    let e = chunk_event(ChatResponse {
        message: MessageDelta { content: Some("x".to_string()), tool_calls: Some(vec![]) },
        done: true,
    });
    assert!(matches!(e, StreamEvent::Done));
    let e = chunk_event(ChatResponse { message: MessageDelta { content: None, tool_calls: None }, done: false });
    assert!(matches!(e, StreamEvent::Text(ref t) if t.is_empty()));
    assert_eq!(wire_calls_to_common(vec![call("z")])[0].id, "call_0");
}

#[test]
fn compat_reply_and_model_list() {
    let es = compat_events(Some("answer".to_string()));
    assert!(matches!(es[0], StreamEvent::Text(ref t) if t == "answer"));
    assert!(matches!(es[1], StreamEvent::Done));
    let es = compat_events(None);
    assert!(matches!(es[0], StreamEvent::Text(ref t) if t.is_empty()));
    let tags: serde_json::Value =
        serde_json::from_str(r#"{"models":[{"name":"a"},{"size":1},{"name":"b"}]}"#).unwrap();
    assert_eq!(listed_models(&tags), vec!["a", "b"]);
    let none: serde_json::Value = serde_json::from_str("{}").unwrap();
    assert!(listed_models(&none).is_empty());
}
