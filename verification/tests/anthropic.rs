use sovereign::anthropic::{
    messages_request, split_system, sse_data, sse_payloads, to_wire_message, to_wire_tool,
    ContentBlock, ContentBlockMeta, Delta, MessageDeltaData, MessageMeta, SseCollector, SseEvent,
    WireContent, WireError, DEFAULT_MAX_TOKENS,
};
use sovereign::message::{ChatMessage, ChatRequest, Role, StreamEvent};
use sovereign::tools::all_tool_defs;

#[test]
fn system_prompt_is_split_off() {
    let ms = vec![
        ChatMessage::system("s1"),
        ChatMessage::user("u"),
        ChatMessage::system("s2"),
        ChatMessage::assistant("a"),
    ];
    let (system, rest) = split_system(&ms);
    assert_eq!(system.as_deref(), Some("s1"));
    let roles: Vec<Role> = rest.iter().map(|m| m.role).collect();
    assert_eq!(roles, vec![Role::User, Role::Assistant]);
    let (system, rest) = split_system(&vec![ChatMessage::user("u")]);
    assert_eq!(system, None);
    assert_eq!(rest.len(), 1);
}

#[test]
fn wire_messages() {
    let w = to_wire_message(&ChatMessage::user("hi")).unwrap();
    assert_eq!(w.role, "user");
    assert!(matches!(w.content, WireContent::Text(ref t) if t == "hi"));
    let w = to_wire_message(&ChatMessage::assistant("ok")).unwrap();
    assert_eq!(w.role, "assistant");
    let w = to_wire_message(&ChatMessage::tool_result("t1", "out")).unwrap();
    assert_eq!(w.role, "user");
    match w.content {
        WireContent::Blocks(bs) => {
            assert_eq!(bs.len(), 1);
            match &bs[0] {
                ContentBlock::ToolResult { tool_use_id, content } => {
                    assert_eq!(tool_use_id, "t1");
                    assert_eq!(content, "out");
                }
                _ => panic!("expected a tool result block"),
            }
        }
        WireContent::Text(_) => panic!("expected blocks"),
    }
    match to_wire_message(&ChatMessage::system("s")) {
        Err(e) => {
            assert_eq!(e, WireError::SystemMessage);
            assert_eq!(e.message(), "system メッセージは wire に変換できません");
        }
        Ok(_) => panic!("a system message has no wire form"),
    }
}

#[test]
fn request_body() {
    let req = ChatRequest {
        model: "remote-model".to_string(),
        messages: vec![ChatMessage::system("sys"), ChatMessage::user("hi")],
        tools: all_tool_defs(),
    };
    let body = messages_request(&req);
    assert_eq!(body.model, "remote-model");
    assert_eq!(body.max_tokens, DEFAULT_MAX_TOKENS);
    assert_eq!(body.max_tokens, 8096);
    assert_eq!(body.system.as_deref(), Some("sys"));
    assert!(body.stream);
    assert_eq!(body.messages.len(), 1);
    assert_eq!(body.tools.len(), 7);
    assert_eq!(body.tools[0].name, "bash");
    let t = to_wire_tool(&req.tools[1]);
    assert_eq!(t.name, "read_file");
    assert_eq!(t.input_schema, req.tools[1].function.parameters);
}

#[test]
fn sse_lines() {
    assert_eq!(sse_data("data: {\"type\":\"message_stop\"}").as_deref(), Some("{\"type\":\"message_stop\"}"));
    assert_eq!(sse_data("data: [DONE]"), None);
    assert_eq!(sse_data("event: message_stop"), None);
    assert_eq!(sse_data("data:x"), None);
    assert_eq!(sse_data("data: ").as_deref(), Some(""));
}

#[test]
fn sse_body_payloads() {
    let body = "event: a\ndata: {\"x\":1}\r\n\ndata: [DONE]\ndata: {\"y\":2}";
    assert_eq!(sse_payloads(body), vec!["{\"x\":1}", "{\"y\":2}"]);
    assert!(sse_payloads("").is_empty());
}

#[test]
fn collector_builds_events() {
    let mut c = SseCollector::new();
    c.feed(SseEvent::MessageStart { message: MessageMeta { id: "m1".to_string() } });
    c.feed(SseEvent::ContentBlockStart {
        index: 0,
        content_block: ContentBlockMeta::Text { text: String::new() },
    });
    c.feed(SseEvent::ContentBlockDelta { index: 0, delta: Delta::TextDelta { text: "Hi".to_string() } });
    c.feed(SseEvent::ContentBlockStop { index: 0 });
    c.feed(SseEvent::ContentBlockStart {
        index: 1,
        content_block: ContentBlockMeta::ToolUse { id: "tu1".to_string(), name: "bash".to_string() },
    });
    c.feed(SseEvent::ContentBlockDelta {
        index: 1,
        delta: Delta::InputJsonDelta { partial_json: "{\"command\":".to_string() },
    });
    c.feed(SseEvent::ContentBlockDelta {
        index: 1,
        delta: Delta::InputJsonDelta { partial_json: "\"ls\"}".to_string() },
    });
    c.feed(SseEvent::ContentBlockStop { index: 1 });
    c.feed(SseEvent::MessageDelta { delta: MessageDeltaData { stop_reason: Some("tool_use".to_string()) } });
    c.feed(SseEvent::MessageStop);
    let es = c.into_events();
    assert_eq!(es.len(), 3);
    assert!(matches!(es[0], StreamEvent::Text(ref t) if t == "Hi"));
    match &es[1] {
        StreamEvent::ToolCalls(calls) => {
            assert_eq!(calls.len(), 1);
            assert_eq!(calls[0].id, "tu1");
            assert_eq!(calls[0].name, "bash");
            assert_eq!(calls[0].arguments["command"], "ls");
        }
        _ => panic!("expected a tool call"),
    }
    assert!(matches!(es[2], StreamEvent::Done));
}

#[test]
fn unreadable_tool_input_is_an_empty_object() {
    let mut c = SseCollector::new();
    c.feed(SseEvent::ContentBlockStart {
        index: 2,
        content_block: ContentBlockMeta::ToolUse { id: "a".to_string(), name: "list_files".to_string() },
    });
    c.feed(SseEvent::ContentBlockDelta { index: 2, delta: Delta::InputJsonDelta { partial_json: "{".to_string() } });
    c.feed(SseEvent::ContentBlockStop { index: 2 });
    // A stop for a block that was never opened adds nothing.
    c.feed(SseEvent::ContentBlockStop { index: 9 });
    c.feed(SseEvent::Unknown);
    let es = c.into_events();
    assert_eq!(es.len(), 1);
    match &es[0] {
        StreamEvent::ToolCalls(calls) => {
            assert_eq!(calls[0].arguments, serde_json::Value::Object(serde_json::Map::new()))
        }
        _ => panic!("expected a tool call"),
    }
}
