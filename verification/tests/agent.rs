use sovereign::agent::{LoopConfig, RoundNext, RoundStart, TurnState, MAX_TOOL_CALLS};
use sovereign::history::History;
use sovereign::message::{Role, StreamEvent, ToolCall};
use sovereign::tool::ToolResult;

fn request_messages(st: &mut TurnState, cfg: &LoopConfig, h: &History) -> usize {
    match st.start_round(cfg, h) {
        RoundStart::Request(req) => req.messages.len(),
        RoundStart::LimitReached(_) => panic!("limit reached too early"),
    }
}

#[test]
fn native_turn_with_plain_text() {
    let cfg = LoopConfig::new("m", vec![], false, "[]");
    let mut h = History::new("sys");
    let mut st = TurnState::new();
    assert_eq!(request_messages(&mut st, &cfg, &h), 1);
    let r = st.on_event(&cfg, StreamEvent::Text("hel".to_string()));
    assert_eq!(r.emit.as_deref(), Some("hel"));
    assert!(!r.stop);
    st.on_event(&cfg, StreamEvent::Text("lo".to_string()));
    assert!(st.on_event(&cfg, StreamEvent::Done).stop);
    let close = st.end_stream(&cfg, &mut h);
    assert!(close.shown.is_none());
    match close.next {
        RoundNext::Finished(o) => {
            assert_eq!(o.text, "hello");
            assert_eq!(o.tool_calls_executed, 0);
        }
        RoundNext::Execute(_) => panic!("no call was made"),
    }
    let ms = h.build_messages();
    assert_eq!(ms.len(), 2);
    assert_eq!(ms[1].role, Role::Assistant);
    assert_eq!(ms[1].content, "hello");
}

#[test]
fn native_turn_with_structured_calls() {
    let cfg = LoopConfig::new("m", vec![], false, "[]");
    let mut h = History::new("sys");
    let mut st = TurnState::new();
    request_messages(&mut st, &cfg, &h);
    let call = ToolCall {
        id: "call_0".to_string(),
        name: "bash".to_string(),
        arguments: serde_json::from_str("{\"command\":\"ls\"}").unwrap(),
    };
    st.on_event(&cfg, StreamEvent::ToolCalls(vec![call]));
    st.on_event(&cfg, StreamEvent::Done);
    let close = st.end_stream(&cfg, &mut h);
    let calls = match close.next {
        RoundNext::Execute(calls) => calls,
        RoundNext::Finished(_) => panic!("a call was made"),
    };
    assert_eq!(calls.len(), 1);
    assert_eq!(calls[0].id, "call_0");
    let ms = h.build_messages();
    assert_eq!(ms[1].tool_calls.as_ref().map(|c| c.len()), Some(1));
    st.on_tool_result(&cfg, &mut h, "bash", &ToolResult::ok("call_0", "file.txt"));
    assert_eq!(st.tool_calls_executed(), 1);
    let ms = h.build_messages();
    assert_eq!(ms[2].role, Role::Tool);
    assert_eq!(ms[2].tool_call_id.as_deref(), Some("call_0"));
    assert_eq!(ms[2].content, "file.txt");
}

#[test]
fn native_turn_with_json_in_text() {
    let cfg = LoopConfig::new("m", vec![], false, "[]");
    let mut h = History::new("sys");
    let mut st = TurnState::new();
    request_messages(&mut st, &cfg, &h);
    st.on_event(&cfg, StreamEvent::Text("{\"name\":\"list_files\",\"arguments\":{}}".to_string()));
    st.on_event(&cfg, StreamEvent::Done);
    match st.end_stream(&cfg, &mut h).next {
        RoundNext::Execute(calls) => {
            assert_eq!(calls.len(), 1);
            assert_eq!(calls[0].id, "call_1");
            assert_eq!(calls[0].name, "list_files");
        }
        RoundNext::Finished(_) => panic!("a call was written"),
    }
    // The text was the call: the assistant message keeps no text.
    let ms = h.build_messages();
    assert_eq!(ms[1].content, "");
}

#[test]
fn xml_turn() {
    let cfg = LoopConfig::new("gemma3:12b", vec![], true, "[]");
    assert!(cfg.xml_system_suffix.as_deref().unwrap().starts_with("\n\n## Available tools\n[]"));
    let mut h = History::new("sys");
    let mut st = TurnState::new();
    match st.start_round(&cfg, &h) {
        RoundStart::Request(req) => assert!(req.messages[0].content.starts_with("sys\n\n## Available tools")),
        RoundStart::LimitReached(_) => panic!(),
    }
    let r = st.on_event(&cfg, StreamEvent::Text(
        "Reading.<tool_call>{\"name\":\"read_file\",\"arguments\":{\"path\":\"a\"}}</tool_call>".to_string(),
    ));
    assert!(r.emit.is_none());
    st.on_event(&cfg, StreamEvent::Done);
    let close = st.end_stream(&cfg, &mut h);
    assert_eq!(close.shown.as_deref(), Some("Reading."));
    let calls = match close.next {
        RoundNext::Execute(calls) => calls,
        RoundNext::Finished(_) => panic!(),
    };
    assert_eq!(calls[0].id, "call_1");
    assert_eq!(calls[0].name, "read_file");
    let expected: serde_json::Value = serde_json::from_str("{\"path\":\"a\"}").unwrap();
    assert_eq!(calls[0].arguments, expected);
    st.on_tool_result(&cfg, &mut h, "read_file", &ToolResult::ok("call_1", "content"));
    let ms = h.build_messages();
    assert_eq!(ms.last().unwrap().role, Role::User);
    assert_eq!(ms.last().unwrap().content, "[Tool result for read_file]:\ncontent");
    // A second round numbers on.
    request_messages(&mut st, &cfg, &h);
    st.on_event(&cfg, StreamEvent::Text("<tool_call>{\"name\":\"bash\",\"arguments\":{}}</tool_call>".to_string()));
    match st.end_stream(&cfg, &mut h).next {
        RoundNext::Execute(calls) => assert_eq!(calls[0].id, "call_2"),
        RoundNext::Finished(_) => panic!(),
    }
}

#[test]
fn xml_turn_with_plain_answer_is_shown() {
    let cfg = LoopConfig::new("gemma3:12b", vec![], true, "[]");
    let mut h = History::new("sys");
    let mut st = TurnState::new();
    request_messages(&mut st, &cfg, &h);
    st.on_event(&cfg, StreamEvent::Text("All done.".to_string()));
    let close = st.end_stream(&cfg, &mut h);
    assert_eq!(close.shown.as_deref(), Some("All done."));
    match close.next {
        RoundNext::Finished(o) => assert_eq!(o.text, "All done."),
        RoundNext::Execute(_) => panic!(),
    }
}

#[test]
fn no_round_starts_after_the_limit() {
    let cfg = LoopConfig::new("m", vec![], false, "[]");
    let mut h = History::new("sys");
    let mut st = TurnState::new();
    for i in 0..MAX_TOOL_CALLS {
        request_messages(&mut st, &cfg, &h);
        st.on_tool_result(&cfg, &mut h, "bash", &ToolResult::ok(&format!("c{i}"), "x"));
    }
    assert_eq!(st.tool_calls_executed(), 25);
    match st.start_round(&cfg, &h) {
        RoundStart::LimitReached(o) => {
            assert_eq!(o.text, "");
            assert_eq!(o.tool_calls_executed, 25);
        }
        RoundStart::Request(_) => panic!("the limit was reached"),
    }
}
