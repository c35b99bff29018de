use sovereign::plain::{text_event, turn_end_events, PlainEvent, PlainExecutor};
use sovereign::tool::ToolResult;

#[test]
fn turn_end() {
    let es = turn_end_events(Ok(()));
    assert_eq!(es.len(), 1);
    assert!(matches!(es[0], PlainEvent::Ready));
    let es = turn_end_events(Err("boom".to_string()));
    assert_eq!(es.len(), 2);
    assert!(matches!(es[0], PlainEvent::Error(ref m) if m == "boom"));
    assert!(matches!(es[1], PlainEvent::Ready));
}

#[test]
fn tool_events() {
    let ex = PlainExecutor;
    let args: serde_json::Value = serde_json::from_str("{\"path\":\"a\"}").unwrap();
    match ex.start_event("read_file", &args) {
        PlainEvent::ToolStart { name, args: a } => {
            assert_eq!(name, "read_file");
            assert_eq!(a, args);
        }
        _ => panic!("expected tool_start"),
    }
    assert!(matches!(
        ex.done_event("read_file", &ToolResult::err("c", "no such file")),
        PlainEvent::ToolDone { ref name, ok: false } if name == "read_file"
    ));
    assert!(matches!(ex.done_event("bash", &ToolResult::ok("c", "")), PlainEvent::ToolDone { ok: true, .. }));
    assert!(matches!(text_event("chunk"), PlainEvent::Text(ref t) if t == "chunk"));
}
