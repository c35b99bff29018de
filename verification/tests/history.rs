use sovereign::history::History;
use sovereign::message::{ChatMessage, Role};

#[test]
fn system_prompt_comes_first() {
    let mut h = History::new("sys");
    h.push(ChatMessage::user("hi"));
    let ms = h.build_messages();
    assert_eq!(ms.len(), 2);
    assert_eq!(ms[0].role, Role::System);
    assert_eq!(ms[0].content, "sys");
    assert_eq!(ms[1].role, Role::User);
    assert_eq!(ms[1].content, "hi");
}

#[test]
fn suffix_is_appended_to_the_system_prompt() {
    let h = History::new("sys");
    let ms = h.build_messages_with_suffix(Some(" + tools"));
    assert_eq!(ms.len(), 1);
    assert_eq!(ms[0].content, "sys + tools");
    let ms = h.build_messages_with_suffix(None);
    assert_eq!(ms[0].content, "sys");
}

#[test]
fn pushed_message_is_sent_last() {
    let mut h = History::new("s");
    h.push(ChatMessage::user("one"));
    let before = h.build_messages();
    h.push(ChatMessage::assistant("two"));
    let after = h.build_messages();
    assert_eq!(after.len(), before.len() + 1);
    for (a, b) in before.iter().zip(after.iter()) {
        assert_eq!((a.role, a.content.as_str()), (b.role, b.content.as_str()));
    }
    assert_eq!(after.last().unwrap().role, Role::Assistant);
    assert_eq!(after.last().unwrap().content, "two");
}

#[test]
fn tool_result_messages_carry_the_call_id() {
    let m = ChatMessage::tool_result("call_1", "out");
    assert_eq!(m.role, Role::Tool);
    assert_eq!(m.tool_call_id.as_deref(), Some("call_1"));
    assert_eq!(m.content, "out");
}
