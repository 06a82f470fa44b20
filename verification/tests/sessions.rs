use mochiclaw::session::{safe_filename, Message, Session, ToolCall, ToolFunction};

#[test]
fn test_safe_filename() {
    assert_eq!(safe_filename("telegram:12345"), "telegram_12345");
    assert_eq!(safe_filename("weixin:oABC123"), "weixin_oABC123");
}

#[test]
fn test_session_new() {
    let session = Session::new("test:123".to_string());
    assert_eq!(session.key, "test:123");
    assert!(session.messages.is_empty());
    assert_eq!(session.last_consolidated, 0);
}

#[test]
fn test_add_message() {
    let mut session = Session::new("test:123".to_string());
    session.add_message("user", "Hello");
    assert_eq!(session.messages.len(), 1);
    assert_eq!(session.messages[0].role, "user");
    assert_eq!(session.messages[0].content, "Hello");
}

#[test]
fn test_get_history_empty() {
    let session = Session::new("test:123".to_string());
    let history = session.get_history(100);
    assert!(history.is_empty());
}

#[test]
fn test_get_history_with_messages() {
    let mut session = Session::new("test:123".to_string());
    session.add_message("user", "Hello");
    session.add_message("assistant", "Hi there!");
    session.add_message("user", "How are you?");
    let history = session.get_history(10);
    assert_eq!(history.len(), 3);
    assert_eq!(history[0].content, "Hello");
    assert_eq!(history[1].content, "Hi there!");
    assert_eq!(history[2].content, "How are you?");
}

#[test]
fn test_get_history_max_messages() {
    let mut session = Session::new("test:123".to_string());
    for i in 0..10 {
        session.add_message("user", &format!("Message {}", i));
    }
    let history = session.get_history(3);
    assert_eq!(history.len(), 3);
    assert_eq!(history[0].content, "Message 7");
}

fn call(id: &str) -> ToolCall {
    ToolCall {
        id: id.to_string(),
        call_type: "function".to_string(),
        function: ToolFunction { name: "read_file".to_string(), arguments: "{}".to_string() },
    }
}

#[test]
fn history_drops_orphan_tool_results() {
    let mut session = Session::new("s".to_string());
    session.add_message("user", "first");
    session.add_message_full("tool", "orphan", None, Some("missing".to_string()), None);
    session.add_message("user", "second");
    session.add_message_full("assistant", "", Some(vec![call("c1")]), None, None);
    session.add_message_full("tool", "ok", None, Some("c1".to_string()), Some("read_file".to_string()));
    let history = session.get_history(0);
    assert_eq!(history.len(), 3);
    assert_eq!(history[0].content, "second");
    assert_eq!(history[2].content, "ok");
}

#[test]
fn history_skips_leading_non_user_messages() {
    let mut session = Session::new("s".to_string());
    session.add_message("assistant", "hello");
    session.add_message("user", "hi");
    let history = session.get_history(5);
    assert_eq!(history.len(), 1);
    assert_eq!(history[0].content, "hi");
}

#[test]
fn retain_recent_legal_suffix_trims_to_user_turn() {
    let mut session = Session::new("s".to_string());
    session.add_message("user", "u1");
    session.add_message("assistant", "a1");
    session.add_message("user", "u2");
    session.add_message("assistant", "a2");
    session.add_message("assistant", "a3");
    session.last_consolidated = 4;
    session.retain_recent_legal_suffix(2);
    let contents: Vec<&str> = session.messages.iter().map(|m: &Message| m.content.as_str()).collect();
    assert_eq!(contents, vec!["u2", "a2", "a3"]);
    assert_eq!(session.last_consolidated, 2);
    session.retain_recent_legal_suffix(0);
    assert!(session.messages.is_empty());
    assert_eq!(session.last_consolidated, 0);
}
