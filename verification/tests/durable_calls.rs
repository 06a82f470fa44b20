use mochiclaw::kv::HistoryStore;
use mochiclaw::lambda_loop::{history_for, on_output, record_effect, LambdaOutput, LoopAction};
use mochiclaw::sdk::HttpEffect;
use mochiclaw::session::{
    assemble_session, key_from_stem, listed_key, session_file_name, sort_newest_first, Message, SessionInfo, SessionLine,
    SessionMetadata,
};
use mochiclaw::strmap::StrMap;

fn effect() -> HttpEffect {
    HttpEffect { method: "GET".to_string(), url: "https://x".to_string(), headers: StrMap::new(), body: None, timeout_ms: 10 }
}

#[test]
fn test_history_store_replays_effects() {
    let mut store = HistoryStore::new();
    let mut steps = StrMap::new();
    steps.insert("s0".to_string(), vec![1u8]);
    let action = on_output(&mut store, "exec-1", LambdaOutput::Suspended { effect: effect(), step_id: "s1".to_string(), new_history: steps });
    match action {
        LoopAction::RunEffect(e, step) => {
            assert_eq!(e.url, "https://x");
            assert_eq!(step, "s1");
        }
        LoopAction::Return(_) => panic!("expected an effect"),
    }
    record_effect(&mut store, "exec-1", "s1", vec![9u8, 9]);
    let h = history_for(&store, "exec-1");
    assert_eq!(h.get("s0"), Some(&vec![1u8]));
    assert_eq!(h.get("s1"), Some(&vec![9u8, 9]));
    match on_output(&mut store, "exec-1", LambdaOutput::Finished(vec![7u8])) {
        LoopAction::Return(r) => assert_eq!(r, vec![7u8]),
        LoopAction::RunEffect(..) => panic!("expected the result"),
    }
    assert_eq!(history_for(&store, "exec-1").len(), 0);
}

fn msg(role: &str, content: &str) -> Message {
    Message { role: role.to_string(), content: content.to_string(), tool_calls: None, tool_call_id: None, name: None, timestamp: None }
}

fn meta(key: &str) -> SessionMetadata {
    SessionMetadata {
        key: key.to_string(),
        created_at: "c".to_string(),
        updated_at: "u".to_string(),
        metadata: StrMap::new(),
        last_consolidated: 2,
    }
}

#[test]
fn test_session_files() {
    assert_eq!(session_file_name("weixin:oABC123"), "weixin_oABC123.jsonl");
    assert_eq!(key_from_stem("telegram_12345"), "telegram:12345");
    assert_eq!(listed_key(None, "a_b"), "a:b");
    assert_eq!(listed_key(Some("k".to_string()), "a_b"), "k");
    let lines = vec![
        SessionLine::Metadata(Some(meta("t:1"))),
        SessionLine::Message(msg("user", "hi")),
        SessionLine::Other,
        SessionLine::Message(msg("assistant", "hello")),
    ];
    let s = assemble_session(lines).unwrap();
    assert_eq!(s.key, "t:1");
    assert_eq!(s.last_consolidated, 2);
    assert_eq!(s.messages.len(), 2);
    assert_eq!(s.messages[1].content, "hello");
    assert!(assemble_session(vec![SessionLine::Message(msg("user", "x"))]).is_none());
    assert!(assemble_session(vec![SessionLine::Metadata(Some(meta("a"))), SessionLine::Metadata(None)]).is_none());
}

fn info(key: &str, updated: Option<&str>) -> SessionInfo {
    SessionInfo { key: key.to_string(), created_at: None, updated_at: updated.map(|s| s.to_string()), path: String::new() }
}

#[test]
fn test_sessions_newest_first() {
    let v = vec![
        info("a", Some("2024-01-01")),
        info("b", None),
        info("c", Some("2024-03-01")),
        info("d", Some("2024-01-01")),
    ];
    let keys: Vec<String> = sort_newest_first(v).into_iter().map(|s| s.key).collect();
    assert_eq!(keys, vec!["c", "a", "d", "b"]);
}
