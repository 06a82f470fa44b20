use mochiclaw::agent::{
    channel_token, poll_params, poll_token, polls_channel, provider_role, reply_step, send_token, take_poll, typing_params, route_command, select_model, tool_missing_content,
    tool_result_content, CommandRoute, ReplyStep, ToolRun, MessageRole, ToolDef, ToolRegistry, TurnState, TurnStep, CLEARED_REPLY,
    GAVE_UP_REPLY,
};
use mochiclaw::commands::CommandRegistry;
use mochiclaw::config::ModelConfig;
use mochiclaw::fs_lambda::ArgValue;
use mochiclaw::sdk::{ChatResponse, ChatToolCall, InboundMessage, PollResponse, ToolExecutionResponse};
use mochiclaw::settings::ChannelConfig;
use mochiclaw::strmap::StrMap;

type Handler = Box<dyn Fn(&str, &str, &str) -> Option<String>>;

fn registry() -> CommandRegistry<Handler> {
    let mut r: CommandRegistry<Handler> = CommandRegistry::new();
    r.register("echo", "Echo the arguments", Box::new(|_, _, args| Some(format!("echo: {}", args))));
    r.register("quiet", "Says nothing", Box::new(|_, _, _| None));
    r
}

#[test]
fn test_route_commands() {
    let r = registry();
    assert!(matches!(route_command(&r, "c", "1", "/help"), CommandRoute::Help(t) if t.contains("/echo - Echo the arguments")));
    assert!(matches!(route_command(&r, "c", "1", "/clear"), CommandRoute::Clear));
    assert!(matches!(route_command(&r, "c", "1", "/Echo hi there"), CommandRoute::Reply(t) if t == "echo: hi there"));
    assert!(matches!(route_command(&r, "c", "1", "/quiet"), CommandRoute::PassThrough));
    assert!(matches!(route_command(&r, "c", "1", "/unknown x"), CommandRoute::PassThrough));
    assert!(matches!(route_command(&r, "c", "1", "hello"), CommandRoute::PassThrough));
    assert_eq!(CLEARED_REPLY, "Conversation cleared.");
}

#[test]
fn test_roles_and_turn_limit() {
    assert!(matches!(provider_role("system"), MessageRole::System));
    assert!(matches!(provider_role("assistant"), MessageRole::Assistant));
    assert!(matches!(provider_role("tool"), MessageRole::User));
    let mut t = TurnState::new(2);
    assert!(matches!(t.next_iteration(), TurnStep::CallProvider));
    assert!(matches!(t.next_iteration(), TurnStep::CallProvider));
    assert!(matches!(t.next_iteration(), TurnStep::GiveUp(m) if m == GAVE_UP_REPLY));
    let mut none = TurnState::new(0);
    assert!(matches!(none.next_iteration(), TurnStep::GiveUp(_)));
}

#[test]
fn test_tool_result_contents() {
    let ok = ToolExecutionResponse { result: "\"file text\"".to_string(), error: None };
    assert_eq!(
        tool_result_content("call_1", "read_file", &ok),
        "{\"tool_call_id\": \"call_1\", \"name\": \"read_file\", \"content\": \"file text\"}"
    );
    let err = ToolExecutionResponse { result: String::new(), error: Some("denied".to_string()) };
    assert_eq!(
        tool_result_content("call_2", "write_file", &err),
        "{\"tool_call_id\": \"call_2\", \"name\": \"write_file\", \"content\": \"Error: denied\"}"
    );
    assert_eq!(
        tool_missing_content("call_3", "shell"),
        "{\"tool_call_id\": \"call_3\", \"name\": \"shell\", \"content\": \"Error: tool 'shell' not found\"}"
    );
}

fn tool(name: &str) -> ToolDef {
    ToolDef { name: name.to_string(), description: String::new(), parameters_json: "{}".to_string() }
}

#[test]
fn test_tool_registry_later_plugin_wins() {
    let mut reg = ToolRegistry::new();
    reg.add_plugin_tools("fs", vec![tool("read_file"), tool("write_file")]);
    reg.add_plugin_tools("web", vec![tool("read_file"), tool("fetch")]);
    assert_eq!(reg.definitions.len(), 4);
    assert_eq!(reg.plugin_for("read_file"), Some("web".to_string()));
    assert_eq!(reg.plugin_for("write_file"), Some("fs".to_string()));
    assert_eq!(reg.plugin_for("shell"), None);
}

#[test]
fn test_model_and_channel_settings() {
    let mut models = StrMap::new();
    models.insert(
        "ds".to_string(),
        ModelConfig { model: "deepseek-chat".to_string(), provider: "mochi-openai".to_string(), api_base: None, api_key: Some("k".to_string()) },
    );
    let m = select_model(&models, "ds");
    assert_eq!(m.model, "deepseek-chat");
    assert_eq!(m.api_key, Some("k".to_string()));
    let d = select_model(&models, "missing");
    assert_eq!(d.model, "gpt-4");
    assert_eq!(d.provider, "mochiclaw-openai");
    let mut channels = StrMap::new();
    let mut cfg = ChannelConfig::default();
    cfg.token = Some("t0k".to_string());
    assert!(polls_channel(&cfg));
    channels.insert("weixin".to_string(), cfg);
    channels.insert("idle".to_string(), ChannelConfig::default());
    assert_eq!(channel_token(&channels, "weixin"), Some("t0k".to_string()));
    assert_eq!(channel_token(&channels, "idle"), None);
    assert_eq!(channel_token(&channels, "nope"), None);
    assert!(!polls_channel(&ChannelConfig::default()));
}

#[test]
fn test_session_key() {
    let m = InboundMessage { channel: "telegram".to_string(), chat_id: "12345".to_string(), content: String::new(), media: vec![] };
    assert_eq!(m.session_key(), "telegram:12345");
}

fn call(id: &str, name: &str) -> ChatToolCall {
    ChatToolCall { id: id.to_string(), name: name.to_string(), arguments: "{\"path\": \"a.txt\"}".to_string() }
}

#[test]
fn test_reply_steps() {
    let mut reg = ToolRegistry::new();
    reg.add_plugin_tools("fs", vec![tool("read_file")]);
    let failed = ChatResponse { content: "x".to_string(), tool_calls: vec![call("1", "read_file")], error: Some("boom".to_string()) };
    assert!(matches!(reply_step(&failed, &reg), ReplyStep::Fail(m) if m == "provider error: boom"));
    let done = ChatResponse { content: "all done".to_string(), tool_calls: vec![], error: None };
    assert!(matches!(reply_step(&done, &reg), ReplyStep::Finish(t) if t == "all done"));
    let tools = ChatResponse {
        content: String::new(),
        tool_calls: vec![call("a", "read_file"), call("b", "web_search")],
        error: None,
    };
    match reply_step(&tools, &reg) {
        ReplyStep::RunTools(runs) => {
            assert_eq!(runs.len(), 2);
            assert!(matches!(&runs[0], ToolRun::Call { id, name, arguments, plugin } if id == "a" && name == "read_file" && arguments == "{\"path\": \"a.txt\"}" && plugin == "fs"));
            assert!(matches!(&runs[1], ToolRun::Missing(t) if *t == tool_missing_content("b", "web_search")));
        }
        _ => panic!("expected tool runs"),
    }
}

fn channel_with_extra_token(enabled: bool, token: Option<ArgValue>) -> ChannelConfig {
    let mut cfg = ChannelConfig::default();
    cfg.enabled = enabled;
    if let Some(t) = token {
        cfg.extra.insert("token".to_string(), t);
    }
    cfg
}

#[test]
fn test_channel_tokens_from_extra_settings() {
    assert_eq!(poll_token(&channel_with_extra_token(true, Some(ArgValue::Text("abc".to_string())))), Some("abc".to_string()));
    assert_eq!(poll_token(&channel_with_extra_token(false, Some(ArgValue::Text("abc".to_string())))), None);
    assert_eq!(poll_token(&channel_with_extra_token(true, Some(ArgValue::Unsigned(7)))), None);
    assert_eq!(poll_token(&channel_with_extra_token(true, None)), None);
    let mut channels = StrMap::new();
    channels.insert("wx".to_string(), channel_with_extra_token(false, Some(ArgValue::Text("t".to_string()))));
    assert_eq!(send_token(&channels, "wx"), Some("t".to_string()));
    assert_eq!(send_token(&channels, "other"), None);
    let p = typing_params(&channels, "wx", "chat-1", true).expect("token is set");
    assert_eq!((p.token.as_str(), p.chat_id.as_str(), p.typing), ("t", "chat-1", true));
    assert!(typing_params(&channels, "other", "chat-1", false).is_none());
}

#[test]
fn test_poll_cursor_moves_on() {
    let mut cursors: StrMap<String> = StrMap::new();
    let first = poll_params(&cursors, "wx", "tok");
    assert_eq!((first.token.as_str(), first.get_updates_buf.as_str()), ("tok", ""));
    let msg = InboundMessage { channel: String::new(), chat_id: "u1".to_string(), content: "hi".to_string(), media: vec!["a.png".to_string()] };
    let got = take_poll(&mut cursors, "wx", PollResponse { messages: vec![msg], get_updates_buf: "c1".to_string(), error: None });
    assert_eq!(got.len(), 1);
    assert_eq!((got[0].channel.as_str(), got[0].chat_id.as_str(), got[0].content.as_str()), ("wx", "u1", "hi"));
    assert_eq!(got[0].media, vec!["a.png".to_string()]);
    assert_eq!(poll_params(&cursors, "wx", "tok").get_updates_buf, "c1");
    let none = take_poll(&mut cursors, "wx", PollResponse { messages: vec![], get_updates_buf: String::new(), error: Some("x".to_string()) });
    assert!(none.is_empty());
    assert_eq!(poll_params(&cursors, "wx", "tok").get_updates_buf, "c1");
}
