use mochiclaw::agent::MessageRole;
use mochiclaw::providers::{chat_completions_url, chat_headers, chat_reply, main_handler, ProviderRoute, reply_from_api, ApiReply, ApiToolCall, keeps_tool_call, make_headers, make_http_effect, role_to_string, trim_end_matches};

#[test]
fn test_chat_url() {
    assert_eq!(chat_completions_url(&None), "https://api.openai.com/v1/chat/completions");
    assert_eq!(chat_completions_url(&Some("https://api.deepseek.com/v1".to_string())), "https://api.deepseek.com/v1/chat/completions");
    assert_eq!(chat_completions_url(&Some("https://x.io/v1/".to_string())), "https://x.io/v1/chat/completions");
    assert_eq!(chat_completions_url(&Some("https://x.io//".to_string())), "https://x.io/v1/chat/completions");
    assert_eq!(trim_end_matches("a/v1/v1", "/v1"), "a");
    assert_eq!(trim_end_matches("abc", ""), "abc");
}

#[test]
fn test_headers() {
    let h = chat_headers(&Some("sk".to_string()));
    assert_eq!(h.get("Authorization"), Some(&"Bearer sk".to_string()));
    assert_eq!(h.get("Content-Type"), Some(&"application/json".to_string()));
    assert_eq!(chat_headers(&None).get("Authorization"), Some(&"Bearer ".to_string()));
    let w = make_headers("tok", "", 12345);
    assert_eq!(w.get("X-WECHAT-UIN"), Some(&"MTIzNDU=".to_string()));
    assert_eq!(w.get("Authorization"), Some(&"Bearer tok".to_string()));
    assert_eq!(w.get("AuthorizationType"), Some(&"ilink_bot_token".to_string()));
    assert_eq!(w.get("SKRouteTag"), None);
    let e = make_http_effect("POST", "https://u", "", "tag", Some("{}".to_string()), 35000, 7);
    assert_eq!(e.headers.get("SKRouteTag"), Some(&"tag".to_string()));
    assert_eq!(e.headers.get("Authorization"), None);
    assert_eq!(e.headers.get("X-WECHAT-UIN"), Some(&"Nw==".to_string()));
    assert_eq!(e.timeout_ms, 35000);
    assert_eq!(role_to_string(&MessageRole::Assistant), "assistant");
    assert!(keeps_tool_call("read_file"));
    assert!(!keeps_tool_call(""));
}

fn some(s: &str) -> Option<String> {
    Some(s.to_string())
}

#[test]
fn test_reply_from_api() {
    let none = reply_from_api(None);
    assert_eq!(none.content, "");
    assert!(none.tool_calls.is_empty());
    assert_eq!(none.error, some("failed to parse OpenAI response"));
    let parsed = ApiReply {
        content: None,
        tool_calls: Some(vec![
            ApiToolCall { id: some("c1"), name: some("read_file"), arguments: some("{\"path\":\"a\"}") },
            ApiToolCall { id: some("c2"), name: some(""), arguments: None },
            ApiToolCall { id: None, name: some("list_dir"), arguments: None },
            ApiToolCall { id: some("c4"), name: some("write_file"), arguments: some("not json") },
        ]),
    };
    let r = reply_from_api(Some(parsed));
    assert_eq!(r.content, "");
    assert_eq!(r.error, None);
    assert_eq!(r.tool_calls.len(), 3);
    assert_eq!((r.tool_calls[2].name.as_str(), r.tool_calls[2].arguments.as_str()), ("write_file", "{}"));
    assert_eq!((r.tool_calls[0].id.as_str(), r.tool_calls[0].name.as_str()), ("c1", "read_file"));
    assert_eq!(r.tool_calls[0].arguments, "{\"path\":\"a\"}");
    assert_eq!((r.tool_calls[1].id.as_str(), r.tool_calls[1].name.as_str(), r.tool_calls[1].arguments.as_str()), ("", "list_dir", "{}"));
}

#[test]
fn test_chat_reply_reads_the_api_json() {
    let failed = chat_reply(false, some("timeout"), None);
    assert_eq!((failed.content.as_str(), failed.error), ("", some("timeout")));
    let body = r#"{"choices":[{"message":{"content":"hi","tool_calls":[{"id":"t1","type":"function","function":{"name":"read_file","arguments":"{}"}}]}}]}"#;
    let ok = chat_reply(true, None, some(body));
    assert_eq!(ok.content, "hi");
    assert_eq!(ok.error, None);
    assert_eq!(ok.tool_calls.len(), 1);
    assert_eq!(ok.tool_calls[0].name, "read_file");
    assert_eq!(ok.tool_calls[0].id, "t1");
    let empty = chat_reply(true, None, None);
    assert_eq!((empty.content.as_str(), empty.tool_calls.len(), empty.error), ("", 0, None));
    let bad = chat_reply(true, None, some("not json"));
    assert_eq!(bad.error, some("failed to parse OpenAI response"));
}

#[test]
fn test_provider_main_handler() {
    assert!(matches!(main_handler(mochiclaw::sdk::Action::Chat), ProviderRoute::Chat));
    match main_handler(mochiclaw::sdk::Action::Login) {
        ProviderRoute::Unsupported(r) => {
            assert_eq!(r.error, some("provider lambda does not support this action"));
            assert!(r.content.is_empty() && r.tool_calls.is_empty());
        }
        ProviderRoute::Chat => panic!("login is not a chat"),
    }
}

#[test]
fn test_chat_request_body_and_effect() {
    use_chat_request();
}

fn use_chat_request() {
    let messages = vec![
        mochiclaw::providers::ChatMessage { role: MessageRole::System, content: "be brief".to_string() },
        mochiclaw::providers::ChatMessage { role: MessageRole::User, content: "say \"hi\"\n".to_string() },
    ];
    let body = mochiclaw::providers::chat_request_body("gpt-4", &messages, &vec![], 4096, "0.7");
    assert_eq!(
        body,
        "{\"max_tokens\":4096,\"messages\":[{\"content\":\"be brief\",\"role\":\"system\"},{\"content\":\"say \\\"hi\\\"\\n\",\"role\":\"user\"}],\"model\":\"gpt-4\",\"temperature\":0.7}"
    );
    let tool = mochiclaw::agent::ToolDef {
        name: "read_file".to_string(),
        description: "Read".to_string(),
        parameters_json: "{\"type\":\"object\"}".to_string(),
    };
    let with_tools = mochiclaw::providers::chat_request_body("m", &vec![], &vec![tool], 10, "1.0");
    let v: serde_json::Value = serde_json::from_str(&with_tools).unwrap();
    assert_eq!(v["tools"][0]["type"], "function");
    assert_eq!(v["tools"][0]["function"]["name"], "read_file");
    assert_eq!(v["tools"][0]["function"]["parameters"]["type"], "object");
    let e = mochiclaw::providers::chat_http_effect(&None, &Some("sk".to_string()), with_tools.clone());
    assert_eq!(e.method, "POST");
    assert_eq!(e.url, "https://api.openai.com/v1/chat/completions");
    assert_eq!(e.timeout_ms, 60000);
    assert_eq!(e.body, Some(with_tools));
    assert_eq!(e.headers.get("Authorization"), Some(&"Bearer sk".to_string()));
    assert_eq!(mochiclaw::providers::CHAT_STEP, "chat");
}

#[test]
fn test_chat_body_escapes_like_serde_json() {
    let text = "tab\there \u{1} back\\slash \u{8}\u{c}\r é";
    let messages = vec![mochiclaw::providers::ChatMessage { role: MessageRole::User, content: text.to_string() }];
    let body = mochiclaw::providers::chat_request_body("m", &messages, &vec![], 1, "0.5");
    let expected = format!(
        "{{\"max_tokens\":1,\"messages\":[{{\"content\":{},\"role\":\"user\"}}],\"model\":\"m\",\"temperature\":0.5}}",
        serde_json::to_string(text).unwrap()
    );
    assert_eq!(body, expected);
    assert!(body.contains("\\u0001"));
}

#[test]
fn test_tool_schema_is_rewritten_like_a_value() {
    let tool = mochiclaw::agent::ToolDef {
        name: "t".to_string(),
        description: "d".to_string(),
        parameters_json: "{ \"type\" : \"object\",\n \"required\": [\"path\"] }".to_string(),
    };
    let body = mochiclaw::providers::chat_request_body("m", &vec![], &vec![tool], 1, "0.5");
    assert!(body.contains(",\"parameters\":{\"required\":[\"path\"],\"type\":\"object\"}},"));
}
