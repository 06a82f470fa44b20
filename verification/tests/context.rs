use mochiclaw::context::{
    file_extension, image_mime_from, mime_for_extension, ContentBlock, ContextBuilder, MediaFile,
    PromptSources, SkillEntry, UserContent, RUNTIME_CONTEXT_TAG,
};
use mochiclaw::session::Message;

fn test_skill() -> SkillEntry {
    SkillEntry {
        name: "test_skill".to_string(),
        metadata: Some("name = \"test_skill\"\nalways = true".to_string()),
        content: Some("Test skill content".to_string()),
    }
}

fn sources() -> PromptSources {
    PromptSources {
        os: "linux".to_string(),
        arch: "x86_64".to_string(),
        bootstrap: vec![],
        memory: None,
        skills: vec![test_skill()],
    }
}

#[test]
fn test_identity_section() {
    let ctx = ContextBuilder::new("/tmp/ws".to_string());
    let identity = ctx.identity_section("linux", "x86_64");
    assert!(identity.contains("mochiclaw"));
    assert!(identity.contains("Workspace"));
    assert!(identity.contains("Platform Policy"));
    assert!(identity.contains("## Runtime\nlinux x86_64, Rust\n"));
    assert!(identity.contains("Your workspace is at: /tmp/ws\n"));
    assert!(identity.contains("- Custom skills: /tmp/ws/skills/{skill-name}/SKILL.md"));
    assert!(identity.contains("## Platform Policy (POSIX)"));
    let windows = ctx.identity_section("windows", "x86_64");
    assert!(windows.contains("## Platform Policy (Windows)"));
    assert!(!windows.contains("(POSIX)"));
}

#[test]
fn test_bootstrap_files() {
    let docs = vec![("AGENTS.md".to_string(), "Agent instructions".to_string())];
    let bootstrap = mochiclaw::context::bootstrap_section(&docs).unwrap();
    assert!(bootstrap.contains("## AGENTS.md"));
    assert!(bootstrap.contains("Agent instructions"));
    assert_eq!(bootstrap, "## AGENTS.md\n\nAgent instructions");
    let two = vec![
        ("AGENTS.md".to_string(), "a".to_string()),
        ("SOUL.md".to_string(), "b".to_string()),
    ];
    assert_eq!(mochiclaw::context::bootstrap_section(&two).unwrap(), "## AGENTS.md\n\na\n\n## SOUL.md\n\nb");
    assert!(mochiclaw::context::bootstrap_section(&vec![]).is_none());
    assert_eq!(
        mochiclaw::context::bootstrap_file_names(),
        vec!["AGENTS.md", "SOUL.md", "USER.md", "TOOLS.md"]
    );
}

#[test]
fn test_always_skills_and_summary() {
    let skills = vec![
        test_skill(),
        SkillEntry { name: "plain".to_string(), metadata: None, content: Some("x".to_string()) },
        SkillEntry {
            name: "broken".to_string(),
            metadata: Some("available = false\nalways_on = true".to_string()),
            content: Some("needs deps".to_string()),
        },
    ];
    let always = mochiclaw::context::always_skills_content(&skills).unwrap();
    assert_eq!(always, "## Skill: test_skill\n\nTest skill content\n\n## Skill: broken\n\nneeds deps");
    let summary = mochiclaw::context::skills_summary(&skills).unwrap();
    assert_eq!(
        summary,
        "- **test_skill** (available=true)\n- **plain** (available=true)\n- **broken** (available=false)"
    );
    assert!(mochiclaw::context::always_skills_content(&vec![]).is_none());
    assert!(mochiclaw::context::skills_summary(&vec![]).is_none());
}

#[test]
fn test_build_system_prompt() {
    let ctx = ContextBuilder::new("/tmp/ws".to_string());
    let mut src = sources();
    src.memory = Some("Important facts".to_string());
    let prompt = ctx.build_system_prompt(&src);
    assert!(prompt.contains("mochiclaw"));
    assert!(prompt.contains("---\n\n"));
    assert!(prompt.contains("\n\n---\n\n# Memory\n\nImportant facts\n\n---\n\n# Active Skills\n\n## Skill: test_skill"));
    assert!(prompt.ends_with("- **test_skill** (available=true)"));
}

#[test]
fn test_runtime_context_section() {
    let ctx = ContextBuilder::new("/tmp/ws".to_string());
    let both = ctx.runtime_context_section("2024-01-02 03:04:05 UTC", Some("telegram"), Some("42"));
    assert_eq!(
        both,
        format!("{}\nCurrent Time: 2024-01-02 03:04:05 UTC\nChannel: telegram\nChat ID: 42", RUNTIME_CONTEXT_TAG)
    );
    let only_channel = ctx.runtime_context_section("t", Some("telegram"), None);
    assert_eq!(only_channel, format!("{}\nCurrent Time: t", RUNTIME_CONTEXT_TAG));
}

#[test]
fn test_build_messages() {
    let ctx = ContextBuilder::new("/tmp/ws".to_string());
    let messages = ctx.build_messages(
        &sources(),
        &vec![],
        "Hello",
        &vec![],
        Some("test_channel"),
        Some("chat_123"),
        "user",
    );
    assert_eq!(messages.len(), 2);
    assert_eq!(messages[0].role, "system");
    assert_eq!(messages[1].role, "user");
    assert!(messages[1].content.contains("Hello"));
    assert!(messages[1].content.contains("test_channel"));
    assert!(messages[1].content.contains("chat_123"));
}

#[test]
fn test_build_messages_keeps_history_and_merges_context() {
    let ctx = ContextBuilder::new("/tmp/ws".to_string());
    let mut history = Vec::new();
    ContextBuilder::add_assistant_message(&mut history, "earlier");
    let messages = ctx.build_messages_at("NOW", &sources(), &history, "Hi", &vec![], None, None, "user");
    assert_eq!(messages.len(), 3);
    assert_eq!(messages[1].content, "earlier");
    assert_eq!(messages[2].content, format!("{}\nCurrent Time: NOW\n\nHi", RUNTIME_CONTEXT_TAG));
}

#[test]
fn test_add_tool_result() {
    let mut messages: Vec<Message> = Vec::new();
    ContextBuilder::add_tool_result(&mut messages, "call_123", "read_file", "file content");

    assert_eq!(messages.len(), 1);
    assert_eq!(messages[0].role, "tool");
    assert_eq!(messages[0].content, "file content");
    assert_eq!(messages[0].tool_call_id, Some("call_123".to_string()));
    assert_eq!(messages[0].name, Some("read_file".to_string()));
}

#[test]
fn test_add_assistant_message() {
    let mut messages: Vec<Message> = Vec::new();
    ContextBuilder::add_assistant_message(&mut messages, "Hello!");

    assert_eq!(messages.len(), 1);
    assert_eq!(messages[0].role, "assistant");
    assert_eq!(messages[0].content, "Hello!");
}

#[test]
fn test_extension_and_mime() {
    assert_eq!(file_extension("photo.PNG"), Some("PNG".to_string()));
    assert_eq!(file_extension("archive.tar.gz"), Some("gz".to_string()));
    assert_eq!(file_extension(".bashrc"), None);
    assert_eq!(file_extension("README"), None);
    assert_eq!(file_extension("trailing."), Some("".to_string()));
    assert_eq!(mime_for_extension("jpeg"), Some("image/jpeg".to_string()));
    assert_eq!(mime_for_extension("svg"), Some("image/svg+xml".to_string()));
    assert_eq!(mime_for_extension("txt"), None);
    assert_eq!(image_mime_from(2, &vec!["image/png".to_string()]), None);
    assert_eq!(image_mime_from(50, &vec!["image/png".to_string()]), Some("image/png".to_string()));
    assert_eq!(image_mime_from(50, &vec!["text/plain".to_string()]), None);
}

#[test]
fn test_encode_image_detects_png_bytes() {
    let ctx = ContextBuilder::new("/tmp/ws".to_string());
    let png: Vec<u8> = vec![0x89, b'P', b'N', b'G', 0x0D, 0x0A, 0x1A, 0x0A, 0, 0, 0, 0x0D, b'I', b'H', b'D', b'R'];
    assert_eq!(ctx.detect_image_mime(&png), Some("image/png".to_string()));
    let url = ctx.encode_image(&png, "/pics/noext").unwrap();
    assert_eq!(url, "data:image/png;base64,iVBORw0KGgoAAAANSUhEUg==");
}

#[test]
fn test_encode_image_falls_back_to_extension() {
    let ctx = ContextBuilder::new("/tmp/ws".to_string());
    let data = b"hi".to_vec();
    assert_eq!(ctx.encode_image(&data, "/pics/a.JPG"), Some("data:image/jpeg;base64,aGk=".to_string()));
    assert_eq!(ctx.encode_image(&data, "/pics/a.txt"), None);
}

#[test]
fn test_user_content_mixed_and_escaped() {
    let ctx = ContextBuilder::new("/tmp/ws".to_string());
    let media = vec![
        MediaFile { path: "/a.gif".to_string(), data: b"xy".to_vec() },
        MediaFile { path: "/notes.txt".to_string(), data: b"xy".to_vec() },
    ];
    match ctx.build_user_content("say \"hi\"", &media) {
        UserContent::Mixed(items) => {
            assert_eq!(items.len(), 2);
            assert!(matches!(&items[0], ContentBlock::ImageUrl(u) if u == "data:image/gif;base64,eHk="));
            assert!(matches!(&items[1], ContentBlock::Text(t) if t == "say \"hi\""));
            let merged = ContextBuilder::merge_content("CTX", &UserContent::Mixed(items));
            assert_eq!(
                merged,
                "CTX\n\n[{\"type\":\"image_url\",\"image_url\":{\"url\":\"data:image/gif;base64,eHk=\"}},{\"type\":\"text\",\"text\":\"say \\\"hi\\\"\"}]"
            );
        }
        UserContent::Text(_) => panic!("expected mixed content"),
    }
    match ctx.build_user_content("plain", &vec![MediaFile { path: "/n.txt".to_string(), data: b"z".to_vec() }]) {
        UserContent::Text(t) => assert_eq!(t, "plain"),
        UserContent::Mixed(_) => panic!("expected text"),
    }
}
