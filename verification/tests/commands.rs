use mochiclaw::commands::{parse_command, CommandInfo, CommandRegistry};

type Handler = Box<dyn Fn(&str, &str, &str) -> Option<String>>;

#[test]
fn test_parse_command() {
    assert_eq!(parse_command("/help"), Some(("help".to_string(), "".to_string())));
    assert_eq!(parse_command("/clear foo"), Some(("clear".to_string(), "foo".to_string())));
    assert_eq!(parse_command("/foo bar baz"), Some(("foo".to_string(), "bar baz".to_string())));
    assert_eq!(parse_command("help"), None);
    assert_eq!(parse_command(""), None);
}

#[test]
fn parse_command_lowercases_name_only() {
    assert_eq!(parse_command("/HeLp ME"), Some(("help".to_string(), "ME".to_string())));
    assert_eq!(parse_command("/"), Some(("".to_string(), "".to_string())));
}

#[test]
fn test_registry() {
    let mut registry: CommandRegistry<Handler> = CommandRegistry::new();
    registry.register("foo", "foo description", Box::new(|_, _, _| Some("bar".to_string())));
    assert!(registry.has_command("foo"));
    assert!(!registry.has_command("unknown"));
    assert_eq!(registry.execute("c", "u", "foo", ""), Some("bar".to_string()));
    assert_eq!(registry.execute("c", "u", "unknown", ""), None);
}

#[test]
fn test_generate_help() {
    let mut registry: CommandRegistry<Handler> = CommandRegistry::new();
    registry.register("help", "Show available commands", Box::new(|_, _, _| None));
    registry.register("clear", "Clear conversation history", Box::new(|_, _, _| None));
    let help = registry.generate_help();
    assert!(help.contains("/help - Show available commands"));
    assert!(help.contains("/clear - Clear conversation history"));
}

#[test]
fn list_commands_sorted_and_help_text_exact() {
    let mut registry: CommandRegistry<Handler> = CommandRegistry::new();
    registry.register("Zeta", "last", Box::new(|_, _, _| None));
    registry.register("alpha", "first", Box::new(|_, _, a| Some(a.to_string())));
    registry.register("help", "ignored in help", Box::new(|_, _, _| None));
    assert_eq!(
        registry.list_commands(),
        vec![
            ("alpha".to_string(), "first".to_string()),
            ("help".to_string(), "ignored in help".to_string()),
            ("zeta".to_string(), "last".to_string()),
        ]
    );
    assert_eq!(
        registry.generate_help(),
        "Available commands:\n/help - Show available commands\n/clear - Clear conversation history\n/alpha - first\n/zeta - last\n\nUse /<command> to invoke a command."
    );
    assert_eq!(registry.execute("ch", "id", "alpha", "xyz"), Some("xyz".to_string()));
    assert_eq!(CommandInfo::new("d").description, "d");
}

#[test]
fn test_registered_names_are_lowercase() {
    let mut r: CommandRegistry<Handler> = CommandRegistry::new();
    r.register("Echo", "Echo back", Box::new(|_, _, a| Some(a.to_string())));
    assert!(r.has_command("echo"));
    assert!(!r.has_command("Echo"));
    assert!(!r.has_command("ECHO"));
    assert_eq!(r.execute("c", "1", "echo", "hi"), Some("hi".to_string()));
    assert_eq!(r.execute("c", "1", "Echo", "hi"), None);
}
