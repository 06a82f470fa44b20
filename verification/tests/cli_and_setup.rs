use mochiclaw::cli_logic::{
    check_step, confirmed_login, log_date_part, login_channel_config, login_step, resolve_config_path, resolve_log_dir,
    CheckStep, LoginStep,
};
use mochiclaw::config::{CapabilitiesOverride, NetworkCapabilitiesOverride};
use mochiclaw::fs_lambda::ArgValue;
use mochiclaw::lambda_setup::effective_capabilities;
use mochiclaw::path::Component;
use mochiclaw::plugin_manifest::{should_load_plugin, Features as PluginFeatures};
use mochiclaw::lambda_setup::{effective_proxy, expand_workspace, sandbox_paths, should_load, wasm_path_for, Error};
use mochiclaw::manifest::{Features, FsCapabilities, ManifestError};
use mochiclaw::path::FsPath;
use mochiclaw::sdk::{CheckLoginOutput, LoginOutput};
use mochiclaw::settings::{Config, ConfigError};

fn login(status: &str) -> LoginOutput {
    LoginOutput { status: status.to_string(), qr_url: None, temp_token: None, token: None, base_url: None, error: None }
}

#[test]
fn test_config_and_log_paths() {
    assert_eq!(resolve_config_path(None, None).display(), "config.toml");
    assert_eq!(resolve_config_path(None, Some("/etc/m.toml".to_string())).display(), "/etc/m.toml");
    assert_eq!(resolve_config_path(Some(FsPath::parse("a.toml")), Some("/x".to_string())).display(), "a.toml");
    let cfg = FsPath::parse("/etc/mochi/config.toml");
    assert_eq!(resolve_log_dir(Some("logs"), &cfg).unwrap().display(), "/etc/mochi/logs");
    assert_eq!(resolve_log_dir(Some("/var/log"), &cfg).unwrap().display(), "/var/log");
    assert!(resolve_log_dir(None, &cfg).is_none());
    assert_eq!(resolve_log_dir(Some("logs"), &FsPath::parse("config.toml")).unwrap().display(), "logs");
    let onboard = Config::default_for_onboarding();
    assert_eq!(onboard.workspace_path(&cfg).display(), "/etc/mochi");
    assert_eq!(onboard.workspace_path(&FsPath::parse("")).display(), ".");
}

#[test]
fn test_log_date_part() {
    assert_eq!(log_date_part("mochiclaw.2026-03-28.log"), Some("2026-03-28".to_string()));
    assert_eq!(log_date_part("mochiclaw..2026-01-01"), Some("2026-01-01".to_string()));
    assert_eq!(log_date_part("other.2026-03-28.log"), None);
    assert_eq!(log_date_part("mochiclaw"), Some("".to_string()));
}

#[test]
fn test_login_steps() {
    let mut done = login("logged_in");
    assert!(matches!(login_step(&done), LoginStep::Done));
    done.token = Some("tok".to_string());
    assert!(matches!(login_step(&done), LoginStep::SaveToken(t) if t == "tok"));
    let mut qr = login("need_qr");
    assert!(matches!(login_step(&qr), LoginStep::NoQr));
    qr.qr_url = Some("https://qr".to_string());
    qr.temp_token = Some("tmp".to_string());
    assert!(matches!(login_step(&qr), LoginStep::ShowQr(u, Some(t)) if u == "https://qr" && t == "tmp"));
    assert!(matches!(login_step(&login("error")), LoginStep::Failed));
    assert!(matches!(login_step(&login("odd")), LoginStep::UnknownStatus(s) if s == "odd"));
    assert!(matches!(check_step("confirmed"), CheckStep::Confirmed));
    assert!(matches!(check_step("scaned"), CheckStep::Scanned));
    assert!(matches!(check_step("expired"), CheckStep::Expired));
    assert!(matches!(check_step("error"), CheckStep::Failed));
    assert!(matches!(check_step("wait"), CheckStep::Waiting));
    let check = CheckLoginOutput { status: "confirmed".to_string(), token: Some("T".to_string()), base_url: Some("https://b".to_string()), error: None };
    let kept = confirmed_login(&qr, &check);
    assert_eq!(kept.status, "logged_in");
    assert_eq!(kept.token, Some("T".to_string()));
    assert_eq!(kept.qr_url, Some("https://qr".to_string()));
    let cfg = login_channel_config(&kept).unwrap();
    assert!(cfg.enabled);
    assert_eq!(cfg.token, Some("T".to_string()));
    assert!(matches!(cfg.extra.get("base_url"), Some(ArgValue::Text(b)) if b == "https://b"));
    assert!(login_channel_config(&login("logged_in")).is_none());
}

#[test]
fn test_lambda_setup() {
    let f = Features { provider: false, channel: false, command: false, tool: true };
    assert!(should_load(&f));
    assert!(!should_load(&Features { provider: false, channel: false, command: false, tool: false }));
    assert_eq!(wasm_path_for(&FsPath::parse("/l/fs"), "mochiclaw-fs").display(), "/l/fs/mochiclaw-fs.wasm");
    assert_eq!(expand_workspace("", "/w"), "/w");
    assert_eq!(expand_workspace("${workspace}/data", "/w"), "/w/data");
    assert_eq!(expand_workspace("/abs", "/w"), "/abs");
    let fs = FsCapabilities {
        enabled: true,
        allowed_root: String::new(),
        read_whitelist: vec!["${workspace}/docs".to_string(), String::new()],
        write_whitelist: vec![],
        read_blacklist: vec!["/etc".to_string()],
        write_blacklist: vec![],
    };
    let p = sandbox_paths(&fs, &None);
    assert_eq!(p.allowed_root, ".");
    assert_eq!(p.read_whitelist, vec!["./docs".to_string(), ".".to_string()]);
    assert_eq!(p.read_blacklist, vec!["/etc".to_string()]);
    assert_eq!(effective_proxy(&None, &Some("http://p".to_string())), Some("http://p".to_string()));
    assert_eq!(effective_proxy(&Some("http://own".to_string()), &Some("http://p".to_string())), Some("http://own".to_string()));
    assert_eq!(Error::already_loaded("x").to_string(), "lambda error: lambda 'x' already loaded");
    assert_eq!(Error::from_manifest(&ManifestError::Io("gone".to_string())).to_string(), "manifest error: manifest IO error: gone");
    assert_eq!(ConfigError::Parse("bad".to_string()).to_string(), "config parse error: bad");
}

#[test]
fn test_effective_capabilities() {
    let mut base = mochiclaw::manifest::Capabilities::default();
    base.network.allowed_hosts = vec!["api.example.com".to_string()];
    let same = effective_capabilities(&base, &None);
    assert_eq!(same.network.allowed_hosts, vec!["api.example.com".to_string()]);
    assert!(!same.network.enabled);
    let mut o = CapabilitiesOverride::default();
    o.network = Some(NetworkCapabilitiesOverride {
        enabled: Some(true),
        allowed_hosts: Some(vec!["cdn.example.com".to_string()]),
        denied_hosts: None,
    });
    let merged = effective_capabilities(&base, &Some(o));
    assert!(merged.network.enabled);
    assert_eq!(merged.network.allowed_hosts, vec!["api.example.com".to_string(), "cdn.example.com".to_string()]);
}

#[test]
fn test_plugin_features_and_defaults() {
    assert!(!should_load_plugin(&PluginFeatures::default()));
    assert!(should_load_plugin(&PluginFeatures { provider: false, channel: false, command: true }));
    let a = mochiclaw::config::AgentConfig::with_defaults();
    assert_eq!((a.model.as_str(), a.max_iterations, a.workspace.as_str()), ("gpt-4", 40, "."));
    assert!(!mochiclaw::manifest::default_false());
    let names: Vec<String> = mochiclaw::fs_lambda::fs_tool_descriptions().into_iter().map(|(n, _)| n).collect();
    assert_eq!(names, vec!["read_file", "write_file", "edit_file", "list_dir"]);
}

#[test]
fn test_path_from_components() {
    let p = FsPath::from_components(vec![Component::RootDir, Component::Normal("srv".to_string()), Component::Normal("a".to_string())]);
    assert_eq!(p.display(), "/srv/a");
    assert!(p.same_as(&FsPath::parse("/srv/a")));
}

fn manifest_named(name: &str, tool: bool) -> mochiclaw::lambda_setup::PluginManifest {
    mochiclaw::lambda_setup::PluginManifest {
        name: name.to_string(),
        version: "0.1.0".to_string(),
        description: None,
        capabilities: mochiclaw::manifest::Capabilities::default(),
        features: Features { provider: !tool, channel: false, command: false, tool },
    }
}

#[test]
fn test_lambda_table() {
    let mut t = mochiclaw::lambda_setup::LambdaTable::new();
    assert!(t.register("fs", &manifest_named("fs", true), &None, &None, &Some("http://proxy".to_string())).is_ok());
    assert!(t.register("openai", &manifest_named("openai", false), &None, &Some("http://own".to_string()), &None).is_ok());
    match t.register("fs", &manifest_named("fs", true), &None, &None, &None) {
        Err(e) => assert_eq!(e.to_string(), "lambda error: lambda 'fs' already loaded"),
        Ok(()) => panic!("second load must be refused"),
    }
    assert!(t.has_lambda("fs") && !t.has_lambda("weixin"));
    assert_eq!(t.lambda_count(), 2);
    assert_eq!(t.lambda_names(), vec!["fs", "openai"]);
    assert_eq!(t.tool_lambdas(), vec!["fs"]);
    assert_eq!(t.lambda_context("fs").unwrap().proxy, Some("http://proxy".to_string()));
    assert_eq!(t.lambda_context("openai").unwrap().proxy, Some("http://own".to_string()));
    assert!(t.lambda_context("weixin").is_none());
}
