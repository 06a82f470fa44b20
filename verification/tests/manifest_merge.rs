use mochiclaw::config::{
    CapabilitiesOverride as LambdaCapabilitiesOverride, FsCapabilitiesOverride, NetworkCapabilitiesOverride,
};
use mochiclaw::manifest::{Capabilities, FsCapabilities, ManifestError, NetworkCapabilities};

fn default_capabilities() -> Capabilities {
    Capabilities {
        network: NetworkCapabilities {
            enabled: true,
            allowed_hosts: vec!["api.manifest.com".to_string()],
            denied_hosts: vec!["evil.manifest.com".to_string()],
        },
        fs: FsCapabilities {
            enabled: true,
            allowed_root: "/manifest/root".to_string(),
            read_whitelist: vec!["/manifest/read".to_string()],
            write_whitelist: vec!["/manifest/write".to_string()],
            read_blacklist: vec![],
            write_blacklist: vec![],
        },
        allowed_kv_read: vec!["plugin-a".to_string()],
    }
}

#[test]
fn test_merge_network_enabled_true_to_false() {
    let manifest = default_capabilities();
    let overrides = LambdaCapabilitiesOverride {
        network: Some(NetworkCapabilitiesOverride { enabled: Some(false), allowed_hosts: None, denied_hosts: None }),
        fs: None,
        allowed_kv_read: None,
    };
    let result = manifest.merge_with(&overrides);
    assert!(!result.network.enabled);
    assert_eq!(result.network.allowed_hosts, vec!["api.manifest.com"]);
}

#[test]
fn test_merge_network_enabled_false_to_true() {
    let manifest = Capabilities {
        network: NetworkCapabilities { enabled: false, allowed_hosts: vec![], denied_hosts: vec![] },
        fs: Default::default(),
        allowed_kv_read: vec![],
    };
    let overrides = LambdaCapabilitiesOverride {
        network: Some(NetworkCapabilitiesOverride {
            enabled: Some(true),
            allowed_hosts: Some(vec!["user.api.com".to_string()]),
            denied_hosts: None,
        }),
        fs: None,
        allowed_kv_read: None,
    };
    let result = manifest.merge_with(&overrides);
    assert!(result.network.enabled);
    assert_eq!(result.network.allowed_hosts, vec!["user.api.com"]);
}

#[test]
fn test_merge_network_allowed_hosts_append() {
    let manifest = default_capabilities();
    let overrides = LambdaCapabilitiesOverride {
        network: Some(NetworkCapabilitiesOverride {
            enabled: None,
            allowed_hosts: Some(vec!["user.api.com".to_string(), "another.api.com".to_string()]),
            denied_hosts: None,
        }),
        fs: None,
        allowed_kv_read: None,
    };
    let result = manifest.merge_with(&overrides);
    assert!(result.network.enabled);
    assert_eq!(result.network.allowed_hosts, vec!["api.manifest.com", "user.api.com", "another.api.com",]);
}

#[test]
fn test_merge_network_allowed_hosts_empty_append() {
    let manifest = default_capabilities();
    let overrides = LambdaCapabilitiesOverride {
        network: Some(NetworkCapabilitiesOverride { enabled: None, allowed_hosts: Some(vec![]), denied_hosts: None }),
        fs: None,
        allowed_kv_read: None,
    };
    let result = manifest.merge_with(&overrides);
    assert_eq!(result.network.allowed_hosts, vec!["api.manifest.com"]);
}

#[test]
fn test_merge_network_denied_hosts_append() {
    let manifest = default_capabilities();
    let overrides = LambdaCapabilitiesOverride {
        network: Some(NetworkCapabilitiesOverride {
            enabled: None,
            allowed_hosts: None,
            denied_hosts: Some(vec!["user.denied.com".to_string()]),
        }),
        fs: None,
        allowed_kv_read: None,
    };
    let result = manifest.merge_with(&overrides);
    assert_eq!(result.network.denied_hosts, vec!["evil.manifest.com", "user.denied.com"]);
}

#[test]
fn test_merge_network_denied_hosts_empty_append() {
    let manifest = default_capabilities();
    let overrides = LambdaCapabilitiesOverride {
        network: Some(NetworkCapabilitiesOverride { enabled: None, allowed_hosts: None, denied_hosts: Some(vec![]) }),
        fs: None,
        allowed_kv_read: None,
    };
    let result = manifest.merge_with(&overrides);
    assert_eq!(result.network.denied_hosts, vec!["evil.manifest.com"]);
}

#[test]
fn test_merge_fs_enabled_true_to_false() {
    let manifest = default_capabilities();
    let overrides = LambdaCapabilitiesOverride {
        network: None,
        fs: Some(FsCapabilitiesOverride {
            enabled: Some(false),
            allowed_root: None,
            read_whitelist: None,
            write_whitelist: None,
            read_blacklist: None,
            write_blacklist: None,
        }),
        allowed_kv_read: None,
    };
    let result = manifest.merge_with(&overrides);
    assert!(!result.fs.enabled);
}

#[test]
fn test_merge_fs_enabled_false_to_true() {
    let manifest = Capabilities {
        network: Default::default(),
        fs: FsCapabilities {
            enabled: false,
            allowed_root: String::new(),
            read_whitelist: vec![],
            write_whitelist: vec![],
            read_blacklist: vec![],
            write_blacklist: vec![],
        },
        allowed_kv_read: vec![],
    };
    let overrides = LambdaCapabilitiesOverride {
        network: None,
        fs: Some(FsCapabilitiesOverride {
            enabled: Some(true),
            allowed_root: Some("/user/root".to_string()),
            read_whitelist: None,
            write_whitelist: None,
            read_blacklist: None,
            write_blacklist: None,
        }),
        allowed_kv_read: None,
    };
    let result = manifest.merge_with(&overrides);
    assert!(result.fs.enabled);
    assert_eq!(result.fs.allowed_root, "/user/root");
}

#[test]
fn test_merge_fs_allowed_root_override() {
    let manifest = default_capabilities();
    let overrides = LambdaCapabilitiesOverride {
        network: None,
        fs: Some(FsCapabilitiesOverride {
            enabled: None,
            allowed_root: Some("/user/root".to_string()),
            read_whitelist: None,
            write_whitelist: None,
            read_blacklist: None,
            write_blacklist: None,
        }),
        allowed_kv_read: None,
    };
    let result = manifest.merge_with(&overrides);
    assert_eq!(result.fs.allowed_root, "/user/root");
}

#[test]
fn test_merge_fs_whitelists_append() {
    let manifest = default_capabilities();
    let overrides = LambdaCapabilitiesOverride {
        network: None,
        fs: Some(FsCapabilitiesOverride {
            enabled: None,
            allowed_root: None,
            read_whitelist: Some(vec!["/user/read".to_string()]),
            write_whitelist: Some(vec!["/user/write".to_string()]),
            read_blacklist: None,
            write_blacklist: None,
        }),
        allowed_kv_read: None,
    };
    let result = manifest.merge_with(&overrides);
    assert_eq!(result.fs.read_whitelist, vec!["/manifest/read", "/user/read"]);
    assert_eq!(result.fs.write_whitelist, vec!["/manifest/write", "/user/write"]);
}

#[test]
fn test_merge_fs_blacklists_append() {
    let manifest = default_capabilities();
    let overrides = LambdaCapabilitiesOverride {
        network: None,
        fs: Some(FsCapabilitiesOverride {
            enabled: None,
            allowed_root: None,
            read_whitelist: None,
            write_whitelist: None,
            read_blacklist: Some(vec!["/user/forbidden-read".to_string()]),
            write_blacklist: Some(vec!["/user/forbidden-write".to_string()]),
        }),
        allowed_kv_read: None,
    };
    let result = manifest.merge_with(&overrides);
    assert_eq!(result.fs.read_blacklist, vec!["/user/forbidden-read"]);
    assert_eq!(result.fs.write_blacklist, vec!["/user/forbidden-write"]);
}

#[test]
fn test_merge_allowed_kv_read_append() {
    let manifest = default_capabilities();
    let overrides = LambdaCapabilitiesOverride {
        network: None,
        fs: None,
        allowed_kv_read: Some(vec!["plugin-b".to_string(), "plugin-c".to_string()]),
    };
    let result = manifest.merge_with(&overrides);
    assert_eq!(result.allowed_kv_read, vec!["plugin-a", "plugin-b", "plugin-c"]);
}

#[test]
fn test_merge_allowed_kv_read_empty_append() {
    let manifest = default_capabilities();
    let overrides = LambdaCapabilitiesOverride { network: None, fs: None, allowed_kv_read: Some(vec![]) };
    let result = manifest.merge_with(&overrides);
    assert_eq!(result.allowed_kv_read, vec!["plugin-a"]);
}

#[test]
fn test_merge_all_fields_at_once() {
    let manifest = default_capabilities();
    let overrides = LambdaCapabilitiesOverride {
        network: Some(NetworkCapabilitiesOverride {
            enabled: Some(false),
            allowed_hosts: Some(vec!["new.host.com".to_string()]),
            denied_hosts: Some(vec!["new.denied.com".to_string()]),
        }),
        fs: Some(FsCapabilitiesOverride {
            enabled: Some(true),
            allowed_root: Some("/new/root".to_string()),
            read_whitelist: Some(vec!["/new/read".to_string()]),
            write_whitelist: Some(vec!["/new/write".to_string()]),
            read_blacklist: Some(vec!["/new/blacklist".to_string()]),
            write_blacklist: Some(vec!["/new/write-blacklist".to_string()]),
        }),
        allowed_kv_read: Some(vec!["new-plugin".to_string()]),
    };
    let result = manifest.merge_with(&overrides);
    assert!(!result.network.enabled);
    assert_eq!(result.network.allowed_hosts, vec!["api.manifest.com", "new.host.com"]);
    assert_eq!(result.network.denied_hosts, vec!["evil.manifest.com", "new.denied.com"]);
    assert!(result.fs.enabled);
    assert_eq!(result.fs.allowed_root, "/new/root");
    assert_eq!(result.fs.read_whitelist, vec!["/manifest/read", "/new/read"]);
    assert_eq!(result.fs.write_whitelist, vec!["/manifest/write", "/new/write"]);
    assert_eq!(result.fs.read_blacklist, vec!["/new/blacklist"]);
    assert_eq!(result.fs.write_blacklist, vec!["/new/write-blacklist"]);
    assert_eq!(result.allowed_kv_read, vec!["plugin-a", "new-plugin"]);
}

#[test]
fn test_merge_empty_overrides_keeps_manifest() {
    let manifest = default_capabilities();
    let overrides = LambdaCapabilitiesOverride::default();
    let result = manifest.merge_with(&overrides);
    assert_eq!(result.network.enabled, manifest.network.enabled);
    assert_eq!(result.network.allowed_hosts, manifest.network.allowed_hosts);
    assert_eq!(result.fs.enabled, manifest.fs.enabled);
    assert_eq!(result.fs.allowed_root, manifest.fs.allowed_root);
    assert_eq!(result.fs.read_whitelist, manifest.fs.read_whitelist);
    assert_eq!(result.fs.write_whitelist, manifest.fs.write_whitelist);
    assert_eq!(result.fs.read_blacklist, manifest.fs.read_blacklist);
    assert_eq!(result.fs.write_blacklist, manifest.fs.write_blacklist);
    assert_eq!(result.allowed_kv_read, manifest.allowed_kv_read);
}

#[test]
fn test_merge_partial_network_override() {
    let manifest = default_capabilities();
    let overrides = LambdaCapabilitiesOverride {
        network: Some(NetworkCapabilitiesOverride { enabled: Some(false), allowed_hosts: None, denied_hosts: None }),
        fs: None,
        allowed_kv_read: None,
    };
    let result = manifest.merge_with(&overrides);
    assert!(!result.network.enabled);
    assert_eq!(result.network.allowed_hosts, manifest.network.allowed_hosts);
    assert_eq!(result.fs.enabled, manifest.fs.enabled);
    assert_eq!(result.fs.allowed_root, manifest.fs.allowed_root);
    assert_eq!(result.fs.read_whitelist, manifest.fs.read_whitelist);
    assert_eq!(result.allowed_kv_read, manifest.allowed_kv_read);
}

#[test]
fn test_merge_partial_fs_override() {
    let manifest = default_capabilities();
    let overrides = LambdaCapabilitiesOverride {
        network: None,
        fs: Some(FsCapabilitiesOverride {
            enabled: None,
            allowed_root: Some("/override/root".to_string()),
            read_whitelist: None,
            write_whitelist: None,
            read_blacklist: None,
            write_blacklist: None,
        }),
        allowed_kv_read: None,
    };
    let result = manifest.merge_with(&overrides);
    assert_eq!(result.fs.allowed_root, "/override/root");
    assert!(result.fs.enabled);
    assert_eq!(result.fs.read_whitelist, manifest.fs.read_whitelist);
    assert_eq!(result.fs.write_whitelist, manifest.fs.write_whitelist);
    assert_eq!(result.network.enabled, manifest.network.enabled);
    assert_eq!(result.network.allowed_hosts, manifest.network.allowed_hosts);
}

#[test]
fn test_merge_manifest_network_disabled_user_enables_with_hosts() {
    let manifest = Capabilities {
        network: NetworkCapabilities { enabled: false, allowed_hosts: vec![], denied_hosts: vec![] },
        fs: Default::default(),
        allowed_kv_read: vec![],
    };
    let overrides = LambdaCapabilitiesOverride {
        network: Some(NetworkCapabilitiesOverride {
            enabled: Some(true),
            allowed_hosts: Some(vec!["*.user-specified.com".to_string()]),
            denied_hosts: None,
        }),
        fs: None,
        allowed_kv_read: None,
    };
    let result = manifest.merge_with(&overrides);
    assert!(result.network.enabled);
    assert_eq!(result.network.allowed_hosts, vec!["*.user-specified.com"]);
}

#[test]
fn test_merge_manifest_fs_disabled_user_enables_with_restrictions() {
    let manifest = Capabilities {
        network: Default::default(),
        fs: FsCapabilities {
            enabled: false,
            allowed_root: String::new(),
            read_whitelist: vec![],
            write_whitelist: vec![],
            read_blacklist: vec![],
            write_blacklist: vec![],
        },
        allowed_kv_read: vec![],
    };
    let overrides = LambdaCapabilitiesOverride {
        network: None,
        fs: Some(FsCapabilitiesOverride {
            enabled: Some(true),
            allowed_root: Some("/restricted".to_string()),
            read_whitelist: Some(vec!["/restricted/readonly".to_string()]),
            write_whitelist: Some(vec!["/restricted/readonly".to_string()]),
            read_blacklist: None,
            write_blacklist: None,
        }),
        allowed_kv_read: None,
    };
    let result = manifest.merge_with(&overrides);
    assert!(result.fs.enabled);
    assert_eq!(result.fs.allowed_root, "/restricted");
    assert_eq!(result.fs.read_whitelist, vec!["/restricted/readonly"]);
    assert_eq!(result.fs.write_whitelist, vec!["/restricted/readonly"]);
}

#[test]
fn manifest_error_messages() {
    assert_eq!(ManifestError::Io("boom".to_string()).to_string(), "manifest IO error: boom");
    assert_eq!(ManifestError::Parse("bad".to_string()).to_string(), "manifest parse error: bad");
}
