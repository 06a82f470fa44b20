//! Configuration records and their default values.

use crate::text::{clone_strings, to_string, views};
use vstd::prelude::*;

verus! {

/// Default model name.
pub fn default_model() -> (r: String)
    ensures
        r@ == "gpt-4"@,
{
    to_string("gpt-4")
}

/// Default bound on agent iterations.
pub fn default_max_iterations() -> (r: usize)
    ensures
        r == 40,
{
    40
}

/// Default workspace directory.
pub fn default_workspace() -> (r: String)
    ensures
        r@ == "."@,
{
    to_string(".")
}

/// Plugins and channels are enabled unless configured otherwise.
pub fn default_enabled() -> (r: bool)
    ensures
        r,
{
    true
}

/// Default log level.
pub fn default_log_level() -> (r: String)
    ensures
        r@ == "info"@,
{
    to_string("info")
}

/// Agent configuration.
pub struct AgentConfig {
    /// Default model name to use (references a model in the models table).
    pub model: String,
    pub max_iterations: usize,
    /// Workspace directory for sessions and other data.
    pub workspace: String,
}

impl AgentConfig {
    /// The configuration that an empty `[agent]` table yields.
    pub fn with_defaults() -> (r: Self)
        ensures
            r.model@ == "gpt-4"@,
            r.max_iterations == 40,
            r.workspace@ == "."@,
    {
        AgentConfig { model: default_model(), max_iterations: default_max_iterations(), workspace: default_workspace() }
    }
}

/// Model configuration.
pub struct ModelConfig {
    /// The actual model name (e.g., "gpt-4").
    pub model: String,
    /// Provider plugin to use.
    pub provider: String,
    /// API endpoint base URL.
    pub api_base: Option<String>,
    /// API key for the provider.
    pub api_key: Option<String>,
}

/// User overrides for network capabilities.
pub struct NetworkCapabilitiesOverride {
    /// Replaces `network.enabled` when present.
    pub enabled: Option<bool>,
    /// Appended to the manifest's allowed hosts.
    pub allowed_hosts: Option<Vec<String>>,
    /// Appended to the manifest's denied hosts.
    pub denied_hosts: Option<Vec<String>>,
}

/// User overrides for filesystem capabilities.
pub struct FsCapabilitiesOverride {
    /// Replaces `fs.enabled` when present.
    pub enabled: Option<bool>,
    /// Replaces `allowed_root` when present.
    pub allowed_root: Option<String>,
    /// Appended to the manifest's read whitelist.
    pub read_whitelist: Option<Vec<String>>,
    /// Appended to the manifest's write whitelist.
    pub write_whitelist: Option<Vec<String>>,
    /// Appended to the manifest's read blacklist.
    pub read_blacklist: Option<Vec<String>>,
    /// Appended to the manifest's write blacklist.
    pub write_blacklist: Option<Vec<String>>,
}

/// User overrides for manifest capabilities.
pub struct CapabilitiesOverride {
    pub network: Option<NetworkCapabilitiesOverride>,
    pub fs: Option<FsCapabilitiesOverride>,
    /// Appended to the manifest's `allowed_kv_read` list.
    pub allowed_kv_read: Option<Vec<String>>,
}

impl Default for NetworkCapabilitiesOverride {
    fn default() -> (r: Self)
        ensures
            r.enabled is None && r.allowed_hosts is None && r.denied_hosts is None,
    {
        NetworkCapabilitiesOverride { enabled: None, allowed_hosts: None, denied_hosts: None }
    }
}

impl Default for FsCapabilitiesOverride {
    fn default() -> (r: Self)
        ensures
            r.enabled is None && r.allowed_root is None && r.read_whitelist is None
                && r.write_whitelist is None && r.read_blacklist is None && r.write_blacklist is None,
    {
        FsCapabilitiesOverride {
            enabled: None,
            allowed_root: None,
            read_whitelist: None,
            write_whitelist: None,
            read_blacklist: None,
            write_blacklist: None,
        }
    }
}

impl Default for CapabilitiesOverride {
    fn default() -> (r: Self)
        ensures
            r.network is None && r.fs is None && r.allowed_kv_read is None,
    {
        CapabilitiesOverride { network: None, fs: None, allowed_kv_read: None }
    }
}

/// Configuration of one plugin.
pub struct PluginConfig {
    pub enabled: bool,
    /// Per-plugin HTTP proxy URL.
    pub proxy_url: Option<String>,
    /// Capability overrides, merged with the manifest capabilities.
    pub capabilities: Option<CapabilitiesOverride>,
}

impl Default for PluginConfig {
    fn default() -> (r: Self)
        ensures
            r.enabled && r.proxy_url is None && r.capabilities is None,
    {
        PluginConfig { enabled: default_enabled(), proxy_url: None, capabilities: None }
    }
}

/// Log configuration.
pub struct LogConfig {
    /// Log level.
    pub level: String,
    /// Log directory (absolute, or relative to the configuration file).
    pub dir: Option<String>,
    /// Maximum age of log files in days.
    pub max_age_days: Option<u32>,
}

impl Default for LogConfig {
    fn default() -> (r: Self)
        ensures
            r.level@ == Seq::<char>::empty() && r.dir is None && r.max_age_days is None,
    {
        LogConfig { level: String::new(), dir: None, max_age_days: None }
    }
}

/// Network configuration.
pub struct NetworkConfig {
    /// Whether to fall back on the system HTTP proxy.
    pub use_system_proxy: bool,
}

impl Default for NetworkConfig {
    fn default() -> (r: Self)
        ensures
            !r.use_system_proxy,
    {
        NetworkConfig { use_system_proxy: false }
    }
}

/// Runtime configuration.
pub struct RuntimeConfig {
    /// Directories to scan for lambdas.
    pub lambda_dirs: Vec<String>,
    pub log: LogConfig,
    pub network: NetworkConfig,
}

impl Default for RuntimeConfig {
    fn default() -> (r: Self)
        ensures
            r.lambda_dirs@.len() == 0 && r.log.level@ == Seq::<char>::empty() && r.log.dir is None
                && r.log.max_age_days is None && !r.network.use_system_proxy,
    {
        RuntimeConfig { lambda_dirs: Vec::new(), log: LogConfig::default(), network: NetworkConfig::default() }
    }
}

/// One directory to scan for plugins.
pub struct PluginDirConfig {
    pub path: String,
}

/// Plugin directories.
pub struct PluginsConfig {
    pub plugin_dirs: Vec<PluginDirConfig>,
}

} // verus!
