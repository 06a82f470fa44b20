//! The runtime's configuration file: agent, plugins, channels and models, and the
//! errors of loading it.

use crate::config::ModelConfig;
use crate::fs_lambda::ArgValue;
use crate::path::{is_abs, join_parts, parent_parts, FsPath, Part};
use crate::strmap::StrMap;
use crate::text::{concat2, to_string};
use vstd::prelude::*;

verus! {

/// Settings of one channel plugin.
pub struct ChannelConfig {
    pub enabled: bool,
    /// Authentication token, once logged in.
    pub token: Option<String>,
    /// Plugin-specific settings (such as a base URL).
    pub extra: StrMap<ArgValue>,
}

impl Default for ChannelConfig {
    fn default() -> (r: Self)
        ensures
            r.enabled,
            r.token is None,
            r.extra.wf(),
            r.extra.view() == Map::<Seq<char>, ArgValue>::empty(),
    {
        ChannelConfig { enabled: true, token: None, extra: StrMap::new() }
    }
}

/// Settings shared by all plugins.
pub struct PluginConfig {
    pub enabled: bool,
    /// Per-plugin HTTP proxy URL.
    pub proxy_url: Option<String>,
}

impl Default for PluginConfig {
    fn default() -> (r: Self)
        ensures
            r.enabled,
            r.proxy_url is None,
    {
        PluginConfig { enabled: true, proxy_url: None }
    }
}

/// Agent settings.
pub struct AgentConfig {
    pub model: String,
    pub max_iterations: usize,
    pub workspace: String,
    pub plugin_dirs: Vec<String>,
    pub use_system_proxy: bool,
}

/// The whole configuration.
pub struct Config {
    pub agent: AgentConfig,
    pub plugins: StrMap<PluginConfig>,
    pub channels: StrMap<ChannelConfig>,
    pub models: StrMap<ModelConfig>,
}

/// Where the workspace is for a configuration file at `config_path`: the configured
/// path when absolute, else that path below the file's directory (the current
/// directory when the file has none).
pub open spec fn workspace_location(workspace: Seq<Part>, config_path: Seq<Part>) -> Seq<Part> {
    if is_abs(workspace) {
        workspace
    } else {
        match parent_parts(config_path) {
            Some(dir) => join_parts(dir, workspace),
            None => join_parts(seq![Part::Cur], workspace),
        }
    }
}

impl Config {
    /// The workspace location (see `workspace_location`).
    pub fn workspace_path(&self, config_path: &FsPath) -> (r: FsPath)
        ensures
            r.view() == workspace_location(crate::path::parse_parts(self.agent.workspace@), config_path.view()),
    {
        let workspace = FsPath::parse(self.agent.workspace.as_str());
        if workspace.is_absolute() {
            return workspace;
        }
        match config_path.parent() {
            Some(dir) => dir.join(&workspace),
            None => {
                let cur = FsPath::parse(".");
                proof {
                    reveal_strlit(".");
                    let d = "."@;
                    assert(d =~= seq!['.']);
                    assert(d.drop_last() =~= Seq::<char>::empty());
                    assert(crate::path::split_slash(d.drop_last()) =~= seq![Seq::<char>::empty()]);
                    assert(crate::path::split_slash(d) =~= seq![seq!['.']]);
                    assert(crate::path::split_slash(d).drop_first() =~= Seq::<Seq<char>>::empty());
                    assert(crate::path::parse_parts(d) =~= seq![Part::Cur]);
                }
                cur.join(&workspace)
            },
        }
    }

    /// The configuration written when onboarding: model `gpt-4` served by the
    /// `mochiclaw-openai` provider, 40 iterations, the current directory as
    /// workspace, plugins under `./plugins`, no system proxy.
    pub fn default_for_onboarding() -> (r: Self)
        ensures
            r.agent.model@ == "gpt-4"@,
            r.agent.max_iterations == 40,
            r.agent.workspace@ == "."@,
            crate::text::views(r.agent.plugin_dirs@) == seq!["./plugins"@],
            !r.agent.use_system_proxy,
            r.plugins.wf() && r.plugins.view() == Map::<Seq<char>, PluginConfig>::empty(),
            r.channels.wf() && r.channels.view() == Map::<Seq<char>, ChannelConfig>::empty(),
            r.models.wf(),
            r.models.view().dom() == set!["gpt-4"@],
            r.models.view()["gpt-4"@].model@ == "gpt-4"@,
            r.models.view()["gpt-4"@].provider@ == "mochiclaw-openai"@,
            r.models.view()["gpt-4"@].api_base is None,
            r.models.view()["gpt-4"@].api_key is None,
    {
        let mut models: StrMap<ModelConfig> = StrMap::new();
        models.insert(
            to_string("gpt-4"),
            ModelConfig { model: to_string("gpt-4"), provider: to_string("mochiclaw-openai"), api_base: None, api_key: None },
        );
        let plugin_dirs = vec![to_string("./plugins")];
        assert(crate::text::views(plugin_dirs@) =~= seq!["./plugins"@]);
        assert(models.view().dom() =~= set!["gpt-4"@]);
        Config {
            agent: AgentConfig {
                model: to_string("gpt-4"),
                max_iterations: 40,
                workspace: to_string("."),
                plugin_dirs,
                use_system_proxy: false,
            },
            plugins: StrMap::new(),
            channels: StrMap::new(),
            models,
        }
    }
}

/// Errors of loading and saving the configuration.
pub enum ConfigError {
    Io(String),
    Parse(String),
    Serialization(String),
}

impl ConfigError {
    /// The error's message.
    pub fn to_string(&self) -> (r: String)
        ensures
            r@ == match self {
                ConfigError::Io(s) => "config IO error: "@ + s@,
                ConfigError::Parse(s) => "config parse error: "@ + s@,
                ConfigError::Serialization(s) => "config serialization error: "@ + s@,
            },
    {
        match self {
            ConfigError::Io(s) => concat2("config IO error: ", s.as_str()),
            ConfigError::Parse(s) => concat2("config parse error: ", s.as_str()),
            ConfigError::Serialization(s) => concat2("config serialization error: ", s.as_str()),
        }
    }
}

} // verus!
