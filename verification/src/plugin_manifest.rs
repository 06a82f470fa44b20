//! The manifest of a plugin of the plugin runtime: the hosts it may reach, the key
//! value stores it may read, and the features it provides.

use crate::path::FsPath;
use crate::text::concat2;
use vstd::prelude::*;

verus! {

/// What a plugin may do besides running.
pub struct Capabilities {
    /// Hosts it may reach over HTTP.
    pub allowed_hosts: Vec<String>,
    /// Plugins whose key value stores it may read (it always writes only its own).
    pub allowed_kv_read: Vec<String>,
}

/// What a plugin provides.
pub struct Features {
    pub provider: bool,
    pub channel: bool,
    pub command: bool,
}

impl Default for Features {
    fn default() -> (r: Self)
        ensures
            !r.provider && !r.channel && !r.command,
    {
        Features { provider: false, channel: false, command: false }
    }
}

impl Default for Capabilities {
    fn default() -> (r: Self)
        ensures
            r.allowed_hosts@.len() == 0,
            r.allowed_kv_read@.len() == 0,
    {
        Capabilities { allowed_hosts: Vec::new(), allowed_kv_read: Vec::new() }
    }
}

/// A plugin's manifest.
pub struct PluginManifest {
    pub name: String,
    pub version: String,
    pub description: Option<String>,
    pub capabilities: Capabilities,
    pub features: Features,
}

/// A plugin found in a plugin directory, named after its directory.
pub struct DiscoveredPlugin {
    pub name: String,
    pub manifest: PluginManifest,
    pub wasm_path: FsPath,
}

/// Whether a plugin with these features is loaded: it must provide a model, a
/// channel or commands.
pub fn should_load_plugin(features: &Features) -> (r: bool)
    ensures
        r == (features.provider || features.channel || features.command),
{
    features.provider || features.channel || features.command
}

/// Why a manifest could not be loaded.
pub enum ManifestError {
    Io(String),
    Parse(String),
}

impl ManifestError {
    /// The message shown for this error.
    pub fn to_string(&self) -> (r: String)
        ensures
            r@ == match self {
                ManifestError::Io(s) => "manifest IO error: "@ + s@,
                ManifestError::Parse(s) => "manifest parse error: "@ + s@,
            },
    {
        match self {
            ManifestError::Io(s) => concat2("manifest IO error: ", s.as_str()),
            ManifestError::Parse(s) => concat2("manifest parse error: ", s.as_str()),
        }
    }
}

} // verus!
