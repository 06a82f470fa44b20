//! Lambda manifest capabilities and how user overrides are merged into them.

use crate::config::CapabilitiesOverride;
use crate::text::{clone_strings, concat2, extend_cloned, views};
use vstd::prelude::*;

verus! {

/// A capability flag is off unless the manifest turns it on.
pub fn default_false() -> (r: bool)
    ensures
        !r,
{
    false
}

/// Network access capabilities.
pub struct NetworkCapabilities {
    /// Whether network access is enabled.
    pub enabled: bool,
    /// Allowed HTTP hosts (glob patterns supported).
    pub allowed_hosts: Vec<String>,
    /// Denied HTTP hosts; they take precedence over the allowed ones.
    pub denied_hosts: Vec<String>,
}

/// Filesystem access capabilities.
pub struct FsCapabilities {
    /// Whether filesystem access is enabled.
    pub enabled: bool,
    /// Sandbox root of all filesystem operations.
    pub allowed_root: String,
    /// Readable paths; empty means everything under the root.
    pub read_whitelist: Vec<String>,
    /// Writable paths; empty means everything under the root.
    pub write_whitelist: Vec<String>,
    /// Paths that may not be read, whatever the whitelist says.
    pub read_blacklist: Vec<String>,
    /// Paths that may not be written, whatever the whitelist says.
    pub write_blacklist: Vec<String>,
}

/// Runtime capabilities and permissions a lambda declares.
pub struct Capabilities {
    pub network: NetworkCapabilities,
    pub fs: FsCapabilities,
    /// Lambdas whose key-value stores this one may read; it writes only its own.
    pub allowed_kv_read: Vec<String>,
}

/// Features a lambda provides.
pub struct Features {
    pub provider: bool,
    pub channel: bool,
    pub command: bool,
    pub tool: bool,
}

impl Default for NetworkCapabilities {
    fn default() -> (r: Self)
        ensures
            !r.enabled && r.allowed_hosts@.len() == 0 && r.denied_hosts@.len() == 0,
    {
        NetworkCapabilities { enabled: false, allowed_hosts: Vec::new(), denied_hosts: Vec::new() }
    }
}

impl Default for FsCapabilities {
    fn default() -> (r: Self)
        ensures
            !r.enabled && r.allowed_root@.len() == 0 && r.read_whitelist@.len() == 0
                && r.write_whitelist@.len() == 0 && r.read_blacklist@.len() == 0
                && r.write_blacklist@.len() == 0,
    {
        FsCapabilities {
            enabled: false,
            allowed_root: String::new(),
            read_whitelist: Vec::new(),
            write_whitelist: Vec::new(),
            read_blacklist: Vec::new(),
            write_blacklist: Vec::new(),
        }
    }
}

impl Default for Capabilities {
    fn default() -> (r: Self)
        ensures
            !r.network.enabled && r.network.allowed_hosts@.len() == 0 && r.network.denied_hosts@.len() == 0,
            !r.fs.enabled && r.fs.allowed_root@.len() == 0 && r.fs.read_whitelist@.len() == 0
                && r.fs.write_whitelist@.len() == 0 && r.fs.read_blacklist@.len() == 0
                && r.fs.write_blacklist@.len() == 0,
            r.allowed_kv_read@.len() == 0,
    {
        Capabilities { network: NetworkCapabilities::default(), fs: FsCapabilities::default(), allowed_kv_read: Vec::new() }
    }
}

impl Default for Features {
    fn default() -> (r: Self)
        ensures
            !r.provider && !r.channel && !r.command && !r.tool,
    {
        Features { provider: false, channel: false, command: false, tool: false }
    }
}

/// The user's list to append, or nothing.
pub open spec fn appended(o: Option<Vec<String>>) -> Seq<Seq<char>> {
    match o {
        Some(v) => views(v@),
        None => Seq::empty(),
    }
}

/// A scalar override wins when present.
pub open spec fn override_bool(o: Option<bool>, base: bool) -> bool {
    match o {
        Some(b) => b,
        None => base,
    }
}

/// `base` followed by copies of the strings in `extra`, if any.
fn append_opt(base: &Vec<String>, extra: &Option<Vec<String>>) -> (r: Vec<String>)
    ensures
        views(r@) == views(base@) + appended(*extra),
{
    let mut r = clone_strings(base);
    match extra {
        Some(v) => {
            extend_cloned(&mut r, v);
        },
        None => {
            assert(views(r@) =~= views(base@) + Seq::<Seq<char>>::empty());
        },
    }
    r
}

/// `r` is `base` with the overrides `o` applied: a scalar override replaces the
/// manifest's value, list overrides are appended to the manifest's lists.
pub open spec fn merged(base: Capabilities, o: CapabilitiesOverride, r: Capabilities) -> bool {
    &&& r.network.enabled == match o.network { Some(n) => override_bool(n.enabled, base.network.enabled), None => base.network.enabled, }
    &&& views(r.network.allowed_hosts@) == views(base.network.allowed_hosts@) + match o.network { Some(n) => appended(n.allowed_hosts), None => Seq::empty(), }
    &&& views(r.network.denied_hosts@) == views(base.network.denied_hosts@) + match o.network { Some(n) => appended(n.denied_hosts), None => Seq::empty(), }
    &&& r.fs.enabled == match o.fs { Some(f) => override_bool(f.enabled, base.fs.enabled), None => base.fs.enabled, }
    &&& r.fs.allowed_root@ == match o.fs { Some(f) => match f.allowed_root { Some(root) => root@, None => base.fs.allowed_root@, }, None => base.fs.allowed_root@, }
    &&& views(r.fs.read_whitelist@) == views(base.fs.read_whitelist@) + match o.fs { Some(f) => appended(f.read_whitelist), None => Seq::empty(), }
    &&& views(r.fs.write_whitelist@) == views(base.fs.write_whitelist@) + match o.fs { Some(f) => appended(f.write_whitelist), None => Seq::empty(), }
    &&& views(r.fs.read_blacklist@) == views(base.fs.read_blacklist@) + match o.fs { Some(f) => appended(f.read_blacklist), None => Seq::empty(), }
    &&& views(r.fs.write_blacklist@) == views(base.fs.write_blacklist@) + match o.fs { Some(f) => appended(f.write_blacklist), None => Seq::empty(), }
    &&& views(r.allowed_kv_read@) == views(base.allowed_kv_read@) + appended(o.allowed_kv_read)
}

/// The two capabilities hold the same values.
pub open spec fn same_capabilities(a: Capabilities, b: Capabilities) -> bool {
    &&& a.network.enabled == b.network.enabled
    &&& views(a.network.allowed_hosts@) == views(b.network.allowed_hosts@)
    &&& views(a.network.denied_hosts@) == views(b.network.denied_hosts@)
    &&& a.fs.enabled == b.fs.enabled
    &&& a.fs.allowed_root@ == b.fs.allowed_root@
    &&& views(a.fs.read_whitelist@) == views(b.fs.read_whitelist@)
    &&& views(a.fs.write_whitelist@) == views(b.fs.write_whitelist@)
    &&& views(a.fs.read_blacklist@) == views(b.fs.read_blacklist@)
    &&& views(a.fs.write_blacklist@) == views(b.fs.write_blacklist@)
    &&& views(a.allowed_kv_read@) == views(b.allowed_kv_read@)
}

impl Capabilities {
    /// A copy of the capabilities.
    pub fn copy(&self) -> (r: Self)
        ensures
            same_capabilities(*self, r),
    {
        Capabilities {
            network: NetworkCapabilities {
                enabled: self.network.enabled,
                allowed_hosts: clone_strings(&self.network.allowed_hosts),
                denied_hosts: clone_strings(&self.network.denied_hosts),
            },
            fs: FsCapabilities {
                enabled: self.fs.enabled,
                allowed_root: self.fs.allowed_root.clone(),
                read_whitelist: clone_strings(&self.fs.read_whitelist),
                write_whitelist: clone_strings(&self.fs.write_whitelist),
                read_blacklist: clone_strings(&self.fs.read_blacklist),
                write_blacklist: clone_strings(&self.fs.write_blacklist),
            },
            allowed_kv_read: clone_strings(&self.allowed_kv_read),
        }
    }

    /// Merges the manifest's capabilities with user overrides: a scalar override
    /// (`enabled`, `allowed_root`) replaces the manifest value; a list override is
    /// appended to the manifest's list.
    pub fn merge_with(&self, overrides: &CapabilitiesOverride) -> (r: Self)
        ensures
            merged(*self, *overrides, r),
    {
        let none: Option<Vec<String>> = None;
        let (network_enabled, allowed_hosts, denied_hosts) = match &overrides.network {
            Some(n) => {
                let enabled = match n.enabled {
                    Some(b) => b,
                    None => self.network.enabled,
                };
                (enabled, append_opt(&self.network.allowed_hosts, &n.allowed_hosts), append_opt(&self.network.denied_hosts, &n.denied_hosts))
            },
            None => (self.network.enabled, append_opt(&self.network.allowed_hosts, &none), append_opt(&self.network.denied_hosts, &none)),
        };
        let (fs_enabled, allowed_root, read_whitelist, write_whitelist, read_blacklist, write_blacklist) = match &overrides.fs {
            Some(f) => {
                let enabled = match f.enabled {
                    Some(b) => b,
                    None => self.fs.enabled,
                };
                let root = match &f.allowed_root {
                    Some(root) => root.clone(),
                    None => self.fs.allowed_root.clone(),
                };
                (
                    enabled,
                    root,
                    append_opt(&self.fs.read_whitelist, &f.read_whitelist),
                    append_opt(&self.fs.write_whitelist, &f.write_whitelist),
                    append_opt(&self.fs.read_blacklist, &f.read_blacklist),
                    append_opt(&self.fs.write_blacklist, &f.write_blacklist),
                )
            },
            None => (
                self.fs.enabled,
                self.fs.allowed_root.clone(),
                append_opt(&self.fs.read_whitelist, &none),
                append_opt(&self.fs.write_whitelist, &none),
                append_opt(&self.fs.read_blacklist, &none),
                append_opt(&self.fs.write_blacklist, &none),
            ),
        };
        let allowed_kv_read = append_opt(&self.allowed_kv_read, &overrides.allowed_kv_read);
        Capabilities {
            network: NetworkCapabilities { enabled: network_enabled, allowed_hosts, denied_hosts },
            fs: FsCapabilities {
                enabled: fs_enabled,
                allowed_root,
                read_whitelist,
                write_whitelist,
                read_blacklist,
                write_blacklist,
            },
            allowed_kv_read,
        }
    }
}

/// Why a manifest could not be loaded.
pub enum ManifestError {
    Io(String),
    Parse(String),
}

impl ManifestError {
    /// The message shown for this error.
    pub fn to_string(&self) -> (r: String)
        ensures
            r@ == match self {
                ManifestError::Io(s) => "manifest IO error: "@ + s@,
                ManifestError::Parse(s) => "manifest parse error: "@ + s@,
            },
    {
        match self {
            ManifestError::Io(s) => concat2("manifest IO error: ", s.as_str()),
            ManifestError::Parse(s) => concat2("manifest parse error: ", s.as_str()),
        }
    }
}

} // verus!
