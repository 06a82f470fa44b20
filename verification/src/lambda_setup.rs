//! Finding and preparing lambdas: which discovered lambdas are loaded, the errors of
//! loading, the proxy a lambda uses, and the sandbox paths its file access gets.

use crate::config::CapabilitiesOverride;
use crate::fs_tools::result_view;
use crate::manifest::{Capabilities, Features, FsCapabilities, ManifestError};
use crate::path::FsPath;
use crate::strmap::StrMap;
use crate::text::{concat2, concat3, replace_seq, replace_str, to_string, views};
use vstd::prelude::*;

verus! {

/// A lambda's manifest.
pub struct PluginManifest {
    pub name: String,
    pub version: String,
    pub description: Option<String>,
    pub capabilities: Capabilities,
    pub features: Features,
}

/// A lambda found in a lambda directory.
pub struct DiscoveredLambda {
    pub manifest: PluginManifest,
    pub wasm_path: FsPath,
}

/// Whether a lambda with these features is loaded: it must provide a model, a
/// channel, commands or tools.
pub fn should_load(features: &Features) -> (r: bool)
    ensures
        r == (features.provider || features.channel || features.command || features.tool),
{
    features.provider || features.channel || features.command || features.tool
}

/// Where a lambda's module is: `<name>.wasm` in its directory.
pub fn wasm_path_for(dir: &FsPath, name: &str) -> (r: FsPath)
    ensures
        r.view() == crate::path::join_parts(dir.view(), crate::path::parse_parts(name@ + ".wasm"@)),
{
    let file = concat2(name, ".wasm");
    let p = FsPath::parse(file.as_str());
    dir.join(&p)
}

/// Errors of the lambda runtime.
pub enum Error {
    Lambda(String),
    Manifest(String),
}

impl Error {
    /// The error's message.
    pub fn to_string(&self) -> (r: String)
        ensures
            r@ == match self {
                Error::Lambda(s) => "lambda error: "@ + s@,
                Error::Manifest(s) => "manifest error: "@ + s@,
            },
    {
        match self {
            Error::Lambda(s) => concat2("lambda error: ", s.as_str()),
            Error::Manifest(s) => concat2("manifest error: ", s.as_str()),
        }
    }

    /// A manifest error as a runtime error, carrying its message.
    pub fn from_manifest(e: &ManifestError) -> (r: Error)
        ensures
            r matches Error::Manifest(m) && m@ == match e {
                ManifestError::Io(s) => "manifest IO error: "@ + s@,
                ManifestError::Parse(s) => "manifest parse error: "@ + s@,
            },
    {
        Error::Manifest(e.to_string())
    }

    /// The error for loading a lambda twice.
    pub fn already_loaded(name: &str) -> (r: Error)
        ensures
            r matches Error::Lambda(m) && m@ == "lambda '"@ + name@ + "' already loaded"@,
    {
        Error::Lambda(concat3("lambda '", name, "' already loaded"))
    }
}

/// The proxy a lambda's requests go through: its own, else the runtime's fallback.
pub fn effective_proxy(own: &Option<String>, fallback: &Option<String>) -> (r: Option<String>)
    ensures
        crate::session::opt_str(r) == match own {
            Some(p) => Some(p@),
            None => crate::session::opt_str(*fallback),
        },
{
    match own {
        Some(p) => Some(p.clone()),
        None => match fallback {
            Some(f) => Some(f.clone()),
            None => None,
        },
    }
}

/// The capabilities a lambda runs with: its manifest's, merged with the user's
/// overrides when there are any.
pub fn effective_capabilities(manifest: &Capabilities, overrides: &Option<CapabilitiesOverride>) -> (r: Capabilities)
    ensures
        match overrides {
            Some(o) => crate::manifest::merged(*manifest, *o, r),
            None => crate::manifest::same_capabilities(*manifest, r),
        },
{
    match overrides {
        Some(o) => manifest.merge_with(o),
        None => manifest.copy(),
    }
}

/// A sandbox path as configured, for a lambda working in `workspace`: an empty path
/// stands for the workspace, and `${workspace}` is replaced by it.
pub open spec fn expanded(p: Seq<char>, workspace: Seq<char>) -> Seq<char> {
    if p.len() == 0 {
        workspace
    } else {
        replace_seq(p, "${workspace}"@, workspace)
    }
}

/// A sandbox path as configured, for a lambda working in `workspace` (see `expanded`).
pub fn expand_workspace(p: &str, workspace: &str) -> (r: String)
    ensures
        r@ == expanded(p@, workspace@),
{
    if p.is_empty() {
        return to_string(workspace);
    }
    replace_str(p, "${workspace}", workspace)
}

fn expand_list(list: &Vec<String>, workspace: &str) -> (r: Vec<String>)
    ensures
        views(r@) == views(list@).map_values(|p: Seq<char>| expanded(p, workspace@)),
{
    let ghost target = views(list@).map_values(|p: Seq<char>| expanded(p, workspace@));
    let mut r: Vec<String> = Vec::new();
    let mut i: usize = 0;
    while i < list.len()
        invariant
            i <= list@.len(),
            target == views(list@).map_values(|p: Seq<char>| expanded(p, workspace@)),
            views(r@) == target.take(i as int),
        decreases list@.len() - i,
    {
        let ghost before = r@;
        r.push(expand_workspace(list[i].as_str(), workspace));
        proof {
            assert(views(r@) =~= views(before).push(target[i as int]));
            assert(target.take(i + 1) =~= target.take(i as int).push(target[i as int]));
        }
        i = i + 1;
    }
    assert(target.take(list@.len() as int) =~= target);
    r
}

/// The paths of a lambda's file sandbox, before canonicalization.
pub struct SandboxPaths {
    pub allowed_root: String,
    pub read_whitelist: Vec<String>,
    pub write_whitelist: Vec<String>,
    pub read_blacklist: Vec<String>,
    pub write_blacklist: Vec<String>,
}

/// The sandbox paths of a lambda with file capabilities `fs`, in the runtime's
/// workspace (the current directory when none is set).
pub fn sandbox_paths(fs: &FsCapabilities, workspace: &Option<String>) -> (r: SandboxPaths)
    ensures
        ({
            let ws = match workspace {
                Some(w) => w@,
                None => "."@,
            };
            &&& r.allowed_root@ == expanded(fs.allowed_root@, ws)
            &&& views(r.read_whitelist@) == views(fs.read_whitelist@).map_values(|p: Seq<char>| expanded(p, ws))
            &&& views(r.write_whitelist@) == views(fs.write_whitelist@).map_values(|p: Seq<char>| expanded(p, ws))
            &&& views(r.read_blacklist@) == views(fs.read_blacklist@).map_values(|p: Seq<char>| expanded(p, ws))
            &&& views(r.write_blacklist@) == views(fs.write_blacklist@).map_values(|p: Seq<char>| expanded(p, ws))
        }),
{
    let ws = match workspace {
        Some(w) => w.clone(),
        None => to_string("."),
    };
    SandboxPaths {
        allowed_root: expand_workspace(fs.allowed_root.as_str(), ws.as_str()),
        read_whitelist: expand_list(&fs.read_whitelist, ws.as_str()),
        write_whitelist: expand_list(&fs.write_whitelist, ws.as_str()),
        read_blacklist: expand_list(&fs.read_blacklist, ws.as_str()),
        write_blacklist: expand_list(&fs.write_blacklist, ws.as_str()),
    }
}

} // verus!

verus! {

/// What the host keeps of a loaded lambda: its manifest with the capabilities it runs
/// with, and the proxy its requests go through.
pub struct LoadedLambda {
    pub manifest: PluginManifest,
    pub proxy: Option<String>,
}

/// The lambdas the host has loaded, by name, in the order they were loaded.
pub struct LambdaTable {
    pub loaded: StrMap<LoadedLambda>,
}

/// The names among `keys` whose lambda provides tools, in order.
pub open spec fn tool_names(keys: Seq<Seq<char>>, m: Map<Seq<char>, LoadedLambda>) -> Seq<Seq<char>>
    decreases keys.len(),
{
    if keys.len() == 0 {
        Seq::empty()
    } else {
        let r = tool_names(keys.drop_last(), m);
        if m[keys.last()].manifest.features.tool {
            r.push(keys.last())
        } else {
            r
        }
    }
}

impl LambdaTable {
    pub open spec fn wf(&self) -> bool {
        self.loaded.wf()
    }

    /// No lambda loaded.
    pub fn new() -> (r: Self)
        ensures
            r.wf(),
            r.loaded.view() == Map::<Seq<char>, LoadedLambda>::empty(),
            r.loaded.key_seq() == Seq::<Seq<char>>::empty(),
    {
        LambdaTable { loaded: StrMap::new() }
    }

    /// Records a lambda as `load_lambda` does once it compiled: refused when a lambda
    /// of that name is loaded already; otherwise it is kept with its capabilities
    /// merged with the overrides (see `effective_capabilities`) and its proxy (see
    /// `effective_proxy`).
    pub fn register(
        &mut self,
        name: &str,
        manifest: &PluginManifest,
        overrides: &Option<CapabilitiesOverride>,
        own_proxy: &Option<String>,
        fallback_proxy: &Option<String>,
    ) -> (r: Result<(), Error>)
        requires
            old(self).wf(),
        ensures
            final(self).wf(),
            old(self).loaded.view().contains_key(name@) ==> {
                &&& r matches Err(Error::Lambda(m)) && m@ == "lambda '"@ + name@ + "' already loaded"@
                &&& final(self).loaded.view() == old(self).loaded.view()
                &&& final(self).loaded.key_seq() == old(self).loaded.key_seq()
            },
            !old(self).loaded.view().contains_key(name@) ==> {
                let e = final(self).loaded.view()[name@];
                &&& r is Ok
                &&& final(self).loaded.key_seq() == old(self).loaded.key_seq().push(name@)
                &&& final(self).loaded.view().dom() == old(self).loaded.view().dom().insert(name@)
                &&& forall|k: Seq<char>| k != name@ && #[trigger] old(self).loaded.view().contains_key(k)
                    ==> final(self).loaded.view()[k] == old(self).loaded.view()[k]
                &&& e.manifest.name@ == manifest.name@
                &&& e.manifest.version@ == manifest.version@
                &&& crate::session::opt_str(e.manifest.description) == crate::session::opt_str(manifest.description)
                &&& e.manifest.features == manifest.features
                &&& match overrides {
                    Some(o) => crate::manifest::merged(manifest.capabilities, *o, e.manifest.capabilities),
                    None => crate::manifest::same_capabilities(manifest.capabilities, e.manifest.capabilities),
                }
                &&& crate::session::opt_str(e.proxy) == match own_proxy {
                    Some(p) => Some(p@),
                    None => crate::session::opt_str(*fallback_proxy),
                }
            },
    {
        if self.loaded.contains_key(name) {
            return Err(Error::already_loaded(name));
        }
        let entry = LoadedLambda {
            manifest: PluginManifest {
                name: manifest.name.clone(),
                version: manifest.version.clone(),
                description: match &manifest.description {
                    Some(d) => Some(d.clone()),
                    None => None,
                },
                capabilities: effective_capabilities(&manifest.capabilities, overrides),
                features: Features {
                    provider: manifest.features.provider,
                    channel: manifest.features.channel,
                    command: manifest.features.command,
                    tool: manifest.features.tool,
                },
            },
            proxy: effective_proxy(own_proxy, fallback_proxy),
        };
        self.loaded.insert(to_string(name), entry);
        Ok(())
    }

    /// Whether a lambda of that name is loaded.
    pub fn has_lambda(&self, name: &str) -> (r: bool)
        requires
            self.wf(),
        ensures
            r == self.loaded.view().contains_key(name@),
    {
        self.loaded.contains_key(name)
    }

    /// How many lambdas are loaded.
    pub fn lambda_count(&self) -> (r: usize)
        requires
            self.wf(),
        ensures
            r == self.loaded.view().len(),
    {
        self.loaded.len()
    }

    /// The names of the loaded lambdas, in the order they were loaded.
    pub fn lambda_names(&self) -> (r: Vec<String>)
        requires
            self.wf(),
        ensures
            views(r@) == self.loaded.key_seq(),
    {
        let mut r: Vec<String> = Vec::new();
        let mut i: usize = 0;
        let n = self.loaded.len();
        while i < n
            invariant
                self.wf(),
                n == self.loaded.key_seq().len(),
                i <= n,
                views(r@) == self.loaded.key_seq().take(i as int),
            decreases n - i,
        {
            let ghost before = r@;
            r.push(self.loaded.key_at(i).clone());
            assert(views(r@) =~= views(before).push(self.loaded.key_seq()[i as int]));
            assert(self.loaded.key_seq().take(i + 1) =~= self.loaded.key_seq().take(i as int).push(
                self.loaded.key_seq()[i as int],
            ));
            i = i + 1;
        }
        assert(self.loaded.key_seq().take(n as int) =~= self.loaded.key_seq());
        r
    }

    /// The names of the loaded lambdas that provide tools, in load order.
    pub fn tool_lambdas(&self) -> (r: Vec<String>)
        requires
            self.wf(),
        ensures
            views(r@) == tool_names(self.loaded.key_seq(), self.loaded.view()),
    {
        let mut r: Vec<String> = Vec::new();
        let mut i: usize = 0;
        let n = self.loaded.len();
        while i < n
            invariant
                self.wf(),
                n == self.loaded.key_seq().len(),
                i <= n,
                views(r@) == tool_names(self.loaded.key_seq().take(i as int), self.loaded.view()),
            decreases n - i,
        {
            let ghost before = r@;
            let ghost ks = self.loaded.key_seq();
            proof {
                assert(ks.take(i + 1).drop_last() =~= ks.take(i as int));
                assert(ks.take(i + 1).last() == ks[i as int]);
            }
            let e = self.loaded.value_at(i);
            if e.manifest.features.tool {
                r.push(self.loaded.key_at(i).clone());
                assert(views(r@) =~= views(before).push(ks[i as int]));
            }
            i = i + 1;
        }
        assert(self.loaded.key_seq().take(n as int) =~= self.loaded.key_seq());
        r
    }

    /// What the host keeps of a loaded lambda.
    pub fn lambda_context(&self, name: &str) -> (r: Option<&LoadedLambda>)
        requires
            self.wf(),
        ensures
            match r {
                Some(e) => self.loaded.view().contains_key(name@) && *e == self.loaded.view()[name@],
                None => !self.loaded.view().contains_key(name@),
            },
    {
        self.loaded.get(name)
    }
}

} // verus!
