//! The filesystem sandbox of a plugin: an allowed root, read and write whitelists and
//! blacklists, and the resolution of request paths against a workspace.

use crate::path::{
    has_prefix, is_abs, join_parts, lexical_names, names_parts, parent_parts, render_parts, Component, FsPath, Part,
};
use crate::text::{concat2, concat3, to_string, views};
use vstd::prelude::*;

verus! {

/// The components of each path in a list.
pub open spec fn path_views(v: Seq<FsPath>) -> Seq<Seq<Part>> {
    v.map_values(|p: FsPath| p.view())
}

/// The paths that canonicalized, in order.
pub open spec fn canonical_views(v: Seq<Option<FsPath>>) -> Seq<Seq<Part>>
    decreases v.len(),
{
    if v.len() == 0 {
        Seq::empty()
    } else {
        let rest = canonical_views(v.drop_last());
        match v.last() {
            Some(p) => rest.push(p.view()),
            None => rest,
        }
    }
}

/// `p` lies at or below one of the listed paths.
pub open spec fn in_list(p: Seq<Part>, list: Seq<Seq<Part>>) -> bool {
    exists|i: int| 0 <= i < list.len() && (has_prefix(p, #[trigger] list[i]) || p == list[i])
}

/// Access rule shared by reads and writes: within the root, not blacklisted, and
/// whitelisted unless the whitelist is empty.
pub open spec fn permitted(root: Seq<Part>, whitelist: Seq<Seq<Part>>, blacklist: Seq<Seq<Part>>, p: Seq<Part>) -> bool {
    &&& has_prefix(p, root)
    &&& !in_list(p, blacklist)
    &&& (whitelist.len() == 0 || in_list(p, whitelist))
}

/// The workspace a request names, before canonicalization: the root when none is
/// given, an absolute one as it is, a relative one under the root.
pub open spec fn workspace_candidate(root: Seq<Part>, workspace: Seq<Part>) -> Seq<Part> {
    if workspace.len() == 0 {
        root
    } else if is_abs(workspace) {
        workspace
    } else {
        join_parts(root, workspace)
    }
}

/// The request path, before canonicalization: an absolute one as it is, a relative
/// one under the resolved workspace.
pub open spec fn path_candidate(workspace: Seq<Part>, path: Seq<Part>) -> Seq<Part> {
    if is_abs(path) {
        path
    } else {
        join_parts(workspace, path)
    }
}

/// The message of a path that escapes the root.
pub open spec fn outside_msg(kind: Seq<char>, p: Seq<Part>, root: Seq<Part>) -> Seq<char> {
    kind + " '"@ + render_parts(p) + "' is outside allowed root '"@ + render_parts(root) + "'"@
}

/// The view of a canonicalization outcome.
pub open spec fn outcome(o: Result<FsPath, String>) -> Result<Seq<Part>, Seq<char>> {
    match o {
        Ok(p) => Ok(p.view()),
        Err(e) => Err(e@),
    }
}

/// `c`, given a path with components `input`, may answer `out`.
pub open spec fn may_answer<C: Fn(&FsPath) -> Result<FsPath, String>>(
    c: C,
    input: Seq<Part>,
    out: Result<Seq<Part>, Seq<char>>,
) -> bool {
    exists|x: FsPath, o: Result<FsPath, String>|
        x.view() == input && #[trigger] call_ensures(c, (&x,), o) && outcome(o) == out
}

/// `e`, given a path with components `input`, may answer `out`.
pub open spec fn may_report<E: Fn(&FsPath) -> bool>(e: E, input: Seq<Part>, out: bool) -> bool {
    exists|x: FsPath| x.view() == input && #[trigger] call_ensures(e, (&x,), out)
}

/// What resolving a path for reading yields, given what canonicalizing the workspace
/// (`ws`) and then the path (`p`) gave.
pub open spec fn read_resolution(
    root: Seq<Part>,
    ws: Result<Seq<Part>, Seq<char>>,
    p: Result<Seq<Part>, Seq<char>>,
) -> Result<Seq<Part>, Seq<char>> {
    match ws {
        Err(e) => Err("Failed to resolve workspace: "@ + e),
        Ok(w) => if !has_prefix(w, root) {
            Err(outside_msg("Workspace"@, w, root))
        } else {
            match p {
                Err(e) => Err("Failed to resolve path: "@ + e),
                Ok(q) => if !has_prefix(q, root) {
                    Err(outside_msg("Path"@, q, root))
                } else {
                    Ok(q)
                },
            }
        },
    }
}

/// The answers that resolving for writing depends on.
pub struct WriteAnswers {
    /// Canonical workspace.
    pub ws: Result<Seq<Part>, Seq<char>>,
    /// Whether the joined path exists.
    pub joined_exists: bool,
    /// Canonical joined path (asked when it exists).
    pub joined: Result<Seq<Part>, Seq<char>>,
    /// Whether the parent exists (asked when the path does not).
    pub parent_exists: bool,
    /// Canonical parent (asked when it exists).
    pub parent: Result<Seq<Part>, Seq<char>>,
}

/// `p` normalized lexically: its root, if it has one, then the names that remain
/// once each `..` has removed the name before it (`.` and other roots dropped).
pub open spec fn normalized(p: Seq<Part>) -> Seq<Part> {
    (if is_abs(p) {
        seq![Part::Root]
    } else {
        Seq::<Part>::empty()
    }) + names_parts(lexical_names(p))
}

/// Where a path that exists, or whose parent exists, or neither, ends up, before the
/// final check against the root: when neither exists, the joined path normalized.
pub open spec fn write_target(root: Seq<Part>, joined: Seq<Part>, a: WriteAnswers) -> Result<Seq<Part>, Seq<char>> {
    if a.joined_exists {
        match a.joined {
            Err(e) => Err("Failed to resolve path: "@ + e),
            Ok(q) => Ok(q),
        }
    } else {
        match parent_parts(joined) {
            None => Err("Invalid path: '"@ + render_parts(joined) + "'"@),
            Some(_) => if a.parent_exists {
                match a.parent {
                    Err(e) => Err("Failed to resolve parent directory: "@ + e),
                    Ok(cp) => match joined.last() {
                        Part::Name(n) => Ok(cp.push(Part::Name(n))),
                        _ => Err("Invalid path: no filename"@),
                    },
                }
            } else {
                Ok(normalized(joined))
            },
        }
    }
}

/// What resolving a path for writing yields, given the answers of the filesystem.
pub open spec fn write_resolution(root: Seq<Part>, path: Seq<Part>, a: WriteAnswers) -> Result<Seq<Part>, Seq<char>> {
    match a.ws {
        Err(e) => Err("Failed to resolve workspace: "@ + e),
        Ok(w) => if !has_prefix(w, root) {
            Err(outside_msg("Workspace"@, w, root))
        } else {
            match write_target(root, path_candidate(w, path), a) {
                Err(e) => Err(e),
                Ok(q) => if !has_prefix(q, root) {
                    Err(outside_msg("Path"@, q, root))
                } else {
                    Ok(q)
                },
            }
        },
    }
}

/// The filesystem gave the answers `a` when asked in the order resolving for writing asks.
pub open spec fn write_answers_given<C: Fn(&FsPath) -> Result<FsPath, String>, E: Fn(&FsPath) -> bool>(
    canonicalize: C,
    path_exists: E,
    root: Seq<Part>,
    workspace: Seq<Part>,
    path: Seq<Part>,
    a: WriteAnswers,
) -> bool {
    &&& may_answer(canonicalize, workspace_candidate(root, workspace), a.ws)
    &&& match a.ws {
        Ok(w) => has_prefix(w, root) ==> {
            let joined = path_candidate(w, path);
            &&& may_report(path_exists, joined, a.joined_exists)
            &&& a.joined_exists ==> may_answer(canonicalize, joined, a.joined)
            &&& match parent_parts(joined) {
                Some(par) => !a.joined_exists ==> {
                    &&& may_report(path_exists, par, a.parent_exists)
                    &&& a.parent_exists ==> may_answer(canonicalize, par, a.parent)
                },
                None => true,
            }
        },
        Err(_) => true,
    }
}

/// The view of a resolution result.
pub open spec fn resolved(r: Result<FsPath, String>) -> Result<Seq<Part>, Seq<char>> {
    outcome(r)
}

/// Filesystem access bound to one plugin.
pub struct FsContext {
    /// Sandbox boundary of all filesystem operations.
    pub allowed_root: FsPath,
    /// Readable paths (empty: everything under the root).
    pub read_whitelist: Vec<FsPath>,
    /// Writable paths (empty: everything under the root).
    pub write_whitelist: Vec<FsPath>,
    /// Paths that may not be read.
    pub read_blacklist: Vec<FsPath>,
    /// Paths that may not be written.
    pub write_blacklist: Vec<FsPath>,
    /// Whether the root canonicalized; when it did not, every access is denied.
    pub root_resolved: bool,
}

/// The canonical forms of the paths that canonicalized, in order.
fn keep_canonical(v: Vec<Option<FsPath>>) -> (r: Vec<FsPath>)
    ensures
        path_views(r@) == canonical_views(v@),
{
    let mut r: Vec<FsPath> = Vec::new();
    let mut i: usize = 0;
    while i < v.len()
        invariant
            i <= v@.len(),
            path_views(r@) == canonical_views(v@.take(i as int)),
        decreases v@.len() - i,
    {
        proof {
            assert(v@.take(i + 1).drop_last() == v@.take(i as int));
        }
        match &v[i] {
            Some(p) => {
                let ghost before = r@;
                r.push(p.copy());
                assert(path_views(r@) =~= path_views(before).push(p.view()));
            },
            None => {},
        }
        i = i + 1;
    }
    assert(v@.take(v@.len() as int) == v@);
    r
}

impl FsContext {
    /// Builds the context from the configured root and lists together with what
    /// canonicalizing each of them gave (`None` where it failed). When the root does
    /// not canonicalize, the root is kept as given and all lists are left empty;
    /// otherwise the canonical root is used and each list keeps the entries that
    /// canonicalized.
    pub fn new(
        allowed_root: FsPath,
        canonical_root: Option<FsPath>,
        read_whitelist: Vec<Option<FsPath>>,
        write_whitelist: Vec<Option<FsPath>>,
        read_blacklist: Vec<Option<FsPath>>,
        write_blacklist: Vec<Option<FsPath>>,
    ) -> (r: Self)
        ensures
            r.root_resolved == canonical_root is Some,
            match canonical_root {
                None => {
                    &&& r.allowed_root.view() == allowed_root.view()
                    &&& r.read_whitelist@.len() == 0
                    &&& r.write_whitelist@.len() == 0
                    &&& r.read_blacklist@.len() == 0
                    &&& r.write_blacklist@.len() == 0
                },
                Some(c) => {
                    &&& r.allowed_root.view() == c.view()
                    &&& path_views(r.read_whitelist@) == canonical_views(read_whitelist@)
                    &&& path_views(r.write_whitelist@) == canonical_views(write_whitelist@)
                    &&& path_views(r.read_blacklist@) == canonical_views(read_blacklist@)
                    &&& path_views(r.write_blacklist@) == canonical_views(write_blacklist@)
                },
            },
    {
        match canonical_root {
            None => FsContext {
                allowed_root,
                read_whitelist: Vec::new(),
                write_whitelist: Vec::new(),
                read_blacklist: Vec::new(),
                write_blacklist: Vec::new(),
                root_resolved: false,
            },
            Some(c) => FsContext {
                allowed_root: c,
                read_whitelist: keep_canonical(read_whitelist),
                write_whitelist: keep_canonical(write_whitelist),
                read_blacklist: keep_canonical(read_blacklist),
                write_blacklist: keep_canonical(write_blacklist),
                root_resolved: true,
            },
        }
    }

    pub open spec fn root(&self) -> Seq<Part> {
        self.allowed_root.view()
    }

    /// Whether the context lets `p` be read: its root resolved and the read lists
    /// permit `p` (see `permitted`).
    pub open spec fn readable(&self, p: Seq<Part>) -> bool {
        self.root_resolved && permitted(self.root(), path_views(self.read_whitelist@), path_views(self.read_blacklist@), p)
    }

    /// Whether the context lets `p` be written: its root resolved and the write lists
    /// permit `p` (see `permitted`).
    pub open spec fn writable(&self, p: Seq<Part>) -> bool {
        self.root_resolved && permitted(self.root(), path_views(self.write_whitelist@), path_views(self.write_blacklist@), p)
    }

    /// Whether `resolved_path` lies at or below one of the listed paths.
    pub fn is_in_list(&self, resolved_path: &FsPath, list: &Vec<FsPath>) -> (r: bool)
        ensures
            r == in_list(resolved_path.view(), path_views(list@)),
    {
        let mut i: usize = 0;
        while i < list.len()
            invariant
                i <= list@.len(),
                forall|j: int| 0 <= j < i ==> !(has_prefix(resolved_path.view(), #[trigger] path_views(list@)[j])
                    || resolved_path.view() == path_views(list@)[j]),
            decreases list@.len() - i,
        {
            if resolved_path.starts_with(&list[i]) || resolved_path.same_as(&list[i]) {
                assert(path_views(list@)[i as int] == list@[i as int].view());
                return true;
            }
            assert(path_views(list@)[i as int] == list@[i as int].view());
            i = i + 1;
        }
        false
    }

    /// Whether reading `resolved_path` is allowed.
    pub fn can_read(&self, resolved_path: &FsPath) -> (r: bool)
        ensures
            r == self.readable(resolved_path.view()),
    {
        if !self.root_resolved {
            return false;
        }
        if !resolved_path.starts_with(&self.allowed_root) {
            return false;
        }
        if self.is_in_list(resolved_path, &self.read_blacklist) {
            return false;
        }
        if self.read_whitelist.len() == 0 {
            true
        } else {
            self.is_in_list(resolved_path, &self.read_whitelist)
        }
    }

    /// Whether writing `resolved_path` is allowed.
    pub fn can_write(&self, resolved_path: &FsPath) -> (r: bool)
        ensures
            r == self.writable(resolved_path.view()),
    {
        if !self.root_resolved {
            return false;
        }
        if !resolved_path.starts_with(&self.allowed_root) {
            return false;
        }
        if self.is_in_list(resolved_path, &self.write_blacklist) {
            return false;
        }
        if self.write_whitelist.len() == 0 {
            true
        } else {
            self.is_in_list(resolved_path, &self.write_whitelist)
        }
    }

    /// The message of a path that escapes the root.
    fn outside(&self, kind: &str, p: &FsPath) -> (r: String)
        ensures
            r@ == outside_msg(kind@, p.view(), self.root()),
    {
        let a = concat3(kind, " '", p.display().as_str());
        let b = concat3(a.as_str(), "' is outside allowed root '", self.allowed_root.display().as_str());
        concat2(b.as_str(), "'")
    }

    /// The workspace a request names, before canonicalization.
    pub fn workspace_candidate(&self, workspace: &FsPath) -> (r: FsPath)
        ensures
            r.view() == workspace_candidate(self.root(), workspace.view()),
            workspace.view().len() == 0 ==> r.view() == self.root(),
            is_abs(workspace.view()) ==> r.view() == workspace.view(),
            self.root().len() > 0 && workspace.view().len() > 0 && !is_abs(workspace.view()) ==> r.view()
                == self.root() + if workspace.view()[0] == Part::Cur {
                workspace.view().drop_first()
            } else {
                workspace.view()
            },
    {
        proof {
            if self.root().len() > 0 && workspace.view().len() > 0 && !is_abs(workspace.view()) {
                crate::laws::law_relative_workspace_under_root(self.root(), workspace.view(), Seq::empty());
            }
        }
        if workspace.is_empty() {
            self.allowed_root.copy()
        } else if workspace.is_absolute() {
            workspace.copy()
        } else {
            self.allowed_root.join(workspace)
        }
    }

    /// Canonicalizes the workspace of a request and checks that it lies within the root.
    fn resolve_workspace<C: Fn(&FsPath) -> Result<FsPath, String>>(
        &self,
        workspace: &FsPath,
        canonicalize: &C,
    ) -> (r: (Result<FsPath, String>, Ghost<Result<Seq<Part>, Seq<char>>>))
        requires
            forall|x: &FsPath| #[trigger] call_requires(*canonicalize, (x,)),
        ensures
            may_answer(*canonicalize, workspace_candidate(self.root(), workspace.view()), r.1@),
            match r.1@ {
                Err(e) => resolved(r.0) == Err::<Seq<Part>, Seq<char>>("Failed to resolve workspace: "@ + e),
                Ok(w) => if !has_prefix(w, self.root()) {
                    resolved(r.0) == Err::<Seq<Part>, Seq<char>>(outside_msg("Workspace"@, w, self.root()))
                } else {
                    resolved(r.0) == Ok::<Seq<Part>, Seq<char>>(w)
                },
            },
    {
        let candidate = self.workspace_candidate(workspace);
        let o = canonicalize(&candidate);
        let ghost ov = outcome(o);
        assert(may_answer(*canonicalize, candidate.view(), ov));
        match o {
            Err(e) => (Err(concat2("Failed to resolve workspace: ", e.as_str())), Ghost(ov)),
            Ok(w) => {
                if !w.starts_with(&self.allowed_root) {
                    (Err(self.outside("Workspace", &w)), Ghost(ov))
                } else {
                    (Ok(w), Ghost(ov))
                }
            },
        }
    }

    /// The request path joined to the resolved workspace, before canonicalization.
    pub fn path_candidate(workspace: &FsPath, path: &FsPath) -> (r: FsPath)
        ensures
            r.view() == path_candidate(workspace.view(), path.view()),
    {
        if path.is_absolute() {
            path.copy()
        } else {
            workspace.join(path)
        }
    }

    /// Resolves a request path for reading: the workspace (the root when empty, a
    /// relative one under the root) is canonicalized and must lie within the root;
    /// the path (a relative one under that workspace) is canonicalized and must lie
    /// within the root too.
    pub fn resolve_path_with_workspace<C: Fn(&FsPath) -> Result<FsPath, String>>(
        &self,
        path: &FsPath,
        workspace: &FsPath,
        canonicalize: &C,
    ) -> (r: Result<FsPath, String>)
        requires
            forall|x: &FsPath| #[trigger] call_requires(*canonicalize, (x,)),
        ensures
            exists|ws: Result<Seq<Part>, Seq<char>>, p: Result<Seq<Part>, Seq<char>>| {
                &&& may_answer(*canonicalize, workspace_candidate(self.root(), workspace.view()), ws)
                &&& match ws {
                    Ok(w) => has_prefix(w, self.root()) ==> may_answer(
                        *canonicalize,
                        path_candidate(w, path.view()),
                        p,
                    ),
                    Err(_) => true,
                }
                &&& resolved(r) == read_resolution(self.root(), ws, p)
            },
    {
        let (wr, Ghost(wsv)) = self.resolve_workspace(workspace, canonicalize);
        let ws = match wr {
            Err(e) => {
                assert(resolved(Err::<FsPath, String>(e)) == read_resolution(self.root(), wsv, wsv));
                return Err(e);
            },
            Ok(w) => w,
        };
        let candidate = Self::path_candidate(&ws, path);
        let o = canonicalize(&candidate);
        let ghost pv = outcome(o);
        assert(may_answer(*canonicalize, candidate.view(), pv));
        let r = match o {
            Err(e) => Err(concat2("Failed to resolve path: ", e.as_str())),
            Ok(q) => {
                if !q.starts_with(&self.allowed_root) {
                    Err(self.outside("Path", &q))
                } else {
                    Ok(q)
                }
            },
        };
        assert(resolved(r) == read_resolution(self.root(), wsv, pv));
        r
    }

    /// Resolves a request path for writing, where the file may not exist yet. The
    /// workspace is resolved as for reading. An existing path is canonicalized; for a
    /// missing one whose parent exists, the canonical parent with the file name
    /// appended is used; when the parent is missing too, the names left after lexical
    /// normalization are appended to the root. The result must lie within the root.
    pub fn resolve_path_for_write<C: Fn(&FsPath) -> Result<FsPath, String>, E: Fn(&FsPath) -> bool>(
        &self,
        path: &FsPath,
        workspace: &FsPath,
        canonicalize: &C,
        path_exists: &E,
    ) -> (r: Result<FsPath, String>)
        requires
            forall|x: &FsPath| #[trigger] call_requires(*canonicalize, (x,)),
            forall|x: &FsPath| #[trigger] call_requires(*path_exists, (x,)),
        ensures
            exists|a: WriteAnswers| {
                &&& write_answers_given(*canonicalize, *path_exists, self.root(), workspace.view(), path.view(), a)
                &&& resolved(r) == write_resolution(self.root(), path.view(), a)
            },
    {
        let (wr, Ghost(wsv)) = self.resolve_workspace(workspace, canonicalize);
        let ws = match wr {
            Err(e) => {
                let ghost a = WriteAnswers { ws: wsv, joined_exists: false, joined: wsv, parent_exists: false, parent: wsv };
                assert(write_answers_given(*canonicalize, *path_exists, self.root(), workspace.view(), path.view(), a));
                assert(resolved(Err::<FsPath, String>(e)) == write_resolution(self.root(), path.view(), a));
                return Err(e);
            },
            Ok(w) => w,
        };
        let joined = Self::path_candidate(&ws, path);
        let ghost jv = joined.view();
        let je = path_exists(&joined);
        assert(may_report(*path_exists, jv, je));
        let ghost mut a = WriteAnswers { ws: wsv, joined_exists: je, joined: wsv, parent_exists: false, parent: wsv };
        let target: Result<FsPath, String> = if je {
            let o = canonicalize(&joined);
            proof {
                a.joined = outcome(o);
                assert(may_answer(*canonicalize, jv, a.joined));
            }
            match o {
                Err(e) => Err(concat2("Failed to resolve path: ", e.as_str())),
                Ok(q) => Ok(q),
            }
        } else {
            match joined.parent() {
                None => {
                    let a1 = concat2("Invalid path: '", joined.display().as_str());
                    Err(concat2(a1.as_str(), "'"))
                },
                Some(parent) => {
                    let pe = path_exists(&parent);
                    proof {
                        a.parent_exists = pe;
                        assert(may_report(*path_exists, parent.view(), pe));
                    }
                    if pe {
                        let o = canonicalize(&parent);
                        proof {
                            a.parent = outcome(o);
                            assert(may_answer(*canonicalize, parent.view(), a.parent));
                        }
                        match o {
                            Err(e) => Err(concat2("Failed to resolve parent directory: ", e.as_str())),
                            Ok(cp) => match joined.file_name() {
                                Some(name) => {
                                    Ok(cp.join_name(name.as_str()))
                                },
                                None => Err(to_string("Invalid path: no filename")),
                            },
                        }
                    } else {
                        let names = joined.lexical_names();
                        let base = if joined.is_absolute() {
                            let b = FsPath::from_components(vec![Component::RootDir]);
                            assert(b.view() =~= seq![Part::Root]);
                            b
                        } else {
                            let b = FsPath::from_components(Vec::new());
                            assert(b.view() =~= Seq::<Part>::empty());
                            b
                        };
                        Ok(base.join_names(&names))
                    }
                },
            }
        };
        assert(resolved(target) == write_target(self.root(), jv, a));
        let r = match target {
            Err(e) => Err(e),
            Ok(q) => {
                if !q.starts_with(&self.allowed_root) {
                    Err(self.outside("Path", &q))
                } else {
                    Ok(q)
                }
            },
        };
        assert(write_answers_given(*canonicalize, *path_exists, self.root(), workspace.view(), path.view(), a));
        assert(resolved(r) == write_resolution(self.root(), path.view(), a));
        r
    }
}

} // verus!
