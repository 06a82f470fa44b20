//! The checks that the host runs before a plugin's file request touches the disk:
//! resolving the requested path inside the sandbox, then the permission for the
//! kind of access.

use crate::path::{FsPath, Part};
use crate::sandbox::{
    may_answer, outcome, path_candidate, read_resolution, resolved, workspace_candidate,
    write_answers_given, write_resolution, FsContext, WriteAnswers,
};
use crate::text::{concat3, to_string};
use vstd::prelude::*;

verus! {

/// The kinds of access that a request path is checked for, besides writing.
pub enum FsAccess {
    Read,
    Edit,
    List,
}

/// The verb of an access, as the refusal names it.
pub open spec fn access_verb(a: FsAccess) -> Seq<char> {
    match a {
        FsAccess::Read => "read"@,
        FsAccess::Edit => "edit"@,
        FsAccess::List => "list"@,
    }
}

/// Whether the context lets a resolved path be accessed so: editing needs write
/// permission, reading and listing read permission.
pub open spec fn access_allowed(ctx: FsContext, a: FsAccess, p: Seq<Part>) -> bool {
    match a {
        FsAccess::Edit => ctx.writable(p),
        _ => ctx.readable(p),
    }
}

/// What a request for path `path_text` yields after resolution gave `res`: the
/// resolved path, or the answer that refuses the request.
pub open spec fn gate(ctx: FsContext, a: FsAccess, path_text: Seq<char>, res: Result<Seq<Part>, Seq<char>>) -> Result<
    Seq<Part>,
    Seq<char>,
> {
    match res {
        Err(e) => Err("Error: "@ + e),
        Ok(q) => if access_allowed(ctx, a, q) {
            Ok(q)
        } else {
            Err("Permission denied: cannot "@ + access_verb(a) + " '"@ + path_text + "'"@)
        },
    }
}

/// The permission check after resolution (see `gate`).
pub fn check_access(ctx: &FsContext, access: FsAccess, path_text: &str, res: Result<FsPath, String>) -> (r: Result<FsPath, String>)
    ensures
        outcome(r) == gate(*ctx, access, path_text@, outcome(res)),
{
    match res {
        Err(e) => Err(crate::text::concat2("Error: ", e.as_str())),
        Ok(q) => {
            let allowed = match access {
                FsAccess::Edit => ctx.can_write(&q),
                _ => ctx.can_read(&q),
            };
            if allowed {
                Ok(q)
            } else {
                let verb = match access {
                    FsAccess::Read => "read",
                    FsAccess::Edit => "edit",
                    FsAccess::List => "list",
                };
                let mut m = concat3("Permission denied: cannot ", verb, " '");
                m.append(path_text);
                m.append("'");
                Err(m)
            }
        },
    }
}

/// Resolves the request path `path_text` against the workspace `workspace_text`
/// inside the sandbox and checks the permission for the access; `canonicalize` is
/// the filesystem's canonicalization. Whatever canonicalization answered, the result
/// is what `gate` makes of the resolution those answers give.
pub fn authorize<C: Fn(&FsPath) -> Result<FsPath, String>>(
    ctx: &FsContext,
    access: FsAccess,
    path_text: &str,
    workspace_text: &str,
    canonicalize: &C,
) -> (r: Result<FsPath, String>)
    requires
        forall|x: &FsPath| #[trigger] call_requires(*canonicalize, (x,)),
    ensures
        exists|ws: Result<Seq<Part>, Seq<char>>, p: Result<Seq<Part>, Seq<char>>| {
            &&& may_answer(*canonicalize, workspace_candidate(ctx.root(), crate::path::parse_parts(workspace_text@)), ws)
            &&& match ws {
                Ok(w) => crate::path::has_prefix(w, ctx.root()) ==> may_answer(
                    *canonicalize,
                    path_candidate(w, crate::path::parse_parts(path_text@)),
                    p,
                ),
                Err(_) => true,
            }
            &&& outcome(r) == gate(*ctx, access, path_text@, read_resolution(ctx.root(), ws, p))
        },
{
    let path = FsPath::parse(path_text);
    let workspace = FsPath::parse(workspace_text);
    let res = ctx.resolve_path_with_workspace(&path, &workspace, canonicalize);
    check_access(ctx, access, path_text, res)
}

/// The target of a write after resolution gave `res`: the resolved path when the
/// context lets it be written.
pub open spec fn write_gate(ctx: FsContext, res: Result<Seq<Part>, Seq<char>>) -> Option<Seq<Part>> {
    match res {
        Ok(q) => if ctx.writable(q) {
            Some(q)
        } else {
            None
        },
        Err(_) => None,
    }
}

/// Resolves a write request's path (which may not exist yet) and checks the write
/// permission; `None` refuses the write. Whatever the filesystem answered, the
/// result is what `write_gate` makes of the resolution those answers give.
pub fn authorize_write<C: Fn(&FsPath) -> Result<FsPath, String>, E: Fn(&FsPath) -> bool>(
    ctx: &FsContext,
    path_text: &str,
    workspace_text: &str,
    canonicalize: &C,
    path_exists: &E,
) -> (r: Option<FsPath>)
    requires
        forall|x: &FsPath| #[trigger] call_requires(*canonicalize, (x,)),
        forall|x: &FsPath| #[trigger] call_requires(*path_exists, (x,)),
    ensures
        exists|a: WriteAnswers| {
            &&& write_answers_given(
                *canonicalize,
                *path_exists,
                ctx.root(),
                crate::path::parse_parts(workspace_text@),
                crate::path::parse_parts(path_text@),
                a,
            )
            &&& match r {
                Some(q) => write_gate(*ctx, write_resolution(ctx.root(), crate::path::parse_parts(path_text@), a))
                    == Some(q.view()),
                None => write_gate(*ctx, write_resolution(ctx.root(), crate::path::parse_parts(path_text@), a))
                    is None,
            }
        },
{
    let path = FsPath::parse(path_text);
    let workspace = FsPath::parse(workspace_text);
    let res = ctx.resolve_path_for_write(&path, &workspace, canonicalize, path_exists);
    match res {
        Ok(q) => {
            if ctx.can_write(&q) {
                Some(q)
            } else {
                None
            }
        },
        Err(_) => None,
    }
}

} // verus!
