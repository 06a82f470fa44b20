use mochiclaw::fs_host::{authorize, authorize_write, FsAccess};
use mochiclaw::path::FsPath;
use mochiclaw::sandbox::FsContext;
use std::collections::HashSet;

/// Lexical normalization of an absolute path written as text.
fn normalize(p: &FsPath) -> String {
    let mut out: Vec<String> = Vec::new();
    for name in p.display().split('/') {
        match name {
            "" | "." => {}
            ".." => {
                out.pop();
            }
            n => out.push(n.to_string()),
        }
    }
    format!("/{}", out.join("/"))
}

/// A filesystem holding the given directories and files, without links.
fn fs_with(paths: &[&str]) -> (impl Fn(&FsPath) -> Result<FsPath, String>, impl Fn(&FsPath) -> bool) {
    let set: HashSet<String> = paths.iter().map(|s| s.to_string()).collect();
    let set2 = set.clone();
    let canon = move |p: &FsPath| {
        let n = normalize(p);
        if set.contains(&n) {
            Ok(FsPath::parse(&n))
        } else {
            Err("No such file or directory (os error 2)".to_string())
        }
    };
    let exists = move |p: &FsPath| set2.contains(&normalize(p));
    (canon, exists)
}

fn ctx(root: &str, read_black: Vec<&str>, read_white: Vec<&str>) -> FsContext {
    FsContext::new(
        FsPath::parse(root),
        Some(FsPath::parse(root)),
        read_white.iter().map(|p| Some(FsPath::parse(p))).collect(),
        Vec::new(),
        read_black.iter().map(|p| Some(FsPath::parse(p))).collect(),
        Vec::new(),
    )
}

#[test]
fn test_escape_via_dots_is_refused() {
    let (canon, _) = fs_with(&["/", "/srv", "/srv/root", "/srv/root/src"]);
    let c = ctx("/srv/root", vec![], vec![]);
    let r = authorize(&c, FsAccess::Read, "../..", "src", &canon);
    assert!(matches!(r, Err(e) if e.contains("outside allowed root")));
    let r2 = authorize(&c, FsAccess::Read, "..", "", &canon);
    assert!(r2.is_err());
}

#[test]
fn test_absolute_paths_against_root() {
    let (canon, _) = fs_with(&["/srv/root", "/srv/root/secret.txt", "/etc/passwd"]);
    let c = ctx("/srv/root", vec![], vec![]);
    let outside = authorize(&c, FsAccess::Read, "/etc/passwd", "", &canon);
    assert!(matches!(outside, Err(e) if e.contains("outside allowed root")));
    let inside = authorize(&c, FsAccess::Read, "/srv/root/secret.txt", "", &canon).unwrap();
    assert_eq!(inside.display(), "/srv/root/secret.txt");
}

#[test]
fn test_blacklist_wins_and_messages() {
    let (canon, _) = fs_with(&["/srv/root", "/srv/root/secret.txt", "/srv/root/ok.txt"]);
    let c = ctx("/srv/root", vec!["/srv/root/secret.txt"], vec!["/srv/root"]);
    let denied = authorize(&c, FsAccess::List, "secret.txt", "", &canon);
    assert_eq!(denied.err(), Some("Permission denied: cannot list 'secret.txt'".to_string()));
    assert!(authorize(&c, FsAccess::Read, "ok.txt", "", &canon).is_ok());
    let edit = authorize(&c, FsAccess::Edit, "ok.txt", "", &canon);
    assert!(edit.is_ok());
    let missing = authorize(&c, FsAccess::Read, "nope.txt", "", &canon);
    assert!(matches!(missing, Err(e) if e.starts_with("Error: Failed to resolve path: ")));
}

#[test]
fn test_write_to_new_file_inside_root() {
    let (canon, exists) = fs_with(&["/", "/srv", "/srv/root", "/srv/root/dir"]);
    let c = ctx("/srv/root", vec![], vec![]);
    let target = authorize_write(&c, "dir/new.txt", "", &canon, &exists).unwrap();
    assert_eq!(target.display(), "/srv/root/dir/new.txt");
    assert!(authorize_write(&c, "../escape.txt", "", &canon, &exists).is_none());
}

#[test]
fn test_write_with_missing_parents_keeps_root_once() {
    let (canon, exists) = fs_with(&["/", "/srv", "/srv/root"]);
    let c = ctx("/srv/root", vec![], vec![]);
    let target = authorize_write(&c, "new/dir/f.txt", "", &canon, &exists).unwrap();
    assert_eq!(target.display(), "/srv/root/new/dir/f.txt");
    let dotted = authorize_write(&c, "new/../other/f.txt", "", &canon, &exists).unwrap();
    assert_eq!(dotted.display(), "/srv/root/other/f.txt");
}
