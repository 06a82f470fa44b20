use mochiclaw::path::FsPath;
use mochiclaw::sandbox::FsContext;

#[test]
fn test_fs_context_new_with_invalid_root() {
    let ctx = FsContext::new(
        FsPath::parse("/nonexistent/path/that/cannot/be/canonicalized"),
        None,
        Vec::new(),
        Vec::new(),
        Vec::new(),
        Vec::new(),
    );
    assert!(!ctx.can_read(&FsPath::parse("/tmp/somefile")));
    assert!(!ctx.can_write(&FsPath::parse("/tmp/somefile")));
    let root = "/nonexistent/path/that/cannot/be/canonicalized";
    assert!(!ctx.can_read(&FsPath::parse(root)));
    assert!(!ctx.can_write(&FsPath::parse(root)));
    assert!(!ctx.can_read(&FsPath::parse(&format!("{}/inside.txt", root))));
    assert!(!ctx.can_write(&FsPath::parse(&format!("{}/inside.txt", root))));
}
