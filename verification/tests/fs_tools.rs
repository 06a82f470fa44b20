use mochiclaw::fs_tools::{
    detect_image_mime, edit_answer, find_match, generate_diff, is_ignored, list_dir_output, plan_edit,
    read_file_output, sort_entries, DirListing, EditStage, FileRead, ListedEntry,
};

fn percent(m: usize, k: usize) -> String {
    format!("{:.0}", m as f64 / k as f64 * 100.0)
}

fn entry(path: &str, is_dir: bool) -> ListedEntry {
    ListedEntry { components: path.split('/').map(|s| s.to_string()).collect(), is_dir }
}

#[test]
fn test_fs_read_pagination() {
    let content = "Line 1\nLine 2\nLine 3\nLine 4\nLine 5";
    let out = read_file_output("t.txt", FileRead::Bytes(content.as_bytes().to_vec()), 2, 2);
    assert!(out.contains("Line 2") && out.contains("Line 3"));
    assert_eq!(out, "2| Line 2\n3| Line 3\n\n(Showing lines 2-3 of 5. Use offset=4 to continue.)");
}

#[test]
fn test_read_whole_file_and_errors() {
    let out = read_file_output("t.txt", FileRead::Bytes(b"a\nb".to_vec()), 1, 2000);
    assert_eq!(out, "1| a\n2| b\n\n(End of file — 2 lines total)");
    let zero = read_file_output("t.txt", FileRead::Bytes(b"a\nb".to_vec()), 0, 1);
    assert_eq!(zero, "1| a\n\n(Showing lines 1-1 of 2. Use offset=2 to continue.)");
    let beyond = read_file_output("t.txt", FileRead::Bytes(b"a\nb".to_vec()), 9, 1);
    assert_eq!(beyond, "Error: offset 9 is beyond end of file (2 lines)");
    assert_eq!(read_file_output("t.txt", FileRead::Bytes(vec![]), 1, 1), "(Empty file: t.txt)");
    assert_eq!(read_file_output("t.txt", FileRead::NotFound, 1, 1), "Error: File not found: t.txt");
    assert_eq!(read_file_output("d", FileRead::NotAFile, 1, 1), "Error: Not a file: d");
    assert_eq!(read_file_output("t", FileRead::Failed("denied".to_string()), 1, 1), "Error reading file: denied");
    assert_eq!(
        read_file_output("b.bin", FileRead::Bytes(vec![0xff, 0xfe, 0x00]), 1, 1),
        "Error: Cannot read binary file b.bin. Only UTF-8 text and images are supported."
    );
}

#[test]
fn test_read_image_and_magic() {
    let png: Vec<u8> = vec![0x89, 0x50, 0x4E, 0x47, 0x0D, 0x0A, 0x1A, 0x0A, 0, 0];
    assert_eq!(read_file_output("p.png", FileRead::Bytes(png.clone()), 1, 1), "(Image file: p.png - MIME type: image/png, 10 bytes)");
    assert_eq!(detect_image_mime(&png), Some("image/png".to_string()));
    assert_eq!(detect_image_mime(b"GIF89a\0\0"), Some("image/gif".to_string()));
    assert_eq!(detect_image_mime(b"RIFF\0\0\0\0WEBPxx"), Some("image/webp".to_string()));
    assert_eq!(detect_image_mime(b"%PDF-1.7"), Some("application/pdf".to_string()));
    assert_eq!(detect_image_mime(&[0xFF, 0xD8, 0xFF, 0, 0, 0, 0, 0]), Some("image/jpeg".to_string()));
    assert_eq!(detect_image_mime(&[0xFF, 0xD8, 0xFF]), None);
    assert_eq!(detect_image_mime(b"plain text here"), None);
}

#[test]
fn test_read_truncates_large_pages() {
    let line = "x".repeat(1000);
    let text = vec![line.clone(); 200].join("\n");
    let out = read_file_output("big", FileRead::Bytes(text.into_bytes()), 1, 2000);
    assert!(out.contains("\n\n(truncated due to size limit)\n\n(End of file — 200 lines total)"));
    assert!(out.len() < 130_000);
    assert!(out.starts_with("1| xxx"));
}

#[test]
fn test_fs_edit() {
    let raw = b"hello world\nsecond line\n".to_vec();
    let r = plan_edit(raw, "hello world", "goodbye world", false, &percent);
    assert_eq!(r, Ok("goodbye world\nsecond line\n".to_string()));
    assert_eq!(edit_answer("f.txt", EditStage::Written), "Successfully edited f.txt");
}

#[test]
fn test_fs_edit_all() {
    let raw = b"a b a b a".to_vec();
    let warn = plan_edit(raw.clone(), "a", "z", false, &percent);
    assert_eq!(
        warn,
        Err("Warning: old_text appears 3 times. Provide more context to make it unique, or set replace_all=true.".to_string())
    );
    let all = plan_edit(raw, "a", "z", true, &percent);
    assert_eq!(all, Ok("z b z b z".to_string()));
}

#[test]
fn test_edit_keeps_crlf_and_matches_trimmed_lines() {
    let raw = b"fn main() {\r\n    let x = 1;\r\n}\r\n".to_vec();
    let r = plan_edit(raw, "let x = 1;", "let x = 2;", false, &percent);
    assert_eq!(r, Ok("fn main() {\r\n    let x = 2;\r\n}\r\n".to_string()));
    let fuzzy = find_match("  alpha  \n  beta\ngamma", "alpha\nbeta", &percent);
    assert_eq!(fuzzy, Ok(("  alpha  \n  beta".to_string(), 1)));
}

#[test]
fn test_edit_not_found_messages() {
    let content = "one\ntwo\nthree";
    let similar = find_match(content, "one\ntwo\nfour", &percent);
    assert_eq!(
        similar,
        Err("Error: old_text not found.\nBest match (67% similar) at line 1:\n--- old_text (provided)\n+++ file (actual, line 1)\n-one\n-two\n-four\n+one\n+two\n+three".to_string())
    );
    let none = find_match(content, "zzz", &percent);
    assert_eq!(none, Err("Error: old_text not found. No similar text found. Verify the file content.".to_string()));
    let bad_utf8 = plan_edit(vec![0xff], "a", "b", false, &percent);
    assert!(matches!(bad_utf8, Err(m) if m.starts_with("Error decoding file as UTF-8: ")));
    assert_eq!(edit_answer("f", EditStage::NotFound), "Error: File not found: f");
    assert_eq!(edit_answer("f", EditStage::ReadFailed("x".to_string())), "Error reading file: x");
    assert_eq!(edit_answer("f", EditStage::WriteFailed("y".to_string())), "Error writing file: y");
    assert_eq!(edit_answer("f", EditStage::Refused("no".to_string())), "no");
}

#[test]
fn test_generate_diff() {
    let a = vec!["x".to_string(), "y".to_string()];
    let b = vec!["z".to_string()];
    assert_eq!(generate_diff(&a, &b), "-x\n-y\n+z");
    assert_eq!(generate_diff(&vec![], &vec![]), "");
}

#[test]
fn test_fs_list() {
    let entries = vec![
        entry("test2.txt", false),
        entry("subdir", true),
        entry(".git", true),
        entry("test1.txt", false),
    ];
    let out = list_dir_output("/w", DirListing::Entries(entries), false, 0);
    assert_eq!(out, "subdir/\ntest1.txt\ntest2.txt");
    let limited = list_dir_output(
        "/w",
        DirListing::Entries(vec![entry("c", false), entry("a", false), entry("b", false)]),
        false,
        2,
    );
    assert_eq!(limited, "a\nb\n\n(truncated, showing first 2 of 3 entries)");
    assert_eq!(list_dir_output("/w", DirListing::Entries(vec![entry(".git", true)]), false, 0), "Directory /w is empty");
    assert_eq!(list_dir_output("/w", DirListing::NotFound, false, 0), "Error: Directory not found: /w");
    assert_eq!(list_dir_output("/w", DirListing::NotADir, false, 0), "Error: Not a directory: /w");
    assert_eq!(list_dir_output("/w", DirListing::Failed("e".to_string()), false, 0), "Error reading directory: e");
    assert_eq!(list_dir_output("/w", DirListing::Failed("e".to_string()), true, 0), "Directory /w is empty");
}

#[test]
fn test_fs_list_recursive() {
    let entries = vec![
        entry("a/file.txt", false),
        entry("a.txt", false),
        entry("a", true),
        entry("a/b", true),
        entry("a/b/file.txt", false),
    ];
    let out = list_dir_output("/w", DirListing::Entries(entries), true, 200);
    assert_eq!(out, "a/\na/b/\na/b/file.txt\na/file.txt\na.txt");
    let sorted = sort_entries(vec![entry("b", false), entry("a/c", false), entry("a", true)]);
    let names: Vec<String> = sorted.iter().map(|e| e.components.join("/")).collect();
    assert_eq!(names, vec!["a", "a/c", "b"]);
    assert!(is_ignored("node_modules"));
    assert!(!is_ignored("src"));
}

#[test]
fn test_edit_replace_all_with_whitespace_tolerant_match() {
    let r = plan_edit(b"x  \ny".to_vec(), "x\ny", "z", true, &percent);
    assert_eq!(r, Ok("z".to_string()));
    let twice = plan_edit(b"  a\nb\n  a\nb\n".to_vec(), "a\nb", "c", true, &percent);
    assert_eq!(twice, Ok("  c\n  c\n".to_string()));
}
