//! The file tools offered to plugins: paging through a text file, editing by text
//! replacement, listing a directory. Each produces the text that the tool answers.

use crate::text::{
    chars_of, concat2, concat3, count_matches, count_str, decimal, decimal_string, find_str,
    is_first_occurrence, join, join_seq, occurs_at, replace_seq, replace_str, split_char, split_on,
    to_string, trim, trim_seq, utf8_len, utf8_len_capped, views,
};
use vstd::prelude::*;
use vstd::utf8::decode_utf8;
use vstd::utf8::valid_utf8;

verus! {

/// Largest answer, in bytes, that reading a file gives before it is truncated.
pub const MAX_CHARS: usize = 128000;

/// Entries listed when no positive limit is given.
pub const DEFAULT_MAX_ENTRIES: usize = 200;

/// The message that `String::from_utf8` gives for bytes that are not valid UTF-8
/// (`FromUtf8Error`'s `Display`).
pub uninterp spec fn spec_utf8_error_text(bytes: Seq<u8>) -> Seq<char>;

/// `String::from_utf8(bytes)`: the text when the bytes are valid UTF-8, as the
/// standard library documents it, else the error's message.
#[verifier::external_body]
fn decode_utf8_bytes(bytes: Vec<u8>) -> (r: Result<String, String>)
    ensures
        match r {
            Ok(s) => valid_utf8(bytes@) && s@ == decode_utf8(bytes@),
            Err(m) => !valid_utf8(bytes@) && m@ == spec_utf8_error_text(bytes@),
        },
{
    match String::from_utf8(bytes) {
        Ok(s) => Ok(s),
        Err(e) => Err(e.to_string()),
    }
}

/// Whether `d` holds `pat` from position `at`.
pub open spec fn bytes_at(d: Seq<u8>, at: int, pat: Seq<u8>) -> bool {
    at + pat.len() <= d.len() && d.subrange(at, at + pat.len()) == pat
}

fn has_bytes(d: &[u8], at: usize, pat: &Vec<u8>) -> (r: bool)
    ensures
        r == bytes_at(d@, at as int, pat@),
{
    if at > d.len() || pat.len() > d.len() - at {
        return false;
    }
    let dl = d.len();
    let mut j: usize = 0;
    while j < pat.len()
        invariant
            dl == d@.len(),
            at + pat@.len() <= d@.len(),
            j <= pat@.len(),
            forall|k: int| 0 <= k < j ==> d@[at + k] == pat@[k],
        decreases pat@.len() - j,
    {
        if d[at + j] != pat[j] {
            assert(d@.subrange(at as int, at + pat@.len())[j as int] != pat@[j as int]);
            return false;
        }
        j = j + 1;
    }
    assert(d@.subrange(at as int, at + pat@.len()) =~= pat@);
    true
}

/// The media type that the first bytes of a file announce: PNG, JPEG, GIF, WebP and
/// PDF signatures, looked for only in files of at least eight bytes.
pub open spec fn magic_mime(d: Seq<u8>) -> Option<Seq<char>> {
    if d.len() < 8 {
        None
    } else if bytes_at(d, 0, seq![0x89u8, 0x50u8, 0x4Eu8, 0x47u8, 0x0Du8, 0x0Au8, 0x1Au8, 0x0Au8]) {
        Some("image/png"@)
    } else if bytes_at(d, 0, seq![0xFFu8, 0xD8u8, 0xFFu8]) {
        Some("image/jpeg"@)
    } else if bytes_at(d, 0, seq![0x47u8, 0x49u8, 0x46u8, 0x38u8, 0x37u8, 0x61u8]) || bytes_at(
        d,
        0,
        seq![0x47u8, 0x49u8, 0x46u8, 0x38u8, 0x39u8, 0x61u8],
    ) {
        Some("image/gif"@)
    } else if d.len() >= 12 && bytes_at(d, 0, seq![0x52u8, 0x49u8, 0x46u8, 0x46u8]) && bytes_at(
        d,
        8,
        seq![0x57u8, 0x45u8, 0x42u8, 0x50u8],
    ) {
        Some("image/webp"@)
    } else if bytes_at(d, 0, seq![0x25u8, 0x50u8, 0x44u8, 0x46u8]) {
        Some("application/pdf"@)
    } else {
        None
    }
}

/// The media type that the first bytes of `data` announce (see `magic_mime`).
pub fn detect_image_mime(data: &[u8]) -> (r: Option<String>)
    ensures
        crate::session::opt_str(r) == magic_mime(data@),
{
    if data.len() < 8 {
        return None;
    }
    let png = vec![0x89u8, 0x50u8, 0x4Eu8, 0x47u8, 0x0Du8, 0x0Au8, 0x1Au8, 0x0Au8];
    let jpeg = vec![0xFFu8, 0xD8u8, 0xFFu8];
    let gif7 = vec![0x47u8, 0x49u8, 0x46u8, 0x38u8, 0x37u8, 0x61u8];
    let gif9 = vec![0x47u8, 0x49u8, 0x46u8, 0x38u8, 0x39u8, 0x61u8];
    let riff = vec![0x52u8, 0x49u8, 0x46u8, 0x46u8];
    let webp = vec![0x57u8, 0x45u8, 0x42u8, 0x50u8];
    let pdf = vec![0x25u8, 0x50u8, 0x44u8, 0x46u8];
    if has_bytes(data, 0, &png) {
        Some(to_string("image/png"))
    } else if has_bytes(data, 0, &jpeg) {
        Some(to_string("image/jpeg"))
    } else if has_bytes(data, 0, &gif7) || has_bytes(data, 0, &gif9) {
        Some(to_string("image/gif"))
    } else if data.len() >= 12 && has_bytes(data, 0, &riff) && has_bytes(data, 8, &webp) {
        Some(to_string("image/webp"))
    } else if has_bytes(data, 0, &pdf) {
        Some(to_string("application/pdf"))
    } else {
        None
    }
}

/// What reading a file gave.
pub enum FileRead {
    /// Nothing exists at the path.
    NotFound,
    /// Something exists there but is not a regular file.
    NotAFile,
    /// Reading failed, with the error's message.
    Failed(String),
    /// The file's bytes.
    Bytes(Vec<u8>),
}

/// A line of a page, numbered from 1 by its position `k` in the file.
pub open spec fn page_line(k: int, line: Seq<char>) -> Seq<char> {
    decimal((k + 1) as nat) + "| "@ + line
}

/// The numbered lines `start..end` of a file.
pub open spec fn page_lines(lines: Seq<Seq<char>>, start: int, end: int) -> Seq<Seq<char>> {
    Seq::new((end - start) as nat, |j: int| page_line(start + j, lines[start + j]))
}

/// How many leading lines fit in `budget` bytes, each counted with the line break
/// after it.
pub open spec fn kept_count(lines: Seq<Seq<char>>, budget: int) -> nat
    decreases lines.len(),
{
    if lines.len() == 0 {
        0
    } else if utf8_len(lines[0]) + 1 > budget {
        0
    } else {
        1 + kept_count(lines.drop_first(), budget - utf8_len(lines[0]) - 1)
    }
}

/// The numbered lines joined, or the lines that fit followed by a note when the
/// whole is larger than `MAX_CHARS` bytes.
pub open spec fn page_body(numbered: Seq<Seq<char>>) -> Seq<char> {
    let joined = join_seq(numbered, "\n"@);
    if utf8_len(joined) > MAX_CHARS {
        join_seq(numbered.take(kept_count(numbered, MAX_CHARS as int) as int), "\n"@)
            + "\n\n(truncated due to size limit)"@
    } else {
        joined
    }
}

/// The first line shown for an `offset` (lines count from 1; 0 means 1).
pub open spec fn first_line(offset: u64) -> int {
    if offset < 1 {
        1
    } else {
        offset as int
    }
}

/// The note after a page: where it ends, and how to go on.
pub open spec fn page_note(off: int, end: int, total: int) -> Seq<char> {
    if end < total {
        "\n\n(Showing lines "@ + decimal(off as nat) + "-"@ + decimal(end as nat) + " of "@ + decimal(
            total as nat,
        ) + ". Use offset="@ + decimal((end + 1) as nat) + " to continue.)"@
    } else {
        "\n\n(End of file — "@ + decimal(total as nat) + " lines total)"@
    }
}

/// The last line shown (exclusive) for a page starting at index `start`.
pub open spec fn page_end(start: int, limit: u64, total: int) -> int {
    if start + limit < total {
        start + limit
    } else {
        total
    }
}

/// The page of `text` that starts at line `offset` and holds at most `limit` lines,
/// with a note on where it ends.
pub open spec fn text_page(text: Seq<char>, offset: u64, limit: u64) -> Seq<char> {
    let lines = split_char(text, '\n');
    let total = lines.len() as int;
    let off = first_line(offset);
    if off > total {
        "Error: offset "@ + decimal(off as nat) + " is beyond end of file ("@ + decimal(total as nat)
            + " lines)"@
    } else {
        let end = page_end(off - 1, limit, total);
        page_body(page_lines(lines, off - 1, end)) + page_note(off, end, total)
    }
}

/// What the read tool answers for a file shown as `display`.
pub open spec fn read_output(display: Seq<char>, read: FileRead, offset: u64, limit: u64) -> Seq<char> {
    match read {
        FileRead::NotFound => "Error: File not found: "@ + display,
        FileRead::NotAFile => "Error: Not a file: "@ + display,
        FileRead::Failed(e) => "Error reading file: "@ + e@,
        FileRead::Bytes(b) => if b@.len() == 0 {
            "(Empty file: "@ + display + ")"@
        } else {
            match magic_mime(b@) {
                Some(m) => "(Image file: "@ + display + " - MIME type: "@ + m + ", "@ + decimal(b@.len())
                    + " bytes)"@,
                None => if valid_utf8(b@) {
                    text_page(decode_utf8(b@), offset, limit)
                } else {
                    "Error: Cannot read binary file "@ + display
                        + ". Only UTF-8 text and images are supported."@
                },
            }
        },
    }
}

/// Whether a read from line `offset` of at most `limit` lines stays within the
/// machine's index range.
pub open spec fn page_in_range(offset: u64, limit: u64) -> bool {
    offset <= usize::MAX && first_line(offset) - 1 + limit <= usize::MAX
}

fn page_body_of(numbered: &Vec<String>) -> (r: String)
    ensures
        r@ == page_body(views(numbered@)),
{
    let joined = join(numbered, "\n");
    if utf8_len_capped(joined.as_str(), MAX_CHARS + 1) <= MAX_CHARS {
        return joined;
    }
    let ghost nv = views(numbered@);
    let mut kept: Vec<String> = Vec::new();
    let mut chars: usize = 0;
    let mut i: usize = 0;
    assert(nv.skip(0) =~= nv);
    while i < numbered.len()
        invariant
            nv == views(numbered@),
            i <= numbered@.len(),
            chars <= MAX_CHARS,
            views(kept@) == nv.take(i as int),
            kept_count(nv, MAX_CHARS as int) == i + kept_count(nv.skip(i as int), MAX_CHARS - chars),
        ensures
            views(kept@) == nv.take(i as int),
            kept_count(nv, MAX_CHARS as int) == i,
        decreases numbered@.len() - i,
    {
        let c = utf8_len_capped(numbered[i].as_str(), MAX_CHARS + 1);
        proof {
            assert(nv.skip(i as int)[0] == nv[i as int]);
            assert(nv.skip(i as int).drop_first() =~= nv.skip(i + 1));
        }
        if chars + c + 1 > MAX_CHARS {
            assert(kept_count(nv.skip(i as int), MAX_CHARS - chars) == 0);
            break;
        }
        chars = chars + c + 1;
        let ghost before = kept@;
        kept.push(numbered[i].clone());
        proof {
            assert(views(kept@) =~= views(before).push(nv[i as int]));
            assert(nv.take(i + 1) =~= nv.take(i as int).push(nv[i as int]));
        }
        i = i + 1;
    }
    let mut r = join(&kept, "\n");
    r.append("\n\n(truncated due to size limit)");
    r
}

fn numbered_lines(lines: &Vec<String>, start: usize, end: usize) -> (r: Vec<String>)
    requires
        start <= end <= lines@.len(),
    ensures
        views(r@) == page_lines(views(lines@), start as int, end as int),
{
    let ghost lv = views(lines@);
    let ghost target = page_lines(lv, start as int, end as int);
    let mut numbered: Vec<String> = Vec::new();
    let mut k = start;
    while k < end
        invariant
            lv == views(lines@),
            start <= k <= end <= lines@.len(),
            target == page_lines(lv, start as int, end as int),
            views(numbered@) == target.take(k - start),
        decreases end - k,
    {
        let ghost before = numbered@;
        let mut line = decimal_string((k + 1) as u64);
        line.append("| ");
        line.append(lines[k].as_str());
        numbered.push(line);
        proof {
            assert(target[k - start] == page_line(k as int, lv[k as int]));
            assert(views(numbered@) =~= views(before).push(target[k - start]));
            assert(target.take(k - start + 1) =~= target.take(k - start).push(target[k - start]));
        }
        k = k + 1;
    }
    assert(target.take(end - start) =~= target);
    numbered
}

fn page_note_of(off: u64, end: usize, total: usize) -> (r: String)
    requires
        end <= total,
    ensures
        r@ == page_note(off as int, end as int, total as int),
{
    if end < total {
        let mut r = concat2("\n\n(Showing lines ", decimal_string(off).as_str());
        r.append("-");
        r.append(decimal_string(end as u64).as_str());
        r.append(" of ");
        r.append(decimal_string(total as u64).as_str());
        r.append(". Use offset=");
        r.append(decimal_string((end + 1) as u64).as_str());
        r.append(" to continue.)");
        r
    } else {
        let mut r = concat2("\n\n(End of file — ", decimal_string(total as u64).as_str());
        r.append(" lines total)");
        r
    }
}

fn text_page_of(text: &str, offset: u64, limit: u64) -> (r: String)
    requires
        page_in_range(offset, limit),
    ensures
        r@ == text_page(text@, offset, limit),
{
    let lines = split_on(text, '\n');
    let total = lines.len();
    let off: u64 = if offset < 1 { 1 } else { offset };
    if off > total as u64 {
        let mut r = concat2("Error: offset ", decimal_string(off).as_str());
        r.append(" is beyond end of file (");
        r.append(decimal_string(total as u64).as_str());
        r.append(" lines)");
        return r;
    }
    let start = (off - 1) as usize;
    let end = if (limit as usize) < total - start { start + limit as usize } else { total };
    assert(end as int == page_end(start as int, limit, total as int));
    let numbered = numbered_lines(&lines, start, end);
    let mut r = page_body_of(&numbered);
    let note = page_note_of(off, end, total);
    r.append(note.as_str());
    r
}

/// What the read tool answers: the page of a text file from line `offset` (lines
/// count from 1) of at most `limit` lines, each numbered, or a description of an
/// image or empty file, or an error.
pub fn read_file_output(display: &str, read: FileRead, offset: u64, limit: u64) -> (r: String)
    requires
        page_in_range(offset, limit),
    ensures
        r@ == read_output(display@, read, offset, limit),
{
    match read {
        FileRead::NotFound => concat2("Error: File not found: ", display),
        FileRead::NotAFile => concat2("Error: Not a file: ", display),
        FileRead::Failed(e) => concat2("Error reading file: ", e.as_str()),
        FileRead::Bytes(b) => {
            if b.len() == 0 {
                return concat3("(Empty file: ", display, ")");
            }
            match detect_image_mime(b.as_slice()) {
                Some(m) => {
                    let mut r = concat3("(Image file: ", display, " - MIME type: ");
                    r.append(m.as_str());
                    r.append(", ");
                    r.append(decimal_string(b.len() as u64).as_str());
                    r.append(" bytes)");
                    r
                },
                None => {
                    let ghost bytes = b@;
                    match decode_utf8_bytes(b) {
                        Ok(text) => text_page_of(text.as_str(), offset, limit),
                        Err(_) => {
                            let mut r = concat2("Error: Cannot read binary file ", display);
                            r.append(". Only UTF-8 text and images are supported.");
                            r
                        },
                    }
                },
            }
        },
    }
}

} // verus!

verus! {

pub open spec fn trimmed(lines: Seq<Seq<char>>) -> Seq<Seq<char>> {
    lines.map_values(|l: Seq<char>| trim_seq(l))
}

/// How many windows of `k` consecutive lines a text of `n` lines has.
pub open spec fn window_starts(n: int, k: int) -> int {
    if n + 1 >= k {
        n + 1 - k
    } else {
        0
    }
}

/// Whether the `k` lines from `i` equal `old`'s lines once both are trimmed.
pub open spec fn window_fits(tcl: Seq<Seq<char>>, tol: Seq<Seq<char>>, i: int) -> bool {
    forall|j: int| 0 <= j < tol.len() ==> #[trigger] tcl[i + j] == tol[j]
}

/// The starts below `m` of the windows that fit, in order.
pub open spec fn fitting_starts(tcl: Seq<Seq<char>>, tol: Seq<Seq<char>>, m: int) -> Seq<int>
    decreases m,
{
    if m <= 0 {
        Seq::empty()
    } else {
        let r = fitting_starts(tcl, tol, m - 1);
        if window_fits(tcl, tol, m - 1) {
            r.push(m - 1)
        } else {
            r
        }
    }
}

/// How many of `old`'s first `j` lines equal, as given, the trimmed line of the
/// window from `i` at the same place.
pub open spec fn agreeing(ol: Seq<Seq<char>>, tcl: Seq<Seq<char>>, i: int, j: int) -> nat
    decreases j,
{
    if j <= 0 {
        0
    } else {
        agreeing(ol, tcl, i, j - 1) + if ol[j - 1] == tcl[i + j - 1] {
            1nat
        } else {
            0nat
        }
    }
}

/// The first window among the first `m` with the most agreeing lines, and that
/// number; `(0, 0)` when none agrees at all.
pub open spec fn best_window(ol: Seq<Seq<char>>, tcl: Seq<Seq<char>>, m: int) -> (int, nat)
    decreases m,
{
    if m <= 0 {
        (0, 0)
    } else {
        let (b, bm) = best_window(ol, tcl, m - 1);
        let c = agreeing(ol, tcl, m - 1, ol.len() as int);
        if c > bm {
            (m - 1, c)
        } else {
            (b, bm)
        }
    }
}

/// Each line of `a` after `-`, then each line of `b` after `+`, one per line.
pub open spec fn diff_text(a: Seq<Seq<char>>, b: Seq<Seq<char>>) -> Seq<char> {
    join_seq(
        a.map_values(|l: Seq<char>| "-"@ + l) + b.map_values(|l: Seq<char>| "+"@ + l),
        "\n"@,
    )
}

/// The answer when no window is similar enough.
pub open spec fn no_similar_text() -> Seq<char> {
    "Error: old_text not found. No similar text found. Verify the file content."@
}

/// The answer that shows the most similar window, `pct` being its similarity in
/// percent as written.
pub open spec fn similar_text(ol: Seq<Seq<char>>, cl: Seq<Seq<char>>, best: int, pct: Seq<char>) -> Seq<char> {
    "Error: old_text not found.\nBest match ("@ + pct + "% similar) at line "@ + decimal((best + 1) as nat)
        + ":\n--- old_text (provided)\n+++ file (actual, line "@ + decimal((best + 1) as nat) + ")\n"@
        + diff_text(ol, cl.subrange(best, best + ol.len()))
}

/// A window is similar enough when more than half of its lines agree.
pub open spec fn similar_enough(agree: nat, k: int) -> bool {
    2 * agree > k
}

fn trimmed_lines(lines: &Vec<String>) -> (r: Vec<String>)
    ensures
        views(r@) == trimmed(views(lines@)),
{
    let ghost target = trimmed(views(lines@));
    let mut r: Vec<String> = Vec::new();
    let mut i: usize = 0;
    while i < lines.len()
        invariant
            i <= lines@.len(),
            target == trimmed(views(lines@)),
            views(r@) == target.take(i as int),
        decreases lines@.len() - i,
    {
        let ghost before = r@;
        r.push(trim(lines[i].as_str()));
        proof {
            assert(views(r@) =~= views(before).push(target[i as int]));
            assert(target.take(i + 1) =~= target.take(i as int).push(target[i as int]));
        }
        i = i + 1;
    }
    assert(target.take(lines@.len() as int) =~= target);
    r
}

fn fits_at(tcl: &Vec<String>, tol: &Vec<String>, i: usize) -> (r: bool)
    requires
        i + tol@.len() <= tcl@.len(),
    ensures
        r == window_fits(views(tcl@), views(tol@), i as int),
{
    let n = tcl.len();
    let mut j: usize = 0;
    while j < tol.len()
        invariant
            n == tcl@.len(),
            i + tol@.len() <= tcl@.len(),
            j <= tol@.len(),
            forall|q: int| 0 <= q < j ==> #[trigger] views(tcl@)[i + q] == views(tol@)[q],
        decreases tol@.len() - j,
    {
        if !crate::text::str_eq(tcl[i + j].as_str(), tol[j].as_str()) {
            assert(views(tcl@)[i + j] != views(tol@)[j as int]);
            return false;
        }
        j = j + 1;
    }
    true
}

fn agreeing_at(ol: &Vec<String>, tcl: &Vec<String>, i: usize) -> (r: usize)
    requires
        i + ol@.len() <= tcl@.len(),
    ensures
        r == agreeing(views(ol@), views(tcl@), i as int, ol@.len() as int),
{
    let n = tcl.len();
    let mut c: usize = 0;
    let mut j: usize = 0;
    while j < ol.len()
        invariant
            n == tcl@.len(),
            i + ol@.len() <= tcl@.len(),
            j <= ol@.len(),
            c <= j,
            c == agreeing(views(ol@), views(tcl@), i as int, j as int),
        decreases ol@.len() - j,
    {
        if crate::text::str_eq(ol[j].as_str(), tcl[i + j].as_str()) {
            c = c + 1;
        }
        j = j + 1;
    }
    c
}

fn join_range(lines: &Vec<String>, from: usize, to: usize) -> (r: String)
    requires
        from <= to <= lines@.len(),
    ensures
        r@ == join_seq(views(lines@).subrange(from as int, to as int), "\n"@),
{
    let mut part: Vec<String> = Vec::new();
    let mut i = from;
    while i < to
        invariant
            from <= i <= to <= lines@.len(),
            views(part@) == views(lines@).subrange(from as int, i as int),
        decreases to - i,
    {
        let ghost before = part@;
        part.push(lines[i].clone());
        proof {
            assert(views(part@) =~= views(before).push(views(lines@)[i as int]));
            assert(views(lines@).subrange(from as int, i + 1) =~= views(lines@).subrange(from as int, i as int).push(
                views(lines@)[i as int],
            ));
        }
        i = i + 1;
    }
    join(&part, "\n")
}

/// The lines of `a` marked `-` followed by those of `b` marked `+`.
pub fn generate_diff(a: &Vec<String>, b: &Vec<String>) -> (r: String)
    ensures
        r@ == diff_text(views(a@), views(b@)),
{
    let ghost ta = views(a@).map_values(|l: Seq<char>| "-"@ + l);
    let ghost tb = views(b@).map_values(|l: Seq<char>| "+"@ + l);
    let mut lines: Vec<String> = Vec::new();
    let mut i: usize = 0;
    while i < a.len()
        invariant
            i <= a@.len(),
            ta == views(a@).map_values(|l: Seq<char>| "-"@ + l),
            views(lines@) == ta.take(i as int),
        decreases a@.len() - i,
    {
        let ghost before = lines@;
        lines.push(concat2("-", a[i].as_str()));
        proof {
            assert(views(lines@) =~= views(before).push(ta[i as int]));
            assert(ta.take(i + 1) =~= ta.take(i as int).push(ta[i as int]));
        }
        i = i + 1;
    }
    assert(ta.take(a@.len() as int) =~= ta);
    let mut j: usize = 0;
    while j < b.len()
        invariant
            j <= b@.len(),
            ta == views(a@).map_values(|l: Seq<char>| "-"@ + l),
            tb == views(b@).map_values(|l: Seq<char>| "+"@ + l),
            views(lines@) == ta + tb.take(j as int),
        decreases b@.len() - j,
    {
        let ghost before = lines@;
        lines.push(concat2("+", b[j].as_str()));
        proof {
            assert(views(lines@) =~= views(before).push(tb[j as int]));
            assert(tb.take(j + 1) =~= tb.take(j as int).push(tb[j as int]));
        }
        j = j + 1;
    }
    assert(tb.take(b@.len() as int) =~= tb);
    join(&lines, "\n")
}

} // verus!

verus! {

/// `n`, or `usize::MAX` if that is smaller.
pub open spec fn capped(n: nat) -> nat {
    if n < usize::MAX {
        n
    } else {
        usize::MAX as nat
    }
}

/// The text that `old` is taken to mean in `content`, with the number of places it
/// takes: `old` itself wherever it occurs; else the windows of whole lines that equal
/// `old`'s lines once both are trimmed (the first of them); `None` when neither.
pub open spec fn match_found(content: Seq<char>, old: Seq<char>) -> Option<(Seq<char>, nat)> {
    if exists|j: int| occurs_at(content, old, j) {
        Some((old, capped(count_matches(content, old))))
    } else {
        let ol = split_char(old, '\n');
        let cl = split_char(content, '\n');
        let starts = fitting_starts(trimmed(cl), trimmed(ol), window_starts(cl.len() as int, ol.len() as int));
        if starts.len() > 0 {
            Some((join_seq(cl.subrange(starts[0], starts[0] + ol.len()), "\n"@), starts.len()))
        } else {
            None
        }
    }
}

/// Whether `e` is what is answered when `old` is not found in `content`: the most
/// similar window when more than half its lines agree, with its similarity as
/// `percent_of` writes it, else a plain refusal.
pub open spec fn not_found_answer<F: Fn(usize, usize) -> String>(
    percent_of: F,
    old: Seq<char>,
    content: Seq<char>,
    e: Seq<char>,
) -> bool {
    let ol = split_char(old, '\n');
    let cl = split_char(content, '\n');
    let k = ol.len() as int;
    let best = best_window(ol, trimmed(cl), window_starts(cl.len() as int, k));
    if similar_enough(best.1, k) {
        exists|p: String|
            call_ensures(percent_of, (best.1 as usize, k as usize), p) && e == #[trigger] similar_text(
                ol,
                cl,
                best.0,
                p@,
            )
    } else {
        e == no_similar_text()
    }
}

proof fn lemma_best_bounds(ol: Seq<Seq<char>>, tcl: Seq<Seq<char>>, m: int)
    ensures
        best_window(ol, tcl, m).1 <= ol.len(),
        0 <= best_window(ol, tcl, m).0,
        m > 0 ==> best_window(ol, tcl, m).0 < m,
    decreases m,
{
    if m > 0 {
        lemma_best_bounds(ol, tcl, m - 1);
        lemma_agreeing_bound(ol, tcl, m - 1, ol.len() as int);
    }
}

proof fn lemma_agreeing_bound(ol: Seq<Seq<char>>, tcl: Seq<Seq<char>>, i: int, j: int)
    ensures
        agreeing(ol, tcl, i, j) <= if j < 0 { 0 } else { j },
    decreases j,
{
    if j > 0 {
        lemma_agreeing_bound(ol, tcl, i, j - 1);
    }
}

/// The answer when `old_text` is found in `content` neither as it is nor line by
/// line: the most similar window of lines, if similar enough, with a diff.
pub fn not_found_msg<F: Fn(usize, usize) -> String>(old_text: &str, content: &str, percent_of: &F) -> (r: String)
    requires
        forall|m: usize, k: usize| #[trigger] call_requires(*percent_of, (m, k)),
    ensures
        not_found_answer(*percent_of, old_text@, content@, r@),
{
    let ol = split_on(old_text, '\n');
    let cl = split_on(content, '\n');
    let tcl = trimmed_lines(&cl);
    let k = ol.len();
    let starts = if cl.len() >= k - 1 { cl.len() - (k - 1) } else { 0 };
    let ghost olv = views(ol@);
    let ghost tclv = views(tcl@);
    let ghost clv = views(cl@);
    assert(tcl@.len() == views(tcl@).len());
    assert(trimmed(views(cl@)).len() == cl@.len());
    assert(starts as int == window_starts(views(cl@).len() as int, olv.len() as int));
    let mut best: usize = 0;
    let mut best_m: usize = 0;
    let mut i: usize = 0;
    while i < starts
        invariant
            olv == views(ol@),
            tclv == views(tcl@),
            tcl@.len() == cl@.len(),
            k == ol@.len(),
            k >= 1,
            i <= starts,
            starts > 0 ==> starts + k <= cl@.len() + 1,
            best_window(olv, tclv, i as int) == (best as int, best_m as nat),
        decreases starts - i,
    {
        let c = agreeing_at(&ol, &tcl, i);
        if c > best_m {
            best = i;
            best_m = c;
        }
        i = i + 1;
    }
    proof {
        lemma_best_bounds(olv, tclv, starts as int);
        assert(trimmed(views(cl@)) == tclv);
    }
    if best_m > k - best_m {
        assert(starts > 0);
        let cn = cl.len();
        assert(best + k <= cn);
        let end = best + k;
        let p = percent_of(best_m, k);
        let line = decimal_string((best + 1) as u64);
        let mut r = concat3("Error: old_text not found.\nBest match (", p.as_str(), "% similar) at line ");
        r.append(line.as_str());
        r.append(":\n--- old_text (provided)\n+++ file (actual, line ");
        r.append(line.as_str());
        r.append(")\n");
        let mut window: Vec<String> = Vec::new();
        let mut q = best;
        while q < end
            invariant
                end == best + k,
                end <= cl@.len(),
                best <= q <= end,
                views(window@) == views(cl@).subrange(best as int, q as int),
            decreases end - q,
        {
            let ghost before = window@;
            window.push(cl[q].clone());
            proof {
                assert(views(window@) =~= views(before).push(views(cl@)[q as int]));
                assert(views(cl@).subrange(best as int, q + 1) =~= views(cl@).subrange(best as int, q as int).push(
                    views(cl@)[q as int],
                ));
            }
            q = q + 1;
        }
        let diff = generate_diff(&ol, &window);
        r.append(diff.as_str());
        proof {
            assert(r@ == similar_text(olv, clv, best as int, p@));
        }
        r
    } else {
        to_string("Error: old_text not found. No similar text found. Verify the file content.")
    }
}

} // verus!

verus! {

proof fn lemma_fitting_bounds(tcl: Seq<Seq<char>>, tol: Seq<Seq<char>>, m: int)
    ensures
        forall|q: int| 0 <= q < fitting_starts(tcl, tol, m).len() ==> 0 <= #[trigger] fitting_starts(tcl, tol, m)[q] < m,
    decreases m,
{
    if m > 0 {
        lemma_fitting_bounds(tcl, tol, m - 1);
        let r = fitting_starts(tcl, tol, m - 1);
        assert forall|q: int| 0 <= q < fitting_starts(tcl, tol, m).len() implies 0 <= #[trigger] fitting_starts(
            tcl,
            tol,
            m,
        )[q] < m by {
            if q < r.len() {
                assert(fitting_starts(tcl, tol, m)[q] == r[q]);
            }
        }
    }
}

/// The text that `old_text` is taken to mean in `content` and in how many places,
/// or the answer when it is not found (see `match_found` and `not_found_answer`).
pub fn find_match<F: Fn(usize, usize) -> String>(content: &str, old_text: &str, percent_of: &F) -> (r: Result<(String, usize), String>)
    requires
        forall|m: usize, k: usize| #[trigger] call_requires(*percent_of, (m, k)),
    ensures
        match match_found(content@, old_text@) {
            Some((m, c)) => r matches Ok((t, n)) && t@ == m && n == c,
            None => r matches Err(e) && not_found_answer(*percent_of, old_text@, content@, e@),
        },
{
    match find_str(content, old_text) {
        Some(_) => {
            let c = count_str(content, old_text);
            return Ok((to_string(old_text), c));
        },
        None => {},
    }
    let ol = split_on(old_text, '\n');
    let cl = split_on(content, '\n');
    let tol = trimmed_lines(&ol);
    let tcl = trimmed_lines(&cl);
    let k = ol.len();
    let starts = if cl.len() >= k - 1 { cl.len() - (k - 1) } else { 0 };
    let ghost tolv = views(tol@);
    let ghost tclv = views(tcl@);
    assert(tcl@.len() == views(tcl@).len());
    assert(tol@.len() == views(tol@).len());
    assert(trimmed(views(cl@)).len() == cl@.len());
    assert(trimmed(views(ol@)).len() == ol@.len());
    let mut first: usize = 0;
    let mut found: usize = 0;
    let mut i: usize = 0;
    while i < starts
        invariant
            tolv == views(tol@),
            tclv == views(tcl@),
            tcl@.len() == cl@.len(),
            tol@.len() == k,
            k == ol@.len(),
            k >= 1,
            i <= starts,
            starts > 0 ==> starts + k <= cl@.len() + 1,
            found == fitting_starts(tclv, tolv, i as int).len(),
            found > 0 ==> first == fitting_starts(tclv, tolv, i as int)[0],
            found <= i,
        decreases starts - i,
    {
        if fits_at(&tcl, &tol, i) {
            if found == 0 {
                first = i;
            }
            found = found + 1;
        }
        i = i + 1;
    }
    proof {
        lemma_fitting_bounds(tclv, tolv, starts as int);
        assert(trimmed(views(cl@)) == tclv);
        assert(trimmed(views(ol@)) == tolv);
        assert(starts as int == window_starts(views(cl@).len() as int, views(ol@).len() as int));
    }
    if found == 0 {
        return Err(not_found_msg(old_text, content, percent_of));
    }
    assert(first < starts);
    let window = join_range(&cl, first, first + k);
    Ok((window, found))
}

/// The warning when `old_text` takes more than one place and not all are to be
/// replaced.
pub open spec fn ambiguity_warning(count: nat) -> Seq<char> {
    "Warning: old_text appears "@ + decimal(count)
        + " times. Provide more context to make it unique, or set replace_all=true."@
}

/// `s` with its first occurrence of `p` replaced by `t`; `None` when `p` does not occur.
pub open spec fn replace_first(s: Seq<char>, p: Seq<char>, t: Seq<char>) -> Option<Seq<char>> {
    if exists|i: int| occurs_at(s, p, i) {
        let i = choose|i: int| is_first_occurrence(s, p, i);
        Some(s.take(i) + t + s.skip(i + p.len()))
    } else {
        None
    }
}

/// Whether `r` is what an edit of a file with bytes `raw` gives: the new content
/// (`Ok`), or the answer that refuses it (`Err`). Line endings are compared as
/// `\n`, and a file with a carriage return gets `\r\n` line endings back.
pub open spec fn edit_plan<F: Fn(usize, usize) -> String>(
    percent_of: F,
    raw: Seq<u8>,
    old: Seq<char>,
    new: Seq<char>,
    replace_all: bool,
    r: Result<Seq<char>, Seq<char>>,
) -> bool {
    if !valid_utf8(raw) {
        r == Err::<Seq<char>, Seq<char>>("Error decoding file as UTF-8: "@ + spec_utf8_error_text(raw))
    } else {
        let content = replace_seq(decode_utf8(raw), "\r\n"@, "\n"@);
        let on = replace_seq(old, "\r\n"@, "\n"@);
        let nn = replace_seq(new, "\r\n"@, "\n"@);
        match match_found(content, on) {
            None => r matches Err(e) && not_found_answer(percent_of, on, content, e),
            Some((matched, count)) => if count > 1 && !replace_all {
                r == Err::<Seq<char>, Seq<char>>(ambiguity_warning(count))
            } else {
                let edited = if replace_all {
                    Some(replace_seq(content, matched, nn))
                } else {
                    replace_first(content, matched, nn)
                };
                match edited {
                    None => r == Err::<Seq<char>, Seq<char>>("Error: matched text not found"@),
                    Some(c) => r == Ok::<Seq<char>, Seq<char>>(
                        if raw.contains(13u8) {
                            replace_seq(c, "\n"@, "\r\n"@)
                        } else {
                            c
                        },
                    ),
                }
            },
        }
    }
}

pub open spec fn result_view(r: Result<String, String>) -> Result<Seq<char>, Seq<char>> {
    match r {
        Ok(s) => Ok(s@),
        Err(e) => Err(e@),
    }
}

fn has_carriage_return(raw: &Vec<u8>) -> (r: bool)
    ensures
        r == raw@.contains(13u8),
{
    let mut i: usize = 0;
    while i < raw.len()
        invariant
            i <= raw@.len(),
            forall|j: int| 0 <= j < i ==> raw@[j] != 13u8,
        decreases raw@.len() - i,
    {
        if raw[i] == 13u8 {
            assert(raw@[i as int] == 13u8);
            return true;
        }
        i = i + 1;
    }
    false
}

fn replace_first_str(s: &str, p: &str, t: &str) -> (r: Option<String>)
    ensures
        match replace_first(s@, p@, t@) {
            Some(x) => r matches Some(y) && y@ == x,
            None => r is None,
        },
{
    match find_str(s, p) {
        Some(i) => {
            let v = chars_of(s);
            let pl = chars_of(p).len();
            let vl = v.len();
            assert(occurs_at(s@, p@, i as int));
            assert(i + pl <= vl);
            let mut r = crate::text::string_of_range(&v, 0, i);
            r.append(t);
            let tail = crate::text::string_of_range(&v, i + pl, v.len());
            r.append(tail.as_str());
            proof {
                let c = choose|j: int| is_first_occurrence(s@, p@, j);
                assert(is_first_occurrence(s@, p@, i as int));
                if c != i {
                    if c < i {
                        assert(!occurs_at(s@, p@, c));
                    } else {
                        assert(!occurs_at(s@, p@, i as int));
                    }
                }
                assert(v@.subrange(0, i as int) =~= s@.take(i as int));
                assert(v@.subrange(i + pl, v@.len() as int) =~= s@.skip(i + p@.len()));
            }
            Some(r)
        },
        None => None,
    }
}

/// An edit of a file with bytes `raw`: the new content to write, or the answer that
/// refuses the edit (see `edit_plan`). `percent_of` writes a similarity of `m` lines
/// out of `k` in percent.
pub fn plan_edit<F: Fn(usize, usize) -> String>(
    raw: Vec<u8>,
    old_text: &str,
    new_text: &str,
    replace_all: bool,
    percent_of: &F,
) -> (r: Result<String, String>)
    requires
        forall|m: usize, k: usize| #[trigger] call_requires(*percent_of, (m, k)),
    ensures
        edit_plan(*percent_of, raw@, old_text@, new_text@, replace_all, result_view(r)),
{
    let ghost bytes = raw@;
    let uses_crlf = has_carriage_return(&raw);
    let text = match decode_utf8_bytes(raw) {
        Ok(t) => t,
        Err(e) => return Err(concat2("Error decoding file as UTF-8: ", e.as_str())),
    };
    let content = replace_str(text.as_str(), "\r\n", "\n");
    let old_n = replace_str(old_text, "\r\n", "\n");
    let new_n = replace_str(new_text, "\r\n", "\n");
    let (matched, count) = match find_match(content.as_str(), old_n.as_str(), percent_of) {
        Ok(m) => m,
        Err(e) => return Err(e),
    };
    if count > 1 && !replace_all {
        let mut w = concat2("Warning: old_text appears ", decimal_string(count as u64).as_str());
        w.append(" times. Provide more context to make it unique, or set replace_all=true.");
        return Err(w);
    }
    let edited = if replace_all {
        replace_str(content.as_str(), matched.as_str(), new_n.as_str())
    } else {
        match replace_first_str(content.as_str(), matched.as_str(), new_n.as_str()) {
            Some(c) => c,
            None => return Err(to_string("Error: matched text not found")),
        }
    };
    if uses_crlf {
        Ok(replace_str(edited.as_str(), "\n", "\r\n"))
    } else {
        Ok(edited)
    }
}

/// How an edit went, step by step.
pub enum EditStage {
    /// Nothing exists at the path.
    NotFound,
    /// Reading the file failed, with the error's message.
    ReadFailed(String),
    /// The edit was refused, with the answer (see `plan_edit`).
    Refused(String),
    /// Writing the new content failed, with the error's message.
    WriteFailed(String),
    /// The new content was written.
    Written,
}

/// What the edit tool answers for a file shown as `display`.
pub open spec fn edit_answer_text(display: Seq<char>, stage: EditStage) -> Seq<char> {
    match stage {
        EditStage::NotFound => "Error: File not found: "@ + display,
        EditStage::ReadFailed(e) => "Error reading file: "@ + e@,
        EditStage::Refused(m) => m@,
        EditStage::WriteFailed(e) => "Error writing file: "@ + e@,
        EditStage::Written => "Successfully edited "@ + display,
    }
}

/// What the edit tool answers (see `edit_answer_text`).
pub fn edit_answer(display: &str, stage: EditStage) -> (r: String)
    ensures
        r@ == edit_answer_text(display@, stage),
{
    match stage {
        EditStage::NotFound => concat2("Error: File not found: ", display),
        EditStage::ReadFailed(e) => concat2("Error reading file: ", e.as_str()),
        EditStage::Refused(m) => m,
        EditStage::WriteFailed(e) => concat2("Error writing file: ", e.as_str()),
        EditStage::Written => concat2("Successfully edited ", display),
    }
}

} // verus!

verus! {

/// Strict order of paths: component by component, each compared by character.
pub open spec fn path_lt(a: Seq<Seq<char>>, b: Seq<Seq<char>>) -> bool
    decreases a.len(),
{
    if a.len() == 0 {
        b.len() > 0
    } else if b.len() == 0 {
        false
    } else if a[0] != b[0] {
        crate::text::lex_lt(a[0], b[0])
    } else {
        path_lt(a.drop_first(), b.drop_first())
    }
}

proof fn lemma_path_irreflexive(a: Seq<Seq<char>>)
    ensures
        !path_lt(a, a),
    decreases a.len(),
{
    if a.len() > 0 {
        lemma_path_irreflexive(a.drop_first());
    }
}

proof fn lemma_path_total(a: Seq<Seq<char>>, b: Seq<Seq<char>>)
    ensures
        a != b ==> path_lt(a, b) || path_lt(b, a),
        !(path_lt(a, b) && path_lt(b, a)),
    decreases a.len(),
{
    if a.len() > 0 && b.len() > 0 {
        lemma_path_total(a.drop_first(), b.drop_first());
        crate::text::lemma_lex_total(a[0], b[0]);
        if a[0] == b[0] && a != b {
            assert(a =~= seq![a[0]] + a.drop_first());
            assert(b =~= seq![b[0]] + b.drop_first());
        }
    } else if a.len() == 0 && b.len() == 0 {
        assert(a =~= b);
    }
}

proof fn lemma_path_transitive(a: Seq<Seq<char>>, b: Seq<Seq<char>>, c: Seq<Seq<char>>)
    requires
        path_lt(a, b),
        path_lt(b, c),
    ensures
        path_lt(a, c),
    decreases a.len(),
{
    if a.len() > 0 && b.len() > 0 && c.len() > 0 {
        if a[0] == b[0] && b[0] == c[0] {
            lemma_path_transitive(a.drop_first(), b.drop_first(), c.drop_first());
        } else if a[0] == b[0] {
            assert(crate::text::lex_lt(b[0], c[0]));
        } else if b[0] == c[0] {
            assert(crate::text::lex_lt(a[0], b[0]));
        } else {
            crate::text::lemma_lex_transitive(a[0], b[0], c[0]);
            if a[0] == c[0] {
                crate::text::lemma_lex_total(a[0], b[0]);
            }
        }
    }
}

/// An entry of a listing ordered by path: its components and whether it is a
/// directory.
pub open spec fn key_leq(a: (Seq<Seq<char>>, bool), b: (Seq<Seq<char>>, bool)) -> bool {
    path_lt(a.0, b.0) || (a.0 == b.0 && (a.1 == b.1 || (!a.1 && b.1)))
}

pub open spec fn entry_order() -> spec_fn((Seq<Seq<char>>, bool), (Seq<Seq<char>>, bool)) -> bool {
    |a: (Seq<Seq<char>>, bool), b: (Seq<Seq<char>>, bool)| key_leq(a, b)
}

proof fn lemma_entry_order_total()
    ensures
        vstd::relations::total_ordering(entry_order()),
{
    let r = entry_order();
    assert forall|x: (Seq<Seq<char>>, bool)| #[trigger] r(x, x) by {
        lemma_path_irreflexive(x.0);
    }
    assert forall|x: (Seq<Seq<char>>, bool), y: (Seq<Seq<char>>, bool)| #[trigger] r(x, y) && #[trigger] r(y, x) implies x
        == y by {
        lemma_path_total(x.0, y.0);
    }
    assert forall|x: (Seq<Seq<char>>, bool), y: (Seq<Seq<char>>, bool), z: (Seq<Seq<char>>, bool)| #[trigger] r(x, y)
        && #[trigger] r(y, z) implies r(x, z) by {
        if path_lt(x.0, y.0) && path_lt(y.0, z.0) {
            lemma_path_transitive(x.0, y.0, z.0);
        }
    }
    assert forall|x: (Seq<Seq<char>>, bool), y: (Seq<Seq<char>>, bool)| #[trigger] r(x, y) || #[trigger] r(y, x) by {
        lemma_path_total(x.0, y.0);
    }
}

/// An entry found in a directory: its path below the directory listed, component
/// by component, and whether it is a directory.
pub struct ListedEntry {
    pub components: Vec<String>,
    pub is_dir: bool,
}

pub open spec fn entry_key(e: ListedEntry) -> (Seq<Seq<char>>, bool) {
    (views(e.components@), e.is_dir)
}

pub open spec fn entry_keys(v: Seq<ListedEntry>) -> Seq<(Seq<Seq<char>>, bool)> {
    v.map_values(|e: ListedEntry| entry_key(e))
}

fn path_less(a: &Vec<String>, b: &Vec<String>) -> (r: bool)
    ensures
        r == path_lt(views(a@), views(b@)),
{
    let ghost av = views(a@);
    let ghost bv = views(b@);
    let mut i: usize = 0;
    assert(av.skip(0) =~= av);
    assert(bv.skip(0) =~= bv);
    while i < a.len() && i < b.len()
        invariant
            av == views(a@),
            bv == views(b@),
            i <= a@.len(),
            i <= b@.len(),
            path_lt(av, bv) == path_lt(av.skip(i as int), bv.skip(i as int)),
        decreases a@.len() - i,
    {
        proof {
            assert(av.skip(i as int)[0] == av[i as int]);
            assert(bv.skip(i as int)[0] == bv[i as int]);
        }
        if !crate::text::str_eq(a[i].as_str(), b[i].as_str()) {
            return crate::text::str_lt(a[i].as_str(), b[i].as_str());
        }
        proof {
            assert(av.skip(i as int).drop_first() =~= av.skip(i + 1));
            assert(bv.skip(i as int).drop_first() =~= bv.skip(i + 1));
        }
        i = i + 1;
    }
    proof {
        assert(av.skip(i as int).len() == 0 || bv.skip(i as int).len() == 0);
    }
    i == a.len() && i < b.len()
}

fn entry_leq(a: &ListedEntry, b: &ListedEntry) -> (r: bool)
    ensures
        r == key_leq(entry_key(*a), entry_key(*b)),
{
    let lt = path_less(&a.components, &b.components);
    let gt = path_less(&b.components, &a.components);
    proof {
        lemma_path_total(views(a.components@), views(b.components@));
    }
    lt || (!gt && (a.is_dir == b.is_dir || (!a.is_dir && b.is_dir)))
}

/// The entries ordered by path (see `key_leq`).
pub fn sort_entries(v: Vec<ListedEntry>) -> (r: Vec<ListedEntry>)
    ensures
        entry_keys(r@) == entry_keys(v@).sort_by(entry_order()),
{
    broadcast use vstd::seq_lib::group_to_multiset_ensures;
    let ghost orig = entry_keys(v@);
    let mut rest = v;
    let mut r: Vec<ListedEntry> = Vec::new();
    proof {
        assert(entry_keys(r@) =~= Seq::<(Seq<Seq<char>>, bool)>::empty());
        assert(entry_keys(r@).to_multiset().add(entry_keys(rest@).to_multiset()) =~= orig.to_multiset());
    }
    while rest.len() > 0
        invariant
            entry_keys(r@).to_multiset().add(entry_keys(rest@).to_multiset()) == orig.to_multiset(),
            forall|i: int, j: int| 0 <= i < j < r@.len() ==> key_leq(#[trigger] entry_key(r@[i]), #[trigger] entry_key(r@[j])),
        decreases rest@.len(),
    {
        let ghost rest_before = rest@;
        let x = rest.pop().unwrap();
        proof {
            assert(rest_before == rest@.push(x));
            assert(entry_keys(rest_before) =~= entry_keys(rest@).push(entry_key(x)));
        }
        let mut p: usize = 0;
        while p < r.len() && entry_leq(&r[p], &x)
            invariant
                p <= r@.len(),
                forall|a: int| 0 <= a < p ==> key_leq(#[trigger] entry_key(r@[a]), entry_key(x)),
            decreases r@.len() - p,
        {
            p = p + 1;
        }
        proof {
            lemma_entry_order_total();
            let ord = entry_order();
            if p < r@.len() {
                assert(!key_leq(entry_key(r@[p as int]), entry_key(x)));
                assert(ord(entry_key(x), entry_key(r@[p as int])) || ord(entry_key(r@[p as int]), entry_key(x)));
                assert forall|a: int| p <= a < r@.len() implies key_leq(entry_key(x), #[trigger] entry_key(r@[a])) by {
                    if a > p {
                        assert(key_leq(entry_key(r@[p as int]), entry_key(r@[a])));
                        assert(ord(entry_key(x), entry_key(r@[p as int])) && ord(entry_key(r@[p as int]), entry_key(r@[a])));
                    }
                }
            }
        }
        let ghost old_r = r@;
        r.insert(p, x);
        proof {
            assert(entry_keys(r@) =~= entry_keys(old_r).insert(p as int, entry_key(x)));
            vstd::seq_lib::to_multiset_insert(entry_keys(old_r), p as int, entry_key(x));
            assert forall|i: int, j: int| 0 <= i < j < r@.len() implies key_leq(#[trigger] entry_key(r@[i]), #[trigger] entry_key(r@[j])) by {
                let oi = if i < p { i } else { i - 1 };
                let oj = if j < p { j } else { j - 1 };
                if i == p {
                    assert(r@[j] == old_r[oj]);
                } else if j == p {
                    assert(r@[i] == old_r[oi]);
                } else {
                    assert(r@[i] == old_r[oi]);
                    assert(r@[j] == old_r[oj]);
                }
            }
            vstd::seq_lib::to_multiset_build(entry_keys(rest@), entry_key(x));
            let mr = entry_keys(r@).to_multiset();
            let mo = entry_keys(old_r).to_multiset();
            let ms = entry_keys(rest@).to_multiset();
            let msb = entry_keys(rest_before).to_multiset();
            assert(mr == mo.insert(entry_key(x)));
            assert(msb == ms.insert(entry_key(x)));
            assert(mo.add(msb) == orig.to_multiset());
            assert(mr.add(ms) =~= mo.add(msb)) by {
                broadcast use vstd::multiset::group_multiset_axioms;
            }
        }
    }
    proof {
        lemma_entry_order_total();
        assert(entry_keys(rest@) =~= Seq::<(Seq<Seq<char>>, bool)>::empty());
        assert(entry_keys(r@).to_multiset() =~= orig.to_multiset());
        let ord = entry_order();
        assert forall|i: int, j: int| 0 <= i < j < entry_keys(r@).len() implies #[trigger] ord(entry_keys(r@)[i], entry_keys(r@)[j]) by {
            assert(key_leq(entry_key(r@[i]), entry_key(r@[j])));
        }
        orig.lemma_sort_by_ensures(ord);
        vstd::seq_lib::lemma_sorted_unique(entry_keys(r@), orig.sort_by(ord), ord);
    }
    r
}

} // verus!

verus! {

/// Names of directories that listings leave out (version control, dependencies,
/// caches, build output).
pub open spec fn ignored_name(n: Seq<char>) -> bool {
    n == ".git"@ || n == "node_modules"@ || n == "__pycache__"@ || n == ".venv"@ || n == "venv"@ || n
        == "dist"@ || n == "build"@ || n == ".tox"@ || n == ".mypy_cache"@ || n == ".pytest_cache"@ || n
        == ".ruff_cache"@ || n == ".coverage"@ || n == "htmlcov"@
}

/// Whether listings leave out a directory of this name (see `ignored_name`).
pub fn is_ignored(name: &str) -> (r: bool)
    ensures
        r == ignored_name(name@),
{
    crate::text::str_eq(name, ".git") || crate::text::str_eq(name, "node_modules") || crate::text::str_eq(
        name,
        "__pycache__",
    ) || crate::text::str_eq(name, ".venv") || crate::text::str_eq(name, "venv") || crate::text::str_eq(
        name,
        "dist",
    ) || crate::text::str_eq(name, "build") || crate::text::str_eq(name, ".tox") || crate::text::str_eq(
        name,
        ".mypy_cache",
    ) || crate::text::str_eq(name, ".pytest_cache") || crate::text::str_eq(name, ".ruff_cache")
        || crate::text::str_eq(name, ".coverage") || crate::text::str_eq(name, "htmlcov")
}

/// What listing a directory gave.
pub enum DirListing {
    /// Nothing exists at the path.
    NotFound,
    /// Something exists there but is not a directory.
    NotADir,
    /// Reading the directory (or, for a recursive listing, one below it) failed, with
    /// the error's message.
    Failed(String),
    /// The entries found, in any order: for a flat listing each is one name; for a
    /// recursive one, every entry below the directory outside ignored directories.
    Entries(Vec<ListedEntry>),
}

/// An entry as listed: its path, with `/` after a directory.
pub open spec fn entry_item(k: (Seq<Seq<char>>, bool)) -> Seq<char> {
    join_seq(k.0, "/"@) + if k.1 {
        "/"@
    } else {
        Seq::<char>::empty()
    }
}

/// The entries whose path is not an ignored name.
pub open spec fn unignored(keys: Seq<(Seq<Seq<char>>, bool)>) -> Seq<(Seq<Seq<char>>, bool)>
    decreases keys.len(),
{
    if keys.len() == 0 {
        keys
    } else {
        let r = unignored(keys.drop_last());
        if ignored_name(join_seq(keys.last().0, "/"@)) {
            r
        } else {
            r.push(keys.last())
        }
    }
}

/// How many entries are shown at most.
pub open spec fn list_limit(max_entries: u64) -> int {
    if max_entries == 0 {
        DEFAULT_MAX_ENTRIES as int
    } else {
        max_entries as int
    }
}

/// The listing of ordered entries: the first `limit`, one per line, with a note when
/// some are left out.
pub open spec fn listing_text(display: Seq<char>, keys: Seq<(Seq<Seq<char>>, bool)>, limit: int) -> Seq<char> {
    let total = keys.len() as int;
    if total == 0 {
        "Directory "@ + display + " is empty"@
    } else {
        join_seq(
            keys.take(if limit < total { limit } else { total }).map_values(|k: (Seq<Seq<char>>, bool)| entry_item(k)),
            "\n"@,
        ) + if total > limit {
            "\n\n(truncated, showing first "@ + decimal(limit as nat) + " of "@ + decimal(total as nat)
                + " entries)"@
        } else {
            Seq::<char>::empty()
        }
    }
}

/// What the list tool answers for a directory shown as `display`.
pub open spec fn list_output(display: Seq<char>, listing: DirListing, recursive: bool, max_entries: u64) -> Seq<char> {
    match listing {
        DirListing::NotFound => "Error: Directory not found: "@ + display,
        DirListing::NotADir => "Error: Not a directory: "@ + display,
        DirListing::Failed(e) => if recursive {
            "Directory "@ + display + " is empty"@
        } else {
            "Error reading directory: "@ + e@
        },
        DirListing::Entries(v) => {
            let sorted = entry_keys(v@).sort_by(entry_order());
            listing_text(display, if recursive { sorted } else { unignored(sorted) }, list_limit(max_entries))
        },
    }
}

fn drop_ignored(v: Vec<ListedEntry>) -> (r: Vec<ListedEntry>)
    ensures
        entry_keys(r@) == unignored(entry_keys(v@)),
{
    let mut r: Vec<ListedEntry> = Vec::new();
    let mut v = v;
    let ghost orig = entry_keys(v@);
    // Entries are taken from the end, so the kept ones are gathered in reverse.
    let n = v.len();
    let mut i: usize = 0;
    let mut rev: Vec<ListedEntry> = Vec::new();
    while v.len() > 0
        invariant
            v@.len() + i == n,
            n == orig.len(),
            entry_keys(v@) == orig.take(v@.len() as int),
            unignored(orig) == unignored(entry_keys(v@)) + entry_keys(rev@).reverse(),
        decreases v@.len(),
    {
        let ghost before = v@;
        let e = v.pop().unwrap();
        proof {
            assert(before == v@.push(e));
            assert(entry_keys(before) =~= entry_keys(v@).push(entry_key(e)));
            assert(entry_keys(before).drop_last() =~= entry_keys(v@));
            assert(orig.take(v@.len() as int) =~= orig.take(before.len() as int).drop_last());
        }
        let name = join(&e.components, "/");
        if !is_ignored(name.as_str()) {
            let ghost rb = rev@;
            rev.push(e);
            proof {
                assert(entry_keys(rev@) =~= entry_keys(rb).push(entry_key(e)));
                assert(entry_keys(rev@).reverse() =~= seq![entry_key(e)] + entry_keys(rb).reverse());
            }
        }
        i = i + 1;
    }
    proof {
        assert(unignored(entry_keys(v@)) =~= Seq::<(Seq<Seq<char>>, bool)>::empty());
    }
    while rev.len() > 0
        invariant
            unignored(orig) == entry_keys(r@) + entry_keys(rev@).reverse(),
        decreases rev@.len(),
    {
        let ghost rb = rev@;
        let ghost r0 = r@;
        let e = rev.pop().unwrap();
        r.push(e);
        proof {
            assert(rb == rev@.push(e));
            assert(entry_keys(rb) =~= entry_keys(rev@).push(entry_key(e)));
            assert(entry_keys(rb).reverse() =~= seq![entry_key(e)] + entry_keys(rev@).reverse());
            assert(entry_keys(r@) =~= entry_keys(r0).push(entry_key(e)));
        }
    }
    assert(entry_keys(rev@).reverse() =~= Seq::<(Seq<Seq<char>>, bool)>::empty());
    assert(entry_keys(r@) =~= unignored(orig));
    r
}

} // verus!

verus! {

fn listing_text_of(display: &str, entries: &Vec<ListedEntry>, limit: u64) -> (r: String)
    requires
        limit >= 1,
    ensures
        r@ == listing_text(display@, entry_keys(entries@), limit as int),
{
    let total = entries.len();
    if total == 0 {
        return concat3("Directory ", display, " is empty");
    }
    let shown: usize = if (limit as u128) < (total as u128) { limit as usize } else { total };
    let ghost keys = entry_keys(entries@);
    let ghost target = keys.take(shown as int).map_values(|k: (Seq<Seq<char>>, bool)| entry_item(k));
    let mut items: Vec<String> = Vec::new();
    let mut i: usize = 0;
    while i < shown
        invariant
            keys == entry_keys(entries@),
            shown <= entries@.len(),
            i <= shown,
            target == keys.take(shown as int).map_values(|k: (Seq<Seq<char>>, bool)| entry_item(k)),
            views(items@) == target.take(i as int),
        decreases shown - i,
    {
        let ghost before = items@;
        let mut item = join(&entries[i].components, "/");
        if entries[i].is_dir {
            item.append("/");
        }
        items.push(item);
        proof {
            assert(keys[i as int] == entry_key(entries@[i as int]));
            assert(target[i as int] == entry_item(keys[i as int]));
            assert(views(items@) =~= views(before).push(target[i as int]));
            assert(target.take(i + 1) =~= target.take(i as int).push(target[i as int]));
        }
        i = i + 1;
    }
    assert(target.take(shown as int) =~= target);
    let mut r = join(&items, "\n");
    if (total as u128) > (limit as u128) {
        r.append("\n\n(truncated, showing first ");
        r.append(decimal_string(limit).as_str());
        r.append(" of ");
        r.append(decimal_string(total as u64).as_str());
        r.append(" entries)");
    }
    r
}

/// What the list tool answers: the entries of a directory ordered by path, the
/// ignored names left out of a flat listing, at most `max_entries` of them (200 when
/// 0), with a note when some are left out; or an error.
pub fn list_dir_output(display: &str, listing: DirListing, recursive: bool, max_entries: u64) -> (r: String)
    ensures
        r@ == list_output(display@, listing, recursive, max_entries),
        match listing {
            DirListing::Entries(v) => {
                let e = if recursive {
                    entry_keys(v@).sort_by(entry_order())
                } else {
                    unignored(entry_keys(v@).sort_by(entry_order()))
                };
                let m: int = if max_entries == 0 {
                    200
                } else {
                    max_entries as int
                };
                &&& e.len() == 0 ==> r@ == "Directory "@ + display@ + " is empty"@
                &&& 0 < e.len() <= m ==> r@ == join_seq(e.map_values(|k: (Seq<Seq<char>>, bool)| entry_item(k)), "\n"@)
                &&& e.len() > m ==> r@ == join_seq(
                    e.take(m).map_values(|k: (Seq<Seq<char>>, bool)| entry_item(k)),
                    "\n"@,
                ) + "\n\n(truncated, showing first "@ + decimal(m as nat) + " of "@ + decimal(e.len()) + " entries)"@
            },
            _ => true,
        },
{
    proof {
        if listing is Entries {
            let v = listing->Entries_0;
            if recursive {
                crate::laws::law_recursive_listing(display@, v, max_entries);
            } else {
                crate::laws::law_flat_listing(display@, v, max_entries);
            }
        }
    }
    match listing {
        DirListing::NotFound => concat2("Error: Directory not found: ", display),
        DirListing::NotADir => concat2("Error: Not a directory: ", display),
        DirListing::Failed(e) => {
            if recursive {
                concat3("Directory ", display, " is empty")
            } else {
                concat2("Error reading directory: ", e.as_str())
            }
        },
        DirListing::Entries(v) => {
            let limit: u64 = if max_entries == 0 { DEFAULT_MAX_ENTRIES as u64 } else { max_entries };
            let sorted = sort_entries(v);
            let shown = if recursive { sorted } else { drop_ignored(sorted) };
            listing_text_of(display, &shown, limit)
        },
    }
}

} // verus!
