//! Character-level string helpers shared by the rest of the library.

use vstd::prelude::*;
use vstd::string::*;

verus! {

/// Appends one character to a string (`String::push`).
#[verifier::external_body]
pub(crate) fn push_char(s: &mut String, c: char)
    ensures
        final(s)@ == old(s)@.push(c),
{
    s.push(c);
}

/// The lowercase form of a character sequence, as `str::to_lowercase` computes it.
pub uninterp spec fn spec_to_lowercase(s: Seq<char>) -> Seq<char>;

/// ASCII letters mapped to lowercase, every other character kept.
pub open spec fn ascii_lower_char(c: char) -> char {
    if 'A' <= c && c <= 'Z' {
        ((c as u32) + 32) as char
    } else {
        c
    }
}

/// Whether every character is ASCII.
pub open spec fn all_ascii(s: Seq<char>) -> bool {
    forall|i: int| 0 <= i < s.len() ==> (s[i] as u32) < 128
}

/// Whether `s` holds an ASCII uppercase letter.
pub open spec fn has_ascii_upper(s: Seq<char>) -> bool {
    exists|i: int| 0 <= i < s.len() && 'A' <= #[trigger] s[i] && s[i] <= 'Z'
}

/// `str::to_lowercase`. The result is named by `spec_to_lowercase`; for an ASCII
/// input the standard library documents it as the ASCII lowercase mapping, which is
/// stated here, and whatever the input its result is lowercase, so it holds no ASCII
/// uppercase letter. What it does to other characters (Unicode case tables) is not
/// stated.
#[verifier::external_body]
pub(crate) fn to_lowercase(s: &str) -> (r: String)
    ensures
        r@ == spec_to_lowercase(s@),
        all_ascii(s@) ==> r@ == s@.map_values(|c: char| ascii_lower_char(c)),
        !has_ascii_upper(r@),
{
    s.to_lowercase()
}

/// A fresh `String` holding the characters of `s`.
pub fn to_string(s: &str) -> (r: String)
    ensures
        r@ == s@,
{
    s.to_owned()
}

/// Whether two string slices hold the same characters.
pub fn str_eq(a: &str, b: &str) -> (r: bool)
    ensures
        r == (a@ == b@),
{
    let x = a.to_owned();
    let y = b.to_owned();
    x == y
}

/// `a` followed by `b`, as a new string.
pub fn concat2(a: &str, b: &str) -> (r: String)
    ensures
        r@ == a@ + b@,
{
    let mut r = a.to_owned();
    r.append(b);
    r
}

/// `a`, `b` and `c` one after another, as a new string.
pub fn concat3(a: &str, b: &str, c: &str) -> (r: String)
    ensures
        r@ == a@ + b@ + c@,
{
    let mut r = a.to_owned();
    r.append(b);
    r.append(c);
    r
}

/// `a`, `b`, `c` and `d` one after another, as a new string.
pub fn concat4(a: &str, b: &str, c: &str, d: &str) -> (r: String)
    ensures
        r@ == a@ + b@ + c@ + d@,
{
    let mut r = a.to_owned();
    r.append(b);
    r.append(c);
    r.append(d);
    r
}

/// The characters of a string slice, in order.
pub fn chars_of(s: &str) -> (r: Vec<char>)
    ensures
        r@ == s@,
{
    let mut r: Vec<char> = Vec::new();
    for c in it: s.chars()
        invariant
            it.seq() == s@,
            r@ == it.seq().take(it.index() as int),
    {
        r.push(c);
    }
    r
}

/// A string made of the characters `v[from..to]`.
pub fn string_of_range(v: &Vec<char>, from: usize, to: usize) -> (r: String)
    requires
        from <= to <= v@.len(),
    ensures
        r@ == v@.subrange(from as int, to as int),
{
    let mut r = String::new();
    let mut i = from;
    while i < to
        invariant
            from <= i <= to <= v@.len(),
            r@ == v@.subrange(from as int, i as int),
        decreases to - i,
    {
        push_char(&mut r, v[i]);
        assert(v@.subrange(from as int, i + 1) == v@.subrange(from as int, i as int).push(v@[i as int]));
        i = i + 1;
    }
    r
}

/// A string made of all the characters of `v`.
pub fn string_of(v: &Vec<char>) -> (r: String)
    ensures
        r@ == v@,
{
    let r = string_of_range(v, 0, v.len());
    assert(v@.subrange(0, v@.len() as int) == v@);
    r
}

/// Whether `p` is a prefix of `s`.
pub open spec fn is_prefix(p: Seq<char>, s: Seq<char>) -> bool {
    p.len() <= s.len() && s.subrange(0, p.len() as int) == p
}

/// Whether `n` occurs in `h` as a run of consecutive characters.
pub open spec fn has_substring(h: Seq<char>, n: Seq<char>) -> bool {
    exists|i: int| 0 <= i && i + n.len() <= h.len() && #[trigger] h.subrange(i, i + n.len()) == n
}

/// Whether `v[at..]` begins with `p`.
fn matches_at(v: &Vec<char>, p: &Vec<char>, at: usize) -> (r: bool)
    requires
        at + p@.len() <= v@.len(),
    ensures
        r == (v@.subrange(at as int, at + p@.len()) == p@),
{
    let vl = v.len();
    let mut j: usize = 0;
    while j < p.len()
        invariant
            j <= p@.len(),
            vl == v@.len(),
            at + p@.len() <= v@.len(),
            forall|k: int| 0 <= k < j ==> v@[at + k] == p@[k],
        decreases p@.len() - j,
    {
        if v[at + j] != p[j] {
            assert(v@.subrange(at as int, at + p@.len())[j as int] != p@[j as int]);
            return false;
        }
        j = j + 1;
    }
    assert(v@.subrange(at as int, at + p@.len()) =~= p@);
    true
}

/// `s.starts_with(prefix)`.
pub fn starts_with(s: &str, prefix: &str) -> (r: bool)
    ensures
        r == is_prefix(prefix@, s@),
{
    let v = chars_of(s);
    let p = chars_of(prefix);
    if p.len() > v.len() {
        return false;
    }
    matches_at(&v, &p, 0)
}

/// `hay.contains(needle)`.
pub fn contains_str(hay: &str, needle: &str) -> (r: bool)
    ensures
        r == has_substring(hay@, needle@),
{
    let v = chars_of(hay);
    let p = chars_of(needle);
    if p.len() > v.len() {
        return false;
    }
    if p.len() == 0 {
        assert(hay@.subrange(0int, 0int + needle@.len()) =~= needle@);
        return true;
    }
    let vl = v.len();
    let last = v.len() - p.len();
    let mut i: usize = 0;
    while i <= last
        invariant
            v@ == hay@,
            p@ == needle@,
            last + p@.len() == v@.len(),
            vl == v@.len(),
            p@.len() > 0,
            i <= last + 1,
            forall|k: int| 0 <= k < i ==> #[trigger] v@.subrange(k, k + p@.len()) != p@,
        decreases last + 1 - i,
    {
        if matches_at(&v, &p, i) {
            return true;
        }
        i = i + 1;
    }
    assert forall|k: int| 0 <= k && k + p@.len() <= v@.len() implies #[trigger] v@.subrange(k, k + p@.len()) != p@ by {
        assert(k < i);
    }
    false
}

/// One character as it stands inside a double-quoted JSON string: a backslash and
/// a double quote get a backslash before them.
pub open spec fn escape_char(c: char) -> Seq<char> {
    if c == '\\' {
        seq!['\\', '\\']
    } else if c == '"' {
        seq!['\\', '"']
    } else {
        seq![c]
    }
}

/// Every character of `s` escaped in turn.
pub open spec fn escape_quotes(s: Seq<char>) -> Seq<char>
    decreases s.len(),
{
    if s.len() == 0 {
        Seq::empty()
    } else {
        escape_quotes(s.drop_last()) + escape_char(s.last())
    }
}

/// `s` with each backslash doubled and each double quote preceded by a backslash.
pub fn escape_quotes_str(s: &str) -> (r: String)
    ensures
        r@ == escape_quotes(s@),
{
    let v = chars_of(s);
    let mut r = String::new();
    let mut i: usize = 0;
    while i < v.len()
        invariant
            v@ == s@,
            i <= v@.len(),
            r@ == escape_quotes(v@.take(i as int)),
        decreases v@.len() - i,
    {
        let c = v[i];
        if c == '\\' {
            push_char(&mut r, '\\');
            push_char(&mut r, '\\');
        } else if c == '"' {
            push_char(&mut r, '\\');
            push_char(&mut r, '"');
        } else {
            push_char(&mut r, c);
        }
        proof {
            let t = v@.take(i + 1);
            assert(t.drop_last() =~= v@.take(i as int));
            assert(t.last() == c);
        }
        i = i + 1;
    }
    assert(v@.take(v@.len() as int) =~= v@);
    r
}

/// The parts one after another, with `sep` between two neighbours.
pub open spec fn join_seq(parts: Seq<Seq<char>>, sep: Seq<char>) -> Seq<char>
    decreases parts.len(),
{
    if parts.len() == 0 {
        Seq::empty()
    } else if parts.len() == 1 {
        parts[0]
    } else {
        join_seq(parts.drop_last(), sep) + sep + parts.last()
    }
}

/// The views of a list of strings.
pub open spec fn views(v: Seq<String>) -> Seq<Seq<char>> {
    v.map_values(|s: String| s@)
}

/// `parts.join(sep)`.
pub fn join(parts: &Vec<String>, sep: &str) -> (r: String)
    ensures
        r@ == join_seq(views(parts@), sep@),
{
    let mut r = String::new();
    let mut i: usize = 0;
    while i < parts.len()
        invariant
            i <= parts@.len(),
            r@ == join_seq(views(parts@).take(i as int), sep@),
        decreases parts@.len() - i,
    {
        let ghost pre = views(parts@).take(i as int);
        if i > 0 {
            r.append(sep);
        }
        r.append(parts[i].as_str());
        proof {
            let nxt = views(parts@).take(i + 1);
            assert(nxt.drop_last() == pre);
            assert(nxt.last() == parts@[i as int]@);
            if i == 0 {
                assert(nxt.len() == 1);
            }
        }
        i = i + 1;
    }
    assert(views(parts@).take(parts@.len() as int) == views(parts@));
    r
}

/// Strict lexicographic order by character code.
pub open spec fn lex_lt(a: Seq<char>, b: Seq<char>) -> bool
    decreases a.len(),
{
    if a.len() == 0 {
        b.len() > 0
    } else if b.len() == 0 {
        false
    } else if a[0] != b[0] {
        a[0] < b[0]
    } else {
        lex_lt(a.drop_first(), b.drop_first())
    }
}

pub proof fn lemma_lex_irreflexive(a: Seq<char>)
    ensures
        !lex_lt(a, a),
    decreases a.len(),
{
    if a.len() > 0 {
        lemma_lex_irreflexive(a.drop_first());
    }
}

pub proof fn lemma_lex_total(a: Seq<char>, b: Seq<char>)
    ensures
        a != b ==> lex_lt(a, b) || lex_lt(b, a),
        !(lex_lt(a, b) && lex_lt(b, a)),
    decreases a.len(),
{
    if a.len() > 0 && b.len() > 0 {
        lemma_lex_total(a.drop_first(), b.drop_first());
        if a[0] == b[0] && a != b {
            assert(a =~= seq![a[0]] + a.drop_first());
            assert(b =~= seq![b[0]] + b.drop_first());
        }
    } else if a.len() == 0 && b.len() == 0 {
        assert(a =~= b);
    }
}

pub proof fn lemma_lex_transitive(a: Seq<char>, b: Seq<char>, c: Seq<char>)
    requires
        lex_lt(a, b),
        lex_lt(b, c),
    ensures
        lex_lt(a, c),
    decreases a.len(),
{
    if a.len() > 0 && b.len() > 0 && c.len() > 0 {
        if a[0] == b[0] && b[0] == c[0] {
            lemma_lex_transitive(a.drop_first(), b.drop_first(), c.drop_first());
        }
    }
}

/// Whether `a` sorts strictly before `b`.
pub fn str_lt(a: &str, b: &str) -> (r: bool)
    ensures
        r == lex_lt(a@, b@),
{
    let x = chars_of(a);
    let y = chars_of(b);
    let mut i: usize = 0;
    assert(x@.skip(0) == x@);
    assert(y@.skip(0) == y@);
    while i < x.len() && i < y.len()
        invariant
            x@ == a@,
            y@ == b@,
            i <= x@.len(),
            i <= y@.len(),
            x@.take(i as int) == y@.take(i as int),
            lex_lt(x@, y@) == lex_lt(x@.skip(i as int), y@.skip(i as int)),
        decreases x@.len() - i,
    {
        if x[i] != y[i] {
            proof {
                assert(x@.skip(i as int)[0] == x@[i as int]);
                assert(y@.skip(i as int)[0] == y@[i as int]);
                assert(lex_lt(x@.skip(i as int), y@.skip(i as int)) == (x@[i as int] < y@[i as int]));
            }
            return x[i] < y[i];
        }
        proof {
            assert(x@.skip(i as int).drop_first() == x@.skip(i + 1));
            assert(y@.skip(i as int).drop_first() == y@.skip(i + 1));
            assert(x@.take(i + 1) == x@.take(i as int).push(x@[i as int]));
            assert(y@.take(i + 1) == y@.take(i as int).push(y@[i as int]));
        }
        i = i + 1;
    }
    proof {
        assert(x@.skip(i as int).len() == 0 || y@.skip(i as int).len() == 0);
    }
    i < y.len()
}

} // verus!

verus! {

/// Appends a copy of every string of `src` to `dst`.
pub fn extend_cloned(dst: &mut Vec<String>, src: &Vec<String>)
    ensures
        views(final(dst)@) == views(old(dst)@) + views(src@),
{
    let ghost start = views(dst@);
    let mut i: usize = 0;
    while i < src.len()
        invariant
            i <= src@.len(),
            views(dst@) == start + views(src@).take(i as int),
        decreases src@.len() - i,
    {
        let ghost before = dst@;
        dst.push(src[i].clone());
        proof {
            assert(views(dst@) == views(before).push(src@[i as int]@));
            assert(views(src@).take(i + 1) == views(src@).take(i as int).push(src@[i as int]@));
        }
        i = i + 1;
    }
    assert(views(src@).take(src@.len() as int) == views(src@));
}

/// A copy of a list of strings.
pub fn clone_strings(src: &Vec<String>) -> (r: Vec<String>)
    ensures
        views(r@) == views(src@),
{
    let mut r: Vec<String> = Vec::new();
    extend_cloned(&mut r, src);
    assert(views(Seq::<String>::empty()) =~= Seq::<Seq<char>>::empty());
    assert(views(r@) =~= views(src@));
    r
}

} // verus!

verus! {

/// The decimal digit for `d < 10`.
pub open spec fn digit_of(d: nat) -> char {
    if d == 0 {
        '0'
    } else if d == 1 {
        '1'
    } else if d == 2 {
        '2'
    } else if d == 3 {
        '3'
    } else if d == 4 {
        '4'
    } else if d == 5 {
        '5'
    } else if d == 6 {
        '6'
    } else if d == 7 {
        '7'
    } else if d == 8 {
        '8'
    } else {
        '9'
    }
}

/// `n` written in decimal, without leading zeros.
pub open spec fn decimal(n: nat) -> Seq<char>
    decreases n,
{
    if n < 10 {
        seq![digit_of(n)]
    } else {
        decimal(n / 10).push(digit_of(n % 10))
    }
}

fn digit_char(d: u64) -> (c: char)
    requires
        d < 10,
    ensures
        c == digit_of(d as nat),
{
    if d == 0 {
        '0'
    } else if d == 1 {
        '1'
    } else if d == 2 {
        '2'
    } else if d == 3 {
        '3'
    } else if d == 4 {
        '4'
    } else if d == 5 {
        '5'
    } else if d == 6 {
        '6'
    } else if d == 7 {
        '7'
    } else if d == 8 {
        '8'
    } else {
        '9'
    }
}

/// `n` written in decimal (what `format!("{}", n)` writes).
pub fn decimal_string(n: u64) -> (r: String)
    ensures
        r@ == decimal(n as nat),
    decreases n,
{
    if n < 10 {
        let mut r = String::new();
        push_char(&mut r, digit_char(n));
        assert(r@ =~= seq![digit_of(n as nat)]);
        r
    } else {
        let mut r = decimal_string(n / 10);
        push_char(&mut r, digit_char(n % 10));
        r
    }
}

/// The pieces of `s` between occurrences of `c` (there is always at least one), as
/// `str::split` with a character pattern yields them.
pub open spec fn split_char(s: Seq<char>, c: char) -> Seq<Seq<char>>
    decreases s.len(),
{
    if s.len() == 0 {
        seq![Seq::<char>::empty()]
    } else {
        let r = split_char(s.drop_last(), c);
        if s.last() == c {
            r.push(Seq::<char>::empty())
        } else {
            r.update(r.len() - 1, r.last().push(s.last()))
        }
    }
}

pub proof fn lemma_split_char_nonempty(s: Seq<char>, c: char)
    ensures
        split_char(s, c).len() >= 1,
    decreases s.len(),
{
    if s.len() > 0 {
        lemma_split_char_nonempty(s.drop_last(), c);
    }
}

/// `s.split(c)`, collected.
pub fn split_on(s: &str, c: char) -> (r: Vec<String>)
    ensures
        views(r@) == split_char(s@, c),
        r@.len() >= 1,
{
    let v = chars_of(s);
    let mut r: Vec<String> = Vec::new();
    r.push(String::new());
    let mut i: usize = 0;
    assert(v@.take(0) =~= Seq::<char>::empty());
    assert(views(r@) =~= seq![Seq::<char>::empty()]);
    while i < v.len()
        invariant
            v@ == s@,
            i <= v@.len(),
            r@.len() >= 1,
            views(r@) == split_char(v@.take(i as int), c),
        decreases v@.len() - i,
    {
        let ghost before = views(r@);
        let ghost t = v@.take(i + 1);
        assert(t.drop_last() =~= v@.take(i as int));
        if v[i] == c {
            r.push(String::new());
            assert(views(r@) =~= before.push(Seq::<char>::empty()));
        } else {
            let last = r.len() - 1;
            let mut piece = r[last].clone();
            push_char(&mut piece, v[i]);
            r.set(last, piece);
            assert(views(r@) =~= before.update(before.len() - 1, before.last().push(v@[i as int])));
        }
        i = i + 1;
    }
    assert(v@.take(v@.len() as int) =~= v@);
    r
}

/// Whether `c` is white space in Unicode's sense (`char::is_whitespace`).
pub open spec fn is_white(c: char) -> bool {
    let u = c as u32;
    (0x09 <= u && u <= 0x0D) || u == 0x20 || u == 0x85 || u == 0xA0 || u == 0x1680 || (0x2000 <= u && u
        <= 0x200A) || u == 0x2028 || u == 0x2029 || u == 0x202F || u == 0x205F || u == 0x3000
}

/// `c.is_whitespace()`.
pub fn is_whitespace(c: char) -> (r: bool)
    ensures
        r == is_white(c),
{
    let u = c as u32;
    (0x09 <= u && u <= 0x0D) || u == 0x20 || u == 0x85 || u == 0xA0 || u == 0x1680 || (0x2000 <= u && u
        <= 0x200A) || u == 0x2028 || u == 0x2029 || u == 0x202F || u == 0x205F || u == 0x3000
}

/// `s` without its leading white space.
pub open spec fn trim_start_seq(s: Seq<char>) -> Seq<char>
    decreases s.len(),
{
    if s.len() > 0 && is_white(s[0]) {
        trim_start_seq(s.drop_first())
    } else {
        s
    }
}

/// `s` without its trailing white space.
pub open spec fn trim_end_seq(s: Seq<char>) -> Seq<char>
    decreases s.len(),
{
    if s.len() > 0 && is_white(s.last()) {
        trim_end_seq(s.drop_last())
    } else {
        s
    }
}

/// `s` without leading and trailing white space (`str::trim`).
pub open spec fn trim_seq(s: Seq<char>) -> Seq<char> {
    trim_end_seq(trim_start_seq(s))
}

proof fn lemma_trim_start_skip(s: Seq<char>, i: int)
    requires
        0 <= i <= s.len(),
        forall|k: int| 0 <= k < i ==> is_white(s[k]),
    ensures
        trim_start_seq(s) == trim_start_seq(s.skip(i)),
    decreases i,
{
    if i > 0 {
        assert(s.skip(1).skip(i - 1) =~= s.skip(i));
        lemma_trim_start_skip(s.drop_first(), i - 1);
    } else {
        assert(s.skip(0) =~= s);
    }
}

proof fn lemma_trim_end_take(s: Seq<char>, j: int)
    requires
        0 <= j <= s.len(),
        forall|k: int| j <= k < s.len() ==> is_white(s[k]),
    ensures
        trim_end_seq(s) == trim_end_seq(s.take(j)),
    decreases s.len() - j,
{
    if j < s.len() {
        assert(s.drop_last().take(j) =~= s.take(j));
        lemma_trim_end_take(s.drop_last(), j);
    } else {
        assert(s.take(j) =~= s);
    }
}

/// `s.trim()`, as a new string.
pub fn trim(s: &str) -> (r: String)
    ensures
        r@ == trim_seq(s@),
{
    let v = chars_of(s);
    let mut i: usize = 0;
    while i < v.len() && is_whitespace(v[i])
        invariant
            v@ == s@,
            i <= v@.len(),
            forall|k: int| 0 <= k < i ==> is_white(v@[k]),
        decreases v@.len() - i,
    {
        i = i + 1;
    }
    proof {
        lemma_trim_start_skip(v@, i as int);
    }
    let ghost rest = v@.skip(i as int);
    let mut j = v.len();
    while j > i && is_whitespace(v[j - 1])
        invariant
            v@ == s@,
            i <= j <= v@.len(),
            rest == v@.skip(i as int),
            forall|k: int| j <= k < v@.len() ==> is_white(v@[k]),
        decreases j,
    {
        j = j - 1;
    }
    proof {
        assert forall|k: int| j - i <= k < rest.len() implies is_white(rest[k]) by {
            assert(rest[k] == v@[k + i]);
        }
        lemma_trim_end_take(rest, j - i);
        assert(rest.take(j - i) =~= v@.subrange(i as int, j as int));
        if j > i {
            assert(!is_white(rest.take(j - i).last()));
        } else {
            assert(rest.take(j - i).len() == 0);
        }
        if i < v@.len() {
            assert(!is_white(rest[0]));
        }
    }
    string_of_range(&v, i, j)
}

} // verus!

verus! {

/// `t` before, between and after each character of `s`: what replacing the empty
/// pattern gives.
pub open spec fn interleave(s: Seq<char>, t: Seq<char>) -> Seq<char>
    decreases s.len(),
{
    if s.len() == 0 {
        t
    } else {
        t + seq![s[0]] + interleave(s.drop_first(), t)
    }
}

/// `s` with every occurrence of `p` replaced by `t`, scanning from the left and
/// without overlaps (`str::replace`).
pub open spec fn replace_seq(s: Seq<char>, p: Seq<char>, t: Seq<char>) -> Seq<char>
    decreases s.len(),
{
    if p.len() == 0 {
        interleave(s, t)
    } else if s.len() < p.len() {
        s
    } else if s.take(p.len() as int) == p {
        t + replace_seq(s.skip(p.len() as int), p, t)
    } else {
        seq![s[0]] + replace_seq(s.drop_first(), p, t)
    }
}

/// The number of occurrences of `p` in `s`, scanning from the left and without
/// overlaps (`str::matches(..).count()`).
pub open spec fn count_matches(s: Seq<char>, p: Seq<char>) -> nat
    decreases s.len(),
{
    if p.len() == 0 {
        s.len() + 1
    } else if s.len() < p.len() {
        0
    } else if s.take(p.len() as int) == p {
        1 + count_matches(s.skip(p.len() as int), p)
    } else {
        count_matches(s.drop_first(), p)
    }
}

proof fn lemma_replace_short(s: Seq<char>, p: Seq<char>, t: Seq<char>)
    requires
        p.len() > 0,
        0 < s.len() < p.len(),
    ensures
        replace_seq(s, p, t) == seq![s[0]] + replace_seq(s.drop_first(), p, t),
{
    assert(s =~= seq![s[0]] + s.drop_first());
}

/// `s.replace(p, t)`.
pub fn replace_str(s: &str, p: &str, t: &str) -> (r: String)
    ensures
        r@ == replace_seq(s@, p@, t@),
{
    let v = chars_of(s);
    let pv = chars_of(p);
    let mut r = String::new();
    let mut i: usize = 0;
    assert(v@.skip(0) =~= v@);
    assert(r@ =~= Seq::<char>::empty());
    if pv.len() == 0 {
        assert(r@ + interleave(v@.skip(0), t@) =~= interleave(v@, t@));
        while i < v.len()
            invariant
                v@ == s@,
                pv@ == p@,
                pv@.len() == 0,
                i <= v@.len(),
                r@ + interleave(v@.skip(i as int), t@) == interleave(v@, t@),
            decreases v@.len() - i,
        {
            proof {
                assert(v@.skip(i as int).drop_first() =~= v@.skip(i + 1));
                assert(v@.skip(i as int)[0] == v@[i as int]);
            }
            r.append(t);
            push_char(&mut r, v[i]);
            i = i + 1;
        }
        r.append(t);
        assert(v@.skip(i as int).len() == 0);
        return r;
    }
    let vl = v.len();
    assert(r@ + replace_seq(v@.skip(0), p@, t@) =~= replace_seq(v@, p@, t@));
    while i < v.len()
        invariant
            v@ == s@,
            pv@ == p@,
            pv@.len() > 0,
            vl == v@.len(),
            i <= v@.len(),
            r@ + replace_seq(v@.skip(i as int), p@, t@) == replace_seq(v@, p@, t@),
        decreases v@.len() - i,
    {
        let rest = Ghost(v@.skip(i as int));
        if pv.len() <= v.len() - i && matches_at(&v, &pv, i) {
            proof {
                assert(rest@.take(p@.len() as int) =~= v@.subrange(i as int, i + p@.len()));
                assert(rest@.skip(p@.len() as int) =~= v@.skip(i + p@.len()));
            }
            r.append(t);
            i = i + pv.len();
        } else {
            proof {
                if rest@.len() < p@.len() {
                    lemma_replace_short(rest@, p@, t@);
                } else {
                    assert(rest@.take(p@.len() as int) =~= v@.subrange(i as int, i + p@.len()));
                }
                assert(rest@.drop_first() =~= v@.skip(i + 1));
            }
            push_char(&mut r, v[i]);
            i = i + 1;
        }
    }
    assert(v@.skip(i as int).len() == 0);
    r
}

/// `s.matches(p).count()`, or `usize::MAX` if that is more (which only the empty
/// pattern in a string of `usize::MAX` characters could give).
pub fn count_str(s: &str, p: &str) -> (r: usize)
    ensures
        r as int == if count_matches(s@, p@) < usize::MAX { count_matches(s@, p@) as int } else { usize::MAX as int },
{
    let v = chars_of(s);
    let pv = chars_of(p);
    if pv.len() == 0 {
        if v.len() == usize::MAX {
            return usize::MAX;
        }
        return v.len() + 1;
    }
    assert(v@.skip(0) =~= v@);
    let vl = v.len();
    let mut n: usize = 0;
    let mut i: usize = 0;
    while i < v.len()
        invariant
            v@ == s@,
            pv@ == p@,
            pv@.len() > 0,
            vl == v@.len(),
            i <= v@.len(),
            n <= i,
            n + count_matches(v@.skip(i as int), p@) == count_matches(v@, p@),
        decreases v@.len() - i,
    {
        let rest = Ghost(v@.skip(i as int));
        if pv.len() <= v.len() - i && matches_at(&v, &pv, i) {
            proof {
                assert(rest@.take(p@.len() as int) =~= v@.subrange(i as int, i + p@.len()));
                assert(rest@.skip(p@.len() as int) =~= v@.skip(i + p@.len()));
            }
            n = n + 1;
            i = i + pv.len();
        } else {
            proof {
                if rest@.len() >= p@.len() {
                    assert(rest@.take(p@.len() as int) =~= v@.subrange(i as int, i + p@.len()));
                }
                assert(rest@.drop_first() =~= v@.skip(i + 1));
            }
            i = i + 1;
        }
    }
    assert(v@.skip(i as int).len() == 0);
    n
}

/// Whether `p` occurs in `s` at position `i`.
pub open spec fn occurs_at(s: Seq<char>, p: Seq<char>, i: int) -> bool {
    0 <= i && i + p.len() <= s.len() && s.subrange(i, i + p.len()) == p
}

/// The first position at which `p` occurs in `s`.
pub open spec fn is_first_occurrence(s: Seq<char>, p: Seq<char>, i: int) -> bool {
    occurs_at(s, p, i) && forall|j: int| 0 <= j < i ==> !#[trigger] occurs_at(s, p, j)
}

/// `s.find(p)`, as a position in characters.
pub fn find_str(s: &str, p: &str) -> (r: Option<usize>)
    ensures
        match r {
            Some(i) => is_first_occurrence(s@, p@, i as int),
            None => forall|j: int| !#[trigger] occurs_at(s@, p@, j),
        },
{
    let v = chars_of(s);
    let pv = chars_of(p);
    if pv.len() > v.len() {
        return None;
    }
    let last = v.len() - pv.len();
    let mut i: usize = 0;
    while i <= last
        invariant
            v@ == s@,
            pv@ == p@,
            last + p@.len() == v@.len(),
            i <= last + 1,
            forall|j: int| 0 <= j < i ==> !#[trigger] occurs_at(s@, p@, j),
        decreases last + 1 - i,
    {
        if matches_at(&v, &pv, i) {
            return Some(i);
        }
        if i == last {
            return None;
        }
        i = i + 1;
    }
    None
}

/// How many bytes UTF-8 takes for `c` (`char::len_utf8`).
pub open spec fn utf8_width(c: char) -> nat {
    if (c as u32) < 0x80 {
        1
    } else if (c as u32) < 0x800 {
        2
    } else if (c as u32) < 0x10000 {
        3
    } else {
        4
    }
}

/// How many bytes UTF-8 takes for `s` (`str::len`).
pub open spec fn utf8_len(s: Seq<char>) -> nat
    decreases s.len(),
{
    if s.len() == 0 {
        0
    } else {
        utf8_len(s.drop_last()) + utf8_width(s.last())
    }
}

pub proof fn lemma_utf8_len_append(a: Seq<char>, b: Seq<char>)
    ensures
        utf8_len(a + b) == utf8_len(a) + utf8_len(b),
    decreases b.len(),
{
    if b.len() > 0 {
        lemma_utf8_len_append(a, b.drop_last());
        assert((a + b).drop_last() =~= a + b.drop_last());
    } else {
        assert(a + b =~= a);
    }
}

/// The byte length of `s` in UTF-8, or `cap` if that is smaller.
pub fn utf8_len_capped(s: &str, cap: usize) -> (r: usize)
    ensures
        r as int == if utf8_len(s@) < cap { utf8_len(s@) as int } else { cap as int },
{
    let v = chars_of(s);
    let mut n: usize = 0;
    let mut i: usize = 0;
    while i < v.len()
        invariant
            v@ == s@,
            i <= v@.len(),
            n <= cap,
            n < cap ==> n == utf8_len(v@.take(i as int)),
            n == cap ==> utf8_len(v@.take(i as int)) >= cap,
        decreases v@.len() - i,
    {
        let u = v[i] as u32;
        let w: usize = if u < 0x80 {
            1
        } else if u < 0x800 {
            2
        } else if u < 0x10000 {
            3
        } else {
            4
        };
        proof {
            assert(v@.take(i + 1).drop_last() =~= v@.take(i as int));
            assert(w == utf8_width(v@[i as int]));
        }
        if n < cap {
            if w >= cap - n {
                n = cap;
            } else {
                n = n + w;
            }
        }
        i = i + 1;
    }
    assert(v@.take(v@.len() as int) =~= v@);
    n
}

} // verus!

verus! {

/// `n` written in decimal, with a leading `-` when negative.
pub open spec fn signed_decimal(n: int) -> Seq<char> {
    if n < 0 {
        seq!['-'] + decimal((-n) as nat)
    } else {
        decimal(n as nat)
    }
}

/// `n` written in decimal, with a leading `-` when negative.
pub fn signed_decimal_string(n: i64) -> (r: String)
    ensures
        r@ == signed_decimal(n as int),
{
    if n < 0 {
        let m: u64 = if n == i64::MIN { 9223372036854775808u64 } else { (-n) as u64 };
        let mut r = String::new();
        push_char(&mut r, '-');
        let d = decimal_string(m);
        r.append(d.as_str());
        assert(r@ =~= seq!['-'] + decimal((-(n as int)) as nat));
        r
    } else {
        decimal_string(n as u64)
    }
}

} // verus!

verus! {

/// `10` to the power `k`.
pub open spec fn pow10(k: nat) -> nat
    decreases k,
{
    if k == 0 {
        1
    } else {
        10 * pow10((k - 1) as nat)
    }
}

proof fn lemma_decimal_len_bound(n: nat, k: nat)
    requires
        k >= 1,
        n < pow10(k),
    ensures
        decimal(n).len() <= k,
    decreases k,
{
    if n >= 10 {
        if k == 1 {
            assert(pow10(1) == 10) by {
                assert(pow10(0) == 1);
            }
        } else {
            let p = pow10((k - 1) as nat);
            assert(n / 10 < p) by (nonlinear_arith)
                requires
                    n < 10 * p,
            ;
            lemma_decimal_len_bound(n / 10, (k - 1) as nat);
        }
    }
}

/// A 32-bit number has at most ten decimal digits.
pub proof fn lemma_decimal_len_u32(n: u32)
    ensures
        decimal(n as nat).len() <= 10,
{
    assert(pow10(10) == 10000000000) by {
        reveal_with_fuel(pow10, 11);
    }
    lemma_decimal_len_bound(n as nat, 10);
}

} // verus!
